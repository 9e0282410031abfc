//! Trusted bindings to the clap argument parser.
//!
//! The dispatcher builds its command surface with clap and parses the raw
//! process arguments with it. clap's builder types are opaque here: the
//! verified code constructs them through the small functions below, hands the
//! raw arguments to the parser, and works on the plain values it gets back.

use vstd::prelude::*;
use crate::addon::ArgSpec;

verus! {

#[verifier::external_type_specification]
#[verifier::external_body]
pub struct ExCommand(clap::Command);

#[verifier::external_type_specification]
#[verifier::external_body]
pub struct ExArg(clap::Arg);

#[verifier::external_type_specification]
#[verifier::external_body]
pub struct ExArgMatches(clap::ArgMatches);

/// A failed parse of the raw arguments, as reported by clap. `use_stderr`
/// is false when the report is a requested display such as `--help` or
/// `--version`, which exits successfully by convention.
pub struct ParseFailure {
    pub message: String,
    pub use_stderr: bool,
}

/// Relies on clap's `Command::new`: a fresh command with the given name.
#[verifier::external_body]
pub(crate) fn new_command(name: &str) -> clap::Command {
    clap::Command::new(name.to_owned())
}

/// Relies on clap's `Command` `Clone` impl: an equivalent command.
#[verifier::external_body]
pub(crate) fn clone_command(cmd: &clap::Command) -> clap::Command {
    cmd.clone()
}

/// Relies on clap's `Command::version`: sets the version shown by
/// `--version`.
#[verifier::external_body]
pub(crate) fn command_version(cmd: clap::Command, version: &str) -> clap::Command {
    cmd.version(version.to_owned())
}

/// Relies on clap's `Command::about`: sets the description shown in help.
#[verifier::external_body]
pub(crate) fn command_about(cmd: clap::Command, about: &str) -> clap::Command {
    cmd.about(about.to_owned())
}

/// Relies on clap's `Command::after_help`: sets the text shown after the
/// generated help.
#[verifier::external_body]
pub(crate) fn command_after_help(cmd: clap::Command, text: &str) -> clap::Command {
    cmd.after_help(text.to_owned())
}

/// Relies on clap's `Command::help_template`: sets the layout of the
/// generated help.
#[verifier::external_body]
pub(crate) fn command_help_template(cmd: clap::Command, template: &str) -> clap::Command {
    cmd.help_template(template.to_owned())
}

/// Relies on clap's `Command::arg`: adds one argument to the command.
#[verifier::external_body]
pub(crate) fn command_arg(cmd: clap::Command, arg: clap::Arg) -> clap::Command {
    cmd.arg(arg)
}

/// Relies on clap's `Command::subcommand`: adds one subcommand.
#[verifier::external_body]
pub(crate) fn command_subcommand(cmd: clap::Command, sub: clap::Command) -> clap::Command {
    cmd.subcommand(sub)
}

/// Relies on clap's `Command::render_help`: the rendered top-level help.
#[verifier::external_body]
pub(crate) fn render_help(cmd: &mut clap::Command) -> String {
    cmd.render_help().to_string()
}

/// Relies on clap's `Command::try_get_matches_from`: parses the raw
/// process arguments (the first item is the program name) against the
/// assembled surface. On failure the clap error is converted in place to a
/// plain `ParseFailure`, through clap `Error`'s `Display` impl and
/// `Error::use_stderr`; clap's `Error` type itself cannot be carried here,
/// as its formatter parameter is bound by a clap trait.
#[verifier::external_body]
pub(crate) fn try_parse_args(cmd: clap::Command, raw: Vec<String>) -> Result<
    clap::ArgMatches,
    ParseFailure,
> {
    cmd.try_get_matches_from(raw).map_err(|e| ParseFailure {
        message: e.to_string(),
        use_stderr: e.use_stderr(),
    })
}

/// Relies on clap's `ArgMatches::remove_subcommand`: the invoked subcommand
/// token and its own matches, if a subcommand was given.
#[verifier::external_body]
pub(crate) fn remove_subcommand(matches: &mut clap::ArgMatches) -> Option<(
    String,
    clap::ArgMatches,
)> {
    matches.remove_subcommand()
}

/// Relies on clap's `ArgMatches::try_get_one::<bool>`: the value of a boolean
/// flag, or `None` when the flag is unknown, of another type, or absent.
#[verifier::external_body]
pub(crate) fn get_flag(matches: &clap::ArgMatches, id: &str) -> Option<bool> {
    matches.try_get_one::<bool>(id).ok().flatten().copied()
}

/// Relies on clap's `ArgMatches::try_get_one::<String>`: the value of a
/// string argument, or `None` when it is unknown, of another type, or absent.
#[verifier::external_body]
pub(crate) fn get_string(matches: &clap::ArgMatches, id: &str) -> Option<String> {
    matches.try_get_one::<String>(id).ok().flatten().cloned()
}

/// Relies on clap's `Arg::new`, `Arg::help`, `Arg::required`: a positional
/// argument.
#[verifier::external_body]
fn new_positional(id: &str, help: &str, required: bool) -> clap::Arg {
    clap::Arg::new(id.to_owned()).help(help.to_owned()).required(required)
}

/// Relies on clap's `Arg` builder: a named argument that takes one value.
/// `Arg::short` itself refuses the dash as a short name, so that input is
/// excluded here.
#[verifier::external_body]
fn new_valued(id: &str, short: Option<char>, help: &str) -> clap::Arg
    requires
        short != Some('-'),
{
    clap::Arg::new(id.to_owned()).long(id.to_owned()).short(short).help(
        help.to_owned(),
    ).action(clap::ArgAction::Set)
}

/// Relies on clap's `Arg` builder: a boolean flag. `Arg::short` itself
/// refuses the dash as a short name, so that input is excluded here.
#[verifier::external_body]
fn new_switch(id: &str, short: Option<char>, help: &str) -> clap::Arg
    requires
        short != Some('-'),
{
    clap::Arg::new(id.to_owned()).long(id.to_owned()).short(short).help(
        help.to_owned(),
    ).action(clap::ArgAction::SetTrue)
}

/// Turn one declared argument into a clap argument.
pub(crate) fn arg_of_spec(spec: &ArgSpec) -> clap::Arg
    requires
        crate::addon::arg_spec_ok(spec@),
{
    match spec {
        ArgSpec::Positional { id, help, required } => new_positional(
            id.as_str(),
            help.as_str(),
            *required,
        ),
        ArgSpec::Valued { id, short, help } => new_valued(id.as_str(), *short, help.as_str()),
        ArgSpec::Switch { id, short, help } => new_switch(id.as_str(), *short, help.as_str()),
    }
}

} // verus!
