//! The contract every subcommand ("addon") implements.
//!
//! An addon declares its identity (the subcommand token), a version, an
//! optional description and the extra arguments of its own subcommand, and
//! provides the execution entry point. The entry point receives the mutable
//! project configuration and the parsed arguments of its invocation, decides,
//! and returns the side effects to perform — creating directories, writing
//! files, running programs — or an error. Performing the effects is the
//! caller's business; the addon's own logic is thereby fully checkable.

use vstd::prelude::*;
use crate::config::{Config, ConfigView};

verus! {

/// A declarative argument of one subcommand.
pub enum ArgSpec {
    /// A positional argument, identified by `id`.
    Positional { id: String, help: String, required: bool },
    /// A named argument that takes one value: `--id <value>`.
    Valued { id: String, short: Option<char>, help: String },
    /// A boolean flag: `--id`.
    Switch { id: String, short: Option<char>, help: String },
}

/// An addon failure, carried upward to the dispatcher with a
/// human-readable message.
pub struct AddonError {
    pub message: String,
}

/// What the process environment looks like to an addon: the facts an addon
/// consults before deciding. The caller probes the file system and fills
/// this in.
#[derive(Clone, Copy)]
pub struct EnvProbe {
    /// Whether the manifest file exists in the project root.
    pub manifest_exists: bool,
    /// Whether the main source file `src/main.cpp` exists.
    pub main_source_exists: bool,
    /// Whether the compile output directory exists.
    pub output_dir_exists: bool,
    /// Whether the project's compiled binary exists.
    pub binary_exists: bool,
}

/// One side effect an addon asks its caller to perform, in order.
pub enum Effect {
    /// Create a directory and its missing parents.
    CreateDirAll { path: String },
    /// Create one directory.
    CreateDir { path: String },
    /// Write a file with the given contents.
    WriteFile { path: String, contents: String },
    /// Invoke the compiler on one source file, placing the binary at `output`.
    Compile { compiler: String, source: String, output: String },
    /// Run the compiled binary.
    RunBinary { path: String },
    /// Emit an info line through the logger.
    LogInfo { message: String },
    /// Emit a success line through the logger.
    LogSuccess { message: String },
}

/// The mathematical value of an `ArgSpec`.
#[verifier::ext_equal]
pub ghost enum ArgSpecView {
    Positional { id: Seq<char>, help: Seq<char>, required: bool },
    Valued { id: Seq<char>, short: Option<char>, help: Seq<char> },
    Switch { id: Seq<char>, short: Option<char>, help: Seq<char> },
}

impl View for ArgSpec {
    type V = ArgSpecView;

    open spec fn view(&self) -> ArgSpecView {
        match self {
            ArgSpec::Positional { id, help, required } => ArgSpecView::Positional {
                id: id@,
                help: help@,
                required: *required,
            },
            ArgSpec::Valued { id, short, help } => ArgSpecView::Valued {
                id: id@,
                short: *short,
                help: help@,
            },
            ArgSpec::Switch { id, short, help } => ArgSpecView::Switch {
                id: id@,
                short: *short,
                help: help@,
            },
        }
    }
}

/// The views of a list of argument declarations.
pub open spec fn arg_specs_view(s: Seq<ArgSpec>) -> Seq<ArgSpecView> {
    s.map_values(|a: ArgSpec| a@)
}

/// The identifier of a declared argument.
pub open spec fn arg_spec_id(a: ArgSpecView) -> Seq<char> {
    match a {
        ArgSpecView::Positional { id, .. } => id,
        ArgSpecView::Valued { id, .. } => id,
        ArgSpecView::Switch { id, .. } => id,
    }
}

/// The short flag of a declared argument, if any.
pub open spec fn arg_spec_short(a: ArgSpecView) -> Option<char> {
    match a {
        ArgSpecView::Positional { .. } => None,
        ArgSpecView::Valued { short, .. } => short,
        ArgSpecView::Switch { short, .. } => short,
    }
}

/// One declared argument that the parser's surface can take: the identifier
/// is non-empty, does not start with a dash, and does not collide with the
/// implicit help and version arguments; neither does the short flag, and a
/// short flag is never the dash itself.
pub open spec fn arg_spec_ok(a: ArgSpecView) -> bool {
    &&& arg_spec_id(a).len() > 0
    &&& arg_spec_id(a)[0] != '-'
    &&& arg_spec_id(a) != "help"@
    &&& arg_spec_id(a) != "version"@
    &&& match arg_spec_short(a) {
        Some(c) => c != '-' && c != 'h' && c != 'V',
        None => true,
    }
}

/// A declared argument list the parser's surface can take: every entry is
/// acceptable on its own, and identifiers and short flags are pairwise
/// distinct.
pub open spec fn arg_list_wf(s: Seq<ArgSpecView>) -> bool {
    &&& forall|i: int| 0 <= i < s.len() ==> arg_spec_ok(#[trigger] s[i])
    &&& forall|i: int, j: int|
        0 <= i < j < s.len() ==> arg_spec_id(s[i]) != arg_spec_id(s[j])
    &&& forall|i: int, j: int|
        0 <= i < j < s.len() ==> (arg_spec_short(s[i]) is Some ==> arg_spec_short(s[i])
            != arg_spec_short(s[j]))
}

/// The mathematical value of an `Effect`.
#[verifier::ext_equal]
pub ghost enum EffectView {
    CreateDirAll { path: Seq<char> },
    CreateDir { path: Seq<char> },
    WriteFile { path: Seq<char>, contents: Seq<char> },
    Compile { compiler: Seq<char>, source: Seq<char>, output: Seq<char> },
    RunBinary { path: Seq<char> },
    LogInfo { message: Seq<char> },
    LogSuccess { message: Seq<char> },
}

impl View for Effect {
    type V = EffectView;

    open spec fn view(&self) -> EffectView {
        match self {
            Effect::CreateDirAll { path } => EffectView::CreateDirAll { path: path@ },
            Effect::CreateDir { path } => EffectView::CreateDir { path: path@ },
            Effect::WriteFile { path, contents } => EffectView::WriteFile {
                path: path@,
                contents: contents@,
            },
            Effect::Compile { compiler, source, output } => EffectView::Compile {
                compiler: compiler@,
                source: source@,
                output: output@,
            },
            Effect::RunBinary { path } => EffectView::RunBinary { path: path@ },
            Effect::LogInfo { message } => EffectView::LogInfo { message: message@ },
            Effect::LogSuccess { message } => EffectView::LogSuccess { message: message@ },
        }
    }
}

/// The views of a list of effects.
pub open spec fn effects_view(s: Seq<Effect>) -> Seq<EffectView> {
    s.map_values(|e: Effect| e@)
}

/// What an addon run returns: the effects to perform, or an error.
pub type AddonResult = Result<Vec<Effect>, AddonError>;

/// The interface of a Coppo addon, the dispatcher's view of one subcommand.
pub trait Addon: Sized {
    /// The subcommand token, as a mathematical value. `name` returns exactly
    /// this; routing proofs are stated over it.
    spec fn spec_name(&self) -> Seq<char>;

    /// The version string, as a mathematical value.
    spec fn spec_version(&self) -> Seq<char>;

    /// The description, as a mathematical value.
    spec fn spec_description(&self) -> Option<Seq<char>>;

    /// The declared arguments, as mathematical values.
    spec fn spec_args(&self) -> Seq<ArgSpecView>;

    /// What one run of this addon promises: how the configuration after the
    /// run and the run's result relate to the configuration before it and to
    /// the probed environment.
    spec fn run_ens(
        &self,
        env: EnvProbe,
        cfg_old: ConfigView,
        cfg_new: ConfigView,
        r: Result<Vec<Effect>, AddonError>,
    ) -> bool;

    /// The name of the addon: the literal subcommand token users type.
    fn name(&self) -> (r: &'static str)
        ensures
            r@ == self.spec_name(),
    ;

    /// The version of the addon.
    fn version(&self) -> (r: &'static str)
        ensures
            r@ == self.spec_version(),
    ;

    /// The description of the addon, shown in help text.
    fn description(&self) -> (r: Option<&'static str>)
        ensures
            match r {
                Some(d) => self.spec_description() == Some(d@),
                None => self.spec_description() is None,
            },
    ;

    /// The extra arguments of the addon's subcommand. The declared list must
    /// be one the command surface can take.
    fn args(&self) -> (r: Vec<ArgSpec>)
        ensures
            arg_specs_view(r@) == self.spec_args(),
            arg_list_wf(arg_specs_view(r@)),
    ;

    /// The entry point of the addon. Reads and may mutate the configuration,
    /// reads the parsed arguments of its own subcommand and the probed
    /// environment, and returns the effects to perform, or an error.
    fn run(&self, config: &mut Config, matches: &clap::ArgMatches, env: &EnvProbe) -> (r:
        AddonResult)
        ensures
            self.run_ens(*env, old(config)@, final(config)@, r),
    ;
}

} // verus!
