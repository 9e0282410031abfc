//! The Coppo command dispatcher.
//!
//! A `CoppoCli` owns an ordered collection of addons. It assembles the
//! top-level command surface — the global flags plus one subcommand per
//! addon — parses one invocation against it, resolves the invoked subcommand
//! token to the first registered addon of that name, and invokes it with the
//! loaded configuration. Registration order decides name collisions: the
//! first registered addon wins, later duplicates are unreachable.

use vstd::prelude::*;
use vstd::string::StringExecFns;
use crate::addon::{
    Addon,
    AddonError,
    ArgSpec,
    Effect,
    EnvProbe,
    arg_list_wf,
    arg_spec_id,
    arg_spec_ok,
    arg_specs_view,
};
use crate::cli_args;
use crate::config::{Config, spec_load_or_default};
use crate::logger::{GlobalLogger, Logger, init_logger, no_escape, occurs_in};

verus! {

/// The descriptor of one subcommand, synthesized from one addon.
pub struct SubcommandDescriptor {
    /// The subcommand token: the addon's name.
    pub token: String,
    /// The addon's version.
    pub version: String,
    /// The addon's description, or empty when it has none.
    pub about: String,
    /// The extra arguments of the subcommand.
    pub args: Vec<ArgSpec>,
}

/// The descriptor `d` is the one synthesized from the addon `a`.
pub open spec fn descriptor_of<A: Addon>(d: SubcommandDescriptor, a: A) -> bool {
    &&& d.token@ == a.spec_name()
    &&& d.version@ == a.spec_version()
    &&& d.about@ == match a.spec_description() {
        Some(about) => about,
        None => Seq::<char>::empty(),
    }
    &&& arg_specs_view(d.args@) == a.spec_args()
    &&& arg_list_wf(arg_specs_view(d.args@))
}

/// The names of the addons, in registration order.
pub open spec fn names_of<A: Addon>(addons: Seq<A>) -> Seq<Seq<char>> {
    Seq::new(addons.len(), |i: int| addons[i].spec_name())
}

/// Position `i` holds the first name equal to `token`.
pub open spec fn first_match(names: Seq<Seq<char>>, token: Seq<char>, i: int) -> bool {
    &&& 0 <= i < names.len()
    &&& names[i] == token
    &&& forall|j: int| 0 <= j < i ==> names[j] != token
}

/// The addon at `i` is unreachable through the command surface: its name is
/// the reserved help token, or an earlier addon already carries it.
pub open spec fn shadowed(names: Seq<Seq<char>>, i: int) -> bool {
    names[i] == "help"@ || exists|j: int| 0 <= j < i && names[j] == names[i]
}

/// How many of the first `k` addons are shadowed.
pub open spec fn shadowed_count(names: Seq<Seq<char>>, k: int) -> nat
    decreases k,
{
    if k <= 0 {
        0
    } else {
        shadowed_count(names, k - 1) + if shadowed(names, k - 1) {
            1nat
        } else {
            0nat
        }
    }
}

/// Whether one of the first `k` descriptors carries the token.
fn token_in_prefix(surface: &Vec<SubcommandDescriptor>, k: usize, token: &str) -> (r: bool)
    requires
        k <= surface@.len(),
    ensures
        r == exists|j: int| 0 <= j < k && (#[trigger] surface@[j]).token@ == token@,
{
    let mut i: usize = 0;
    while i < k
        invariant
            i <= k <= surface@.len(),
            forall|j: int| 0 <= j < i ==> (#[trigger] surface@[j]).token@ != token@,
        decreases k - i,
    {
        if str_eq(surface[i].token.as_str(), token) {
            return true;
        }
        i += 1;
    }
    false
}

/// Exact string comparison.
fn str_eq(a: &str, b: &str) -> (r: bool)
    ensures
        r == (a@ == b@),
{
    let owned_a = a.to_owned();
    let owned_b = b.to_owned();
    owned_a == owned_b
}

/// How one dispatched invocation ended.
pub enum DispatchOutcome {
    /// No subcommand token was given; nothing was invoked.
    NoSubcommand,
    /// The addon at `index` ran and succeeded.
    Ran { index: usize },
    /// The addon at `index` ran and failed.
    Failed { index: usize, error: AddonError },
    /// No registered addon carries the token. With a surface built from the
    /// same registry this cannot happen; it is an internal fault, not a user
    /// error.
    UnknownSubcommand { token: String },
}

/// What one dispatched invocation produced.
pub struct DispatchReport {
    pub outcome: DispatchOutcome,
    /// The side effects the invoked addon asks for, in order.
    pub effects: Vec<Effect>,
    /// The painted error line to print on standard error. Present exactly
    /// when the invocation failed: errors are never suppressed.
    pub error_line: Option<String>,
}

/// The dispatcher: an ordered collection of addons behind one command.
pub struct CoppoCli<A: Addon> {
    addons: Vec<A>,
    command: clap::Command,
}

impl<A: Addon> CoppoCli<A> {
    /// The registered addons, in registration order.
    pub closed spec fn spec_addons(&self) -> Seq<A> {
        self.addons@
    }

    /// Create a new dispatcher around the given top-level command.
    pub fn new(command: clap::Command) -> (r: Self)
        ensures
            r.spec_addons() =~= Seq::<A>::empty(),
    {
        CoppoCli { addons: Vec::new(), command }
    }

    /// Register one addon, appending it to the collection. A later addon
    /// with an already registered name is unreachable: the first registered
    /// one wins dispatch.
    pub fn add_addon(&mut self, addon: A)
        ensures
            final(self).spec_addons() == old(self).spec_addons().push(addon),
    {
        self.addons.push(addon);
    }

    /// Register several addons, appending them in order.
    pub fn add_addons(&mut self, addons: Vec<A>)
        ensures
            final(self).spec_addons() == old(self).spec_addons() + addons@,
    {
        let mut rest = addons;
        self.addons.append(&mut rest);
    }

    /// One subcommand descriptor per registered addon, in registration
    /// order: the token is the addon's name, the version its version, the
    /// about line its description or empty.
    pub fn build_command_surface(&self) -> (r: Vec<SubcommandDescriptor>)
        ensures
            r@.len() == self.spec_addons().len(),
            forall|i: int|
                0 <= i < r@.len() ==> descriptor_of(#[trigger] r@[i], self.spec_addons()[i]),
    {
        let mut surface: Vec<SubcommandDescriptor> = Vec::new();
        let n = self.addons.len();
        let mut k: usize = 0;
        while k < n
            invariant
                k <= n,
                n == self.spec_addons().len(),
                surface@.len() == k,
                forall|i: int|
                    0 <= i < k ==> descriptor_of(#[trigger] surface@[i], self.spec_addons()[i]),
            decreases n - k,
        {
            let addon = &self.addons[k];
            let about: String = match addon.description() {
                Some(d) => d.to_owned(),
                None => String::new(),
            };
            let descriptor = SubcommandDescriptor {
                token: addon.name().to_owned(),
                version: addon.version().to_owned(),
                about,
                args: addon.args(),
            };
            surface.push(descriptor);
            k += 1;
        }
        surface
    }

    /// The index of the first registered addon whose name equals the token,
    /// if any: a linear scan in registration order.
    pub fn resolve(&self, token: &str) -> (r: Option<usize>)
        ensures
            match r {
                Some(i) => first_match(names_of(self.spec_addons()), token@, i as int),
                None => forall|j: int|
                    0 <= j < self.spec_addons().len()
                        ==> names_of(self.spec_addons())[j] != token@,
            },
    {
        let n = self.addons.len();
        let mut k: usize = 0;
        while k < n
            invariant
                k <= n,
                n == self.spec_addons().len(),
                forall|j: int| 0 <= j < k ==> names_of(self.spec_addons())[j] != token@,
            decreases n - k,
        {
            if str_eq(token, self.addons[k].name()) {
                return Some(k);
            }
            k += 1;
        }
        None
    }

    /// Route one parsed invocation: resolve the subcommand token, invoke the
    /// matching addon with the configuration, and surface its failure if it
    /// fails. With no subcommand nothing is invoked and the configuration is
    /// untouched.
    pub fn dispatch(
        &self,
        subcommand: Option<(String, clap::ArgMatches)>,
        config: &mut Config,
        env: &EnvProbe,
        logger: &Logger,
    ) -> (r: DispatchReport)
        ensures
            match r.outcome {
                DispatchOutcome::NoSubcommand => {
                    &&& subcommand is None
                    &&& final(config)@ == old(config)@
                    &&& r.effects@.len() == 0
                    &&& r.error_line is None
                },
                DispatchOutcome::Ran { index } => {
                    &&& subcommand matches Some((token, _))
                        && first_match(names_of(self.spec_addons()), token@, index as int)
                    &&& self.spec_addons()[index as int].run_ens(
                        *env,
                        old(config)@,
                        final(config)@,
                        Ok(r.effects),
                    )
                    &&& r.error_line is None
                },
                DispatchOutcome::Failed { index, error } => {
                    &&& subcommand matches Some((token, _))
                        && first_match(names_of(self.spec_addons()), token@, index as int)
                    &&& self.spec_addons()[index as int].run_ens(
                        *env,
                        old(config)@,
                        final(config)@,
                        Err(error),
                    )
                    &&& r.effects@.len() == 0
                    &&& r.error_line matches Some(line) && (no_escape(error.message@)
                        ==> occurs_in(line@, error.message@))
                },
                DispatchOutcome::UnknownSubcommand { token } => {
                    &&& subcommand matches Some((t, _)) && t == token
                    &&& forall|j: int|
                        0 <= j < self.spec_addons().len()
                            ==> names_of(self.spec_addons())[j] != token@
                    &&& final(config)@ == old(config)@
                    &&& r.effects@.len() == 0
                    &&& r.error_line is Some
                },
            },
    {
        match subcommand {
            None => DispatchReport {
                outcome: DispatchOutcome::NoSubcommand,
                effects: Vec::new(),
                error_line: None,
            },
            Some((token, matches)) => {
                match self.resolve(token.as_str()) {
                    Some(index) => {
                        let addon = &self.addons[index];
                        match addon.run(config, &matches, env) {
                            Ok(effects) => DispatchReport {
                                outcome: DispatchOutcome::Ran { index },
                                effects,
                                error_line: None,
                            },
                            Err(error) => {
                                let line = logger.error(error.message.as_str());
                                DispatchReport {
                                    outcome: DispatchOutcome::Failed { index, error },
                                    effects: Vec::new(),
                                    error_line: Some(line),
                                }
                            },
                        }
                    },
                    None => {
                        let mut message = String::new();
                        message.append("no registered addon matches the subcommand `");
                        message.append(token.as_str());
                        message.append("`");
                        let line = logger.error(message.as_str());
                        DispatchReport {
                            outcome: DispatchOutcome::UnknownSubcommand { token },
                            effects: Vec::new(),
                            error_line: Some(line),
                        }
                    },
                }
            },
        }
    }
}

/// With pairwise distinct addon names, the token equal to the name of the
/// addon at `k` resolves to that addon and to no other.
pub proof fn lemma_unique_names_route_to_owner(names: Seq<Seq<char>>, k: int)
    requires
        0 <= k < names.len(),
        forall|i: int, j: int| 0 <= i < j < names.len() ==> names[i] != names[j],
    ensures
        first_match(names, names[k], k),
        forall|i: int| first_match(names, names[k], i) ==> i == k,
{
    assert forall|i: int| first_match(names, names[k], i) implies i == k by {
        if i < k {
            assert(names[i] != names[k]);
        } else if k < i {
            assert(names[k] != names[i]);
        }
    }
}

/// A first match is unique: dispatch invokes at most one addon.
pub proof fn lemma_first_match_unique(names: Seq<Seq<char>>, token: Seq<char>, i: int, j: int)
    requires
        first_match(names, token, i),
        first_match(names, token, j),
    ensures
        i == j,
{
}

/// When two addons share a name, the later registered one is shadowed: its
/// token never resolves to it, so the first registered one is invoked.
pub proof fn lemma_duplicate_is_shadowed(names: Seq<Seq<char>>, i: int, j: int)
    requires
        0 <= i < j < names.len(),
        names[i] == names[j],
    ensures
        !first_match(names, names[j], j),
        forall|m: int| first_match(names, names[j], m) ==> m <= i,
{
    assert forall|m: int| first_match(names, names[j], m) implies m <= i by {
        if i < m {
            assert(names[i] == names[j]);
        }
    }
}


/// How one full run of the dispatcher ended.
pub enum RunOutcome {
    /// No subcommand was given: the top-level help, and a successful exit.
    Help { text: String },
    /// The raw arguments did not parse against the surface (this also covers
    /// the help and version displays, which clap reports the same way).
    ParseFailed { failure: cli_args::ParseFailure },
    /// A subcommand was given and routed.
    Dispatched { outcome: DispatchOutcome },
}

/// What one full run produced. The caller performs the effects, prints the
/// lines, and turns the outcome into an exit status.
pub struct RunReport {
    pub outcome: RunOutcome,
    /// Registration warnings: exactly one line per shadowed addon — one
    /// whose name an earlier addon already carries, or the reserved help
    /// token. Such an addon is unreachable; the first owner of the name
    /// wins.
    pub warnings: Vec<String>,
    /// The parsed global quiet flag; false until the raw arguments parse.
    /// The logger, when this run initialized it, was initialized with it.
    pub quiet: bool,
    /// The side effects the invoked addon asks for, in order.
    pub effects: Vec<Effect>,
    /// The painted error line for standard error, present exactly when the
    /// invocation failed.
    pub error_line: Option<String>,
    /// The configuration as the invoked addon left it.
    pub config: Config,
}

impl<A: Addon> CoppoCli<A> {
    /// Add the top-level flags that no addon owns: the global quiet flag.
    pub fn register_builtin_flags(&self, cmd: clap::Command) -> clap::Command {
        let quiet_flag = ArgSpec::Switch {
            id: "quiet".to_owned(),
            short: Some('q'),
            help: "Do not print Coppo log messages".to_owned(),
        };
        proof {
            reveal_strlit("quiet");
            reveal_strlit("help");
            reveal_strlit("version");
            assert(arg_spec_id(quiet_flag@) == "quiet"@);
            assert("quiet"@.len() == 5 && "help"@.len() == 4 && "version"@.len() == 7);
            assert("quiet"@[0] == 'q');
            assert(arg_spec_ok(quiet_flag@));
        }
        cli_args::command_arg(cmd, cli_args::arg_of_spec(&quiet_flag))
    }

    /// Run one invocation: assemble the command surface from the registered
    /// addons, parse the raw arguments against it, load the configuration
    /// from the manifest text (default when absent or malformed), initialize
    /// the logger from the global quiet flag, and route the invocation.
    ///
    /// With no subcommand nothing is invoked: the report carries the
    /// top-level help, no effects, and the untouched configuration. When the
    /// invoked addon fails, the report carries a painted error line: errors
    /// are never suppressed.
    #[verifier::rlimit(100)]
    #[verifier::spinoff_prover]
    pub fn run(
        &mut self,
        raw_args: Vec<String>,
        manifest_text: Option<&str>,
        env: &EnvProbe,
        logger_state: &mut GlobalLogger,
    ) -> (r: RunReport)
        ensures
            final(self).spec_addons() == old(self).spec_addons(),
            r.warnings@.len() == shadowed_count(
                names_of(old(self).spec_addons()),
                old(self).spec_addons().len() as int,
            ),
            !(r.outcome matches RunOutcome::ParseFailed { .. })
                && old(logger_state).spec_logger() is None ==> (
            final(logger_state).spec_logger() is Some
                && final(logger_state).spec_logger()->Some_0.spec_quiet() == r.quiet),
            ({
                let cfg0 = match manifest_text {
                    None => spec_load_or_default(None),
                    Some(t) => spec_load_or_default(Some(t@)),
                };
                match r.outcome {
                    RunOutcome::Help { .. } => {
                        &&& r.config@ == cfg0
                        &&& r.effects@.len() == 0
                        &&& r.error_line is None
                        &&& final(logger_state).spec_logger() is Some
                    },
                    RunOutcome::ParseFailed { .. } => {
                        &&& r.effects@.len() == 0
                        &&& r.error_line is None
                        &&& final(logger_state).spec_logger() == old(logger_state).spec_logger()
                    },
                    RunOutcome::Dispatched { outcome } => {
                        &&& final(logger_state).spec_logger() is Some
                        &&& match outcome {
                            DispatchOutcome::NoSubcommand => false,
                            DispatchOutcome::Ran { index } => {
                                &&& exists|t: Seq<char>|
                                    #[trigger] first_match(
                                        names_of(old(self).spec_addons()),
                                        t,
                                        index as int,
                                    )
                                &&& old(self).spec_addons()[index as int].run_ens(
                                    *env,
                                    cfg0,
                                    r.config@,
                                    Ok(r.effects),
                                )
                                &&& r.error_line is None
                            },
                            DispatchOutcome::Failed { index, error } => {
                                &&& exists|t: Seq<char>|
                                    #[trigger] first_match(
                                        names_of(old(self).spec_addons()),
                                        t,
                                        index as int,
                                    )
                                &&& old(self).spec_addons()[index as int].run_ens(
                                    *env,
                                    cfg0,
                                    r.config@,
                                    Err(error),
                                )
                                &&& r.effects@.len() == 0
                                &&& r.error_line is Some
                                &&& no_escape(error.message@) ==> occurs_in(
                                    r.error_line->Some_0@,
                                    error.message@,
                                )
                            },
                            DispatchOutcome::UnknownSubcommand { token } => {
                                &&& forall|j: int|
                                    0 <= j < old(self).spec_addons().len() ==> names_of(
                                        old(self).spec_addons(),
                                    )[j] != token@
                                &&& r.config@ == cfg0
                                &&& r.effects@.len() == 0
                                &&& r.error_line is Some
                            },
                        }
                    },
                }
            }),
    {
        let mut cmd = cli_args::clone_command(&self.command);
        cmd = self.register_builtin_flags(cmd);
        cmd = cli_args::command_about(cmd, "Cpp package manager");
        cmd = cli_args::command_help_template(
            cmd,
            "{before-help}{about-with-newline}\n{usage-heading} {usage}\n\nOptions:\n{options}\n\nCommands:\n{subcommands}\n{after-help}",
        );
        cmd = cli_args::command_after_help(
            cmd,
            "See 'coppo help <command>' for more information on a specific command.",
        );
        let surface = self.build_command_surface();
        let ghost names = names_of(old(self).spec_addons());
        let mut warnings: Vec<String> = Vec::new();
        let n = surface.len();
        let mut k: usize = 0;
        while k < n
            invariant
                k <= n,
                n == surface@.len(),
                surface@.len() == old(self).spec_addons().len(),
                names == names_of(old(self).spec_addons()),
                names.len() == n,
                forall|idx: int|
                    0 <= idx < surface@.len() ==> descriptor_of(
                        #[trigger] surface@[idx],
                        old(self).spec_addons()[idx],
                    ),
                self.spec_addons() == old(self).spec_addons(),
                warnings@.len() == shadowed_count(names, k as int),
            decreases n - k,
        {
            let descriptor = &surface[k];
            proof {
                assert(descriptor_of(surface@[k as int], old(self).spec_addons()[k as int]));
                assert(descriptor.token@ == names[k as int]);
            }
            let taken = str_eq(descriptor.token.as_str(), "help") || token_in_prefix(
                &surface,
                k,
                descriptor.token.as_str(),
            );
            proof {
                if taken {
                    if descriptor.token@ != "help"@ {
                        let j = choose|j: int|
                            0 <= j < k && (#[trigger] surface@[j]).token@ == descriptor.token@;
                        assert(names[j] == names[k as int]);
                    }
                    assert(shadowed(names, k as int));
                } else {
                    if shadowed(names, k as int) {
                        assert(names[k as int] != "help"@);
                        let j = choose|j: int| 0 <= j < k && names[j] == names[k as int];
                        assert(surface@[j].token@ == descriptor.token@);
                        assert(false);
                    }
                }
                assert(shadowed_count(names, k + 1 as int) == shadowed_count(names, k as int)
                    + if shadowed(names, k as int) {
                    1nat
                } else {
                    0nat
                });
            }
            if taken {
                // A shadowed name is a configuration mistake: warn instead of
                // silently dropping the unreachable addon.
                let mut warning = String::new();
                warning.append("the addon name `");
                warning.append(descriptor.token.as_str());
                warning.append("` is already registered; the first registration wins");
                warnings.push(warning);
            } else {
                let mut sub = cli_args::new_command(descriptor.token.as_str());
                sub = cli_args::command_version(sub, descriptor.version.as_str());
                sub = cli_args::command_about(sub, descriptor.about.as_str());
                let m = descriptor.args.len();
                let mut i: usize = 0;
                while i < m
                    invariant
                        i <= m,
                        m == descriptor.args@.len(),
                        arg_list_wf(arg_specs_view(descriptor.args@)),
                        self.spec_addons() == old(self).spec_addons(),
                    decreases m - i,
                {
                    proof {
                        let specs = arg_specs_view(descriptor.args@);
                        assert(specs.len() == descriptor.args@.len());
                        assert(arg_spec_ok(specs[i as int]));
                        assert(specs[i as int] == descriptor.args@[i as int]@);
                    }
                    sub = cli_args::command_arg(sub, cli_args::arg_of_spec(&descriptor.args[i]));
                    i += 1;
                }
                cmd = cli_args::command_subcommand(cmd, sub);
            }
            k += 1;
        }
        self.command = cmd;

        let matches = match cli_args::try_parse_args(
            cli_args::clone_command(&self.command),
            raw_args,
        ) {
            Err(failure) => {
                return RunReport {
                    outcome: RunOutcome::ParseFailed { failure },
                    warnings,
                    quiet: false,
                    effects: Vec::new(),
                    error_line: None,
                    config: Config::default(),
                };
            },
            Ok(m) => m,
        };

        self.route(matches, warnings, manifest_text, env, logger_state)
    }
    /// Route one successfully parsed invocation: load the configuration from
    /// the manifest text, initialize the logger from the parsed quiet flag,
    /// and dispatch the subcommand, if one was given.
    #[verifier::rlimit(100)]
    #[verifier::spinoff_prover]
    fn route(
        &mut self,
        matches: clap::ArgMatches,
        warnings: Vec<String>,
        manifest_text: Option<&str>,
        env: &EnvProbe,
        logger_state: &mut GlobalLogger,
    ) -> (r: RunReport)
        ensures
            final(self).spec_addons() == old(self).spec_addons(),
            r.warnings == warnings,
            !(r.outcome matches RunOutcome::ParseFailed { .. }),
            final(logger_state).spec_logger() is Some,
            old(logger_state).spec_logger() is None
                ==> final(logger_state).spec_logger()->Some_0.spec_quiet() == r.quiet,
            ({
                let cfg0 = match manifest_text {
                    None => spec_load_or_default(None),
                    Some(t) => spec_load_or_default(Some(t@)),
                };
                match r.outcome {
                    RunOutcome::Help { .. } => {
                        &&& r.config@ == cfg0
                        &&& r.effects@.len() == 0
                        &&& r.error_line is None
                    },
                    RunOutcome::ParseFailed { .. } => true,
                    RunOutcome::Dispatched { outcome } => {
                        match outcome {
                            DispatchOutcome::NoSubcommand => false,
                            DispatchOutcome::Ran { index } => {
                                &&& exists|t: Seq<char>|
                                    #[trigger] first_match(
                                        names_of(old(self).spec_addons()),
                                        t,
                                        index as int,
                                    )
                                &&& old(self).spec_addons()[index as int].run_ens(
                                    *env,
                                    cfg0,
                                    r.config@,
                                    Ok(r.effects),
                                )
                                &&& r.error_line is None
                            },
                            DispatchOutcome::Failed { index, error } => {
                                &&& exists|t: Seq<char>|
                                    #[trigger] first_match(
                                        names_of(old(self).spec_addons()),
                                        t,
                                        index as int,
                                    )
                                &&& old(self).spec_addons()[index as int].run_ens(
                                    *env,
                                    cfg0,
                                    r.config@,
                                    Err(error),
                                )
                                &&& r.effects@.len() == 0
                                &&& r.error_line is Some
                                &&& no_escape(error.message@) ==> occurs_in(
                                    r.error_line->Some_0@,
                                    error.message@,
                                )
                            },
                            DispatchOutcome::UnknownSubcommand { token } => {
                                &&& forall|j: int|
                                    0 <= j < old(self).spec_addons().len() ==> names_of(
                                        old(self).spec_addons(),
                                    )[j] != token@
                                &&& r.config@ == cfg0
                                &&& r.effects@.len() == 0
                                &&& r.error_line is Some
                            },
                        }
                    },
                }
            }),
    {
        let mut matches = matches;
        let mut config = Config::load_or_default(manifest_text);

        let quiet = match cli_args::get_flag(&matches, "quiet") {
            Some(b) => b,
            None => false,
        };
        init_logger(logger_state, quiet);

        match cli_args::remove_subcommand(&mut matches) {
            None => {
                let text = cli_args::render_help(&mut self.command);
                RunReport {
                    outcome: RunOutcome::Help { text },
                    warnings,
                    quiet,
                    effects: Vec::new(),
                    error_line: None,
                    config,
                }
            },
            Some((token, sub_matches)) => {
                let ghost t0 = token@;
                let logger = Logger::new(logger_state.is_quiet());
                let report = self.dispatch(Some((token, sub_matches)), &mut config, env, &logger);
                proof {
                    match report.outcome {
                        DispatchOutcome::Ran { index } => {
                            assert(first_match(names_of(self.spec_addons()), t0, index as int));
                            assert(names_of(self.spec_addons()) == names_of(
                                old(self).spec_addons(),
                            ));
                            assert(first_match(
                                names_of(old(self).spec_addons()),
                                t0,
                                index as int,
                            ));
                        },
                        DispatchOutcome::Failed { index, .. } => {
                            assert(first_match(names_of(self.spec_addons()), t0, index as int));
                            assert(names_of(self.spec_addons()) == names_of(
                                old(self).spec_addons(),
                            ));
                            assert(first_match(
                                names_of(old(self).spec_addons()),
                                t0,
                                index as int,
                            ));
                        },
                        _ => {},
                    }
                }
                RunReport {
                    outcome: RunOutcome::Dispatched { outcome: report.outcome },
                    warnings,
                    quiet,
                    effects: report.effects,
                    error_line: report.error_line,
                    config,
                }
            },
        }
    }
}

} // verus!
