//! The `build` and `run` addons: compile the current project, and compile
//! and run it.
//!
//! Both addons only decide here: they check the probed environment and the
//! configuration, and return the effects to perform. The compiler invocation
//! and the binary run are effects for the caller.

use vstd::prelude::*;
use vstd::string::StringExecFns;
use crate::addon::{
    Addon,
    AddonError,
    ArgSpec,
    ArgSpecView,
    Effect,
    EffectView,
    EnvProbe,
    arg_specs_view,
    effects_view,
};
use crate::config::{Config, ConfigView};

verus! {

/// The compile output directory.
pub const COMPILE_OUTPUT: &'static str = "target";

/// The compiler the build invokes.
pub const COMPILER: &'static str = "clang++";

/// Where the compiled binary of a project named `name` is placed.
pub open spec fn spec_binary_path(name: Seq<char>) -> Seq<char> {
    "target/"@ + name
}

/// What a build decides, given the probed environment and the
/// configuration: the manifest must exist, the configuration must carry a
/// project name and version, and the main source file must exist; then the
/// project is compiled into the output directory, which is created first
/// when missing.
pub open spec fn spec_build_plan(env: EnvProbe, cfg: ConfigView) -> Result<
    Seq<EffectView>,
    Seq<char>,
> {
    if !env.manifest_exists {
        Err("The project does not have a `Coppo.toml` file."@)
    } else if cfg.is_empty() {
        Err("The project name and version is needed"@)
    } else if !env.main_source_exists {
        Err("The `src/main.cpp` file does not exist."@)
    } else {
        let head = seq![EffectView::LogInfo { message: "Building the project..."@ }];
        let mid = if env.output_dir_exists {
            Seq::<EffectView>::empty()
        } else {
            seq![EffectView::CreateDir { path: "target"@ }]
        };
        let tail = seq![
            EffectView::Compile {
                compiler: "clang++"@,
                source: "src/main.cpp"@,
                output: spec_binary_path(cfg.project.name),
            },
            EffectView::LogSuccess { message: "The project has been built."@ },
        ];
        Ok(head + mid + tail)
    }
}

/// The compiled binary's path for this configuration.
pub fn binary_path(config: &Config) -> (r: String)
    ensures
        r@ == spec_binary_path(config@.project.name),
{
    "target/".to_owned().concat(config.project.name.as_str())
}

/// Decide a build: the checks and effects of `spec_build_plan`, exactly.
pub fn build_plan(config: &Config, env: &EnvProbe) -> (r: Result<Vec<Effect>, AddonError>)
    ensures
        match spec_build_plan(*env, config@) {
            Ok(effs) => r matches Ok(v) && effects_view(v@) == effs,
            Err(m) => r matches Err(e) && e.message@ == m,
        },
{
    if !env.manifest_exists {
        return Err(
            AddonError { message: "The project does not have a `Coppo.toml` file.".to_owned() },
        );
    }
    if config.is_empty() {
        return Err(AddonError { message: "The project name and version is needed".to_owned() });
    }
    if !env.main_source_exists {
        return Err(AddonError { message: "The `src/main.cpp` file does not exist.".to_owned() });
    }
    let mut effects: Vec<Effect> = Vec::new();
    effects.push(Effect::LogInfo { message: "Building the project...".to_owned() });
    if !env.output_dir_exists {
        effects.push(Effect::CreateDir { path: "target".to_owned() });
    }
    effects.push(
        Effect::Compile {
            compiler: "clang++".to_owned(),
            source: "src/main.cpp".to_owned(),
            output: binary_path(config),
        },
    );
    effects.push(Effect::LogSuccess { message: "The project has been built.".to_owned() });
    proof {
        assert(effects_view(effects@) =~= spec_build_plan(*env, config@)->Ok_0);
    }
    Ok(effects)
}

/// What a run decides: when the binary is missing, first everything a build
/// decides; then the binary is announced and run.
pub open spec fn spec_run_plan(env: EnvProbe, cfg: ConfigView) -> Result<
    Seq<EffectView>,
    Seq<char>,
> {
    let tail = seq![
        EffectView::LogInfo { message: "Running the project..."@ },
        EffectView::RunBinary { path: spec_binary_path(cfg.project.name) },
    ];
    if env.binary_exists {
        Ok(tail)
    } else {
        match spec_build_plan(env, cfg) {
            Ok(build) => Ok(build + tail),
            Err(m) => Err(m),
        }
    }
}

/// The `build` subcommand: compile the current project.
pub struct CoppoBuildAddon;

/// The `run` subcommand: compile the current project when its binary is
/// missing, then run the binary.
pub struct CoppoRunAddon;

impl Addon for CoppoBuildAddon {
    open spec fn spec_name(&self) -> Seq<char> {
        "build"@
    }

    open spec fn spec_version(&self) -> Seq<char> {
        "0.1.0"@
    }

    open spec fn spec_description(&self) -> Option<Seq<char>> {
        Some("Compile the current project"@)
    }

    open spec fn spec_args(&self) -> Seq<ArgSpecView> {
        Seq::empty()
    }

    open spec fn run_ens(
        &self,
        env: EnvProbe,
        cfg_old: ConfigView,
        cfg_new: ConfigView,
        r: Result<Vec<Effect>, AddonError>,
    ) -> bool {
        &&& cfg_new == cfg_old
        &&& match spec_build_plan(env, cfg_old) {
            Ok(effs) => r matches Ok(v) && effects_view(v@) == effs,
            Err(m) => r matches Err(e) && e.message@ == m,
        }
    }

    fn name(&self) -> (r: &'static str) {
        "build"
    }

    fn version(&self) -> (r: &'static str) {
        "0.1.0"
    }

    fn description(&self) -> (r: Option<&'static str>) {
        Some("Compile the current project")
    }

    fn args(&self) -> (r: Vec<ArgSpec>) {
        let args: Vec<ArgSpec> = Vec::new();
        proof {
            assert(arg_specs_view(args@) =~= Seq::<ArgSpecView>::empty());
        }
        args
    }

    fn run(&self, config: &mut Config, _matches: &clap::ArgMatches, env: &EnvProbe) -> (r: Result<
        Vec<Effect>,
        AddonError,
    >) {
        build_plan(config, env)
    }
}

impl Addon for CoppoRunAddon {
    open spec fn spec_name(&self) -> Seq<char> {
        "run"@
    }

    open spec fn spec_version(&self) -> Seq<char> {
        "0.1.0"@
    }

    open spec fn spec_description(&self) -> Option<Seq<char>> {
        Some("Compile and run the current project"@)
    }

    open spec fn spec_args(&self) -> Seq<ArgSpecView> {
        Seq::empty()
    }

    open spec fn run_ens(
        &self,
        env: EnvProbe,
        cfg_old: ConfigView,
        cfg_new: ConfigView,
        r: Result<Vec<Effect>, AddonError>,
    ) -> bool {
        &&& cfg_new == cfg_old
        &&& match spec_run_plan(env, cfg_old) {
            Ok(effs) => r matches Ok(v) && effects_view(v@) == effs,
            Err(m) => r matches Err(e) && e.message@ == m,
        }
    }

    fn name(&self) -> (r: &'static str) {
        "run"
    }

    fn version(&self) -> (r: &'static str) {
        "0.1.0"
    }

    fn description(&self) -> (r: Option<&'static str>) {
        Some("Compile and run the current project")
    }

    fn args(&self) -> (r: Vec<ArgSpec>) {
        let args: Vec<ArgSpec> = Vec::new();
        proof {
            assert(arg_specs_view(args@) =~= Seq::<ArgSpecView>::empty());
        }
        args
    }

    fn run(&self, config: &mut Config, _matches: &clap::ArgMatches, env: &EnvProbe) -> (r: Result<
        Vec<Effect>,
        AddonError,
    >) {
        let mut effects: Vec<Effect> = if env.binary_exists {
            Vec::new()
        } else {
            match build_plan(config, env) {
                Ok(v) => v,
                Err(e) => {
                    return Err(e);
                },
            }
        };
        effects.push(Effect::LogInfo { message: "Running the project...".to_owned() });
        effects.push(Effect::RunBinary { path: binary_path(config) });
        proof {
            assert(effects_view(effects@) =~= spec_run_plan(*env, config@)->Ok_0);
        }
        Ok(effects)
    }
}

} // verus!
