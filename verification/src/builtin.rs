//! The built-in addons, as one closed type.
//!
//! The dispatcher is generic over one addon type; a program that registers
//! several kinds of addons registers them through this enumeration.

use vstd::prelude::*;
use crate::addon::{Addon, AddonError, ArgSpec, ArgSpecView, Effect, EnvProbe};
use crate::build_addon::{CoppoBuildAddon, CoppoRunAddon};
use crate::config::{Config, ConfigView};
use crate::new_addon::CoppoNewAddon;

verus! {

/// One of the built-in addons.
pub enum BuiltinAddon {
    New(CoppoNewAddon),
    Build(CoppoBuildAddon),
    Run(CoppoRunAddon),
}

impl Addon for BuiltinAddon {
    open spec fn spec_name(&self) -> Seq<char> {
        match self {
            BuiltinAddon::New(a) => a.spec_name(),
            BuiltinAddon::Build(a) => a.spec_name(),
            BuiltinAddon::Run(a) => a.spec_name(),
        }
    }

    open spec fn spec_version(&self) -> Seq<char> {
        match self {
            BuiltinAddon::New(a) => a.spec_version(),
            BuiltinAddon::Build(a) => a.spec_version(),
            BuiltinAddon::Run(a) => a.spec_version(),
        }
    }

    open spec fn spec_description(&self) -> Option<Seq<char>> {
        match self {
            BuiltinAddon::New(a) => a.spec_description(),
            BuiltinAddon::Build(a) => a.spec_description(),
            BuiltinAddon::Run(a) => a.spec_description(),
        }
    }

    open spec fn spec_args(&self) -> Seq<ArgSpecView> {
        match self {
            BuiltinAddon::New(a) => a.spec_args(),
            BuiltinAddon::Build(a) => a.spec_args(),
            BuiltinAddon::Run(a) => a.spec_args(),
        }
    }

    open spec fn run_ens(
        &self,
        env: EnvProbe,
        cfg_old: ConfigView,
        cfg_new: ConfigView,
        r: Result<Vec<Effect>, AddonError>,
    ) -> bool {
        match self {
            BuiltinAddon::New(a) => a.run_ens(env, cfg_old, cfg_new, r),
            BuiltinAddon::Build(a) => a.run_ens(env, cfg_old, cfg_new, r),
            BuiltinAddon::Run(a) => a.run_ens(env, cfg_old, cfg_new, r),
        }
    }

    fn name(&self) -> (r: &'static str) {
        match self {
            BuiltinAddon::New(a) => a.name(),
            BuiltinAddon::Build(a) => a.name(),
            BuiltinAddon::Run(a) => a.name(),
        }
    }

    fn version(&self) -> (r: &'static str) {
        match self {
            BuiltinAddon::New(a) => a.version(),
            BuiltinAddon::Build(a) => a.version(),
            BuiltinAddon::Run(a) => a.version(),
        }
    }

    fn description(&self) -> (r: Option<&'static str>) {
        match self {
            BuiltinAddon::New(a) => a.description(),
            BuiltinAddon::Build(a) => a.description(),
            BuiltinAddon::Run(a) => a.description(),
        }
    }

    fn args(&self) -> (r: Vec<ArgSpec>) {
        match self {
            BuiltinAddon::New(a) => a.args(),
            BuiltinAddon::Build(a) => a.args(),
            BuiltinAddon::Run(a) => a.args(),
        }
    }

    fn run(&self, config: &mut Config, matches: &clap::ArgMatches, env: &EnvProbe) -> (r: Result<
        Vec<Effect>,
        AddonError,
    >) {
        match self {
            BuiltinAddon::New(a) => a.run(config, matches, env),
            BuiltinAddon::Build(a) => a.run(config, matches, env),
            BuiltinAddon::Run(a) => a.run(config, matches, env),
        }
    }
}

} // verus!
