//! The `new` addon: scaffold a fresh project.
//!
//! Scaffolding populates the configuration with the project name — given
//! explicitly, or derived from the final segment of the target path — and a
//! starting version, and asks the caller to create the project directory,
//! a starter source file, the manifest and an ignore file.

use vstd::prelude::*;
use vstd::string::StringExecFns;
use crate::addon::{
    Addon,
    AddonError,
    ArgSpec,
    ArgSpecView,
    Effect,
    EffectView,
    EnvProbe,
    arg_list_wf,
    arg_specs_view,
    effects_view,
};
use crate::cli_args::get_string;
use crate::config::{Config, ConfigView, ProjectView};
use crate::manifest::{chars_of, clean_text, manifest_text, string_from_chars, subvec, vec_eq_str};

verus! {

/// The starter main source file of a scaffolded project.
pub open spec fn spec_main_source() -> Seq<char> {
    "#include <iostream>\n\nint main() {\n    std::cout << \"Hello, World!\" << std::endl;\n    return 0;\n}\n"@
}

/// The starter ignore file of a scaffolded project.
pub open spec fn spec_ignore_file() -> Seq<char> {
    "/target\n"@
}

fn main_source() -> (r: &'static str)
    ensures
        r@ == spec_main_source(),
{
    "#include <iostream>\n\nint main() {\n    std::cout << \"Hello, World!\" << std::endl;\n    return 0;\n}\n"
}

fn ignore_file() -> (r: &'static str)
    ensures
        r@ == spec_ignore_file(),
{
    "/target\n"
}

/// How many characters before `till` are path separators.
pub open spec fn sep_tail(s: Seq<char>, till: int) -> nat
    decreases till,
{
    if till <= 0 || till > s.len() {
        0
    } else if s[till - 1] == '/' {
        1 + sep_tail(s, till - 1)
    } else {
        0
    }
}

/// How many characters before `till` are not path separators.
pub open spec fn non_sep_tail(s: Seq<char>, till: int) -> nat
    decreases till,
{
    if till <= 0 || till > s.len() {
        0
    } else if s[till - 1] != '/' {
        1 + non_sep_tail(s, till - 1)
    } else {
        0
    }
}

/// The final segment of a path: the last run of non-separator characters,
/// ignoring trailing separators. There is none when nothing remains, or when
/// the segment refers to the current or the parent directory.
pub open spec fn last_segment(s: Seq<char>) -> Option<Seq<char>> {
    let e = s.len() - sep_tail(s, s.len() as int);
    let b = e - non_sep_tail(s, e);
    if e <= 0 {
        None
    } else {
        let seg = s.subrange(b, e);
        if seg == "."@ || seg == ".."@ {
            None
        } else {
            Some(seg)
        }
    }
}

proof fn lemma_sep_tail_bound(s: Seq<char>, till: int)
    requires
        0 <= till <= s.len(),
    ensures
        sep_tail(s, till) <= till,
    decreases till,
{
    if till > 0 && s[till - 1] == '/' {
        lemma_sep_tail_bound(s, till - 1);
    }
}

proof fn lemma_non_sep_tail_bound(s: Seq<char>, till: int)
    requires
        0 <= till <= s.len(),
    ensures
        non_sep_tail(s, till) <= till,
    decreases till,
{
    if till > 0 && s[till - 1] != '/' {
        lemma_non_sep_tail_bound(s, till - 1);
    }
}

fn sep_tail_exec(v: &Vec<char>, till: usize) -> (r: usize)
    requires
        till <= v@.len(),
    ensures
        r == till - sep_tail(v@, till as int),
    decreases till,
{
    if till > 0 && v[till - 1] == '/' {
        sep_tail_exec(v, till - 1)
    } else {
        till
    }
}

fn non_sep_tail_exec(v: &Vec<char>, till: usize) -> (r: usize)
    requires
        till <= v@.len(),
    ensures
        r == till - non_sep_tail(v@, till as int),
    decreases till,
{
    if till > 0 && v[till - 1] != '/' {
        non_sep_tail_exec(v, till - 1)
    } else {
        till
    }
}

/// The final segment of `path`, as `last_segment` has it.
pub fn last_segment_of(path: &str) -> (r: Option<String>)
    ensures
        match r {
            Some(seg) => last_segment(path@) == Some(seg@),
            None => last_segment(path@) is None,
        },
{
    let v = chars_of(path);
    let e = sep_tail_exec(&v, v.len());
    proof {
        lemma_sep_tail_bound(v@, v@.len() as int);
        lemma_non_sep_tail_bound(v@, e as int);
    }
    let b = non_sep_tail_exec(&v, e);
    if e == 0 {
        None
    } else {
        let seg = subvec(&v, b, e);
        if vec_eq_str(&seg, ".") || vec_eq_str(&seg, "..") {
            None
        } else {
            Some(string_from_chars(&seg))
        }
    }
}

/// What scaffolding a project at `path` under `name` does to the
/// configuration, and the effects it asks for.
pub open spec fn spec_scaffold(path: Seq<char>, name: Seq<char>, cfg: ConfigView) -> (
    ConfigView,
    Seq<EffectView>,
) {
    let new_cfg = ConfigView {
        project: ProjectView { name, version: "0.1.0"@, ..cfg.project },
        ..cfg
    };
    (
        new_cfg,
        seq![
            EffectView::CreateDirAll { path },
            EffectView::CreateDir { path: path + "/src"@ },
            EffectView::WriteFile {
                path: path + "/src/main.cpp"@,
                contents: spec_main_source(),
            },
            EffectView::WriteFile {
                path: path + "/Coppo.toml"@,
                contents: manifest_text(new_cfg),
            },
            EffectView::WriteFile { path: path + "/.gitignore"@, contents: spec_ignore_file() },
            EffectView::LogSuccess { message: "Created a new project at "@ + path },
        ],
    )
}

/// Scaffold a project: set the project name and the starting version in the
/// configuration, and return the effects that lay the project out on disk.
pub fn scaffold(config: &mut Config, path: &String, name: String) -> (r: Vec<Effect>)
    ensures
        final(config)@ == spec_scaffold(path@, name@, old(config)@).0,
        effects_view(r@) == spec_scaffold(path@, name@, old(config)@).1,
{
    let ghost cfg0 = config@;
    config.project.name = name;
    config.project.version = "0.1.0".to_owned();
    proof {
        assert(config@ =~~= spec_scaffold(path@, name@, cfg0).0);
    }
    let text = config.to_text();
    let mut effects: Vec<Effect> = Vec::new();
    effects.push(Effect::CreateDirAll { path: path.clone() });
    effects.push(Effect::CreateDir { path: path.clone().concat("/src") });
    effects.push(
        Effect::WriteFile {
            path: path.clone().concat("/src/main.cpp"),
            contents: main_source().to_owned(),
        },
    );
    effects.push(
        Effect::WriteFile { path: path.clone().concat("/Coppo.toml"), contents: text },
    );
    effects.push(
        Effect::WriteFile {
            path: path.clone().concat("/.gitignore"),
            contents: ignore_file().to_owned(),
        },
    );
    effects.push(
        Effect::LogSuccess {
            message: "Created a new project at ".to_owned().concat(path.as_str()),
        },
    );
    proof {
        assert(effects_view(effects@) =~= spec_scaffold(path@, name@, cfg0).1);
    }
    effects
}

/// The `new` command's options: where to create the project, and what to
/// name it.
pub struct CoppoNew {
    /// The path where the project will be created.
    pub path: String,
    /// The name of the project; when not given, the name of the target
    /// directory.
    pub name: String,
}

impl core::default::Default for CoppoNew {
    /// Options with an empty path and name.
    fn default() -> (r: CoppoNew)
        ensures
            r.path@ == Seq::<char>::empty(),
            r.name@ == Seq::<char>::empty(),
    {
        CoppoNew { path: String::new(), name: String::new() }
    }
}

/// The `new` subcommand: create a fresh project at a path.
pub struct CoppoNewAddon;

impl Addon for CoppoNewAddon {
    open spec fn spec_name(&self) -> Seq<char> {
        "new"@
    }

    open spec fn spec_version(&self) -> Seq<char> {
        "0.1.0"@
    }

    open spec fn spec_description(&self) -> Option<Seq<char>> {
        Some("Create a new project"@)
    }

    open spec fn spec_args(&self) -> Seq<ArgSpecView> {
        seq![
            ArgSpecView::Positional {
                id: "path"@,
                help: "The path where the project will be created"@,
                required: true,
            },
            ArgSpecView::Valued { id: "name"@, short: Some('n'), help: "The name of the project"@ },
        ]
    }

    open spec fn run_ens(
        &self,
        env: EnvProbe,
        cfg_old: ConfigView,
        cfg_new: ConfigView,
        r: Result<Vec<Effect>, AddonError>,
    ) -> bool {
        match r {
            Ok(v) => exists|p: Seq<char>, n: Seq<char>|
                {
                    &&& n.len() > 0
                    &&& crate::manifest::clean(n)
                    &&& cfg_new == #[trigger] spec_scaffold(p, n, cfg_old).0
                    &&& effects_view(v@) == spec_scaffold(p, n, cfg_old).1
                },
            Err(e) => cfg_new == cfg_old && (e.message@
                == "Failed to get the name of the directory."@ || e.message@
                == "The project name must be non-empty, without quotes or line breaks."@),
        }
    }

    fn name(&self) -> (r: &'static str) {
        "new"
    }

    fn version(&self) -> (r: &'static str) {
        "0.1.0"
    }

    fn description(&self) -> (r: Option<&'static str>) {
        Some("Create a new project")
    }

    fn args(&self) -> (r: Vec<ArgSpec>) {
        let mut args: Vec<ArgSpec> = Vec::new();
        args.push(
            ArgSpec::Positional {
                id: "path".to_owned(),
                help: "The path where the project will be created".to_owned(),
                required: true,
            },
        );
        args.push(
            ArgSpec::Valued {
                id: "name".to_owned(),
                short: Some('n'),
                help: "The name of the project".to_owned(),
            },
        );
        proof {
            reveal_strlit("path");
            reveal_strlit("name");
            reveal_strlit("help");
            reveal_strlit("version");
            assert("path"@[0] == 'p' && "name"@[0] == 'n' && "help"@[0] == 'h');
            assert("path"@ != "name"@ && "path"@ != "help"@ && "name"@ != "help"@);
            assert(arg_specs_view(args@) =~= self.spec_args());
            assert(arg_list_wf(arg_specs_view(args@)));
        }
        args
    }

    fn run(&self, config: &mut Config, matches: &clap::ArgMatches, _env: &EnvProbe) -> (r: Result<
        Vec<Effect>,
        AddonError,
    >) {
        let mut options = CoppoNew::default();
        match get_string(matches, "path") {
            Some(p) => {
                options.path = p;
            },
            None => {},
        }
        match get_string(matches, "name") {
            Some(n) => {
                options.name = n;
            },
            None => {
                match last_segment_of(options.path.as_str()) {
                    Some(seg) => {
                        options.name = seg;
                    },
                    None => {
                        return Err(
                            AddonError {
                                message: "Failed to get the name of the directory.".to_owned(),
                            },
                        );
                    },
                }
            },
        }
        let CoppoNew { path, name } = options;
        // A name the manifest format cannot carry verbatim would be written
        // into a manifest that does not parse back: reject it here.
        if name.as_str().is_empty() || !clean_text(name.as_str()) {
            return Err(
                AddonError {
                    message: "The project name must be non-empty, without quotes or line breaks.".to_owned(),
                },
            );
        }
        let effects = scaffold(config, &path, name);
        proof {
            assert(name@.len() > 0 && crate::manifest::clean(name@));
            assert(config@ == spec_scaffold(path@, name@, old(config)@).0 && effects_view(
                effects@,
            ) == spec_scaffold(path@, name@, old(config)@).1);
        }
        Ok(effects)
    }
}

} // verus!
