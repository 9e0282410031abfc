use coppo::addon::{Addon, Effect, EnvProbe};
use coppo::build_addon::{CoppoBuildAddon, CoppoRunAddon};
use coppo::builtin::BuiltinAddon;
use coppo::cli::{CoppoCli, DispatchOutcome, RunOutcome};
use coppo::logger::GlobalLogger;
use coppo::new_addon::CoppoNewAddon;

fn builtin_cli() -> CoppoCli<BuiltinAddon> {
    let mut cli = CoppoCli::new(clap::Command::new("coppo"));
    cli.add_addons(vec![
        BuiltinAddon::New(CoppoNewAddon),
        BuiltinAddon::Build(CoppoBuildAddon),
        BuiltinAddon::Run(CoppoRunAddon),
    ]);
    cli
}

fn args(list: &[&str]) -> Vec<String> {
    list.iter().map(|s| s.to_string()).collect()
}

fn env_with(manifest: bool, source: bool, target: bool, binary: bool) -> EnvProbe {
    EnvProbe {
        manifest_exists: manifest,
        main_source_exists: source,
        output_dir_exists: target,
        binary_exists: binary,
    }
}

const DEMO_MANIFEST: &str =
    "[project]\nname = \"demo\"\nversion = \"0.1.0\"\nauthors = []\n[dependencies]\n";

#[test]
fn surface_has_one_descriptor_per_addon() {
    let cli = builtin_cli();
    let surface = cli.build_command_surface();
    assert_eq!(surface.len(), 3);
    assert_eq!(surface[0].token, "new");
    assert_eq!(surface[1].token, "build");
    assert_eq!(surface[2].token, "run");
    assert_eq!(surface[0].about, "Create a new project");
    assert_eq!(surface[1].about, "Compile the current project");
    assert_eq!(surface[2].about, "Compile and run the current project");
    assert_eq!(surface[0].args.len(), 2);
    assert_eq!(surface[1].args.len(), 0);
}

#[test]
fn resolve_routes_each_token_to_its_addon() {
    let cli = builtin_cli();
    assert_eq!(cli.resolve("new"), Some(0));
    assert_eq!(cli.resolve("build"), Some(1));
    assert_eq!(cli.resolve("run"), Some(2));
    assert_eq!(cli.resolve("clean"), None);
}

#[test]
fn duplicate_name_first_registered_wins() {
    let mut cli: CoppoCli<CoppoNewAddon> = CoppoCli::new(clap::Command::new("coppo"));
    cli.add_addon(CoppoNewAddon);
    cli.add_addon(CoppoNewAddon);
    assert_eq!(cli.resolve("new"), Some(0));

    let mut logger_state = GlobalLogger::new();
    let report = cli.run(
        args(&["coppo", "new", "foo"]),
        None,
        &env_with(false, false, false, false),
        &mut logger_state,
    );
    match report.outcome {
        RunOutcome::Dispatched { outcome: DispatchOutcome::Ran { index } } => {
            assert_eq!(index, 0);
        },
        _ => panic!("the first registered addon must be the one invoked"),
    }
    assert_eq!(report.warnings.len(), 1);
    assert!(report.warnings[0].contains("already registered"));
}

#[test]
fn no_subcommand_shows_help_and_runs_nothing() {
    let mut cli = builtin_cli();
    let mut logger_state = GlobalLogger::new();
    let report = cli.run(
        args(&["coppo"]),
        Some(DEMO_MANIFEST),
        &env_with(true, true, true, true),
        &mut logger_state,
    );
    match &report.outcome {
        RunOutcome::Help { text } => {
            assert!(text.contains("Commands:"));
            assert!(text.contains("new"));
            assert!(text.contains("build"));
            assert!(text.contains("run"));
        },
        _ => panic!("no subcommand must show help"),
    }
    assert!(report.effects.is_empty());
    assert!(report.error_line.is_none());
    assert_eq!(report.config.project.name, "demo");
}

#[test]
fn build_without_manifest_fails_and_is_reported() {
    let mut cli = builtin_cli();
    let mut logger_state = GlobalLogger::new();
    let report = cli.run(
        args(&["coppo", "build"]),
        None,
        &env_with(false, true, true, false),
        &mut logger_state,
    );
    match &report.outcome {
        RunOutcome::Dispatched { outcome: DispatchOutcome::Failed { index, error } } => {
            assert_eq!(*index, 1);
            assert_eq!(error.message, "The project does not have a `Coppo.toml` file.");
        },
        _ => panic!("a build without a manifest must fail"),
    }
    assert!(report.effects.is_empty());
    let line = report.error_line.expect("a failure is always reported");
    assert!(line.contains("Coppo.toml"));
}

#[test]
fn build_reads_the_loaded_configuration() {
    let mut cli = builtin_cli();
    let mut logger_state = GlobalLogger::new();
    let report = cli.run(
        args(&["coppo", "build"]),
        Some(DEMO_MANIFEST),
        &env_with(true, true, true, false),
        &mut logger_state,
    );
    match &report.outcome {
        RunOutcome::Dispatched { outcome: DispatchOutcome::Ran { index } } => {
            assert_eq!(*index, 1);
        },
        _ => panic!("a build with a full manifest must succeed"),
    }
    assert!(report.error_line.is_none());
    assert!(report.effects.iter().any(
        |e| matches!(e, Effect::Compile { output, .. } if output == "target/demo"),
    ));
    assert!(report.effects.iter().any(
        |e| matches!(e, Effect::LogSuccess { message } if message == "The project has been built."),
    ));
}

#[test]
fn build_with_empty_configuration_fails() {
    let mut cli = builtin_cli();
    let mut logger_state = GlobalLogger::new();
    let report = cli.run(
        args(&["coppo", "build"]),
        None,
        &env_with(true, true, true, false),
        &mut logger_state,
    );
    match &report.outcome {
        RunOutcome::Dispatched { outcome: DispatchOutcome::Failed { error, .. } } => {
            assert_eq!(error.message, "The project name and version is needed");
        },
        _ => panic!("a build without name and version must fail"),
    }
}

#[test]
fn build_without_main_source_fails() {
    let mut cli = builtin_cli();
    let mut logger_state = GlobalLogger::new();
    let report = cli.run(
        args(&["coppo", "build"]),
        Some(DEMO_MANIFEST),
        &env_with(true, false, true, false),
        &mut logger_state,
    );
    match &report.outcome {
        RunOutcome::Dispatched { outcome: DispatchOutcome::Failed { error, .. } } => {
            assert_eq!(error.message, "The `src/main.cpp` file does not exist.");
        },
        _ => panic!("a build without the main source must fail"),
    }
}

#[test]
fn build_creates_missing_output_directory() {
    let mut cli = builtin_cli();
    let mut logger_state = GlobalLogger::new();
    let report = cli.run(
        args(&["coppo", "build"]),
        Some(DEMO_MANIFEST),
        &env_with(true, true, false, false),
        &mut logger_state,
    );
    assert!(matches!(
        report.outcome,
        RunOutcome::Dispatched { outcome: DispatchOutcome::Ran { .. } }
    ));
    assert!(report.effects.iter().any(
        |e| matches!(e, Effect::CreateDir { path } if path == "target"),
    ));
}

#[test]
fn run_uses_existing_binary_without_building() {
    let mut cli = builtin_cli();
    let mut logger_state = GlobalLogger::new();
    let report = cli.run(
        args(&["coppo", "run"]),
        Some(DEMO_MANIFEST),
        &env_with(true, true, true, true),
        &mut logger_state,
    );
    assert!(matches!(
        report.outcome,
        RunOutcome::Dispatched { outcome: DispatchOutcome::Ran { .. } }
    ));
    assert!(report.effects.iter().any(
        |e| matches!(e, Effect::RunBinary { path } if path == "target/demo"),
    ));
    assert!(!report.effects.iter().any(|e| matches!(e, Effect::Compile { .. })));
}

#[test]
fn run_builds_first_when_binary_is_missing() {
    let mut cli = builtin_cli();
    let mut logger_state = GlobalLogger::new();
    let report = cli.run(
        args(&["coppo", "run"]),
        Some(DEMO_MANIFEST),
        &env_with(true, true, true, false),
        &mut logger_state,
    );
    assert!(matches!(
        report.outcome,
        RunOutcome::Dispatched { outcome: DispatchOutcome::Ran { .. } }
    ));
    assert!(report.effects.iter().any(|e| matches!(e, Effect::Compile { .. })));
    assert!(report.effects.iter().any(
        |e| matches!(e, Effect::RunBinary { path } if path == "target/demo"),
    ));
}

#[test]
fn scaffold_derives_the_name_from_the_path() {
    let mut cli = builtin_cli();
    let mut logger_state = GlobalLogger::new();
    let report = cli.run(
        args(&["coppo", "new", "foo"]),
        None,
        &env_with(false, false, false, false),
        &mut logger_state,
    );
    assert!(matches!(
        report.outcome,
        RunOutcome::Dispatched { outcome: DispatchOutcome::Ran { index: 0 } }
    ));
    assert_eq!(report.config.project.name, "foo");
    assert_eq!(report.config.project.version, "0.1.0");
    let manifest = report.effects.iter().find_map(|e| match e {
        Effect::WriteFile { path, contents } if path == "foo/Coppo.toml" => Some(contents.clone()),
        _ => None,
    });
    let manifest = manifest.expect("scaffolding must write the manifest under foo/");
    assert_eq!(manifest, report.config.to_text());
    let reloaded = coppo::config::Config::from_str(&manifest).unwrap();
    assert_eq!(reloaded.project.name, "foo");
    assert!(report.effects.iter().any(
        |e| matches!(e, Effect::WriteFile { path, .. } if path == "foo/src/main.cpp"),
    ));
    assert!(report.effects.iter().any(
        |e| matches!(e, Effect::WriteFile { path, .. } if path == "foo/.gitignore"),
    ));
}

#[test]
fn scaffold_prefers_the_explicit_name() {
    let mut cli = builtin_cli();
    let mut logger_state = GlobalLogger::new();
    let report = cli.run(
        args(&["coppo", "new", "foo", "--name", "bar"]),
        None,
        &env_with(false, false, false, false),
        &mut logger_state,
    );
    assert!(matches!(
        report.outcome,
        RunOutcome::Dispatched { outcome: DispatchOutcome::Ran { .. } }
    ));
    assert_eq!(report.config.project.name, "bar");
}

#[test]
fn scaffold_ignores_trailing_separators() {
    let mut cli = builtin_cli();
    let mut logger_state = GlobalLogger::new();
    let report = cli.run(
        args(&["coppo", "new", "dir/sub/"]),
        None,
        &env_with(false, false, false, false),
        &mut logger_state,
    );
    assert!(matches!(
        report.outcome,
        RunOutcome::Dispatched { outcome: DispatchOutcome::Ran { .. } }
    ));
    assert_eq!(report.config.project.name, "sub");
}

#[test]
fn scaffold_without_a_usable_segment_fails() {
    let mut cli = builtin_cli();
    let mut logger_state = GlobalLogger::new();
    let report = cli.run(
        args(&["coppo", "new", "."]),
        None,
        &env_with(false, false, false, false),
        &mut logger_state,
    );
    match &report.outcome {
        RunOutcome::Dispatched { outcome: DispatchOutcome::Failed { error, .. } } => {
            assert_eq!(error.message, "Failed to get the name of the directory.");
        },
        _ => panic!("scaffolding `.` must fail"),
    }
    assert!(report.error_line.is_some());
}

#[test]
fn unknown_flag_is_a_parse_failure() {
    let mut cli = builtin_cli();
    let mut logger_state = GlobalLogger::new();
    let report = cli.run(
        args(&["coppo", "--bogus"]),
        None,
        &env_with(false, false, false, false),
        &mut logger_state,
    );
    match &report.outcome {
        RunOutcome::ParseFailed { failure } => {
            assert!(failure.use_stderr);
        },
        _ => panic!("an unknown flag must fail to parse"),
    }
    assert!(report.effects.is_empty());
}

#[test]
fn help_flag_is_a_successful_display() {
    let mut cli = builtin_cli();
    let mut logger_state = GlobalLogger::new();
    let report = cli.run(
        args(&["coppo", "--help"]),
        None,
        &env_with(false, false, false, false),
        &mut logger_state,
    );
    match &report.outcome {
        RunOutcome::ParseFailed { failure } => {
            assert!(!failure.use_stderr);
            assert!(failure.message.contains("Commands:"));
        },
        _ => panic!("the help flag is reported through the parse path"),
    }
}

#[test]
fn quiet_flag_never_silences_errors() {
    let mut cli = builtin_cli();
    let mut logger_state = GlobalLogger::new();
    let report = cli.run(
        args(&["coppo", "-q", "build"]),
        None,
        &env_with(false, true, true, false),
        &mut logger_state,
    );
    assert!(report.quiet);
    assert!(logger_state.is_quiet());
    let line = report.error_line.expect("errors must be reported in quiet mode too");
    assert!(line.contains("Coppo.toml"));
}

#[test]
fn addon_contract_exposes_identity() {
    assert_eq!(CoppoBuildAddon.name(), "build");
    assert_eq!(CoppoRunAddon.name(), "run");
    assert_eq!(CoppoNewAddon.name(), "new");
    assert_eq!(CoppoBuildAddon.description(), Some("Compile the current project"));
    assert!(!CoppoBuildAddon.version().is_empty());
    assert!(CoppoBuildAddon.args().is_empty());
}

#[test]
fn scaffold_rejects_a_name_the_manifest_cannot_carry() {
    let mut cli = builtin_cli();
    let mut logger_state = GlobalLogger::new();
    let report = cli.run(
        args(&["coppo", "new", "foo", "--name", "a\"b"]),
        None,
        &env_with(false, false, false, false),
        &mut logger_state,
    );
    match &report.outcome {
        RunOutcome::Dispatched { outcome: DispatchOutcome::Failed { error, .. } } => {
            assert_eq!(
                error.message,
                "The project name must be non-empty, without quotes or line breaks.",
            );
        },
        _ => panic!("a quoted project name must be rejected"),
    }
    assert!(report.effects.is_empty());
    assert!(report.error_line.is_some());
}

#[test]
fn scaffold_rejects_an_empty_explicit_name() {
    let mut cli = builtin_cli();
    let mut logger_state = GlobalLogger::new();
    let report = cli.run(
        args(&["coppo", "new", "foo", "--name", ""]),
        None,
        &env_with(false, false, false, false),
        &mut logger_state,
    );
    assert!(matches!(
        report.outcome,
        RunOutcome::Dispatched { outcome: DispatchOutcome::Failed { .. } }
    ));
}

#[test]
fn run_report_carries_the_parsed_quiet_flag() {
    let mut cli = builtin_cli();
    let mut logger_state = GlobalLogger::new();
    let report = cli.run(
        args(&["coppo", "build"]),
        Some(DEMO_MANIFEST),
        &env_with(true, true, true, false),
        &mut logger_state,
    );
    assert!(!report.quiet);
    assert!(!logger_state.is_quiet());
}
