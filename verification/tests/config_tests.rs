use coppo::config::{Config, ConfigError, Dependency, Project};
use coppo::manifest::ParseError;

#[test]
fn test_config() -> Result<(), ParseError> {
    let config = Config::from_str(
        r#"
            [project]
            name = "my_project"
            version = "0.1.0"
            authors = ["John Doe <example@123.com>"]
            license = "MIT"

            [dependencies]
            "#,
    )?;

    assert_eq!(config.project.name, "my_project");
    assert_eq!(config.project.version, "0.1.0");
    assert_eq!(config.project.authors, vec!["John Doe <example@123.com>".to_string()]);
    assert!(config.project.description.is_none());
    assert_eq!(config.project.license, Some("MIT".to_string()));
    assert!(config.project.repository.is_none());
    assert!(config.dependencies.is_empty());

    Ok(())
}

fn full_config() -> Config {
    Config {
        project: Project {
            name: "demo".to_string(),
            version: "1.2.3".to_string(),
            authors: vec!["Ada <ada@example.com>".to_string(), "Grace".to_string()],
            description: Some("A demo project".to_string()),
            license: Some("MIT".to_string()),
            repository: Some("https://example.com/demo".to_string()),
        },
        dependencies: vec![
            Dependency { name: "fmt".to_string(), version: "10.1".to_string() },
            Dependency { name: "catch2".to_string(), version: "*".to_string() },
        ],
    }
}

#[test]
fn round_trip_full_manifest() {
    let config = full_config();
    let text = config.to_text();
    let parsed = Config::from_str(&text).expect("canonical text must parse");
    assert_eq!(parsed.project.name, config.project.name);
    assert_eq!(parsed.project.version, config.project.version);
    assert_eq!(parsed.project.authors, config.project.authors);
    assert_eq!(parsed.project.description, config.project.description);
    assert_eq!(parsed.project.license, config.project.license);
    assert_eq!(parsed.project.repository, config.project.repository);
    assert_eq!(parsed.dependencies.len(), config.dependencies.len());
    for (a, b) in parsed.dependencies.iter().zip(config.dependencies.iter()) {
        assert_eq!(a.name, b.name);
        assert_eq!(a.version, b.version);
    }
    // A second round keeps the text fixed.
    assert_eq!(parsed.to_text(), text);
}

#[test]
fn round_trip_minimal_manifest() {
    let config = Config {
        project: Project {
            name: "m".to_string(),
            version: "0.0.1".to_string(),
            authors: vec![],
            description: None,
            license: None,
            repository: None,
        },
        dependencies: vec![],
    };
    let text = config.to_text();
    let parsed = Config::from_str(&text).expect("canonical text must parse");
    assert_eq!(parsed.project.name, "m");
    assert_eq!(parsed.project.version, "0.0.1");
    assert!(parsed.project.authors.is_empty());
    assert!(parsed.dependencies.is_empty());
}

#[test]
fn to_text_exact() {
    let config = Config {
        project: Project {
            name: "demo".to_string(),
            version: "0.1.0".to_string(),
            authors: vec!["Ada".to_string(), "Grace".to_string()],
            description: None,
            license: Some("MIT".to_string()),
            repository: None,
        },
        dependencies: vec![Dependency { name: "fmt".to_string(), version: "10.1".to_string() }],
    };
    let expected = "[project]\n\
                    name = \"demo\"\n\
                    version = \"0.1.0\"\n\
                    authors = [\"Ada\", \"Grace\"]\n\
                    license = \"MIT\"\n\
                    [dependencies]\n\
                    [dependencies.fmt]\n\
                    name = \"fmt\"\n\
                    version = \"10.1\"\n";
    assert_eq!(config.to_text(), expected);
}

#[test]
fn default_is_empty() {
    let config = Config::default();
    assert!(config.is_empty());
    assert_eq!(config.project.name, "");
    assert_eq!(config.project.version, "");
    assert!(config.project.authors.is_empty());
    assert!(config.dependencies.is_empty());
}

#[test]
fn loaded_config_is_not_empty() {
    let config = Config::from_str(
        "[project]\nname = \"x\"\nversion = \"1\"\nauthors = []\n[dependencies]\n",
    )
    .unwrap();
    assert!(!config.is_empty());
}

#[test]
fn parse_rejects_missing_name() {
    let text = "[project]\nversion = \"1\"\nauthors = []\n[dependencies]\n";
    assert!(Config::from_str(text).is_err());
}

#[test]
fn parse_rejects_missing_dependencies_table() {
    let text = "[project]\nname = \"x\"\nversion = \"1\"\nauthors = []\n";
    assert!(Config::from_str(text).is_err());
}

#[test]
fn parse_rejects_malformed_line() {
    let text = "[project]\nname\n";
    assert!(Config::from_str(text).is_err());
}

#[test]
fn parse_rejects_duplicate_key() {
    let text =
        "[project]\nname = \"x\"\nname = \"y\"\nversion = \"1\"\nauthors = []\n[dependencies]\n";
    assert!(Config::from_str(text).is_err());
}

#[test]
fn parse_rejects_duplicate_dependency() {
    let text = "[project]\nname = \"x\"\nversion = \"1\"\nauthors = []\n[dependencies]\n\
                [dependencies.a]\nname = \"a\"\nversion = \"1\"\n\
                [dependencies.a]\nname = \"a\"\nversion = \"2\"\n";
    assert!(Config::from_str(text).is_err());
}

#[test]
fn parse_accepts_comments_and_blank_lines() {
    let text = "# the project\n\n[project]\nname = \"x\"\nversion = \"1\"\nauthors = []\n\n[dependencies]\n";
    let config = Config::from_str(text).unwrap();
    assert_eq!(config.project.name, "x");
}

#[test]
fn parse_reads_dependency_tables() {
    let text = "[project]\nname = \"x\"\nversion = \"1\"\nauthors = []\n[dependencies]\n\
                [dependencies.fmt]\nname = \"fmt\"\nversion = \"10.1\"\n";
    let config = Config::from_str(text).unwrap();
    assert_eq!(config.dependencies.len(), 1);
    assert_eq!(config.dependencies[0].name, "fmt");
    assert_eq!(config.dependencies[0].version, "10.1");
}

#[test]
fn load_distinguishes_absent_and_malformed() {
    assert!(matches!(Config::load(None), Err(ConfigError::NotFound)));
    assert!(matches!(Config::load(Some("not a manifest")), Err(ConfigError::Malformed(_))));
    assert!(Config::load(
        Some("[project]\nname = \"x\"\nversion = \"1\"\nauthors = []\n[dependencies]\n"),
    )
    .is_ok());
}

#[test]
fn load_or_default_falls_back() {
    assert!(Config::load_or_default(None).is_empty());
    assert!(Config::load_or_default(Some("broken [")).is_empty());
    let loaded = Config::load_or_default(
        Some("[project]\nname = \"y\"\nversion = \"2\"\nauthors = []\n[dependencies]\n"),
    );
    assert_eq!(loaded.project.name, "y");
}

#[test]
fn round_trip_keeps_awkward_characters() {
    let config = Config {
        project: Project {
            name: "demo".to_string(),
            version: "0.1.0".to_string(),
            authors: vec!["A, B = C [x]".to_string()],
            description: Some("back\\slash and = signs [brackets], commas".to_string()),
            license: None,
            repository: None,
        },
        dependencies: vec![],
    };
    let text = config.to_text();
    let parsed = Config::from_str(&text).expect("canonical text must parse");
    assert_eq!(parsed.project.authors, config.project.authors);
    assert_eq!(parsed.project.description, config.project.description);
}

#[test]
fn parse_rejects_incomplete_dependency() {
    let text = "[project]\nname = \"x\"\nversion = \"1\"\nauthors = []\n[dependencies]\n\
                [dependencies.a]\nname = \"a\"\n";
    assert!(Config::from_str(text).is_err());
}

#[test]
fn parse_rejects_wrong_value_shape() {
    let text = "[project]\nname = [\"x\"]\nversion = \"1\"\nauthors = []\n[dependencies]\n";
    assert!(Config::from_str(text).is_err());
    let text2 = "[project]\nname = \"x\"\nversion = \"1\"\nauthors = \"me\"\n[dependencies]\n";
    assert!(Config::from_str(text2).is_err());
}

#[test]
fn parse_rejects_empty_name_value() {
    let text = "[project]\nname = \"\"\nversion = \"1\"\nauthors = []\n[dependencies]\n";
    assert!(Config::from_str(text).is_err());
}

#[test]
fn parse_rejects_empty_version_value() {
    let text = "[project]\nname = \"x\"\nversion = \"\"\nauthors = []\n[dependencies]\n";
    assert!(Config::from_str(text).is_err());
}
