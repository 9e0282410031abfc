//! The in-memory model of the project manifest.
//!
//! A `Config` holds the `[project]` metadata and the dependency table.
//! Dependencies are kept as an ordered list; a configuration read from a
//! manifest has pairwise distinct dependency names.

use vstd::prelude::*;

verus! {

/// One entry of the dependency table.
pub struct Dependency {
    /// The name of the dependency, which is also its key in the manifest.
    pub name: String,
    /// The version requirement of the dependency.
    pub version: String,
}

/// The `[project]` section of the manifest.
pub struct Project {
    /// The name of the project.
    pub name: String,
    /// The version of the project.
    pub version: String,
    /// The authors of the project, in order.
    pub authors: Vec<String>,
    /// The description of the project, if any.
    pub description: Option<String>,
    /// The license of the project, if any.
    pub license: Option<String>,
    /// The repository of the project, if any.
    pub repository: Option<String>,
}

/// The configuration of a project: metadata plus dependency table.
pub struct Config {
    pub project: Project,
    pub dependencies: Vec<Dependency>,
}

/// The mathematical value of a `Dependency`.
#[verifier::ext_equal]
pub ghost struct DependencyView {
    pub name: Seq<char>,
    pub version: Seq<char>,
}

/// The mathematical value of a `Project`.
#[verifier::ext_equal]
pub ghost struct ProjectView {
    pub name: Seq<char>,
    pub version: Seq<char>,
    pub authors: Seq<Seq<char>>,
    pub description: Option<Seq<char>>,
    pub license: Option<Seq<char>>,
    pub repository: Option<Seq<char>>,
}

/// The mathematical value of a `Config`.
#[verifier::ext_equal]
pub ghost struct ConfigView {
    pub project: ProjectView,
    pub dependencies: Seq<DependencyView>,
}

impl View for Dependency {
    type V = DependencyView;

    open spec fn view(&self) -> DependencyView {
        DependencyView { name: self.name@, version: self.version@ }
    }
}

impl View for Project {
    type V = ProjectView;

    open spec fn view(&self) -> ProjectView {
        ProjectView {
            name: self.name@,
            version: self.version@,
            authors: self.authors@.map_values(|a: String| a@),
            description: match self.description {
                Some(d) => Some(d@),
                None => None,
            },
            license: match self.license {
                Some(l) => Some(l@),
                None => None,
            },
            repository: match self.repository {
                Some(r) => Some(r@),
                None => None,
            },
        }
    }
}

impl View for Config {
    type V = ConfigView;

    open spec fn view(&self) -> ConfigView {
        ConfigView {
            project: self.project@,
            dependencies: self.dependencies@.map_values(|d: Dependency| d@),
        }
    }
}

impl ConfigView {
    /// The all-empty configuration: what a project without a manifest gets.
    pub open spec fn empty() -> ConfigView {
        ConfigView {
            project: ProjectView {
                name: Seq::empty(),
                version: Seq::empty(),
                authors: Seq::empty(),
                description: None,
                license: None,
                repository: None,
            },
            dependencies: Seq::empty(),
        }
    }

    /// Emptiness of a configuration: both the project name and the project
    /// version are the empty string.
    pub open spec fn is_empty(self) -> bool {
        self.project.name.len() == 0 && self.project.version.len() == 0
    }
}

impl Config {
    /// The default (empty) configuration, used when no manifest is found.
    /// It always satisfies the emptiness predicate.
    pub fn default() -> (r: Config)
        ensures
            r@ == ConfigView::empty(),
            r@.is_empty(),
    {
        let r = Config {
            project: Project {
                name: String::new(),
                version: String::new(),
                authors: Vec::new(),
                description: None,
                license: None,
                repository: None,
            },
            dependencies: Vec::new(),
        };
        proof {
            assert(r@.project.authors =~= ConfigView::empty().project.authors);
            assert(r@.dependencies =~= ConfigView::empty().dependencies);
            assert(r@ =~~= ConfigView::empty());
        }
        r
    }

    /// Whether the configuration is empty: no project name and no version.
    pub fn is_empty(&self) -> (r: bool)
        ensures
            r == self@.is_empty(),
    {
        self.project.name.as_str().is_empty() && self.project.version.as_str().is_empty()
    }
}

/// Why a configuration could not be loaded: the manifest is absent, or its
/// text is malformed.
pub enum ConfigError {
    NotFound,
    Malformed(crate::manifest::ParseError),
}

/// The configuration a manifest text yields when absence and malformation
/// fall back to the default.
pub open spec fn spec_load_or_default(t: Option<Seq<char>>) -> ConfigView {
    match t {
        None => ConfigView::empty(),
        Some(s) => match crate::manifest::spec_parse(s) {
            Some(c) => c,
            None => ConfigView::empty(),
        },
    }
}

impl Config {
    /// Load the configuration from the manifest's text; `None` stands for an
    /// absent manifest. Absence and malformation are distinguished, so that
    /// a caller may treat absence as recoverable.
    pub fn load(manifest_text: Option<&str>) -> (r: Result<Config, ConfigError>)
        ensures
            match manifest_text {
                None => r matches Err(ConfigError::NotFound),
                Some(t) => match crate::manifest::spec_parse(t@) {
                    Some(c) => r matches Ok(cfg) && cfg@ == c,
                    None => r matches Err(ConfigError::Malformed(_)),
                },
            },
    {
        match manifest_text {
            None => Err(ConfigError::NotFound),
            Some(t) => match Config::from_str(t) {
                Ok(c) => Ok(c),
                Err(e) => Err(ConfigError::Malformed(e)),
            },
        }
    }

    /// Load the configuration, substituting the default when the manifest is
    /// absent or malformed.
    pub fn load_or_default(manifest_text: Option<&str>) -> (r: Config)
        ensures
            r@ == match manifest_text {
                None => spec_load_or_default(None),
                Some(t) => spec_load_or_default(Some(t@)),
            },
    {
        match manifest_text {
            None => Config::default(),
            Some(t) => match Config::from_str(t) {
                Ok(c) => c,
                Err(_) => Config::default(),
            },
        }
    }
}

impl core::default::Default for Config {
    /// Same value as `Config::default`; kept so that callers may also reach
    /// it through the standard trait.
    fn default() -> (r: Config)
        ensures
            r@ == ConfigView::empty(),
    {
        Config::default()
    }
}

} // verus!
