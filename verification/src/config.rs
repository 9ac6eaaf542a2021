//! Configuration: the validated object the traversal consumes.
//!
//! A configuration names root directories to scan, glob patterns for
//! directories to ignore, and rules.  A rule recognizes a project by a
//! marker-file glob and lists the subdirectory names to exclude from the
//! backup.  Reading and parsing a configuration file is the surrounding
//! binary's job; this module holds the data model, the decisions about
//! where a configuration file lives, and tilde expansion of root paths.

use crate::paths::{expand_tilde_with, join_path, spec_expand_tilde_with, spec_has_tilde_prefix,
    spec_join};
use vstd::prelude::*;

verus! {

/// A root directory to scan; `~/` is expanded against the home directory.
pub struct Root {
    pub path: String,
}

impl View for Root {
    type V = Seq<char>;

    open spec fn view(&self) -> Seq<char> {
        self.path@
    }
}

impl DeepView for Root {
    type V = Seq<char>;

    open spec fn deep_view(&self) -> Seq<char> {
        self.path@
    }
}

/// The mathematical content of a [`Rule`].
#[verifier::ext_equal]
pub ghost struct RuleV {
    pub name: Seq<char>,
    pub file_match: Seq<char>,
    pub exclusions: Seq<Seq<char>>,
}

/// A project rule: a marker-file glob and the entry names to exclude from
/// the backup in any directory that holds a matching marker.
pub struct Rule {
    pub name: String,
    pub file_match: String,
    pub exclusions: Vec<String>,
}

impl View for Rule {
    type V = RuleV;

    open spec fn view(&self) -> RuleV {
        RuleV {
            name: self.name@,
            file_match: self.file_match@,
            exclusions: self.exclusions.deep_view(),
        }
    }
}

impl DeepView for Rule {
    type V = RuleV;

    open spec fn deep_view(&self) -> RuleV {
        self.view()
    }
}

/// A validated configuration: the roots to scan, the ignore patterns, and
/// the rules.
pub struct Config {
    pub roots: Vec<Root>,
    pub ignore: Vec<String>,
    pub rules: Vec<Rule>,
}

/// Why a run could not start or a configuration path could not be resolved.
#[derive(Debug)]
pub enum ConfigError {
    /// The configuration names no root directories.
    EmptyRoots,
    /// A root or candidate path needs `~/` expansion but the platform
    /// reports no home directory.
    NoHomeDir,
    /// An explicitly given configuration file does not exist.
    SpecifiedConfigNotFound { path: String },
    /// No configuration file was found in any of the searched places.
    NoConfigFound,
}

impl ConfigError {
    /// A human-readable description of the error.
    pub fn describe(&self) -> (r: String)
        ensures
            match self {
                ConfigError::EmptyRoots => r@ == "No root paths defined in config file"@,
                ConfigError::NoHomeDir => r@ == "Could not determine home directory"@,
                ConfigError::SpecifiedConfigNotFound { path } => r@
                    == "Specified config file not found: "@ + path@,
                ConfigError::NoConfigFound => r@
                    == "No configuration file found. Run 'asimeow init' to create one in ~/.config/asimeow/ or 'asimeow init --local' for the current directory."@,
            },
    {
        match self {
            ConfigError::EmptyRoots => String::from_str("No root paths defined in config file"),
            ConfigError::NoHomeDir => String::from_str("Could not determine home directory"),
            ConfigError::SpecifiedConfigNotFound { path } => {
                let mut out = String::from_str("Specified config file not found: ");
                out.append(path.as_str());
                out
            },
            ConfigError::NoConfigFound => String::from_str(
                "No configuration file found. Run 'asimeow init' to create one in ~/.config/asimeow/ or 'asimeow init --local' for the current directory.",
            ),
        }
    }
}

/// Whether `r` is the rule with the given name, marker glob and exclusion
/// names.
pub open spec fn rule_is(
    r: RuleV,
    name: Seq<char>,
    file_match: Seq<char>,
    exclusions: Seq<Seq<char>>,
) -> bool {
    r.name == name && r.file_match == file_match && r.exclusions == exclusions
}

fn mk_rule1(name: &str, file_match: &str, e1: &str) -> (r: Rule)
    ensures
        rule_is(r@, name@, file_match@, seq![e1@]),
{
    let mut ex: Vec<String> = Vec::new();
    ex.push(String::from_str(e1));
    let r = Rule {
        name: String::from_str(name),
        file_match: String::from_str(file_match),
        exclusions: ex,
    };
    proof {
        assert(r@.exclusions =~= seq![e1@]);
    }
    r
}

fn mk_rule2(name: &str, file_match: &str, e1: &str, e2: &str) -> (r: Rule)
    ensures
        rule_is(r@, name@, file_match@, seq![e1@, e2@]),
{
    let mut ex: Vec<String> = Vec::new();
    ex.push(String::from_str(e1));
    ex.push(String::from_str(e2));
    let r = Rule {
        name: String::from_str(name),
        file_match: String::from_str(file_match),
        exclusions: ex,
    };
    proof {
        assert(r@.exclusions =~= seq![e1@, e2@]);
    }
    r
}

fn mk_rule3(name: &str, file_match: &str, e1: &str, e2: &str, e3: &str) -> (r: Rule)
    ensures
        rule_is(r@, name@, file_match@, seq![e1@, e2@, e3@]),
{
    let mut ex: Vec<String> = Vec::new();
    ex.push(String::from_str(e1));
    ex.push(String::from_str(e2));
    ex.push(String::from_str(e3));
    let r = Rule {
        name: String::from_str(name),
        file_match: String::from_str(file_match),
        exclusions: ex,
    };
    proof {
        assert(r@.exclusions =~= seq![e1@, e2@, e3@]);
    }
    r
}

/// The default configuration: scan the home directory, ignore `.git`, and
/// recognize common development project types.
pub fn default_config() -> (r: Config)
    ensures
        r.roots@.len() == 1,
        r.roots@[0]@ == "~/"@,
        r.ignore@.len() == 1,
        r.ignore@[0]@ == ".git"@,
        r.rules@.len() == 15,
        rule_is(r.rules@[0]@, "net"@, "*.csproj"@, seq!["obj"@, "bin"@, "packages"@]),
        rule_is(r.rules@[1]@, "rust"@, "cargo.toml"@, seq!["target"@]),
        rule_is(r.rules@[2]@, "go"@, "go.mod"@, seq!["vendor"@]),
        rule_is(r.rules@[3]@, "node"@, "package.json"@, seq!["node_modules"@, "dist"@]),
        rule_is(r.rules@[4]@, "python"@, "requirements.txt"@, seq!["__pycache__"@, ".venv"@]),
        rule_is(r.rules@[5]@, "java"@, "pom.xml"@, seq!["target"@]),
        rule_is(r.rules@[6]@, "php"@, "composer.json"@, seq!["vendor"@]),
        rule_is(r.rules@[7]@, "vagrant"@, "Vagrantfile"@, seq![".vagrant"@]),
        rule_is(r.rules@[8]@, "bower"@, "bower.json"@, seq!["bower_components"@]),
        rule_is(r.rules@[9]@, "haskell"@, "stack.yaml"@, seq![".stack-work"@]),
        rule_is(r.rules@[10]@, "carthage"@, "Cartfile"@, seq!["Carthage"@]),
        rule_is(r.rules@[11]@, "cocoapods"@, "Podfile"@, seq!["Pods"@]),
        rule_is(r.rules@[12]@, "swift"@, "Package.swift"@, seq![".build"@]),
        rule_is(r.rules@[13]@, "elixir"@, "mix.exs"@, seq!["_build"@]),
        rule_is(r.rules@[14]@, "project"@, "*.prj"@, seq!["bin"@, "debug"@]),
{
    let mut roots: Vec<Root> = Vec::new();
    roots.push(Root { path: String::from_str("~/") });
    let mut ignore: Vec<String> = Vec::new();
    ignore.push(String::from_str(".git"));
    let mut rules: Vec<Rule> = Vec::new();
    rules.push(mk_rule3("net", "*.csproj", "obj", "bin", "packages"));
    rules.push(mk_rule1("rust", "cargo.toml", "target"));
    rules.push(mk_rule1("go", "go.mod", "vendor"));
    rules.push(mk_rule2("node", "package.json", "node_modules", "dist"));
    rules.push(mk_rule2("python", "requirements.txt", "__pycache__", ".venv"));
    rules.push(mk_rule1("java", "pom.xml", "target"));
    rules.push(mk_rule1("php", "composer.json", "vendor"));
    rules.push(mk_rule1("vagrant", "Vagrantfile", ".vagrant"));
    rules.push(mk_rule1("bower", "bower.json", "bower_components"));
    rules.push(mk_rule1("haskell", "stack.yaml", ".stack-work"));
    rules.push(mk_rule1("carthage", "Cartfile", "Carthage"));
    rules.push(mk_rule1("cocoapods", "Podfile", "Pods"));
    rules.push(mk_rule1("swift", "Package.swift", ".build"));
    rules.push(mk_rule1("elixir", "mix.exs", "_build"));
    rules.push(mk_rule2("project", "*.prj", "bin", "debug"));
    Config { roots, ignore, rules }
}

/// Relies on `dirs::home_dir`: the user's home directory, if the platform
/// reports one.  The result depends on the environment, so nothing is
/// promised of it.
#[verifier::external_body]
pub(crate) fn home_dir_string() -> (r: Option<String>) {
    dirs::home_dir().map(|p| p.to_string_lossy().into_owned())
}

/// What expanding a root path against a (possibly absent) home directory
/// yields: paths without a `~/` prefix pass through unchanged; a `~/` prefix
/// needs a home directory and is joined to it.
pub open spec fn spec_expand_root(path: Seq<char>, home: Option<Seq<char>>) -> Result<
    Seq<char>,
    ConfigError,
> {
    if spec_has_tilde_prefix(path) {
        match home {
            Some(h) => Ok(spec_expand_tilde_with(path, h)),
            None => Err(ConfigError::NoHomeDir),
        }
    } else {
        Ok(path)
    }
}

/// Expand a root path against a home directory already in hand.
pub fn expand_root(path: &String, home: &Option<String>) -> (r: Result<String, ConfigError>)
    ensures
        match r {
            Ok(p) => spec_expand_root(path@, home.deep_view()) == Ok::<Seq<char>, ConfigError>(p@),
            Err(e) => spec_expand_root(path@, home.deep_view()) == Err::<Seq<char>, ConfigError>(e),
        },
{
    let n = path.as_str().unicode_len();
    if n >= 2 && path.as_str().get_char(0) == '~' && path.as_str().get_char(1) == '/' {
        match home {
            Some(h) => Ok(expand_tilde_with(path.as_str(), h.as_str())),
            None => Err(ConfigError::NoHomeDir),
        }
    } else {
        Ok(path.clone())
    }
}

/// Expand a leading `~/` in `path` against the home directory the platform
/// reports; fails only when the expansion is needed and no home directory
/// is available.
pub fn expand_tilde(path: &String) -> (r: Result<String, ConfigError>)
    ensures
        r matches Ok(p) ==> exists|h: Option<Seq<char>>|
            spec_expand_root(path@, h) == Ok::<Seq<char>, ConfigError>(p@),
        r matches Err(e) ==> e == ConfigError::NoHomeDir && spec_has_tilde_prefix(path@),
        !spec_has_tilde_prefix(path@) ==> (r matches Ok(p) && p@ == path@),
{
    let home = home_dir_string();
    let ghost h = home.deep_view();
    let r = expand_root(path, &home);
    proof {
        if r is Ok {
            assert(spec_expand_root(path@, h) == Ok::<Seq<char>, ConfigError>(r->Ok_0@));
        }
    }
    r
}

/// Find the configuration file, given which candidates exist on disk.
///
/// An explicitly `specified` path wins when it exists and is an error when
/// it does not; otherwise `config.yaml` in the current directory
/// (`local_exists`); otherwise `.config/asimeow/config.yaml` under the home
/// directory (`home_config_exists` reports whether that candidate exists).
pub fn find_config_file(
    specified: Option<&String>,
    specified_exists: bool,
    local_exists: bool,
    home: Option<&String>,
    home_config_exists: bool,
) -> (r: Result<String, ConfigError>)
    ensures
        match specified {
            Some(p) => {
                if specified_exists {
                    r matches Ok(q) && q@ == p@
                } else {
                    r matches Err(e) && e matches ConfigError::SpecifiedConfigNotFound { path }
                        && path@ == p@
                }
            },
            None => {
                if local_exists {
                    r matches Ok(q) && q@ == "config.yaml"@
                } else {
                    match home {
                        None => r == Err::<String, ConfigError>(ConfigError::NoHomeDir),
                        Some(h) => {
                            if home_config_exists {
                                r matches Ok(q) && q@ == spec_join(
                                    h@,
                                    ".config/asimeow/config.yaml"@,
                                )
                            } else {
                                r == Err::<String, ConfigError>(ConfigError::NoConfigFound)
                            }
                        },
                    }
                }
            },
        },
{
    match specified {
        Some(p) => {
            if specified_exists {
                Ok(p.clone())
            } else {
                Err(ConfigError::SpecifiedConfigNotFound { path: p.clone() })
            }
        },
        None => {
            if local_exists {
                Ok(String::from_str("config.yaml"))
            } else {
                match home {
                    None => Err(ConfigError::NoHomeDir),
                    Some(h) => {
                        if home_config_exists {
                            Ok(join_path(h.as_str(), ".config/asimeow/config.yaml"))
                        } else {
                            Err(ConfigError::NoConfigFound)
                        }
                    },
                }
            }
        },
    }
}

/// Where a fresh default configuration file should be written: an explicit
/// path wins; otherwise `config.yaml` in the current directory when `local`
/// is set; otherwise `.config/asimeow/config.yaml` under the home directory.
pub fn default_config_path(specified: Option<&String>, local: bool, home: Option<&String>) -> (r:
    Result<String, ConfigError>)
    ensures
        match specified {
            Some(p) => r matches Ok(q) && q@ == p@,
            None => {
                if local {
                    r matches Ok(q) && q@ == "config.yaml"@
                } else {
                    match home {
                        Some(h) => r matches Ok(q) && q@ == spec_join(
                            h@,
                            ".config/asimeow/config.yaml"@,
                        ),
                        None => r == Err::<String, ConfigError>(ConfigError::NoHomeDir),
                    }
                }
            },
        },
{
    match specified {
        Some(p) => Ok(p.clone()),
        None => {
            if local {
                Ok(String::from_str("config.yaml"))
            } else {
                match home {
                    Some(h) => Ok(join_path(h.as_str(), ".config/asimeow/config.yaml")),
                    None => Err(ConfigError::NoHomeDir),
                }
            }
        },
    }
}

} // verus!
