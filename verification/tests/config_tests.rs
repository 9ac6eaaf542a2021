use asimeow::config::{
    default_config, default_config_path, expand_root, expand_tilde, find_config_file, ConfigError,
};

#[test]
fn find_config_specified_and_existing_wins() {
    let p = String::from("/etc/asimeow.yaml");
    let r = find_config_file(Some(&p), true, true, None, false);
    assert_eq!(r.unwrap(), "/etc/asimeow.yaml");
}

#[test]
fn find_config_specified_but_missing_is_an_error() {
    let p = String::from("/etc/asimeow.yaml");
    let r = find_config_file(Some(&p), false, true, None, false);
    match r {
        Err(ConfigError::SpecifiedConfigNotFound { path }) => {
            assert_eq!(path, "/etc/asimeow.yaml");
        }
        _ => panic!("expected SpecifiedConfigNotFound"),
    }
    let e = find_config_file(Some(&p), false, true, None, false).unwrap_err();
    assert_eq!(
        e.describe(),
        "Specified config file not found: /etc/asimeow.yaml"
    );
}

#[test]
fn find_config_prefers_local_file() {
    let r = find_config_file(None, false, true, None, false);
    assert_eq!(r.unwrap(), "config.yaml");
}

#[test]
fn find_config_falls_back_to_home() {
    let home = String::from("/home/u");
    let r = find_config_file(None, false, false, Some(&home), true);
    assert_eq!(r.unwrap(), "/home/u/.config/asimeow/config.yaml");
}

#[test]
fn find_config_reports_missing_home_and_missing_file() {
    let r = find_config_file(None, false, false, None, false);
    assert!(matches!(r, Err(ConfigError::NoHomeDir)));
    let home = String::from("/home/u");
    let r2 = find_config_file(None, false, false, Some(&home), false);
    assert!(matches!(r2, Err(ConfigError::NoConfigFound)));
}

#[test]
fn default_config_path_choices() {
    let p = String::from("/tmp/c.yaml");
    assert_eq!(default_config_path(Some(&p), false, None).unwrap(), "/tmp/c.yaml");
    assert_eq!(default_config_path(None, true, None).unwrap(), "config.yaml");
    let home = String::from("/home/u");
    assert_eq!(
        default_config_path(None, false, Some(&home)).unwrap(),
        "/home/u/.config/asimeow/config.yaml"
    );
    assert!(matches!(
        default_config_path(None, false, None),
        Err(ConfigError::NoHomeDir)
    ));
}

#[test]
fn default_config_has_common_rules() {
    let c = default_config();
    assert_eq!(c.roots.len(), 1);
    assert_eq!(c.roots[0].path, "~/");
    assert_eq!(c.ignore, vec![String::from(".git")]);
    assert_eq!(c.rules.len(), 15);
    assert_eq!(c.rules[0].name, "net");
    assert_eq!(c.rules[0].file_match, "*.csproj");
    assert_eq!(
        c.rules[0].exclusions,
        vec![
            String::from("obj"),
            String::from("bin"),
            String::from("packages")
        ]
    );
    assert_eq!(c.rules[3].name, "node");
    assert_eq!(c.rules[3].file_match, "package.json");
    assert_eq!(
        c.rules[3].exclusions,
        vec![String::from("node_modules"), String::from("dist")]
    );
    assert_eq!(c.rules[14].name, "project");
    assert_eq!(c.rules[14].file_match, "*.prj");
    assert_eq!(
        c.rules[14].exclusions,
        vec![String::from("bin"), String::from("debug")]
    );
}

#[test]
fn expand_root_cases() {
    let home = Some(String::from("/home/u"));
    let plain = String::from("/srv/data");
    assert_eq!(expand_root(&plain, &home).unwrap(), "/srv/data");
    let tilde = String::from("~/projects");
    assert_eq!(expand_root(&tilde, &home).unwrap(), "/home/u/projects");
    let no_home: Option<String> = None;
    assert_eq!(expand_root(&plain, &no_home).unwrap(), "/srv/data");
    assert!(matches!(
        expand_root(&tilde, &no_home),
        Err(ConfigError::NoHomeDir)
    ));
    let bare = String::from("~/");
    assert_eq!(expand_root(&bare, &home).unwrap(), "/home/u/");
}

#[test]
fn expand_tilde_leaves_plain_paths_alone() {
    let plain = String::from("relative/path");
    assert_eq!(expand_tilde(&plain).unwrap(), "relative/path");
}

#[test]
fn error_descriptions() {
    assert_eq!(
        ConfigError::EmptyRoots.describe(),
        "No root paths defined in config file"
    );
    assert_eq!(
        ConfigError::NoHomeDir.describe(),
        "Could not determine home directory"
    );
}
