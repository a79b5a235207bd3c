use releasaurus::config::{Config, PackageConfig, DEFAULT_COMMIT_SEARCH_DEPTH};



#[test]
fn config_loads_defaults() {
    let config = Config::default();
    assert!(!config.changelog.body.is_empty());
    assert_eq!(
        config.first_release_search_depth,
        DEFAULT_COMMIT_SEARCH_DEPTH
    );
}

#[test]
fn base_branch_returns_value_when_set() {
    let config = Config {
        base_branch: Some("main".into()),
        ..Default::default()
    };

    assert_eq!(config.base_branch().unwrap(), "main");
}

#[test]
fn base_branch_returns_error_when_none() {
    let config = Config {
        base_branch: None,
        ..Default::default()
    };

    assert!(config.base_branch().is_err());
}

#[test]
fn auto_start_next_uses_package_override() {
    let config = Config {
        auto_start_next: Some(false),
        ..Default::default()
    };
    let package = PackageConfig {
        auto_start_next: Some(true),
        ..Default::default()
    };

    assert!(config.auto_start_next(&package));
}

#[test]
fn auto_start_next_uses_global_when_package_not_set() {
    let config = Config {
        auto_start_next: Some(true),
        ..Default::default()
    };
    let package = PackageConfig::default();

    assert!(config.auto_start_next(&package));
}

#[test]
fn auto_start_next_defaults_to_false() {
    let config = Config::default();
    let package = PackageConfig::default();

    assert!(!config.auto_start_next(&package));
}
