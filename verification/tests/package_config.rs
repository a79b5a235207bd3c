use releasaurus::config::{
    AdditionalManifest, AdditionalManifestSpec, PackageConfig, ReleaseType, SubPackage, GENERIC_VERSION_REGEX_PATTERN,
};

/// Reads `additional_manifest_files` entries of a TOML value: a string is a
/// bare path, a table a full entry.
fn specs_from_toml(value: &toml::Value) -> Vec<AdditionalManifestSpec> {
    value
        .as_array()
        .unwrap()
        .iter()
        .map(|v| match v {
            toml::Value::String(s) => AdditionalManifestSpec::Path(s.clone()),
            toml::Value::Table(t) => AdditionalManifestSpec::Full(AdditionalManifest {
                path: t["path"].as_str().unwrap().to_string(),
                version_regex: t.get("version_regex").map(|r| r.as_str().unwrap().to_string()),
            }),
            other => panic!("unexpected entry {other:?}"),
        })
        .collect()
}

fn release_type_from_toml(s: &str) -> ReleaseType {
    match s {
        "generic" => ReleaseType::Generic,
        "node" => ReleaseType::Node,
        "rust" => ReleaseType::Rust,
        "python" => ReleaseType::Python,
        "php" => ReleaseType::Php,
        "ruby" => ReleaseType::Ruby,
        "java" => ReleaseType::Java,
        other => panic!("unknown release type {other}"),
    }
}

#[test]
fn deserializes_string_path_format() {
    let toml = r#"
        additional_manifest_files = ["VERSION", "README.md"]
    "#;
    let table: toml::Table = toml::from_str(toml).unwrap();
    let specs = specs_from_toml(&table["additional_manifest_files"]);
    assert_eq!(specs.len(), 2);
    let manifest1 = specs[0].clone().into_manifest();
    assert_eq!(manifest1.path, "VERSION");
    assert_eq!(manifest1.version_regex, Some(GENERIC_VERSION_REGEX_PATTERN.to_string()));
    let manifest2 = specs[1].clone().into_manifest();
    assert_eq!(manifest2.path, "README.md");
    assert_eq!(manifest2.version_regex, Some(GENERIC_VERSION_REGEX_PATTERN.to_string()));
}

#[test]
fn deserializes_full_object_format() {
    let toml = r#"
        [[additional_manifest_files]]
        path = "VERSION"
        version_regex = "version:\\s*(\\d+\\.\\d+\\.\\d+)"
    "#;
    let table: toml::Table = toml::from_str(toml).unwrap();
    let specs = specs_from_toml(&table["additional_manifest_files"]);
    assert_eq!(specs.len(), 1);
    let manifest = specs[0].clone().into_manifest();
    assert_eq!(manifest.path, "VERSION");
    assert_eq!(manifest.version_regex, Some("version:\\s*(\\d+\\.\\d+\\.\\d+)".to_string()));
}

#[test]
fn deserializes_mixed_format() {
    let toml = r#"
        additional_manifest_files = [
            "VERSION",
            { path = "config.yml", version_regex = "v:\\s*(\\d+\\.\\d+\\.\\d+)" }
        ]
    "#;
    let table: toml::Table = toml::from_str(toml).unwrap();
    let specs = specs_from_toml(&table["additional_manifest_files"]);
    assert_eq!(specs.len(), 2);
    let manifest1 = specs[0].clone().into_manifest();
    assert_eq!(manifest1.path, "VERSION");
    assert_eq!(manifest1.version_regex, Some(GENERIC_VERSION_REGEX_PATTERN.to_string()));
    let manifest2 = specs[1].clone().into_manifest();
    assert_eq!(manifest2.path, "config.yml");
    assert_eq!(manifest2.version_regex, Some("v:\\s*(\\d+\\.\\d+\\.\\d+)".to_string()));
}

#[test]
fn deserializes_full_package_config_with_manifest_files() {
    let toml = r#"
        [[package]]
        path = "."
        release_type = "rust"
        additional_manifest_files = ["VERSION", "README.md"]

        [[package]]
        path = "packages/api"
        release_type = "node"
        additional_manifest_files = [
            "VERSION",
            { path = "config.yml", version_regex = "v:\\s*(\\d+\\.\\d+\\.\\d+)" }
        ]
    "#;
    let table: toml::Table = toml::from_str(toml).unwrap();
    let packages: Vec<PackageConfig> = table["package"]
        .as_array()
        .unwrap()
        .iter()
        .map(|p| PackageConfig {
            path: p["path"].as_str().unwrap().to_string(),
            release_type: Some(release_type_from_toml(p["release_type"].as_str().unwrap())),
            additional_manifest_files: Some(specs_from_toml(&p["additional_manifest_files"])),
            ..Default::default()
        })
        .collect();
    assert_eq!(packages.len(), 2);
    assert_eq!(packages[0].release_type, Some(ReleaseType::Rust));

    let pkg1_specs = packages[0].additional_manifest_files.as_ref().unwrap();
    assert_eq!(pkg1_specs.len(), 2);
    let manifest1 = pkg1_specs[0].clone().into_manifest();
    assert_eq!(manifest1.path, "VERSION");
    assert_eq!(manifest1.version_regex, Some(GENERIC_VERSION_REGEX_PATTERN.to_string()));

    let pkg2_specs = packages[1].additional_manifest_files.as_ref().unwrap();
    assert_eq!(pkg2_specs.len(), 2);
    let manifest2_1 = pkg2_specs[0].clone().into_manifest();
    assert_eq!(manifest2_1.path, "VERSION");
    assert_eq!(manifest2_1.version_regex, Some(GENERIC_VERSION_REGEX_PATTERN.to_string()));
    let manifest2_2 = pkg2_specs[1].clone().into_manifest();
    assert_eq!(manifest2_2.path, "config.yml");
    assert_eq!(manifest2_2.version_regex, Some("v:\\s*(\\d+\\.\\d+\\.\\d+)".to_string()));
}

#[test]
fn normalizes_full_variant_with_none_to_default_pattern() {
    let spec = AdditionalManifestSpec::Full(AdditionalManifest { path: "VERSION".to_string(), version_regex: None });
    let manifest = spec.into_manifest();
    assert_eq!(manifest.path, "VERSION");
    assert_eq!(manifest.version_regex, Some(GENERIC_VERSION_REGEX_PATTERN.to_string()));
}

#[test]
fn preserves_full_variant_custom_regex() {
    let custom_pattern = "custom:\\s*(\\d+\\.\\d+\\.\\d+)".to_string();
    let spec = AdditionalManifestSpec::Full(AdditionalManifest {
        path: "config.yml".to_string(),
        version_regex: Some(custom_pattern.clone()),
    });
    let manifest = spec.into_manifest();
    assert_eq!(manifest.path, "config.yml");
    assert_eq!(manifest.version_regex, Some(custom_pattern));
}

#[test]
fn tag_prefix_requires_resolution() {
    let pkg = PackageConfig { name: "api".into(), ..Default::default() };
    let err = pkg.tag_prefix().unwrap_err();
    assert_eq!(err.message(), "Invalid configuration: failed to resolve tag prefix for package: api");
    let pkg = PackageConfig { tag_prefix: Some("api-v".into()), ..Default::default() };
    assert_eq!(pkg.tag_prefix().unwrap(), "api-v");
}

#[test]
fn sub_package_becomes_package_config() {
    let sub = SubPackage { name: "core".into(), path: "crates/core".into(), release_type: Some(ReleaseType::Rust) };
    let pkg = PackageConfig::from_sub_package(&sub);
    assert_eq!(pkg.path, "crates/core");
    assert_eq!(pkg.release_type, Some(ReleaseType::Rust));
    assert_eq!(pkg.name, "");
    assert_eq!(pkg.workspace_root, ".");
}
