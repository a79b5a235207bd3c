use releasaurus::config::{AdditionalManifest, AdditionalManifestSpec, PackageConfig, ReleaseType};
use releasaurus::error::ReleasaurusError;
use releasaurus::manifest::{
    additional_manifest_targets, collect_manifests, load_additional_manifests_for_package, load_manifest_targets,
    load_release_type_manifests_for_package, FileLoader, gen_package_path, gen_workspace_path, release_type_manifest_targets,
    JavaManifestLoader, ManifestTarget, NodeManifestLoader, PhpManifestLoader, RubyManifestLoader,
};

fn package_config(name: &str, path: &str, workspace_root: &str) -> PackageConfig {
    PackageConfig { name: name.to_string(), path: path.to_string(), workspace_root: workspace_root.to_string(), ..Default::default() }
}

#[test]
fn generates_package_path_at_root() {
    let pkg = package_config("pkg", ".", ".");
    assert_eq!(gen_package_path(&pkg, "file.txt"), "file.txt");
}

#[test]
fn generates_package_path_in_subdirectory() {
    let pkg = package_config("pkg", "packages/my-pkg", ".");
    assert_eq!(gen_package_path(&pkg, "file.txt"), "packages/my-pkg/file.txt");
}

#[test]
fn generates_package_path_with_workspace_root() {
    let pkg = package_config("pkg", "src", "workspace");
    assert_eq!(gen_package_path(&pkg, "file.txt"), "workspace/src/file.txt");
}

#[test]
fn generates_workspace_path() {
    let pkg = package_config("pkg", "packages/my-pkg", ".");
    assert_eq!(gen_workspace_path(&pkg, "file.txt"), "file.txt");
}

#[test]
fn generates_workspace_path_with_workspace_root() {
    let pkg = package_config("pkg", "src", "workspace");
    assert_eq!(gen_workspace_path(&pkg, "file.txt"), "workspace/file.txt");
}

fn load(targets: Vec<ManifestTarget>, present: &[(&str, &str)]) -> Option<Vec<releasaurus::manifest::ManifestFile>> {
    let contents: Vec<Option<String>> = targets
        .iter()
        .map(|t| present.iter().find(|(p, _)| *p == t.path).map(|(_, c)| c.to_string()))
        .collect();
    collect_manifests(targets, contents)
}

#[test]
fn node_targets_include_workspace_lock_files_at_root() {
    let pkg = package_config("pkg", ".", ".");
    let targets = NodeManifestLoader::targets(&pkg);
    let paths: Vec<(&str, &str, bool)> = targets.iter().map(|t| (t.path.as_str(), t.basename.as_str(), t.is_workspace)).collect();
    assert_eq!(
        paths,
        vec![
            ("package.json", "package.json", false),
            ("package-lock.json", "package-lock.json", false),
            ("yarn.lock", "yarn.lock", false),
            ("package-lock.json", "package-lock.json", true),
            ("yarn.lock", "yarn.lock", true),
        ]
    );
}

#[test]
fn node_targets_skip_workspace_files_for_subpackage() {
    let pkg = package_config("pkg", "packages/a", ".");
    let targets = NodeManifestLoader::targets(&pkg);
    assert_eq!(targets.len(), 3);
    assert!(targets.iter().all(|t| !t.is_workspace));
    assert_eq!(targets[0].path, "packages/a/package.json");
}

#[test]
fn java_targets_list_gradle_and_maven_files() {
    let pkg = package_config("pkg", ".", ".");
    let targets = JavaManifestLoader::targets(&pkg);
    let paths: Vec<&str> = targets.iter().map(|t| t.path.as_str()).collect();
    assert_eq!(paths, vec!["build.gradle", "lib/build.gradle", "build.gradle.kts", "lib/build.gradle.kts", "gradle.properties", "pom.xml"]);
    assert_eq!(targets[1].basename, "build.gradle");
}

#[test]
fn php_and_ruby_targets() {
    let pkg = package_config("my_gem", "gems/x", "ws");
    let php = PhpManifestLoader::targets(&pkg);
    assert_eq!(php.len(), 1);
    assert_eq!(php[0].path, "ws/gems/x/composer.json");
    let ruby = RubyManifestLoader::targets(&pkg);
    let paths: Vec<(&str, &str)> = ruby.iter().map(|t| (t.path.as_str(), t.basename.as_str())).collect();
    assert_eq!(
        paths,
        vec![
            ("ws/gems/x/my_gem.gemspec", "my_gem.gemspec"),
            ("ws/gems/x/lib/my_gem/version.rb", "version.rb"),
            ("ws/gems/x/lib/version.rb", "version.rb"),
            ("ws/gems/x/version.rb", "version.rb"),
        ]
    );
}

#[test]
fn collect_keeps_only_found_files_in_order() {
    let pkg = package_config("pkg", ".", ".");
    let found = load(JavaManifestLoader::targets(&pkg), &[("pom.xml", "<version>1.0.0</version>"), ("build.gradle", "version = '1.0.0'")]).unwrap();
    assert_eq!(found.len(), 2);
    assert_eq!(found[0].file_basename, "build.gradle");
    assert!(found[0].content.contains("1.0.0"));
    assert_eq!(found[1].file_basename, "pom.xml");
    assert!(load(JavaManifestLoader::targets(&pkg), &[]).is_none());
}

#[test]
fn release_type_targets_follow_release_type() {
    let mut pkg = package_config("pkg", ".", ".");
    assert!(release_type_manifest_targets(&pkg).is_empty());
    pkg.release_type = Some(ReleaseType::Generic);
    assert!(release_type_manifest_targets(&pkg).is_empty());
    pkg.release_type = Some(ReleaseType::Php);
    assert_eq!(release_type_manifest_targets(&pkg)[0].basename, "composer.json");
}

#[test]
fn additional_targets_use_package_path_and_basename() {
    let mut pkg = package_config("pkg", "packages/api", ".");
    pkg.additional_manifest_files = Some(vec![
        AdditionalManifestSpec::Path("VERSION".into()),
        AdditionalManifestSpec::Full(AdditionalManifest { path: "conf/app.yml".into(), version_regex: None }),
    ]);
    let targets = additional_manifest_targets(&pkg).unwrap();
    assert_eq!(targets.len(), 2);
    assert_eq!(targets[0].path, "packages/api/VERSION");
    assert_eq!(targets[0].basename, "VERSION");
    assert_eq!(targets[1].path, "packages/api/conf/app.yml");
    assert_eq!(targets[1].basename, "app.yml");
    pkg.additional_manifest_files = Some(vec![AdditionalManifestSpec::Path("..".into())]);
    assert!(additional_manifest_targets(&pkg).is_err());
}

struct MapLoader {
    branch: Option<String>,
    files: Vec<(String, String)>,
    failing: Option<String>,
}

impl FileLoader for MapLoader {
    fn load_file(&self, branch: Option<String>, path: String) -> Result<Option<String>, ReleasaurusError> {
        assert_eq!(branch, self.branch);
        if self.failing.as_deref() == Some(path.as_str()) {
            return Err(ReleasaurusError::forge(format!("cannot read {path}")));
        }
        Ok(self.files.iter().find(|(p, _)| *p == path).map(|(_, c)| c.clone()))
    }
}

#[test]
fn load_manifest_targets_reads_each_target_through_the_loader() {
    let pkg = package_config("pkg", "web", ".");
    let loader = MapLoader {
        branch: Some("main".to_string()),
        files: vec![("web/package.json".to_string(), "{\"version\": \"1.0.0\"}".to_string())],
        failing: None,
    };
    let found = load_manifest_targets(&loader, Some("main".to_string()), NodeManifestLoader::targets(&pkg)).unwrap().unwrap();
    assert_eq!(found.len(), 1);
    assert_eq!(found[0].file_path, "web/package.json");
    assert_eq!(found[0].file_basename, "package.json");
    assert!(found[0].content.contains("1.0.0"));

    let empty = MapLoader { branch: Some("main".to_string()), files: vec![], failing: None };
    assert!(load_manifest_targets(&empty, Some("main".to_string()), NodeManifestLoader::targets(&pkg)).unwrap().is_none());

    let failing = MapLoader { branch: Some("main".to_string()), files: vec![], failing: Some("web/package.json".to_string()) };
    assert!(load_manifest_targets(&failing, Some("main".to_string()), NodeManifestLoader::targets(&pkg)).is_err());
}

#[test]
fn loaders_read_their_manifests_from_the_default_branch() {
    let mut pkg = package_config("gem", "ruby", ".");
    let loader = MapLoader {
        branch: None,
        files: vec![
            ("ruby/gem.gemspec".to_string(), "spec.version = '1.0.0'".to_string()),
            ("ruby/lib/version.rb".to_string(), "VERSION = '1.0.0'".to_string()),
            ("php/composer.json".to_string(), "{\"version\": \"2.0.0\"}".to_string()),
        ],
        failing: None,
    };
    let ruby = RubyManifestLoader::load_manifests(&loader, &pkg).unwrap().unwrap();
    assert_eq!(ruby.len(), 2);
    assert_eq!(ruby[0].file_path, "ruby/gem.gemspec");
    assert_eq!(ruby[1].file_path, "ruby/lib/version.rb");
    assert!(JavaManifestLoader::load_manifests(&loader, &pkg).unwrap().is_none());

    pkg.release_type = Some(ReleaseType::Ruby);
    assert_eq!(load_release_type_manifests_for_package(&loader, &pkg).unwrap().unwrap().len(), 2);
    pkg.release_type = Some(ReleaseType::Generic);
    assert!(load_release_type_manifests_for_package(&loader, &pkg).unwrap().is_none());

    let php = package_config("php-pkg", "php", ".");
    let found = PhpManifestLoader::load_manifests(&loader, &php).unwrap().unwrap();
    assert_eq!(found[0].file_basename, "composer.json");
    assert!(NodeManifestLoader::load_manifests(&loader, &php).unwrap().is_none());

    let mut extra = package_config("x", "php", ".");
    extra.additional_manifest_files = Some(vec![AdditionalManifestSpec::Path("composer.json".to_string())]);
    let found = load_additional_manifests_for_package(&loader, &extra).unwrap().unwrap();
    assert_eq!(found[0].file_path, "php/composer.json");
    assert!(!found[0].is_workspace);
}

struct BrokenLoader;

impl FileLoader for BrokenLoader {
    fn load_file(&self, _branch: Option<String>, path: String) -> Result<Option<String>, ReleasaurusError> {
        Err(ReleasaurusError::forge(format!("cannot read {path}")))
    }
}

#[test]
fn nothing_to_load_needs_no_loader() {
    assert!(load_manifest_targets(&BrokenLoader, None, vec![]).unwrap().is_none());
    let mut pkg = package_config("pkg", "pkg", ".");
    pkg.release_type = Some(ReleaseType::Generic);
    assert!(load_release_type_manifests_for_package(&BrokenLoader, &pkg).unwrap().is_none());
    pkg.release_type = Some(ReleaseType::Node);
    assert!(load_release_type_manifests_for_package(&BrokenLoader, &pkg).is_err());
}
