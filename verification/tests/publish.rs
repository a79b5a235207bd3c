use releasaurus::config::{PackageConfig, ReleaseType, SubPackage};
use releasaurus::error::ReleasaurusError;
use releasaurus::forge::ForgeCommit;
use releasaurus::manifest::FileLoader;
use releasaurus::packages::{get_releasable_packages_for_commits, merge_commit_lists, plan_package_release};
use releasaurus::publish::{
    bump_patch_message, find_package_metadata, metadata_blocks, select_packages, start_next_commit, start_next_release,
};
use releasaurus::release::{Release, Tag};
use releasaurus::release_pr::{PRMetadata, PRMetadataFields};
use releasaurus::version::Version;

fn package(name: &str, path: &str) -> PackageConfig {
    PackageConfig {
        name: name.into(),
        path: path.into(),
        workspace_root: ".".into(),
        release_type: Some(ReleaseType::Generic),
        ..Default::default()
    }
}

fn fields(name: &str, tag: &str, notes: &str) -> PRMetadataFields {
    PRMetadataFields { name: name.into(), tag: tag.into(), notes: notes.into() }
}

fn forge_commit(id: &str, timestamp: i64, files: Vec<&str>) -> ForgeCommit {
    ForgeCommit {
        id: id.into(),
        short_id: id.into(),
        message: "feat: change".into(),
        timestamp,
        files: files.into_iter().map(String::from).collect(),
        ..ForgeCommit::default()
    }
}

#[test]
fn metadata_blocks_reads_each_package_block_in_order() {
    let a = PRMetadata { metadata: fields("a", "a-v1.0.0", "notes a") }.to_json();
    let b = PRMetadata { metadata: fields("b", "b-v2.0.0", "line\n\"quoted\"") }.to_json();
    let body = format!("\n<!--{}-->\n<details open><summary>a</summary>x</details>\n<!--{}-->\n<details>y</details>", a, b);
    let blocks = metadata_blocks(&body).unwrap().unwrap();
    assert_eq!(blocks, vec![a.clone(), b.clone()]);
    assert!(a.starts_with("{\"metadata\":{\"name\":\"a\""));
    assert!(b.contains("\\\"quoted\\\""));
}

#[test]
fn metadata_blocks_of_body_without_metadata_is_empty() {
    let blocks = metadata_blocks("no metadata here").unwrap().unwrap();
    assert!(blocks.is_empty());
}

#[test]
fn find_package_metadata_returns_first_block_of_package() {
    let parsed = vec![Ok(fields("a", "t1", "")), Ok(fields("b", "t2", "")), Ok(fields("b", "t3", ""))];
    assert_eq!(find_package_metadata(&parsed, "b", 7).unwrap(), 1);
    assert_eq!(find_package_metadata(&parsed, "a", 7).unwrap(), 0);
}

#[test]
fn find_package_metadata_reports_missing_package() {
    let parsed = vec![Ok(fields("a", "t1", ""))];
    match find_package_metadata(&parsed, "zed", 42) {
        Err(ReleasaurusError::Other(m)) => assert_eq!(m, "failed to find metadata for package zed in pr 42"),
        other => panic!("unexpected {:?}", other),
    }
}

#[test]
fn find_package_metadata_stops_at_unparsable_block() {
    let parsed = vec![Err("bad json".to_string()), Ok(fields("a", "t1", ""))];
    match find_package_metadata(&parsed, "a", 1) {
        Err(ReleasaurusError::JsonParseError(m)) => assert_eq!(m, "bad json"),
        other => panic!("unexpected {:?}", other),
    }
}

#[test]
fn start_next_commit_touches_every_package() {
    let pkgs = vec![package("root", "."), package("core", "crates/core")];
    let c = start_next_commit(&pkgs, 99);
    assert_eq!(c.id, "dummy");
    assert_eq!(c.message, "fix: dummy commit");
    assert_eq!(c.timestamp, 99);
    assert_eq!(c.files, vec!["dummy.txt".to_string(), "crates/core/dummy.txt".to_string()]);
}

#[test]
fn bump_patch_message_names_branch_package_and_version() {
    let v = Version::parse("1.4.2").unwrap();
    assert_eq!(bump_patch_message("main", "core", &v), "chore(main): bump patch version core - 1.4.2");
}

#[test]
fn select_packages_keeps_named_packages_in_order() {
    let pkgs = vec![package("a", "a"), package("b", "b"), package("c", "c")];
    let names = vec!["c".to_string(), "a".to_string(), "missing".to_string()];
    assert_eq!(select_packages(&pkgs, &names), vec![0, 2]);
}

#[test]
fn merge_commit_lists_dedupes_and_orders_by_time() {
    let lists = vec![
        vec![forge_commit("b", 20, vec!["x"]), forge_commit("a", 10, vec!["x"])],
        vec![forge_commit("a", 10, vec!["x"]), forge_commit("c", 15, vec!["y"])],
    ];
    let merged = merge_commit_lists(&lists);
    let ids: Vec<&str> = merged.iter().map(|c| c.id.as_str()).collect();
    assert_eq!(ids, vec!["a", "c", "b"]);
}

#[test]
fn release_from_record_parses_version_or_falls_back() {
    let r = Release::from_record("1.2.3", "v1.2.3".into(), "link".into(), "sha".into(), vec![], true, "notes".into(), 5);
    assert_eq!(r.tag.semver, Version::parse("1.2.3").unwrap());
    assert_eq!(r.tag.name, "v1.2.3");
    assert!(r.tag.sha.is_empty());
    assert_eq!(r.tag.timestamp, None);
    assert_eq!(r.link, "link");
    assert!(r.include_author);
    let r = Release::from_record("garbage", "x".into(), String::new(), String::new(), vec![], false, String::new(), 0);
    assert_eq!(r.tag.semver, Version::new(0, 0, 0));
}

#[test]
fn plan_package_release_uses_only_the_package_commits() {
    let pkg = package("core", "crates/core");
    let commits = vec![forge_commit("one", 1, vec!["crates/core/src/lib.rs"]), forge_commit("two", 2, vec!["docs/readme.md"])];
    let release = plan_package_release(&pkg, None, &commits).unwrap().unwrap();
    assert_eq!(release.commits.len(), 1);
    assert_eq!(release.commits[0].id, "one");
    let none = plan_package_release(&pkg, None, &commits[1..]).unwrap();
    assert!(none.is_none());
}

struct RepoFiles {
    files: Vec<(String, String)>,
}

impl FileLoader for RepoFiles {
    fn load_file(&self, branch: Option<String>, path: String) -> Result<Option<String>, ReleasaurusError> {
        assert_eq!(branch.as_deref(), Some("main"));
        Ok(self.files.iter().find(|(p, _)| *p == path).map(|(_, c)| c.clone()))
    }
}

#[test]
fn releasable_packages_are_the_packages_with_a_release() {
    let mut web = package("web", "web");
    web.release_type = Some(ReleaseType::Node);
    web.sub_packages = Some(vec![SubPackage { name: "ui".into(), path: "web/ui".into(), release_type: Some(ReleaseType::Node) }]);
    let docs = package("docs", "docs");
    let loader = RepoFiles {
        files: vec![
            ("web/package.json".into(), "{\"version\": \"1.0.0\"}".into()),
            ("web/ui/package.json".into(), "{\"version\": \"1.0.0\"}".into()),
        ],
    };
    let commits = vec![forge_commit("c1", 1, vec!["web/src/index.js"])];
    let out = get_releasable_packages_for_commits(&vec![web, docs], vec![None, None], &commits, &loader, "main").unwrap();
    assert_eq!(out.len(), 1);
    assert_eq!(out[0].name, "web");
    assert_eq!(out[0].release_type, ReleaseType::Node);
    assert_eq!(out[0].release.commits.len(), 1);
    assert_eq!(out[0].release.tag.semver, Version::parse("0.1.0").unwrap());
    let manifests = out[0].manifest_files.as_ref().unwrap();
    assert_eq!(manifests.len(), 1);
    assert_eq!(manifests[0].file_path, "web/package.json");
    assert!(out[0].additional_manifest_files.is_none());
    assert_eq!(out[0].sub_packages.len(), 1);
    assert_eq!(out[0].sub_packages[0].name, "ui");
    assert_eq!(out[0].sub_packages[0].manifest_files.as_ref().unwrap()[0].file_path, "web/ui/package.json");
}

#[test]
fn start_next_release_bumps_every_package() {
    let mut web = package("web", "web");
    web.release_type = Some(ReleaseType::Node);
    let docs = package("docs", "docs");
    let loader = RepoFiles { files: vec![("web/package.json".into(), "{\"version\": \"1.2.3\"}".into())] };
    let tag = Tag { sha: "abc".into(), name: "web-v1.2.3".into(), semver: Version::parse("1.2.3").unwrap(), timestamp: Some(10) };
    let (commit, pkgs, messages) =
        start_next_release(&vec![web, docs], vec![Some(tag), None], &loader, "main", 100).unwrap();
    assert_eq!(commit.message, "fix: dummy commit");
    assert_eq!(commit.files, vec!["web/dummy.txt".to_string(), "docs/dummy.txt".to_string()]);
    assert_eq!(pkgs.len(), 2);
    assert_eq!(pkgs[0].release.tag.semver, Version::parse("1.2.4").unwrap());
    assert_eq!(
        messages,
        vec!["chore(main): bump patch version web - 1.2.4".to_string(), "chore(main): bump patch version docs - 0.1.0".to_string()]
    );
}

struct BrokenFiles;

impl FileLoader for BrokenFiles {
    fn load_file(&self, _branch: Option<String>, path: String) -> Result<Option<String>, ReleasaurusError> {
        Err(ReleasaurusError::forge(format!("cannot read {path}")))
    }
}

#[test]
fn nothing_to_release_needs_no_loader() {
    let mut web = package("web", "web");
    web.release_type = Some(ReleaseType::Node);
    let out = get_releasable_packages_for_commits(&vec![web], vec![None], &vec![], &BrokenFiles, "main").unwrap();
    assert!(out.is_empty());

    let mut web = package("web", "web");
    web.release_type = Some(ReleaseType::Node);
    let tag = Tag { sha: "abc".into(), name: "web-v1.0.0".into(), semver: Version::parse("1.0.0").unwrap(), timestamp: Some(500) };
    let (_, pkgs, messages) = start_next_release(&vec![web], vec![Some(tag)], &BrokenFiles, "main", 100).unwrap();
    assert!(pkgs.is_empty());
    assert!(messages.is_empty());
}

#[test]
fn packages_without_manifest_targets_release_without_loading() {
    let web = package("web", "web");
    let docs = package("docs", "docs");
    let commits = vec![forge_commit("c1", 1, vec!["web/src/index.js", "docs/guide.md"])];
    let out = get_releasable_packages_for_commits(&vec![web, docs], vec![None, None], &commits, &BrokenFiles, "main").unwrap();
    assert_eq!(out.len(), 2);
    assert!(out[0].manifest_files.is_none());
    assert!(out[1].additional_manifest_files.is_none());
}

#[test]
fn failing_plan_is_reported_before_any_load() {
    let mut web = package("web", "web");
    web.analyzer_config.custom_minor_increment_regex = Some("[".into());
    let mut docs = package("docs", "docs");
    docs.release_type = Some(ReleaseType::Node);
    let tag = Tag { sha: "abc".into(), name: "web-v1.0.0".into(), semver: Version::parse("1.0.0").unwrap(), timestamp: Some(0) };
    let commits = vec![forge_commit("c1", 1, vec!["web/src/index.js", "docs/guide.md"])];
    let out = get_releasable_packages_for_commits(&vec![web, docs], vec![Some(tag), None], &commits, &BrokenFiles, "main");
    assert!(matches!(out, Err(ReleasaurusError::RegexError(_))));
}

#[test]
fn start_next_release_reports_missing_prerelease_suffix() {
    let mut web = package("web", "web");
    web.analyzer_config.prerelease = Some(releasaurus::config::PrereleaseConfig {
        suffix: None,
        strategy: releasaurus::config::PrereleaseStrategy::Static,
    });
    let out = start_next_release(&vec![web], vec![None], &BrokenFiles, "main", 100);
    assert!(matches!(out, Err(ReleasaurusError::Other(ref m)) if m == "resolved prerelease config must include suffix"));
}
