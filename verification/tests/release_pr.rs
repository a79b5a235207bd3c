use std::rc::Rc;
use releasaurus::config::ReleaseType;
use releasaurus::packages::{ReleasablePackage, ReleasableSubPackage};
use releasaurus::release::{Release, Tag};
use releasaurus::error::ReleasaurusError;
use releasaurus::release_pr::{
    combine_branch_prs, gather_release_prs_by_branch, next_release_pr_action, BranchPr, FileChange, FileUpdateType, PRMetadata,
    PRMetadataFields, ReleasePr, ReleasePrAction, ReleasePrEvent, ReleasePrStep, PENDING_LABEL,
};
use releasaurus::version::Version;

fn releasable_package(name: &str, version: &str) -> ReleasablePackage {
    ReleasablePackage {
        name: name.to_string(),
        path: ".".to_string(),
        workspace_root: ".".to_string(),
        sub_packages: vec![],
        release_type: ReleaseType::Node,
        release: Rc::new(Release {
            tag: Tag {
                sha: "test-sha".to_string(),
                name: format!("v{}", version),
                semver: Version::parse(version).unwrap(),
                timestamp: None,
            },
            link: String::new(),
            sha: "test-sha".to_string(),
            commits: vec![],
            include_author: false,
            notes: format!("## {}\n\nRelease notes", version),
            timestamp: 0,
        }),
        manifest_files: None,
        additional_manifest_files: None,
    }
}

#[test]
fn gathers_single_pr_on_shared_branch() {
    let packages = vec![releasable_package("pkg", "1.0.0")];
    let result = gather_release_prs_by_branch(&packages, "main", false);
    assert_eq!(result.len(), 1);
    assert_eq!(result[0].0, "releasaurus-release-main");
    let prs = &result[0].1;
    assert_eq!(prs.len(), 1);
    assert_eq!(prs[0].title, "chore(main): release pkg v1.0.0");
    assert!(prs[0].body.contains("<details open><summary>v1.0.0</summary>"));
}

#[test]
fn combines_multiple_packages_on_shared_branch() {
    let packages = vec![releasable_package("pkg-a", "1.0.0"), releasable_package("pkg-b", "2.0.0")];
    let result = gather_release_prs_by_branch(&packages, "main", false);
    assert_eq!(result.len(), 1);
    assert_eq!(result[0].0, "releasaurus-release-main");
    assert_eq!(result[0].1.len(), 2);
    assert!(result[0].1[0].body.contains("<details><summary>"));
}

#[test]
fn separates_packages_when_configured() {
    let packages = vec![releasable_package("pkg-a", "1.0.0"), releasable_package("pkg-b", "2.0.0")];
    let result = gather_release_prs_by_branch(&packages, "main", true);
    assert_eq!(result.len(), 2);
    assert_eq!(result[0].0, "releasaurus-release-main-pkg-a");
    assert_eq!(result[1].0, "releasaurus-release-main-pkg-b");
    assert!(result[1].1[0].body.contains("<details open>"));
}

#[test]
fn includes_changelog_file_change() {
    let packages = vec![releasable_package("pkg", "1.0.0")];
    let result = gather_release_prs_by_branch(&packages, "main", false);
    let changelog = result[0].1[0].file_changes.iter().find(|fc| fc.path.contains("CHANGELOG.md"));
    assert!(changelog.is_some());
    let changelog = changelog.unwrap();
    assert_eq!(changelog.update_type, FileUpdateType::Prepend);
    assert_eq!(changelog.path, "CHANGELOG.md");
    assert_eq!(changelog.content, "## 1.0.0\n\nRelease notes\n\n");
}

#[test]
fn changelog_path_includes_package_directory() {
    let mut pkg = releasable_package("api", "1.0.0");
    pkg.workspace_root = "services".into();
    pkg.path = "api".into();
    let result = gather_release_prs_by_branch(&vec![pkg], "main", false);
    assert_eq!(result[0].1[0].file_changes[0].path, "services/api/CHANGELOG.md");
}

#[test]
fn body_embeds_metadata_json() {
    let packages = vec![releasable_package("pkg", "1.0.0")];
    let result = gather_release_prs_by_branch(&packages, "main", false);
    let body = &result[0].1[0].body;
    let start = body.find("<!--").unwrap() + 4;
    let end = body.find("-->").unwrap();
    let json: serde_json::Value = serde_json::from_str(&body[start..end]).unwrap();
    assert_eq!(json["metadata"]["name"], "pkg");
    assert_eq!(json["metadata"]["tag"], "v1.0.0");
    assert_eq!(json["metadata"]["notes"], "## 1.0.0\n\nRelease notes");
    assert!(body.starts_with("\n<!--{\"metadata\":{\"name\":\"pkg\""));
    assert!(body.ends_with("## 1.0.0\n\nRelease notes</details>"));
}

#[test]
fn metadata_json_escapes_text() {
    let metadata = PRMetadata {
        metadata: PRMetadataFields { name: "a\"b".into(), tag: "v1".into(), notes: "line\nnext".into() },
    };
    assert_eq!(metadata.to_json(), "{\"metadata\":{\"name\":\"a\\\"b\",\"tag\":\"v1\",\"notes\":\"line\\nnext\"}}");
}

fn pr(title: &str, body: &str, path: &str) -> ReleasePr {
    ReleasePr {
        title: title.to_string(),
        body: body.to_string(),
        file_changes: vec![FileChange { content: "x".into(), path: path.into(), update_type: FileUpdateType::Replace }],
    }
}

#[test]
fn combines_bodies_for_multiple_packages() {
    let combined = combine_branch_prs(
        "main",
        "releasaurus-release-main".to_string(),
        vec![pr("chore(main): release pkg-a v1.0.0", "Body A", "a"), pr("chore(main): release pkg-b v2.0.0", "Body B", "b")],
    );
    assert_eq!(combined.title, "chore(main): release");
    assert_eq!(combined.body, "Body A\nBody B");
    assert_eq!(combined.file_changes.len(), 2);
    assert_eq!(combined.file_changes[1].path, "b");
}

#[test]
fn single_pr_keeps_its_title() {
    let combined = combine_branch_prs("main", "b".to_string(), vec![pr("chore(main): release pkg v1.0.0", "Body", "p")]);
    assert_eq!(combined.title, "chore(main): release pkg v1.0.0");
    assert_eq!(combined.body, "Body");
    assert_eq!(combined.branch, "b");
}

#[test]
fn sub_package_shares_parent_release() {
    let parent = releasable_package("parent", "1.2.3");
    let sub = ReleasableSubPackage { name: "core".into(), path: "crates/core".into(), release_type: ReleaseType::Rust, manifest_files: None };
    let pkg = sub.to_releasable(&parent);
    assert_eq!(pkg.name, "core");
    assert_eq!(pkg.path, "crates/core");
    assert_eq!(pkg.workspace_root, ".");
    assert!(Rc::ptr_eq(&pkg.release, &parent.release));
    assert_eq!(pkg.release.tag.name, "v1.2.3");
}

fn branch_pr() -> BranchPr {
    BranchPr {
        branch: "releasaurus-release-main".to_string(),
        title: "chore(main): release web v1.1.0".to_string(),
        body: "notes".to_string(),
        file_changes: vec![FileChange {
            content: "notes\n\n".to_string(),
            path: "CHANGELOG.md".to_string(),
            update_type: FileUpdateType::Prepend,
        }],
    }
}

#[test]
fn release_pr_run_starts_by_looking_for_a_pending_release() {
    let pr = branch_pr();
    let (step, action) = next_release_pr_action("main", &pr, ReleasePrStep::Start, ReleasePrEvent::Started);
    assert_eq!(step, ReleasePrStep::CheckPending);
    assert!(matches!(action, ReleasePrAction::GetMergedReleasePr { ref head_branch, ref base_branch }
        if head_branch == "releasaurus-release-main" && base_branch == "main"));
}

#[test]
fn pending_release_stops_the_run() {
    let pr = branch_pr();
    let (step, action) = next_release_pr_action("main", &pr, ReleasePrStep::CheckPending, ReleasePrEvent::MergedPr(Some(7)));
    assert_eq!(step, ReleasePrStep::Done);
    assert!(matches!(action, ReleasePrAction::Fail(ReleasaurusError::PendingRelease { ref branch, pr_number: 7 })
        if branch == "releasaurus-release-main"));
}

#[test]
fn release_branch_gets_the_file_changes_with_the_title_as_message() {
    let pr = branch_pr();
    let (step, action) = next_release_pr_action("main", &pr, ReleasePrStep::CheckPending, ReleasePrEvent::MergedPr(None));
    assert_eq!(step, ReleasePrStep::CreateBranch);
    match action {
        ReleasePrAction::CreateReleaseBranch { branch, message, file_changes } => {
            assert_eq!(branch, "releasaurus-release-main");
            assert_eq!(message, "chore(main): release web v1.1.0");
            assert_eq!(file_changes.len(), 1);
            assert_eq!(file_changes[0].path, "CHANGELOG.md");
            assert_eq!(file_changes[0].update_type, FileUpdateType::Prepend);
        },
        other => panic!("unexpected action {other:?}"),
    }
    let (step, action) = next_release_pr_action("main", &pr, ReleasePrStep::CreateBranch, ReleasePrEvent::BranchCreated);
    assert_eq!(step, ReleasePrStep::FindOpenPr);
    assert!(matches!(action, ReleasePrAction::GetOpenReleasePr { ref head_branch, ref base_branch }
        if head_branch == "releasaurus-release-main" && base_branch == "main"));
}

#[test]
fn open_release_pr_is_updated_and_labelled() {
    let pr = branch_pr();
    let (step, action) = next_release_pr_action("main", &pr, ReleasePrStep::FindOpenPr, ReleasePrEvent::OpenPr(Some(12)));
    assert_eq!(step, ReleasePrStep::AwaitUpdate { pr_number: 12 });
    assert!(matches!(action, ReleasePrAction::UpdatePr { pr_number: 12, ref title, ref body }
        if title == "chore(main): release web v1.1.0" && body == "notes"));
    let (step, action) = next_release_pr_action("main", &pr, step, ReleasePrEvent::PrUpdated);
    assert_eq!(step, ReleasePrStep::Labeling);
    assert!(matches!(action, ReleasePrAction::ReplaceLabels { pr_number: 12, ref labels }
        if labels == &vec![PENDING_LABEL.to_string()]));
    let (step, action) = next_release_pr_action("main", &pr, step, ReleasePrEvent::LabelsSet);
    assert_eq!(step, ReleasePrStep::Done);
    assert!(matches!(action, ReleasePrAction::Done));
}

#[test]
fn missing_release_pr_is_created_and_labelled() {
    let pr = branch_pr();
    let (step, action) = next_release_pr_action("main", &pr, ReleasePrStep::FindOpenPr, ReleasePrEvent::OpenPr(None));
    assert_eq!(step, ReleasePrStep::AwaitCreate);
    assert!(matches!(action, ReleasePrAction::CreatePr { ref head_branch, ref base_branch, ref title, ref body }
        if head_branch == "releasaurus-release-main" && base_branch == "main"
            && title == "chore(main): release web v1.1.0" && body == "notes"));
    let (step, action) = next_release_pr_action("main", &pr, step, ReleasePrEvent::PrCreated(31));
    assert_eq!(step, ReleasePrStep::Labeling);
    assert!(matches!(action, ReleasePrAction::ReplaceLabels { pr_number: 31, ref labels }
        if labels == &vec!["releasaurus:pending".to_string()]));
}

#[test]
fn unexpected_reply_fails_the_run() {
    let pr = branch_pr();
    let (step, action) = next_release_pr_action("main", &pr, ReleasePrStep::CreateBranch, ReleasePrEvent::OpenPr(None));
    assert_eq!(step, ReleasePrStep::Done);
    assert!(matches!(action, ReleasePrAction::Fail(ReleasaurusError::Other(ref m)) if m == "unexpected reply from the forge"));
    let (step, action) = next_release_pr_action("main", &pr, ReleasePrStep::Done, ReleasePrEvent::LabelsSet);
    assert_eq!(step, ReleasePrStep::Done);
    assert!(matches!(action, ReleasePrAction::Done));
}

#[test]
fn metadata_json_escapes_quotes_newlines_and_control_characters() {
    let json = PRMetadata { metadata: PRMetadataFields { name: "a\"b\\c".into(), tag: "t\t".into(), notes: "x\ny\u{1}".into() } }
        .to_json();
    assert_eq!(json, r#"{"metadata":{"name":"a\"b\\c","tag":"t\t","notes":"x\ny\u0001"}}"#);
}

#[test]
fn nothing_is_asked_after_a_pending_release() {
    let pr = branch_pr();
    let events = [
        ReleasePrEvent::Started,
        ReleasePrEvent::MergedPr(Some(3)),
        ReleasePrEvent::BranchCreated,
        ReleasePrEvent::OpenPr(None),
        ReleasePrEvent::PrCreated(4),
    ];
    let mut step = ReleasePrStep::Start;
    let mut actions = Vec::new();
    for event in events {
        let (next, action) = next_release_pr_action("main", &pr, step, event);
        step = next;
        actions.push(action);
    }
    assert!(matches!(actions[0], ReleasePrAction::GetMergedReleasePr { .. }));
    assert!(matches!(actions[1], ReleasePrAction::Fail(ReleasaurusError::PendingRelease { pr_number: 3, .. })));
    assert!(actions[2..].iter().all(|a| matches!(a, ReleasePrAction::Done)));
    assert_eq!(step, ReleasePrStep::Done);
}

#[test]
fn shared_branch_keeps_packages_in_input_order() {
    let packages = vec![releasable_package("c", "1.0.0"), releasable_package("a", "2.0.0"), releasable_package("b", "3.0.0")];
    let result = gather_release_prs_by_branch(&packages, "main", false);
    assert_eq!(result.len(), 1);
    let titles: Vec<&str> = result[0].1.iter().map(|p| p.title.as_str()).collect();
    assert_eq!(
        titles,
        vec!["chore(main): release c v1.0.0", "chore(main): release a v2.0.0", "chore(main): release b v3.0.0"]
    );
}
