use releasaurus::analyzer_config::AnalyzerConfig;
use releasaurus::config::PrereleaseStrategy;
use releasaurus::forge::ForgeCommit;
use releasaurus::group::GroupParser;
use releasaurus::helpers::{
    parse_projected_release_notes, strip_extra_lines, strip_trailing_previous_release, try_parse_projected_release_notes,
    try_strip_trailing_previous_release, update_release_with_commit,
};
use releasaurus::release::Release;
use releasaurus::version::{add_prerelease, graduate_prerelease, Version};

fn forge_commit(
    id: &str,
    short_id: &str,
    author_name: &str,
    author_email: &str,
    merge_commit: bool,
    message: &str,
    timestamp: i64,
) -> ForgeCommit {
    ForgeCommit {
        id: id.to_string(),
        short_id: short_id.to_string(),
        link: format!("https://example.com/commit/{id}"),
        author_name: author_name.to_string(),
        author_email: author_email.to_string(),
        merge_commit,
        message: message.to_string(),
        timestamp,
        files: vec![],
    }
}

#[test]
fn test_update_release_with_commit() {
    let analyzer_config = AnalyzerConfig::default();
    let group_parser = GroupParser::new();
    let mut release = Release::default();
    let c1 = forge_commit("commit1", "comm1", "Author 1", "author1@example.com", false, "fix: first commit", 1640995200);
    let c2 = forge_commit("commit2", "comm2", "Author 2", "author2@example.com", true, "feat: second commit", 1640995300);
    update_release_with_commit(&group_parser, &mut release, &c1, &analyzer_config);
    update_release_with_commit(&group_parser, &mut release, &c2, &analyzer_config);
    assert_eq!(release.commits.len(), 1);
    assert_eq!(release.sha, "commit1");
    assert_eq!(release.timestamp, 1640995200);
}

#[test]
fn test_strip_extra_lines_removes_triple_newlines() {
    assert_eq!(strip_extra_lines("Line 1\n\n\nLine 2"), "Line 1\n\nLine 2");
}

#[test]
fn test_strip_extra_lines_removes_many_newlines() {
    assert_eq!(strip_extra_lines("Line 1\n\n\n\n\n\n\nLine 2"), "Line 1\n\nLine 2");
}

#[test]
fn test_strip_extra_lines_preserves_single_newlines() {
    assert_eq!(strip_extra_lines("Line 1\nLine 2\nLine 3"), "Line 1\nLine 2\nLine 3");
}

#[test]
fn test_strip_extra_lines_preserves_double_newlines() {
    assert_eq!(strip_extra_lines("Line 1\n\nLine 2\n\nLine 3"), "Line 1\n\nLine 2\n\nLine 3");
}

#[test]
fn test_strip_extra_lines_handles_empty_string() {
    assert_eq!(strip_extra_lines(""), "");
}

#[test]
fn test_strip_extra_lines_handles_only_newlines() {
    assert_eq!(strip_extra_lines("\n\n\n\n"), "");
}

#[test]
fn test_strip_extra_lines_trims_leading_and_trailing() {
    assert_eq!(strip_extra_lines("\n\n\nLine 1\n\n\nLine 2\n\n\n"), "Line 1\n\nLine 2");
}

#[test]
fn test_strip_extra_lines_real_changelog_example() {
    let input = r#"# Changelog


## [1.0.0] - 2022-01-01


### Features

- Added new feature



### Bug Fixes

- Fixed bug 1


- Fixed bug 2



## [0.9.0] - 2021-12-01



### Features

- Initial release"#;
    let result = strip_extra_lines(input);
    assert!(!result.contains("\n\n\n"));
    assert!(result.contains("\n\n"));
    assert!(!result.is_empty());
}

#[test]
fn test_update_release_with_commit_skip_ci() {
    let analyzer_config = AnalyzerConfig { skip_ci: true, ..AnalyzerConfig::default() };
    let group_parser = GroupParser::new();
    let mut release = Release::default();
    let ci = forge_commit("ci123", "ci1", "CI Bot", "ci@example.com", false, "ci: update workflow", 1640995100);
    let feat = forge_commit("feat123", "feat1", "Developer", "dev@example.com", false, "feat: add feature", 1640995200);
    update_release_with_commit(&group_parser, &mut release, &ci, &analyzer_config);
    update_release_with_commit(&group_parser, &mut release, &feat, &analyzer_config);
    assert_eq!(release.commits.len(), 1);
    assert_eq!(release.commits[0].id, "feat123");
}

#[test]
fn test_update_release_with_commit_skip_chore() {
    let analyzer_config = AnalyzerConfig { skip_chore: true, ..AnalyzerConfig::default() };
    let group_parser = GroupParser::new();
    let mut release = Release::default();
    let chore = forge_commit("chore123", "cho1", "Maintainer", "maint@example.com", false, "chore: update deps", 1640995100);
    let fix = forge_commit("fix123", "fi1", "Developer", "dev@example.com", false, "fix: bug fix", 1640995200);
    update_release_with_commit(&group_parser, &mut release, &chore, &analyzer_config);
    update_release_with_commit(&group_parser, &mut release, &fix, &analyzer_config);
    assert_eq!(release.commits.len(), 1);
    assert_eq!(release.commits[0].id, "fix123");
}

#[test]
fn test_update_release_with_commit_skip_miscellaneous() {
    let analyzer_config = AnalyzerConfig { skip_miscellaneous: true, ..AnalyzerConfig::default() };
    let group_parser = GroupParser::new();
    let mut release = Release::default();
    let misc = forge_commit("misc123", "mi1", "Random", "random@example.com", false, "random message", 1640995100);
    let feat = forge_commit("feat123", "fe1", "Developer", "dev@example.com", false, "feat: add feature", 1640995200);
    update_release_with_commit(&group_parser, &mut release, &misc, &analyzer_config);
    update_release_with_commit(&group_parser, &mut release, &feat, &analyzer_config);
    assert_eq!(release.commits.len(), 1);
    assert_eq!(release.commits[0].id, "feat123");
}

fn five_commits() -> Vec<ForgeCommit> {
    vec![
        forge_commit("ci123", "ci1", "CI Bot", "ci@example.com", false, "ci: update workflow", 1640995100),
        forge_commit("chore123", "ch1", "Maintainer", "maint@example.com", false, "chore: update deps", 1640995200),
        forge_commit("misc123", "mi1", "Random", "random@example.com", false, "random message", 1640995300),
        forge_commit("feat123", "fe1", "Developer", "dev@example.com", false, "feat: add feature", 1640995400),
        forge_commit("fix123", "fi1", "Developer", "dev@example.com", false, "fix: bug fix", 1640995500),
    ]
}

#[test]
fn test_update_release_with_commit_skip_multiple_types() {
    let analyzer_config = AnalyzerConfig {
        skip_ci: true,
        skip_chore: true,
        skip_miscellaneous: true,
        ..AnalyzerConfig::default()
    };
    let group_parser = GroupParser::new();
    let mut release = Release::default();
    for commit in &five_commits() {
        update_release_with_commit(&group_parser, &mut release, commit, &analyzer_config);
    }
    assert_eq!(release.commits.len(), 2);
    assert_eq!(release.commits[0].id, "feat123");
    assert_eq!(release.commits[1].id, "fix123");
}

#[test]
fn test_update_release_with_commit_preserves_author_info() {
    let analyzer_config = AnalyzerConfig::default();
    let group_parser = GroupParser::new();
    let mut release = Release::default();
    let c = forge_commit("author123", "au1", "Jane Smith", "jane.smith@example.com", false, "feat: new feature", 1640995100);
    update_release_with_commit(&group_parser, &mut release, &c, &analyzer_config);
    assert_eq!(release.commits.len(), 1);
    assert_eq!(release.commits[0].author_name, "Jane Smith");
    assert_eq!(release.commits[0].author_email, "jane.smith@example.com");
}

#[test]
fn test_update_release_with_commit_author_info_with_skip_options() {
    let analyzer_config = AnalyzerConfig { skip_ci: true, ..AnalyzerConfig::default() };
    let group_parser = GroupParser::new();
    let mut release = Release::default();
    let ci = forge_commit("ci123", "ci1", "CI Bot", "ci@example.com", false, "ci: update workflow", 1640995100);
    let feat = forge_commit("feat123", "fe1", "John Doe", "john.doe@example.com", false, "feat: add feature", 1640995200);
    update_release_with_commit(&group_parser, &mut release, &ci, &analyzer_config);
    update_release_with_commit(&group_parser, &mut release, &feat, &analyzer_config);
    assert_eq!(release.commits.len(), 1);
    assert_eq!(release.commits[0].author_name, "John Doe");
    assert_eq!(release.commits[0].author_email, "john.doe@example.com");
}

#[test]
fn test_update_release_with_commit_no_skip_includes_all() {
    let analyzer_config = AnalyzerConfig::default();
    let group_parser = GroupParser::new();
    let mut release = Release::default();
    let commits: Vec<ForgeCommit> = five_commits().into_iter().take(4).collect();
    for commit in &commits {
        update_release_with_commit(&group_parser, &mut release, commit, &analyzer_config);
    }
    assert_eq!(release.commits.len(), 4);
}

#[test]
fn test_add_versioned_prerelease() {
    let version = Version::parse("1.0.0").unwrap();
    let result = add_prerelease(version, "alpha", PrereleaseStrategy::Versioned).unwrap();
    assert_eq!(result, Version::parse("1.0.0-alpha.1").unwrap());
}

#[test]
fn test_add_static_prerelease() {
    let version = Version::parse("0.1.0").unwrap();
    let result = add_prerelease(version, "SNAPSHOT", PrereleaseStrategy::Static).unwrap();
    assert_eq!(result, Version::parse("0.1.0-SNAPSHOT").unwrap());
}

#[test]
fn test_change_prerelease_suffix() {
    let version = Version::parse("1.0.0-alpha.5").unwrap();
    let result = add_prerelease(version, "beta", PrereleaseStrategy::Versioned).unwrap();
    assert_eq!(result, Version::parse("1.0.0-beta.1").unwrap());
}

#[test]
fn test_graduate_prerelease() {
    let version = Version::parse("1.0.0-alpha.1").unwrap();
    assert_eq!(graduate_prerelease(&version), Version::parse("1.0.0").unwrap());
    let version = Version::parse("2.3.4-beta.5").unwrap();
    assert_eq!(graduate_prerelease(&version), Version::parse("2.3.4").unwrap());
    let version = Version::parse("0.1.0-rc.10").unwrap();
    assert_eq!(graduate_prerelease(&version), Version::parse("0.1.0").unwrap());
}

#[test]
fn test_graduate_prerelease_stable_version_unchanged() {
    let version = Version::parse("1.0.0").unwrap();
    assert_eq!(graduate_prerelease(&version), Version::parse("1.0.0").unwrap());
}

#[test]
fn test_graduate_prerelease_preserves_build_metadata() {
    let version = Version::parse("1.0.0-alpha.1+build.123").unwrap();
    assert_eq!(graduate_prerelease(&version), Version::parse("1.0.0+build.123").unwrap());
}

#[test]
fn add_prerelease_rejects_invalid_identifier() {
    let version = Version::parse("1.0.0").unwrap();
    let err = add_prerelease(version, "bad id", PrereleaseStrategy::Static).unwrap_err();
    assert!(matches!(err, releasaurus::error::ReleasaurusError::InvalidVersion(_)));
}

#[test]
fn version_parse_rejects_garbage() {
    let err = Version::parse("not-a-version").unwrap_err();
    assert!(matches!(err, releasaurus::error::ReleasaurusError::InvalidVersion(_)));
}

#[test]
fn version_text_round_trips() {
    let v = Version::parse("1.2.3-rc.1+build.5").unwrap();
    assert_eq!(v.to_text(), "1.2.3-rc.1+build.5");
    assert_eq!(v.prerelease_identifier(), "rc");
}

const TWO_RELEASES: &str = "\n# [1.1.0](https://x/v1.1.0) - 2024-01-02\n\n### Features\n- new thing\n\n# [1.0.0](https://x/v1.0.0) - 2023-01-01\n\n- old thing\n";

#[test]
fn projected_release_notes_are_the_newest_release_body() {
    assert_eq!(parse_projected_release_notes(TWO_RELEASES), "### Features\n- new thing");
    assert_eq!(try_parse_projected_release_notes(TWO_RELEASES).unwrap(), "### Features\n- new thing");
    assert!(try_parse_projected_release_notes("no release headings here").is_none());
}

#[test]
fn strip_trailing_previous_release_keeps_first_release() {
    assert_eq!(
        strip_trailing_previous_release(TWO_RELEASES),
        "# [1.1.0](https://x/v1.1.0) - 2024-01-02\n\n### Features\n- new thing\n\n"
    );
    assert_eq!(try_strip_trailing_previous_release("# only\n\nbody").unwrap(), "# only\n\nbody\n\n");
    assert!(try_strip_trailing_previous_release("no heading").is_none());
}

#[test]
fn strip_extra_lines_twice_is_strip_extra_lines_once() {
    for text in ["\n\n  a\n\n\n\nb \n\n\n", "a\n\nb", "  \t\n", "x\n\n\n\n\n\ny\n\nz  "] {
        let once = strip_extra_lines(text);
        assert_eq!(strip_extra_lines(&once), once);
    }
    assert_eq!(strip_extra_lines("  a\n\nb\n "), "a\n\nb");
}
