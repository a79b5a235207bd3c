use releasaurus::commit::Commit;
use releasaurus::group::{classify, Group, GroupParser};

fn create_test_commit(raw_message: &str, breaking: bool) -> Commit {
    Commit {
        id: "abc123".to_string(),
        short_id: "abc".to_string(),
        group: Group::default(),
        scope: None,
        title: "test message".to_string(),
        body: None,
        link: "https://example.com".to_string(),
        breaking,
        breaking_description: None,
        merge_commit: false,
        timestamp: 1640995200,
        raw_title: "test message".to_string(),
        raw_message: raw_message.to_string(),
        author_name: "".into(),
        author_email: "".into(),
    }
}

#[test]
fn test_group_default() {
    let group = Group::default();
    assert_eq!(group, Group::Miscellaneous);
}

#[test]
fn test_group_equality() {
    assert_eq!(Group::Feat, Group::Feat);
    assert_eq!(Group::Fix, Group::Fix);
    assert_eq!(Group::Breaking, Group::Breaking);
    assert_ne!(Group::Feat, Group::Fix);
    assert_ne!(Group::Breaking, Group::Miscellaneous);
}

#[test]
fn test_group_ordering() {
    let mut groups = [Group::Fix, Group::Breaking, Group::Feat];
    groups.sort();
    assert_eq!(groups[0], Group::Breaking);

    assert!(Group::Breaking < Group::Feat);
    assert!(Group::Feat < Group::Fix);
    assert!(Group::Miscellaneous > Group::Ci);
}

#[test]
fn test_group_clone() {
    let group1 = Group::Feat;
    let group2 = group1.clone();
    assert_eq!(group1, group2);
}

#[test]
fn test_group_serialization() {
    let test_cases = vec![
        (Group::Breaking, "❌ Breaking"),
        (Group::Feat, "🚀 Features"),
        (Group::Fix, "🐛 Bug Fixes"),
        (Group::Revert, "◀️ Revert"),
        (Group::Refactor, "🚜 Refactor"),
        (Group::Perf, "⚡ Performance"),
        (Group::Doc, "📚 Documentation"),
        (Group::Style, "🎨 Styling"),
        (Group::Test, "🧪 Testing"),
        (Group::Chore, "🧹 Chore"),
        (Group::Ci, "⏩ CI/CD"),
        (Group::Miscellaneous, "⚙️ Miscellaneous Tasks"),
    ];

    for (group, expected) in test_cases {
        let json = serde_json::to_string(group.label()).expect("Failed to serialize group");
        assert!(json.contains(expected), "Group {:?} should serialize to contain '{}'", group, expected);
    }
}

#[test]
fn test_group_parser_breaking_commit() {
    let parser = GroupParser::new();
    let commit = create_test_commit("feat!: breaking change", true);
    assert_eq!(parser.parse(&commit), Group::Breaking);
}

#[test]
fn test_group_parser_feat_commit() {
    let parser = GroupParser::new();
    let commit = create_test_commit("feat: add new feature", false);
    assert_eq!(parser.parse(&commit), Group::Feat);
}

#[test]
fn test_group_parser_fix_commit() {
    let parser = GroupParser::new();
    let commit = create_test_commit("fix: resolve bug", false);
    assert_eq!(parser.parse(&commit), Group::Fix);
}

#[test]
fn test_group_parser_chore_commit() {
    let parser = GroupParser::new();
    let commit = create_test_commit("chore: update dependencies", false);
    assert_eq!(parser.parse(&commit), Group::Chore);
}

#[test]
fn test_group_parser_ci_commit() {
    let parser = GroupParser::new();
    let commit = create_test_commit("ci: update workflow", false);
    assert_eq!(parser.parse(&commit), Group::Ci);
}

#[test]
fn test_group_parser_doc_commit() {
    let parser = GroupParser::new();
    let commit = create_test_commit("doc: update readme", false);
    assert_eq!(parser.parse(&commit), Group::Doc);
}

#[test]
fn test_group_parser_perf_commit() {
    let parser = GroupParser::new();
    let commit = create_test_commit("perf: optimize algorithm", false);
    assert_eq!(parser.parse(&commit), Group::Perf);
}

#[test]
fn test_group_parser_refactor_commit() {
    let parser = GroupParser::new();
    let commit = create_test_commit("refactor: clean up code", false);
    assert_eq!(parser.parse(&commit), Group::Refactor);
}

#[test]
fn test_group_parser_revert_commit() {
    let parser = GroupParser::new();
    let commit = create_test_commit("revert: undo previous change", false);
    assert_eq!(parser.parse(&commit), Group::Revert);
}

#[test]
fn test_group_parser_style_commit() {
    let parser = GroupParser::new();
    let commit = create_test_commit("style: format code", false);
    assert_eq!(parser.parse(&commit), Group::Style);
}

#[test]
fn test_group_parser_test_commit() {
    let parser = GroupParser::new();
    let commit = create_test_commit("test: add unit tests", false);
    assert_eq!(parser.parse(&commit), Group::Test);
}

#[test]
fn test_group_parser_unknown_commit() {
    let parser = GroupParser::new();
    let commit = create_test_commit("random: unknown type", false);
    assert_eq!(parser.parse(&commit), Group::Miscellaneous);
}

#[test]
fn test_group_parser_empty_message() {
    let parser = GroupParser::new();
    let commit = create_test_commit("", false);
    assert_eq!(parser.parse(&commit), Group::Miscellaneous);
}

#[test]
fn test_group_parser_whitespace_handling() {
    let parser = GroupParser::new();
    let commit = create_test_commit("  feat: feature with leading spaces", false);
    assert_eq!(parser.parse(&commit), Group::Feat);
}

#[test]
fn test_group_parser_case_sensitivity() {
    let parser = GroupParser::new();
    let commit1 = create_test_commit("feat: lowercase", false);
    assert_eq!(parser.parse(&commit1), Group::Feat);
    let commit2 = create_test_commit("FEAT: uppercase", false);
    assert_eq!(parser.parse(&commit2), Group::Miscellaneous);
}

#[test]
fn test_group_parser_breaking_takes_precedence() {
    let parser = GroupParser::new();
    let commit = create_test_commit("feat!: breaking feature", true);
    assert_eq!(parser.parse(&commit), Group::Breaking);
}

#[test]
fn test_group_parser_with_scope() {
    let parser = GroupParser::new();
    let commit = create_test_commit("feat(api): add endpoint", false);
    assert_eq!(parser.parse(&commit), Group::Feat);
}

#[test]
fn test_group_parser_multiline_message() {
    let parser = GroupParser::new();
    let multiline_msg = "fix: resolve issue\n\nThis is a longer description\nwith multiple lines";
    let commit = create_test_commit(multiline_msg, false);
    assert_eq!(parser.parse(&commit), Group::Fix);
}

#[test]
fn test_regex_patterns() {
    assert_eq!(classify(false, "feat: something"), Group::Feat);
    assert_eq!(classify(false, "feat(scope): something"), Group::Feat);
    assert_eq!(classify(false, "feature: something"), Group::Feat);

    assert_eq!(classify(false, "fix: something"), Group::Fix);
    assert_eq!(classify(false, "fix(bug): something"), Group::Fix);
    assert_eq!(classify(false, "fixed: something"), Group::Fix);

    assert_eq!(classify(false, "chore: something"), Group::Chore);
    assert_eq!(classify(false, "choreography: something"), Group::Chore);

    assert_eq!(classify(false, "doc: something"), Group::Doc);
    assert_eq!(classify(false, "docs: something"), Group::Doc);
}

#[test]
fn test_all_groups_covered() {
    let parser = GroupParser::new();
    let test_cases = vec![
        ("feat: test", Group::Feat),
        ("fix: test", Group::Fix),
        ("chore: test", Group::Chore),
        ("doc: test", Group::Doc),
        ("style: test", Group::Style),
        ("refactor: test", Group::Refactor),
        ("perf: test", Group::Perf),
        ("test: test", Group::Test),
        ("revert: test", Group::Revert),
        ("ci: test", Group::Ci),
    ];
    for (message, expected_group) in test_cases {
        let commit = create_test_commit(message, false);
        assert_eq!(parser.parse(&commit), expected_group, "Failed for message: {}", message);
    }
}

#[test]
fn test_group_parser_order_matters() {
    let parser = GroupParser::new();
    let breaking_feat = create_test_commit("feat: breaking feature\n\nBREAKING CHANGE: it broke", true);
    assert_eq!(parser.parse(&breaking_feat), Group::Breaking);
    let breaking_fix = create_test_commit("fix!: breaking fix", true);
    assert_eq!(parser.parse(&breaking_fix), Group::Breaking);
}

#[test]
fn group_labels_follow_changelog_order() {
    let groups = [
        Group::Breaking,
        Group::Feat,
        Group::Fix,
        Group::Revert,
        Group::Refactor,
        Group::Perf,
        Group::Doc,
        Group::Style,
        Group::Test,
        Group::Chore,
        Group::Ci,
        Group::Miscellaneous,
    ];
    for (i, g) in groups.iter().enumerate() {
        assert_eq!(g.index() as usize, i);
        assert!(g.label().starts_with(&format!("<!-- {:02} -->", i)));
    }
}

#[test]
fn parser_rules_start_with_breaking() {
    let parser = GroupParser::new();
    let rules = parser.get_parsers();
    assert_eq!(rules.len(), 11);
    assert!(rules[0].prefix.is_none());
    assert_eq!(rules[0].group, Group::Breaking);
    assert_eq!(rules[1].prefix, Some("feat"));
    assert_eq!(rules[10].prefix, Some("ci"));
}

#[test]
fn group_labels_sort_in_changelog_order() {
    let groups = [
        Group::Breaking,
        Group::Feat,
        Group::Fix,
        Group::Revert,
        Group::Refactor,
        Group::Perf,
        Group::Doc,
        Group::Style,
        Group::Test,
        Group::Chore,
        Group::Ci,
        Group::Miscellaneous,
    ];
    let mut labels: Vec<&str> = groups.iter().rev().map(|g| g.label()).collect();
    labels.sort();
    let expected: Vec<&str> = groups.iter().map(|g| g.label()).collect();
    assert_eq!(labels, expected);
}
