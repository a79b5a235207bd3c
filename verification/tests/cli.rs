use releasaurus::cli::{parse_reworded_commit, url_parse_is_risky, validate_sha, ForgeArgs, ForgeTokens, ForgeType};
use releasaurus::error::ReleasaurusError;
use releasaurus::forge::Remote;


#[test]
fn gets_github_remote() {
    let repo = "https://github.com/github_owner/github_repo".to_string();
    let token = "github_token".to_string();

    let forge_args = ForgeArgs {
        forge: Some(ForgeType::Github),
        repo: Some(repo),
        token: Some(token),
    };

    let remote = forge_args.get_remote(&ForgeTokens::default()).unwrap();

    assert!(matches!(remote, Remote::Github(_)));
}

#[test]
fn gets_gitlab_remote() {
    let repo = "https://gitlab.com/gitlab_owner/gitlab_repo".to_string();
    let token = "gitlab_token".to_string();

    let forge_args = ForgeArgs {
        forge: Some(ForgeType::Gitlab),
        repo: Some(repo),
        token: Some(token),
    };

    let remote = forge_args.get_remote(&ForgeTokens::default()).unwrap();

    assert!(matches!(remote, Remote::Gitlab(_)));
}

#[test]
fn gets_gitea_remote() {
    let repo = "http://gitea.com/gitea_owner/gitea_repo".to_string();
    let token = "gitea_token".to_string();

    let forge_args = ForgeArgs {
        forge: Some(ForgeType::Gitea),
        repo: Some(repo),
        token: Some(token),
    };

    let remote = forge_args.get_remote(&ForgeTokens::default()).unwrap();

    assert!(matches!(remote, Remote::Gitea(_)));
}

#[test]
fn gets_local_remote() {
    let repo = ".".to_string();

    let forge_args = ForgeArgs {
        forge: Some(ForgeType::Local),
        repo: Some(repo),
        token: None,
    };

    let remote = forge_args.get_remote(&ForgeTokens::default()).unwrap();

    assert!(matches!(remote, Remote::Local(_)));
}

#[test]
fn only_supports_http_and_https_schemes() {
    let repo = "git@gitea.com:gitea_owner/gitea_repo".to_string();
    let token = "gitea_token".to_string();

    let forge_args = ForgeArgs {
        forge: Some(ForgeType::Gitea),
        repo: Some(repo),
        token: Some(token),
    };

    let result = forge_args.get_remote(&ForgeTokens::default());
    assert!(result.is_err());
}

#[test]
fn validate_sha_accepts_valid_short_sha() {
    validate_sha("abc123d").unwrap();
}

#[test]
fn validate_sha_accepts_valid_full_sha() {
    validate_sha("abc123def456789012345678901234567890abcd").unwrap();
}

#[test]
fn validate_sha_rejects_too_short() {
    let result = validate_sha("abc123");
    assert!(result.is_err());
    assert!(matches!(
        result.unwrap_err(),
        ReleasaurusError::InvalidConfig(_)
    ));
}

#[test]
fn validate_sha_rejects_too_long() {
    let result = validate_sha("abc123def456789012345678901234567890abcdef");
    assert!(result.is_err());
    assert!(matches!(
        result.unwrap_err(),
        ReleasaurusError::InvalidConfig(_)
    ));
}

#[test]
fn validate_sha_rejects_non_hex_characters() {
    let result = validate_sha("abc123g");
    assert!(result.is_err());
    assert!(matches!(
        result.unwrap_err(),
        ReleasaurusError::InvalidConfig(_)
    ));
}

#[test]
fn validate_sha_accepts_uppercase_hex() {
    validate_sha("ABC123D").unwrap();
}

#[test]
fn validate_sha_trims_whitespace() {
    validate_sha("  abc123d  ").unwrap();
}

#[test]
fn parse_reworded_commit_succeeds_with_valid_sha() {
    let reworded =
        parse_reworded_commit("abc123d=fix: new message").unwrap();
    assert_eq!(reworded.sha, "abc123d");
    assert_eq!(reworded.message, "fix: new message");
}

#[test]
fn parse_reworded_commit_fails_with_invalid_sha() {
    let result = parse_reworded_commit("abc=fix: new message");
    assert!(result.is_err());
    assert!(matches!(
        result.unwrap_err(),
        ReleasaurusError::InvalidConfig(_)
    ));
}

#[test]
fn parse_reworded_commit_fails_with_missing_equals() {
    let result = parse_reworded_commit("abc123dfix: new message");
    assert!(result.is_err());
    assert!(matches!(
        result.unwrap_err(),
        ReleasaurusError::InvalidConfig(_)
    ));
}

#[test]
fn parse_reworded_commit_handles_multiline_message() {
    let reworded =
        parse_reworded_commit("abc123d=fix: new message\n\nMore content")
            .unwrap();
    assert_eq!(reworded.message, "fix: new message\n\nMore content");
}

#[test]
fn parse_reworded_commit_trims_sha_whitespace() {
    let reworded =
        parse_reworded_commit("  abc123d  =fix: new message").unwrap();
    assert_eq!(reworded.sha, "abc123d");
}

#[test]
fn azure_devops_url_is_refused_without_parsing() {
    let forge_args = ForgeArgs {
        forge: Some(ForgeType::Github),
        repo: Some("https://dev.azure.com/org/proj".to_string()),
        token: Some("token".to_string()),
    };
    let result = forge_args.get_remote(&ForgeTokens::default());
    assert!(matches!(result, Err(ReleasaurusError::InvalidRemoteUrl(ref m)) if m == "unsupported repo url: https://dev.azure.com/org/proj"));
}

#[test]
fn urls_the_parser_panics_on_are_recognized() {
    assert!(url_parse_is_risky("https://dev.azure.com/org/proj"));
    assert!(url_parse_is_risky("git@ssh.dev.azure.com:v3/org"));
    assert!(url_parse_is_risky("ssh://github.com/?x"));
    assert!(!url_parse_is_risky("https://dev.azure.com/org/proj/_git/repo"));
    assert!(!url_parse_is_risky("git@ssh.dev.azure.com:v3/org/proj/repo"));
    assert!(!url_parse_is_risky("https://github.com/azure/x"));
    assert!(!url_parse_is_risky("https://github.com/owner/repo%20name"));
    assert!(!url_parse_is_risky("git@gitlab.com:owner/repo.git"));
    assert!(!url_parse_is_risky("ssh://github.com/"));
}

#[test]
fn url_naming_azure_outside_azure_hosts_is_accepted() {
    let forge_args = ForgeArgs {
        forge: Some(ForgeType::Github),
        repo: Some("https://github.com/azure/x".to_string()),
        token: Some("github_token".to_string()),
    };
    let remote = forge_args.get_remote(&ForgeTokens::default()).unwrap();
    match remote {
        Remote::Github(c) => {
            assert_eq!(c.owner, "azure");
            assert_eq!(c.repo, "x");
            assert_eq!(c.token, "github_token");
        },
        other => panic!("unexpected remote {other:?}"),
    }
}
