use releasaurus::cli::{
    parse_package_override, validate_sha, Cli, Command, CommitModifiers, ForgeArgs, ForgeTokens, ForgeType, GetCommand, PackagePathOverride,
    SharedCommandOverrides,
};
use releasaurus::config::{PrereleaseStrategy, RewordedCommit};
use releasaurus::error::ReleasaurusError;
use releasaurus::forge::Remote;

fn shared(overrides: Vec<PackagePathOverride>) -> SharedCommandOverrides {
    SharedCommandOverrides {
        package_overrides: overrides,
        tag_prefix: Some("p-".into()),
        prerelease_suffix: Some("rc".into()),
        prerelease_strategy: Some(PrereleaseStrategy::Static),
    }
}

fn cli(command: Command) -> Cli {
    Cli {
        forge_args: ForgeArgs { forge: None, repo: None, token: None },
        debug: false,
        base_branch: Some("develop".into()),
        command,
    }
}

fn ov(s: &str) -> PackagePathOverride {
    parse_package_override(s).unwrap()
}

#[test]
fn parses_package_override_with_nested_path() {
    let o = ov("my-pkg.prerelease.suffix=beta");
    assert_eq!(o.package_name, "my-pkg");
    assert_eq!(o.path, "prerelease.suffix");
    assert_eq!(o.value, "beta");
    let o = ov("pkg.tag_prefix=a=b");
    assert_eq!(o.value, "a=b");
}

#[test]
fn rejects_malformed_package_overrides() {
    let err = parse_package_override("no-equals").unwrap_err();
    assert_eq!(err.message(), "Invalid configuration: Invalid format: 'no-equals'. Expected package_name.path=value");
    let err = parse_package_override("nodot=1").unwrap_err();
    assert_eq!(err.message(), "Invalid configuration: Invalid key: 'nodot'. Expected package_name.path");
}

#[test]
fn later_package_overrides_win() {
    let c = cli(Command::ReleasePR {
        commit_modifiers: CommitModifiers::default(),
        overrides: shared(vec![
            ov("a.prerelease.suffix=beta"),
            ov("b.tag_prefix=b-v"),
            ov("a.prerelease.strategy=static"),
            ov("a.prerelease.suffix=gamma"),
        ]),
        dry_run: false,
    });
    let entries = c.get_package_overrides().unwrap();
    assert_eq!(entries.len(), 2);
    assert_eq!(entries[0].0, "a");
    assert_eq!(entries[0].1.prerelease_suffix, Some("gamma".to_string()));
    assert_eq!(entries[0].1.prerelease_strategy, Some(PrereleaseStrategy::Static));
    assert_eq!(entries[0].1.tag_prefix, None);
    assert_eq!(entries[1].0, "b");
    assert_eq!(entries[1].1.tag_prefix, Some("b-v".to_string()));
}

#[test]
fn unknown_override_paths_are_refused() {
    let c = cli(Command::StartNext { overrides: shared(vec![ov("a.unknown=1")]), packages: None, dry_run: false });
    let err = c.get_package_overrides().unwrap_err();
    assert!(matches!(err, ReleasaurusError::JsonParseError(_)));
    let c = cli(Command::StartNext { overrides: shared(vec![ov("a.prerelease.strategy=weird")]), packages: None, dry_run: false });
    assert!(matches!(c.get_package_overrides().unwrap_err(), ReleasaurusError::JsonParseError(_)));
}

#[test]
fn global_overrides_come_from_command() {
    let c = cli(Command::StartNext { overrides: shared(vec![]), packages: None, dry_run: true });
    let g = c.get_global_overrides();
    assert_eq!(g.base_branch, Some("develop".to_string()));
    assert_eq!(g.tag_prefix, Some("p-".to_string()));
    assert_eq!(g.prerelease_suffix, Some("rc".to_string()));
    assert_eq!(g.prerelease_strategy, Some(PrereleaseStrategy::Static));
    let c = cli(Command::Release { dry_run: false });
    let g = c.get_global_overrides();
    assert_eq!(g.base_branch, Some("develop".to_string()));
    assert_eq!(g.tag_prefix, None);
    assert!(c.get_package_overrides().unwrap().is_empty());
}

#[test]
fn commit_modifiers_come_from_command() {
    let mods = CommitModifiers {
        skip_shas: vec!["abc1234".into()],
        reword: vec![RewordedCommit { sha: "def5678".into(), message: "fix: x".into() }],
    };
    let c = cli(Command::Get {
        command: GetCommand::NextRelease { out_file: None, package: None, commit_modifiers: mods, overrides: shared(vec![]) },
    });
    let m = c.get_commit_modifiers();
    assert_eq!(m.skip_shas, vec!["abc1234".to_string()]);
    assert_eq!(m.reword[0].message, "fix: x");
    let c = cli(Command::Release { dry_run: false });
    assert!(c.get_commit_modifiers().skip_shas.is_empty());
}

#[test]
fn missing_forge_options_are_reported() {
    let args = ForgeArgs { forge: None, repo: None, token: None };
    let err = args.get_remote(&ForgeTokens::default()).unwrap_err();
    assert_eq!(
        err.message(),
        "Invalid configuration: missing required options: [\n    \"forge\",\n    \"repo\",\n]"
    );
    let args = ForgeArgs { forge: Some(ForgeType::Github), repo: None, token: None };
    let err = args.get_remote(&ForgeTokens::default()).unwrap_err();
    assert_eq!(err.message(), format!("Invalid configuration: missing required options: {:#?}", vec!["repo"]));
}

#[test]
fn remote_config_links_per_forge() {
    let args = ForgeArgs {
        forge: Some(ForgeType::Github),
        repo: Some("https://github.com/owner/repo".into()),
        token: Some("t".into()),
    };
    match args.get_remote(&ForgeTokens::default()).unwrap() {
        Remote::Github(c) => {
            assert_eq!(c.host, "github.com");
            assert_eq!(c.owner, "owner");
            assert_eq!(c.repo, "repo");
            assert_eq!(c.path, "owner/repo");
            assert_eq!(c.scheme, "https");
            assert_eq!(c.release_link_base_url, "https://github.com/owner/repo/releases/tag");
            assert_eq!(c.compare_link_base_url, "https://github.com/owner/repo/compare");
            assert_eq!(c.token, "t");
        },
        other => panic!("unexpected remote {other:?}"),
    }
    let args = ForgeArgs {
        forge: Some(ForgeType::Gitlab),
        repo: Some("https://gitlab.com/group/sub/proj".into()),
        token: None,
    };
    let tokens = ForgeTokens { github: None, gitlab: Some("env-token".into()), gitea: None };
    match args.get_remote(&tokens).unwrap() {
        Remote::Gitlab(c) => {
            assert_eq!(c.release_link_base_url, "https://gitlab.com/group/sub/proj/-/releases");
            assert_eq!(c.compare_link_base_url, "https://gitlab.com/group/sub/proj/-/compare");
            assert_eq!(c.token, "env-token");
        },
        other => panic!("unexpected remote {other:?}"),
    }
}

#[test]
fn missing_token_is_an_authentication_error() {
    let args = ForgeArgs { forge: Some(ForgeType::Gitea), repo: Some("https://gitea.com/o/r".into()), token: None };
    let err = args.get_remote(&ForgeTokens::default()).unwrap_err();
    assert!(matches!(err, ReleasaurusError::AuthenticationError(_)));
}

#[test]
fn validate_sha_reports_reasons() {
    assert_eq!(
        validate_sha(" abc ").unwrap_err().message(),
        "Invalid configuration: Invalid commit SHA: ' abc '. Must be at least 7 characters"
    );
    assert_eq!(
        validate_sha("abcdefg!").unwrap_err().message(),
        "Invalid configuration: Invalid commit SHA: 'abcdefg!'. Must contain only hexadecimal characters (0-9, a-f)"
    );
    assert!(validate_sha("éééé").is_err());
}
