use releasaurus::config::{PrereleaseConfig, PrereleaseStrategy};
use releasaurus::release::Tag;
use releasaurus::strategy::{
    increment_is_safe,
    StableVersionStrategy, StaticPrereleaseStrategy, VersionContext, VersionStrategy, VersionStrategyFactory,
    VersionedPrereleaseStrategy,
};
use releasaurus::version::Version;


fn create_test_tag(version: &str) -> Tag {
    Tag {
        name: version.to_string(),
        semver: Version::parse(version).unwrap(),
        sha: "abc123".to_string(),
        timestamp: None,
    }
}

fn create_basic_context<'a>(
    current_tag: Option<&'a Tag>,
    commits: &'a [String],
) -> VersionContext<'a> {
    VersionContext {
        current_tag,
        commits,
        breaking_always_increment_major: true,
        features_always_increment_minor: true,
        custom_major_increment_regex: None,
        custom_minor_increment_regex: None,
    }
}

#[test]
fn test_stable_strategy_first_release() {
    let strategy = StableVersionStrategy::new();
    let commits = vec![];
    let context = create_basic_context(None, &commits);

    let result = strategy.calculate_next_version(&context).unwrap();
    assert_eq!(result, Version::parse("0.1.0").unwrap());
}

#[test]
fn test_stable_strategy_increment_patch() {
    let strategy = StableVersionStrategy::new();
    let tag = create_test_tag("1.0.0");
    let commits = vec!["fix: bug fix".to_string()];
    let context = create_basic_context(Some(&tag), &commits);

    let result = strategy.calculate_next_version(&context).unwrap();
    assert_eq!(result, Version::parse("1.0.1").unwrap());
}

#[test]
fn test_stable_strategy_graduate_prerelease() {
    let strategy = StableVersionStrategy::new();
    let tag = create_test_tag("1.0.0-alpha.1");
    let commits = vec![];
    let context = create_basic_context(Some(&tag), &commits);

    let result = strategy.calculate_next_version(&context).unwrap();
    assert_eq!(result, Version::parse("1.0.0").unwrap());
}

#[test]
fn test_versioned_prerelease_first_release() {
    let strategy = VersionedPrereleaseStrategy::new("alpha".to_string());
    let commits = vec![];
    let context = create_basic_context(None, &commits);

    let result = strategy.calculate_next_version(&context).unwrap();
    assert_eq!(result, Version::parse("0.1.0-alpha.1").unwrap());
}

#[test]
fn test_versioned_prerelease_from_stable() {
    let strategy = VersionedPrereleaseStrategy::new("alpha".to_string());
    let tag = create_test_tag("1.0.0");
    let commits = vec!["feat: new feature".to_string()];
    let context = create_basic_context(Some(&tag), &commits);

    let result = strategy.calculate_next_version(&context).unwrap();
    assert_eq!(result, Version::parse("1.1.0-alpha.1").unwrap());
}

#[test]
fn test_versioned_prerelease_increment() {
    let strategy = VersionedPrereleaseStrategy::new("alpha".to_string());
    let tag = create_test_tag("1.0.0-alpha.1");
    let commits = vec!["fix: bug fix".to_string()];
    let context = create_basic_context(Some(&tag), &commits);

    let result = strategy.calculate_next_version(&context).unwrap();
    assert_eq!(result, Version::parse("1.0.0-alpha.2").unwrap());
}

#[test]
fn test_versioned_prerelease_switch_identifier() {
    let strategy = VersionedPrereleaseStrategy::new("beta".to_string());
    let tag = create_test_tag("1.0.0-alpha.3");
    let commits = vec!["feat: new feature".to_string()];
    let context = create_basic_context(Some(&tag), &commits);

    let result = strategy.calculate_next_version(&context).unwrap();
    assert_eq!(result, Version::parse("1.1.0-beta.1").unwrap());
}

#[test]
fn test_static_prerelease_first_release() {
    let strategy = StaticPrereleaseStrategy::new("SNAPSHOT".to_string());
    let commits = vec![];
    let context = create_basic_context(None, &commits);

    let result = strategy.calculate_next_version(&context).unwrap();
    assert_eq!(result, Version::parse("0.1.0-SNAPSHOT").unwrap());
}

#[test]
fn test_static_prerelease_from_stable() {
    let strategy = StaticPrereleaseStrategy::new("dev".to_string());
    let tag = create_test_tag("1.0.0");
    let commits = vec!["feat: new feature".to_string()];
    let context = create_basic_context(Some(&tag), &commits);

    let result = strategy.calculate_next_version(&context).unwrap();
    assert_eq!(result, Version::parse("1.1.0-dev").unwrap());
}

#[test]
fn test_static_prerelease_increment() {
    let strategy = StaticPrereleaseStrategy::new("SNAPSHOT".to_string());
    let tag = create_test_tag("1.0.0-SNAPSHOT");
    let commits = vec!["fix: bug fix".to_string()];
    let context = create_basic_context(Some(&tag), &commits);

    let result = strategy.calculate_next_version(&context).unwrap();
    assert_eq!(result, Version::parse("1.0.1-SNAPSHOT").unwrap());
}

#[test]
fn test_factory_creates_stable_strategy() {
    let strategy = VersionStrategyFactory::create(None).unwrap();
    let commits = vec![];
    let context = create_basic_context(None, &commits);

    let result = strategy.calculate_next_version(&context).unwrap();
    assert_eq!(result, Version::parse("0.1.0").unwrap());
}

#[test]
fn test_factory_creates_versioned_prerelease_strategy() {
    let config = PrereleaseConfig {
        suffix: Some("alpha".to_string()),
        strategy: PrereleaseStrategy::Versioned,
    };
    let strategy = VersionStrategyFactory::create(Some(&config)).unwrap();
    let commits = vec![];
    let context = create_basic_context(None, &commits);

    let result = strategy.calculate_next_version(&context).unwrap();
    assert_eq!(result, Version::parse("0.1.0-alpha.1").unwrap());
}

#[test]
fn test_factory_creates_static_prerelease_strategy() {
    let config = PrereleaseConfig {
        suffix: Some("SNAPSHOT".to_string()),
        strategy: PrereleaseStrategy::Static,
    };
    let strategy = VersionStrategyFactory::create(Some(&config)).unwrap();
    let commits = vec![];
    let context = create_basic_context(None, &commits);

    let result = strategy.calculate_next_version(&context).unwrap();
    assert_eq!(result, Version::parse("0.1.0-SNAPSHOT").unwrap());
}

#[test]
fn increment_is_safe_guards_overflowing_versions() {
    assert!(increment_is_safe(&Version::parse("1.2.3").unwrap()));
    assert!(increment_is_safe(&Version::parse("1.2.3-rc.4294967294").unwrap()));
    assert!(increment_is_safe(&Version::parse("1.2.3-rc.99999999999").unwrap()));
    assert!(increment_is_safe(&Version::parse("1.2.3-rc").unwrap()));
    assert!(!increment_is_safe(&Version::parse("1.2.3-rc.4294967295").unwrap()));
    assert!(!increment_is_safe(&Version::new(u64::MAX, 0, 0)));
    assert!(!increment_is_safe(&Version::new(0, 0, u64::MAX)));
}
