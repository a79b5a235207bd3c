//! A configured `next_version::VersionUpdater` kept together with the
//! settings applied to it, so that what is known of the settings is what
//! was handed to the updater.

use vstd::prelude::*;

use crate::pattern::{compile_outcome, spec_regex_compile};
use crate::strategy::{
    bump_major, bump_minor, bump_patch, increment_last_identifier, increment_safe, spec_next_version, texts,
};
use crate::version::{well_formed, with_pre, Version};

verus! {

/// A configured `next_version::VersionUpdater` together with its settings.
/// Its fields are set only by the wrappers of this module, each of which
/// records the setting it hands to the updater.
pub struct IncrementRules {
    updater: next_version::VersionUpdater,
    breaking: bool,
    features: bool,
    major: Option<String>,
    minor: Option<String>,
}

impl IncrementRules {
    /// Whether the updater increments the major version for every breaking
    /// change.
    pub closed spec fn breaking(&self) -> bool {
        self.breaking
    }

    /// Whether the updater increments the minor version for every feature.
    pub closed spec fn features(&self) -> bool {
        self.features
    }

    /// The custom major increment regex of the updater.
    pub closed spec fn major(&self) -> Option<Seq<char>> {
        crate::config::opt_view(self.major)
    }

    /// The custom minor increment regex of the updater.
    pub closed spec fn minor(&self) -> Option<Seq<char>> {
        crate::config::opt_view(self.minor)
    }
}

/// `next_version::VersionUpdater::new`, whose settings are all off: no
/// breaking or feature rule and no custom regex.
#[verifier::external_body]
pub(crate) fn updater_new() -> (r: IncrementRules)
    ensures
        !r.breaking(),
        !r.features(),
        r.major() is None,
        r.minor() is None,
{
    IncrementRules { updater: next_version::VersionUpdater::new(), breaking: false, features: false, major: None, minor: None }
}

/// `next_version::VersionUpdater::with_breaking_always_increment_major`:
/// sets the breaking rule to `value` and keeps the other settings.
#[verifier::external_body]
pub(crate) fn updater_breaking(rules: IncrementRules, value: bool) -> (r: IncrementRules)
    ensures
        r.breaking() == value,
        r.features() == rules.features(),
        r.major() == rules.major(),
        r.minor() == rules.minor(),
{
    IncrementRules { updater: rules.updater.with_breaking_always_increment_major(value), breaking: value, ..rules }
}

/// `next_version::VersionUpdater::with_features_always_increment_minor`:
/// sets the feature rule to `value` and keeps the other settings.
#[verifier::external_body]
pub(crate) fn updater_features(rules: IncrementRules, value: bool) -> (r: IncrementRules)
    ensures
        r.features() == value,
        r.breaking() == rules.breaking(),
        r.major() == rules.major(),
        r.minor() == rules.minor(),
{
    IncrementRules { updater: rules.updater.with_features_always_increment_minor(value), features: value, ..rules }
}

/// `next_version::VersionUpdater::with_custom_major_increment_regex`: fails
/// exactly as `regex::Regex::new` does on the pattern, with its error;
/// otherwise sets the custom major regex to the pattern and keeps the other
/// settings.
#[verifier::external_body]
pub(crate) fn updater_custom_major(rules: IncrementRules, pattern: &str) -> (r: Result<IncrementRules, String>)
    ensures
        compile_outcome(r) == spec_regex_compile(pattern@),
        r matches Ok(n) ==> n.major() == Some(pattern@) && n.breaking() == rules.breaking()
            && n.features() == rules.features() && n.minor() == rules.minor(),
{
    match rules.updater.with_custom_major_increment_regex(pattern) {
        Ok(u) => Ok(IncrementRules { updater: u, major: Some(pattern.to_string()), ..rules }),
        Err(e) => Err(e.to_string()),
    }
}

/// `next_version::VersionUpdater::with_custom_minor_increment_regex`: fails
/// exactly as `regex::Regex::new` does on the pattern, with its error;
/// otherwise sets the custom minor regex to the pattern and keeps the other
/// settings.
#[verifier::external_body]
pub(crate) fn updater_custom_minor(rules: IncrementRules, pattern: &str) -> (r: Result<IncrementRules, String>)
    ensures
        compile_outcome(r) == spec_regex_compile(pattern@),
        r matches Ok(n) ==> n.minor() == Some(pattern@) && n.breaking() == rules.breaking()
            && n.features() == rules.features() && n.major() == rules.major(),
{
    match rules.updater.with_custom_minor_increment_regex(pattern) {
        Ok(u) => Ok(IncrementRules { updater: u, minor: Some(pattern.to_string()), ..rules }),
        Err(e) => Err(e.to_string()),
    }
}

/// `next_version::VersionUpdater::increment` on `version` and `commits`.
/// As next_version documents and implements it: no commits leave the
/// version unchanged; with commits, a prerelease version gets its
/// prerelease incremented, and a stable version gets a major, minor or patch
/// increment.
#[verifier::external_body]
fn updater_increment(rules: &IncrementRules, version: &Version, commits: &[String]) -> (r: Version)
    requires
        well_formed(version@),
        increment_safe(version@),
    ensures
        r@ == spec_next_version(rules.breaking(), rules.features(), rules.major(), rules.minor(), version@, texts(commits@)),
        commits@.len() == 0 ==> r@ == version@,
        commits@.len() > 0 && version.pre@.len() > 0 ==> r@ == with_pre(version@, increment_last_identifier(version.pre@)),
        commits@.len() > 0 && version.pre@.len() == 0 ==>
            (r@ == bump_major(version@) || r@ == bump_minor(version@) || r@ == bump_patch(version@)),
        well_formed(r@),
{
    let current = semver::Version {
        major: version.major,
        minor: version.minor,
        patch: version.patch,
        pre: semver::Prerelease::new(&version.pre).unwrap(),
        build: semver::BuildMetadata::new(&version.build).unwrap(),
    };
    let next = rules.updater.increment(&current, commits);
    Version {
        major: next.major,
        minor: next.minor,
        patch: next.patch,
        pre: next.pre.as_str().to_string(),
        build: next.build.as_str().to_string(),
    }
}

impl IncrementRules {
    /// The next version of `version` for `commits` under these rules.
    pub fn increment(&self, version: &Version, commits: &[String]) -> (r: Version)
        requires
            well_formed(version@),
            increment_safe(version@),
        ensures
            r@ == spec_next_version(self.breaking(), self.features(), self.major(), self.minor(), version@, texts(commits@)),
            commits@.len() == 0 ==> r@ == version@,
            commits@.len() > 0 && version.pre@.len() > 0 ==> r@ == with_pre(version@, increment_last_identifier(version.pre@)),
            commits@.len() > 0 && version.pre@.len() == 0 ==>
                (r@ == bump_major(version@) || r@ == bump_minor(version@) || r@ == bump_patch(version@)),
            well_formed(r@),
    {
        updater_increment(self, version, commits)
    }
}


} // verus!
