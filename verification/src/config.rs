//! Configuration values of `releasaurus.toml`.

use vstd::prelude::*;

use crate::analyzer_config::{AnalyzerConfig, DEFAULT_BODY};
use crate::error::ReleasaurusError;
use crate::pattern::RegexMatcher;

verus! {

/// Determines how prerelease identifiers are appended to versions.
#[derive(Debug, Clone, Copy, PartialEq, Eq, Structural)]
pub enum PrereleaseStrategy {
    /// Adds numeric suffixes like `.1`, `.2`, etc. to prerelease identifiers.
    Versioned,
    /// Reuses the exact prerelease identifier without numeric suffixes.
    Static,
}

impl Default for PrereleaseStrategy {
    fn default() -> (r: Self)
        ensures
            r == PrereleaseStrategy::Versioned,
    {
        PrereleaseStrategy::Versioned
    }
}

/// Prerelease settings for both global and package scopes.
#[derive(Debug, Clone)]
pub struct PrereleaseConfig {
    /// Prerelease identifier (e.g. "alpha", "beta", "rc", "SNAPSHOT").
    pub suffix: Option<String>,
    /// How prerelease suffixes are applied to versions.
    pub strategy: PrereleaseStrategy,
}

impl Default for PrereleaseConfig {
    fn default() -> (r: Self)
        ensures
            r.suffix is None,
            r.strategy == PrereleaseStrategy::Versioned,
    {
        PrereleaseConfig { suffix: None, strategy: PrereleaseStrategy::Versioned }
    }
}

impl PrereleaseConfig {
    /// The suffix of a resolved prerelease configuration; an error when the
    /// configuration has none.
    pub fn suffix(&self) -> (r: Result<&str, ReleasaurusError>)
        ensures
            self.suffix is Some <==> r is Ok,
            r matches Ok(s) ==> s@ == self.suffix.unwrap()@,
            r matches Err(e) ==> e@ == crate::error::ErrorView::Other("resolved prerelease config must include suffix"@),
    {
        match &self.suffix {
            Some(s) => Ok(s.as_str()),
            None => Err(ReleasaurusError::Other("resolved prerelease config must include suffix".to_owned())),
        }
    }

    /// A copy of this configuration.
    pub fn duplicate(&self) -> (r: PrereleaseConfig)
        ensures
            r.strategy == self.strategy,
            opt_view(r.suffix) == opt_view(self.suffix),
    {
        PrereleaseConfig { suffix: clone_opt(&self.suffix), strategy: self.strategy }
    }
}

/// Rewords the changelog message of the commits whose SHA starts with
/// `sha`.
#[derive(Debug, Clone)]
pub struct RewordedCommit {
    /// SHA (or prefix) of the commit to reword.
    pub sha: String,
    /// The new message to show in the changelog.
    pub message: String,
}

impl View for RewordedCommit {
    type V = (Seq<char>, Seq<char>);

    open spec fn view(&self) -> (Seq<char>, Seq<char>) {
        (self.sha@, self.message@)
    }
}

impl RewordedCommit {
    /// A copy of this entry.
    pub fn duplicate(&self) -> (r: RewordedCommit)
        ensures
            r@ == self@,
    {
        RewordedCommit { sha: self.sha.clone(), message: self.message.clone() }
    }
}

/// The texts of a list of strings.
pub open spec fn strings_view(v: Seq<String>) -> Seq<Seq<char>> {
    v.map_values(|s: String| s@)
}

/// The contents of a list of reworded commits.
pub open spec fn rewords_view(v: Seq<RewordedCommit>) -> Seq<(Seq<char>, Seq<char>)> {
    v.map_values(|c: RewordedCommit| c@)
}

/// The SHAs of a list of reworded commits.
pub open spec fn reword_shas_view(v: Seq<RewordedCommit>) -> Seq<Seq<char>> {
    v.map_values(|c: RewordedCommit| c.sha@)
}

/// The text held by an optional string.
pub open spec fn opt_view(o: Option<String>) -> Option<Seq<char>> {
    match o {
        Some(s) => Some(s@),
        None => None,
    }
}

/// A copy of an optional string.
pub fn clone_opt(o: &Option<String>) -> (r: Option<String>)
    ensures
        opt_view(r) == opt_view(*o),
{
    match o {
        Some(s) => Some(s.clone()),
        None => None,
    }
}


/// Default configuration file name.
pub const DEFAULT_CONFIG_FILE: &'static str = "releasaurus.toml";

/// Tag prefix of a package at the repository root.
pub const DEFAULT_TAG_PREFIX: &'static str = "v";

/// Default maximum number of commits searched for a first release.
pub const DEFAULT_COMMIT_SEARCH_DEPTH: u64 = 400;

/// Default regex that finds the version in a generic manifest file.
pub const GENERIC_VERSION_REGEX_PATTERN: &'static str = r#"(?mi)(?<start>.*version"?:?\s*=?\s*['"]?)(?<version>\d\.\d\.\d-?.*?)(?<end>['",].*)?$"#;

/// Kinds of package whose manifest files are updated on release.
#[derive(Debug, Clone, Copy, PartialEq, Eq, Structural)]
pub enum ReleaseType {
    Generic,
    Node,
    Rust,
    Python,
    Php,
    Ruby,
    Java,
}

impl Default for ReleaseType {
    fn default() -> (r: Self)
        ensures
            r == ReleaseType::Generic,
    {
        ReleaseType::Generic
    }
}

/// Changelog settings (apply to all packages).
#[derive(Debug, Clone)]
pub struct ChangelogConfig {
    /// Main changelog body template.
    pub body: String,
    /// Leaves ci commits out of the changelog.
    pub skip_ci: bool,
    /// Leaves chore commits out of the changelog.
    pub skip_chore: bool,
    /// Leaves miscellaneous commits out of the changelog.
    pub skip_miscellaneous: bool,
    /// Leaves merge commits out of the changelog.
    pub skip_merge_commits: bool,
    /// Leaves release commits out of the changelog.
    pub skip_release_commits: bool,
    /// Commit SHAs (or prefixes) to skip.
    pub skip_shas: Option<Vec<String>>,
    /// Commit messages to reword, by SHA (or prefix).
    pub reword: Option<Vec<RewordedCommit>>,
    /// Includes the commit author name in the default body template.
    pub include_author: bool,
}

impl Default for ChangelogConfig {
    fn default() -> (r: Self)
        ensures
            r.body@ == DEFAULT_BODY@,
            !r.skip_ci,
            !r.skip_chore,
            !r.skip_miscellaneous,
            r.skip_merge_commits,
            r.skip_release_commits,
            r.skip_shas is None,
            r.reword is None,
            !r.include_author,
    {
        ChangelogConfig {
            body: DEFAULT_BODY.to_owned(),
            skip_ci: false,
            skip_chore: false,
            skip_miscellaneous: false,
            skip_merge_commits: true,
            skip_release_commits: true,
            skip_shas: None,
            reword: None,
            include_author: false,
        }
    }
}

/// A generic manifest file whose version is updated on release.
#[derive(Debug, Clone)]
pub struct AdditionalManifest {
    /// Path of the file relative to the package path.
    pub path: String,
    /// Regex that finds the version; it must have a `version` group.
    pub version_regex: Option<String>,
}

/// An additional manifest given either as a bare path or in full.
#[derive(Debug, Clone)]
pub enum AdditionalManifestSpec {
    /// A path that uses the generic version regex.
    Path(String),
    /// A path with an optional custom regex.
    Full(AdditionalManifest),
}

impl AdditionalManifestSpec {
    /// The manifest this entry describes; a missing regex becomes the
    /// generic version regex, so the result always has one.
    pub fn into_manifest(self) -> (r: AdditionalManifest)
        ensures
            r.path@ == match self {
                AdditionalManifestSpec::Path(p) => p@,
                AdditionalManifestSpec::Full(m) => m.path@,
            },
            opt_view(r.version_regex) == Some(match self {
                AdditionalManifestSpec::Full(m) => match m.version_regex {
                    Some(re) => re@,
                    None => GENERIC_VERSION_REGEX_PATTERN@,
                },
                AdditionalManifestSpec::Path(_) => GENERIC_VERSION_REGEX_PATTERN@,
            }),
    {
        match self {
            AdditionalManifestSpec::Path(path) => AdditionalManifest {
                path,
                version_regex: Some(GENERIC_VERSION_REGEX_PATTERN.to_owned()),
            },
            AdditionalManifestSpec::Full(manifest) => {
                let AdditionalManifest { path, version_regex } = manifest;
                let version_regex = match version_regex {
                    Some(re) => Some(re),
                    None => Some(GENERIC_VERSION_REGEX_PATTERN.to_owned()),
                };
                AdditionalManifest { path, version_regex }
            },
        }
    }
}

/// An additional manifest whose regex has been compiled.
#[derive(Debug)]
pub struct CompiledAdditionalManifest {
    /// Path of the file relative to the package path.
    pub path: String,
    /// The compiled version regex.
    pub version_regex: RegexMatcher,
}

/// A package released together with a parent package, with its own
/// manifest updates.
#[derive(Debug, Clone)]
pub struct SubPackage {
    /// Name of the sub-package.
    pub name: String,
    /// Path relative to the parent's workspace root.
    pub path: String,
    /// Kind of manifest files to update.
    pub release_type: Option<ReleaseType>,
}

impl SubPackage {
    /// A copy of this sub-package.
    pub fn duplicate(&self) -> (r: SubPackage)
        ensures
            r.name@ == self.name@,
            r.path@ == self.path@,
            r.release_type == self.release_type,
    {
        SubPackage { name: self.name.clone(), path: self.path.clone(), release_type: self.release_type }
    }
}

/// Settings of one package of the repository.
#[derive(Debug)]
pub struct PackageConfig {
    /// Name of the package; derived from its path when empty.
    pub name: String,
    /// Workspace root directory, relative to the repository root.
    pub workspace_root: String,
    /// Package directory, relative to the workspace root.
    pub path: String,
    /// Kind of manifest files to update.
    pub release_type: Option<ReleaseType>,
    /// Tag prefix of the package (e.g. "v" or "api-v").
    pub tag_prefix: Option<String>,
    /// Packages released together with this one.
    pub sub_packages: Option<Vec<SubPackage>>,
    /// Prerelease settings that override the global ones.
    pub prerelease: Option<PrereleaseConfig>,
    /// Starts the next release automatically after a release.
    pub auto_start_next: Option<bool>,
    /// Other directories whose commits belong to the package.
    pub additional_paths: Option<Vec<String>>,
    /// Generic manifest files whose version is updated.
    pub additional_manifest_files: Option<Vec<AdditionalManifestSpec>>,
    /// Compiled additional manifests, filled in by resolution.
    pub compiled_additional_manifests: Vec<CompiledAdditionalManifest>,
    /// Breaking commits always increment the major version.
    pub breaking_always_increment_major: Option<bool>,
    /// Feature commits always increment the minor version.
    pub features_always_increment_minor: Option<bool>,
    /// Commit type regex that increments the major version.
    pub custom_major_increment_regex: Option<String>,
    /// Commit type regex that increments the minor version.
    pub custom_minor_increment_regex: Option<String>,
    /// Analysis settings derived by resolution.
    pub analyzer_config: AnalyzerConfig,
}

impl Default for PackageConfig {
    fn default() -> (r: Self)
        ensures
            r.name@.len() == 0,
            r.path@ == "."@,
            r.workspace_root@ == "."@,
            r.sub_packages is None,
            r.release_type is None,
            r.tag_prefix is None,
            r.prerelease is None,
            r.auto_start_next is None,
            r.additional_paths is None,
            r.additional_manifest_files is None,
            r.compiled_additional_manifests@.len() == 0,
            r.breaking_always_increment_major is None,
            r.features_always_increment_minor is None,
            r.custom_major_increment_regex is None,
            r.custom_minor_increment_regex is None,
    {
        PackageConfig {
            name: String::new(),
            path: ".".to_owned(),
            workspace_root: ".".to_owned(),
            sub_packages: None,
            release_type: None,
            tag_prefix: None,
            prerelease: None,
            auto_start_next: None,
            additional_paths: None,
            additional_manifest_files: None,
            compiled_additional_manifests: Vec::new(),
            breaking_always_increment_major: None,
            features_always_increment_minor: None,
            custom_major_increment_regex: None,
            custom_minor_increment_regex: None,
            analyzer_config: AnalyzerConfig::default(),
        }
    }
}

impl PackageConfig {
    /// The resolved tag prefix; an invalid-configuration error naming the
    /// package when it has none.
    pub fn tag_prefix(&self) -> (r: Result<String, ReleasaurusError>)
        ensures
            r is Ok <==> self.tag_prefix is Some,
            r matches Ok(p) ==> Some(p@) == opt_view(self.tag_prefix),
            r matches Err(e) ==> e@ == crate::error::ErrorView::InvalidConfig(
                "failed to resolve tag prefix for package: "@ + self.name@,
            ),
    {
        match &self.tag_prefix {
            Some(p) => Ok(p.clone()),
            None => Err(ReleasaurusError::invalid_config(
                crate::text::concat("failed to resolve tag prefix for package: ", self.name.as_str()),
            )),
        }
    }

    /// The package configuration of a sub-package: its path and release
    /// type, everything else at its default.
    pub fn from_sub_package(value: &SubPackage) -> (r: PackageConfig)
        ensures
            r.name@.len() == 0,
            r.path@ == value.path@,
            r.workspace_root@ == "."@,
            r.release_type == value.release_type,
            r.tag_prefix is None,
            r.sub_packages is None,
            r.prerelease is None,
            r.auto_start_next is None,
            r.additional_paths is None,
            r.additional_manifest_files is None,
            r.compiled_additional_manifests@.len() == 0,
    {
        let mut r = PackageConfig::default();
        r.path = value.path.clone();
        r.release_type = value.release_type;
        r
    }
}

/// The configuration of `releasaurus.toml`.
#[derive(Debug)]
pub struct Config {
    /// Base branch of release pull requests, tags and releases; the
    /// repository's default branch when absent.
    pub base_branch: Option<String>,
    /// Maximum number of commits searched for a first release.
    pub first_release_search_depth: u64,
    /// One release pull request per package.
    pub separate_pull_requests: bool,
    /// Global prerelease settings.
    pub prerelease: PrereleaseConfig,
    /// Global default for starting the next release automatically.
    pub auto_start_next: Option<bool>,
    /// Breaking commits always increment the major version.
    pub breaking_always_increment_major: bool,
    /// Feature commits always increment the minor version.
    pub features_always_increment_minor: bool,
    /// Commit type regex that increments the major version.
    pub custom_major_increment_regex: Option<String>,
    /// Commit type regex that increments the minor version.
    pub custom_minor_increment_regex: Option<String>,
    /// Changelog settings.
    pub changelog: ChangelogConfig,
    /// The packages of the repository.
    pub packages: Vec<PackageConfig>,
}

impl Default for Config {
    fn default() -> (r: Self)
        ensures
            r.base_branch is None,
            r.first_release_search_depth == DEFAULT_COMMIT_SEARCH_DEPTH,
            !r.separate_pull_requests,
            r.prerelease.suffix is None,
            r.prerelease.strategy == PrereleaseStrategy::Versioned,
            r.auto_start_next is None,
            r.breaking_always_increment_major,
            r.features_always_increment_minor,
            r.custom_major_increment_regex is None,
            r.custom_minor_increment_regex is None,
            r.changelog.body@ == DEFAULT_BODY@,
            r.packages@.len() == 1,
            r.packages@[0].name@.len() == 0,
            r.packages@[0].path@ == "."@,
            r.packages@[0].workspace_root@ == "."@,
    {
        let mut packages: Vec<PackageConfig> = Vec::new();
        packages.push(PackageConfig::default());
        Config {
            base_branch: None,
            first_release_search_depth: DEFAULT_COMMIT_SEARCH_DEPTH,
            separate_pull_requests: false,
            prerelease: PrereleaseConfig::default(),
            auto_start_next: None,
            breaking_always_increment_major: true,
            features_always_increment_minor: true,
            custom_major_increment_regex: None,
            custom_minor_increment_regex: None,
            changelog: ChangelogConfig::default(),
            packages,
        }
    }
}

impl Config {
    /// The base branch; an error when none is configured.
    pub fn base_branch(&self) -> (r: Result<String, ReleasaurusError>)
        ensures
            r is Ok <==> self.base_branch is Some,
            r matches Ok(b) ==> Some(b@) == opt_view(self.base_branch),
            r matches Err(e) ==> e is BaseBranchNotConfigured,
    {
        match &self.base_branch {
            Some(b) => Ok(b.clone()),
            None => Err(ReleasaurusError::BaseBranchNotConfigured),
        }
    }

    /// Whether the next release of `package` starts automatically: the
    /// package's setting, else the global one, else no.
    pub fn auto_start_next(&self, package: &PackageConfig) -> (r: bool)
        ensures
            r == match package.auto_start_next {
                Some(b) => b,
                None => match self.auto_start_next {
                    Some(b) => b,
                    None => false,
                },
            },
    {
        match package.auto_start_next {
            Some(b) => b,
            None => match self.auto_start_next {
                Some(b) => b,
                None => false,
            },
        }
    }
}
} // verus!
