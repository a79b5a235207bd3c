//! Settings of commit analysis and changelog generation.

use vstd::prelude::*;

use crate::cli::CommitModifiers;
use crate::config::PrereleaseConfig;
use crate::pattern::RegexMatcher;

verus! {

/// Default changelog body template.
pub const DEFAULT_BODY: &'static str = r#"# [{{ version  }}]({{ link }}) - {{ timestamp | date(format="%Y-%m-%d") }}
{% for group, commits in commits | filter(attribute="merge_commit", value=false) | group_by(attribute="group") %}
### {{ group | striptags | trim }}
{% for commit in commits %}
{% if commit.breaking -%}
{% if commit.scope %}_({{ commit.scope }})_ {% endif -%}[**breaking**]: {{ commit.title }} [_({{ commit.short_id }})_]({{ commit.link }}){% if include_author %} ({{ commit.author_name }}){% endif %}
{% if commit.body -%}
> {{ commit.body }}
{% endif -%}
{% if commit.breaking_description -%}
> {{ commit.breaking_description }}
{% endif -%}
{% else -%}
- {% if commit.scope %}_({{ commit.scope }})_ {% endif %}{{ commit.title }} [_({{ commit.short_id }})_]({{ commit.link }}){% if include_author %} ({{ commit.author_name }}){% endif %}
{% endif -%}
{% endfor %}
{% endfor %}
 "#;

/// Settings of commit analysis and changelog generation for one package.
#[derive(Debug)]
pub struct AnalyzerConfig {
    /// Tera template of the changelog body.
    pub body: String,
    /// Leaves ci commits out of the changelog.
    pub skip_ci: bool,
    /// Leaves chore commits out of the changelog.
    pub skip_chore: bool,
    /// Leaves miscellaneous commits out of the changelog.
    pub skip_miscellaneous: bool,
    /// Leaves merge commits out of the changelog.
    pub skip_merge_commits: bool,
    /// Leaves release commits out of the changelog.
    pub skip_release_commits: bool,
    /// Includes the commit author in the changelog.
    pub include_author: bool,
    /// Prefix of the package's tags.
    pub tag_prefix: Option<String>,
    /// Base URL of release links.
    pub release_link_base_url: String,
    /// Resolved prerelease settings, when a prerelease is wanted.
    pub prerelease: Option<PrereleaseConfig>,
    /// Matches the titles of release commits.
    pub release_commit_matcher: Option<RegexMatcher>,
    /// Breaking commits always increment the major version.
    pub breaking_always_increment_major: bool,
    /// Feature commits always increment the minor version.
    pub features_always_increment_minor: bool,
    /// Commit type regex that increments the major version.
    pub custom_major_increment_regex: Option<String>,
    /// Commit type regex that increments the minor version.
    pub custom_minor_increment_regex: Option<String>,
    /// Commits to skip or reword.
    pub commit_modifiers: CommitModifiers,
}

impl Default for AnalyzerConfig {
    fn default() -> (r: Self)
        ensures
            r.body@ == DEFAULT_BODY@,
            !r.skip_ci,
            !r.skip_chore,
            !r.skip_miscellaneous,
            r.skip_merge_commits,
            r.skip_release_commits,
            !r.include_author,
            r.tag_prefix is None,
            r.release_link_base_url@.len() == 0,
            r.prerelease is None,
            r.release_commit_matcher is None,
            r.breaking_always_increment_major,
            r.features_always_increment_minor,
            r.custom_major_increment_regex is None,
            r.custom_minor_increment_regex is None,
            r.commit_modifiers.skip_shas@.len() == 0,
            r.commit_modifiers.reword@.len() == 0,
    {
        AnalyzerConfig {
            body: DEFAULT_BODY.to_owned(),
            skip_ci: false,
            skip_chore: false,
            skip_miscellaneous: false,
            skip_merge_commits: true,
            skip_release_commits: true,
            include_author: false,
            tag_prefix: None,
            release_link_base_url: String::new(),
            prerelease: None,
            release_commit_matcher: None,
            breaking_always_increment_major: true,
            features_always_increment_minor: true,
            custom_major_increment_regex: None,
            custom_minor_increment_regex: None,
            commit_modifiers: CommitModifiers::default(),
        }
    }
}

} // verus!
