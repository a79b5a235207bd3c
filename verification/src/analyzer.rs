//! Commit analysis: the next release of a package from its commits and its
//! current tag.

use vstd::prelude::*;

use crate::analyzer_config::AnalyzerConfig;
use crate::cli::CommitModifiers;
use crate::commit::{parsed_from_msg, spec_included_msg, Commit};
use crate::config::{opt_view, PrereleaseStrategy, RewordedCommit};
use crate::error::{ErrorView, ReleasaurusError};
use crate::forge::{clone_strings, ForgeCommit};
use crate::group::GroupParser;
use crate::helpers::{added_commit, collapse_newlines, strip_extra_lines, update_release_with_commit};
use crate::release::{Release, Tag};
use crate::increment::IncrementRules;
use crate::strategy::{
    increment_safe, numbers_not_lower, rules_error, spec_prerelease_next, spec_stable_next,
    texts, SpecRules, VersionContext, VersionStrategy, VersionStrategyFactory,
};
use crate::text::{starts_with, str_starts_with, trim};
use crate::version::{prerelease_error_text, prerelease_text, version_text, well_formed, SpecVersion};

verus! {

/// Whether a commit SHA starts with one of the SHAs to skip.
pub open spec fn skipped_sha(id: Seq<char>, skip: Seq<String>) -> bool {
    exists|i: int| 0 <= i < skip.len() && starts_with(id, (#[trigger] skip[i])@)
}

/// The message of a commit after rewording: the message of the first reword
/// entry whose SHA starts the commit SHA, otherwise the commit's own.
pub open spec fn reworded(id: Seq<char>, msg: Seq<char>, reword: Seq<RewordedCommit>) -> Seq<char>
    decreases reword.len(),
{
    if reword.len() == 0 {
        msg
    } else if starts_with(id, reword[0].sha@) {
        reword[0].message@
    } else {
        reworded(id, msg, reword.drop_first())
    }
}

/// The message a forge commit is analyzed with.
pub open spec fn analyzed_message(fc: ForgeCommit, mods: CommitModifiers) -> Seq<char> {
    reworded(fc.id@, fc.message@, mods.reword@)
}

/// The forge commits that make it into a release, each with the message it
/// is analyzed with, oldest first.
pub open spec fn kept_commits(fcs: Seq<ForgeCommit>, config: AnalyzerConfig) -> Seq<(ForgeCommit, Seq<char>)>
    decreases fcs.len(),
{
    if fcs.len() == 0 {
        Seq::empty()
    } else {
        let prev = kept_commits(fcs.drop_last(), config);
        let fc = fcs.last();
        let msg = analyzed_message(fc, config.commit_modifiers);
        if !skipped_sha(fc.id@, config.commit_modifiers.skip_shas@) && spec_included_msg(fc, msg, config) {
            prev.push((fc, msg))
        } else {
            prev
        }
    }
}

/// The settings and commit messages of a package's version calculation.
pub open spec fn config_rules(config: AnalyzerConfig, commits: Seq<Seq<char>>) -> SpecRules {
    SpecRules {
        breaking: config.breaking_always_increment_major,
        features: config.features_always_increment_minor,
        major: opt_view(config.custom_major_increment_regex),
        minor: opt_view(config.custom_minor_increment_regex),
        commits: commits,
    }
}

/// The next version of a package: none when there is a current version and
/// a custom increment regex does not compile; otherwise the stable strategy
/// without prerelease settings, or the configured prerelease strategy with
/// the configured suffix (no version when the suffix is missing).
pub open spec fn spec_config_next(config: AnalyzerConfig, current: Option<SpecVersion>, commits: Seq<Seq<char>>) -> Option<SpecVersion> {
    let rules = config_rules(config, commits);
    if current is Some && !rules.valid() {
        None
    } else {
        match config.prerelease {
            None => spec_stable_next(current, rules),
            Some(p) => match p.suffix {
                None => None,
                Some(id) => spec_prerelease_next(current, rules, id@, p.strategy),
            },
        }
    }
}

/// The error of an analysis that finds no next version: the regex error of
/// the custom increment regexes when there is a current version and one of
/// them does not compile, else the missing prerelease suffix, else the
/// invalid prerelease made of the suffix.
pub open spec fn spec_config_error(config: AnalyzerConfig, current: Option<SpecVersion>, commits: Seq<Seq<char>>) -> ErrorView {
    let rules = config_rules(config, commits);
    if current is Some && !rules.valid() {
        rules_error(rules.major, rules.minor)
    } else {
        match config.prerelease {
            None => rules_error(rules.major, rules.minor),
            Some(p) => match p.suffix {
                None => ErrorView::Other("resolved prerelease config must include suffix"@),
                Some(id) => ErrorView::InvalidVersion(prerelease_error_text(prerelease_text(id@, p.strategy))),
            },
        }
    }
}

/// The name of a tag for `version`: the tag prefix followed by the version.
pub open spec fn tag_name(prefix: Option<String>, version: SpecVersion) -> Seq<char> {
    match prefix {
        Some(p) => p@ + version_text(version),
        None => version_text(version),
    }
}

/// The raw messages of a list of commits.
pub open spec fn raw_messages(commits: Seq<Commit>) -> Seq<Seq<char>> {
    commits.map_values(|c: Commit| c.raw_message@)
}

/// Whether a commit SHA starts with one of the SHAs to skip.
fn is_skipped(id: &str, skip_shas: &Vec<String>) -> (r: bool)
    ensures
        r == skipped_sha(id@, skip_shas@),
{
    let mut i: usize = 0;
    while i < skip_shas.len()
        invariant
            i <= skip_shas@.len(),
            forall|j: int| 0 <= j < i ==> !starts_with(id@, (#[trigger] skip_shas@[j])@),
        decreases skip_shas.len() - i,
    {
        if str_starts_with(id, skip_shas[i].as_str()) {
            return true;
        }
        i = i + 1;
    }
    false
}

/// The message a commit is analyzed with after rewording.
fn reword_message(id: &str, message: &str, reword: &Vec<RewordedCommit>) -> (r: String)
    ensures
        r@ == reworded(id@, message@, reword@),
{
    let mut i: usize = 0;
    assert(reword@.subrange(0, reword@.len() as int) =~= reword@);
    while i < reword.len()
        invariant
            i <= reword@.len(),
            reworded(id@, message@, reword@) == reworded(id@, message@, reword@.subrange(i as int, reword@.len() as int)),
        decreases reword.len() - i,
    {
        let ghost rest = reword@.subrange(i as int, reword@.len() as int);
        assert(rest[0] == reword@[i as int]);
        if str_starts_with(id, reword[i].sha.as_str()) {
            return reword[i].message.clone();
        }
        assert(rest.drop_first() =~= reword@.subrange(i + 1, reword@.len() as int));
        i = i + 1;
    }
    assert(reword@.subrange(reword@.len() as int, reword@.len() as int) =~= Seq::<RewordedCommit>::empty());
    message.to_owned()
}

/// A copy of a forge commit with another message.
fn with_message(fc: &ForgeCommit, message: String) -> (r: ForgeCommit)
    ensures
        r.id@ == fc.id@,
        r.short_id@ == fc.short_id@,
        r.link@ == fc.link@,
        r.author_name@ == fc.author_name@,
        r.author_email@ == fc.author_email@,
        r.merge_commit == fc.merge_commit,
        r.timestamp == fc.timestamp,
        r.message@ == message@,
{
    ForgeCommit {
        id: fc.id.clone(),
        short_id: fc.short_id.clone(),
        link: fc.link.clone(),
        author_name: fc.author_name.clone(),
        author_email: fc.author_email.clone(),
        merge_commit: fc.merge_commit,
        message,
        timestamp: fc.timestamp,
        files: clone_strings(&fc.files),
    }
}

/// The messages of kept commits.
pub open spec fn kept_messages(kept: Seq<(ForgeCommit, Seq<char>)>) -> Seq<Seq<char>> {
    kept.map_values(|k: (ForgeCommit, Seq<char>)| k.1)
}

/// `r` is the analysis of `commits` from `current_tag` under `config`: no
/// release when the configuration keeps none of the commits, the error of
/// [`spec_config_error`] when no next version can be found, otherwise the release of the kept commits
/// with the next version of the package's version strategy, its tag named
/// with the tag prefix and its link under the release link base URL.
pub open spec fn analyzed(
    config: AnalyzerConfig,
    commits: Seq<ForgeCommit>,
    current_tag: Option<Tag>,
    r: Result<Option<Release>, ReleasaurusError>,
) -> bool {
    let kept = kept_commits(commits, config);
    let current = match current_tag {
        Some(t) => Some(t.semver@),
        None => None::<SpecVersion>,
    };
    let next = spec_config_next(config, current, kept_messages(kept));
    &&& (r matches Ok(None) <==> kept.len() == 0)
    &&& (r is Err <==> (kept.len() > 0 && next is None))
    &&& (r matches Err(e) ==> e@ == spec_config_error(config, current, kept_messages(kept)))
    &&& (r matches Ok(Some(rel)) ==> {
        &&& rel.commits@.len() == kept.len()
        &&& (forall|i: int| 0 <= i < kept.len() ==> parsed_from_msg(#[trigger] rel.commits@[i], kept[i].0, kept[i].1))
        &&& next == Some(rel.tag.semver@)
        &&& rel.tag.name@ == tag_name(config.tag_prefix, rel.tag.semver@)
        &&& rel.link@ == config.release_link_base_url@ + seq!['/'] + rel.tag.name@
        &&& rel.tag.timestamp is None
        &&& (current_tag is None ==> rel.tag.sha@ == rel.commits@.last().id@ && rel.sha@ == rel.commits@.last().id@)
        &&& (current_tag is Some ==> rel.tag.sha@.len() == 0)
        &&& rel.include_author == config.include_author
        &&& rel.notes@.len() == 0
        &&& (current_tag matches Some(t) ==> numbers_not_lower(t.semver@, rel.tag.semver@))
    })
}

/// Analyzes commits with conventional commit rules to find the next
/// version and the changelog entries of a package's release.
pub struct Analyzer<'a> {
    /// The configuration this analyzer uses.
    pub config: &'a AnalyzerConfig,
    group_parser: GroupParser,
}

impl<'a> Analyzer<'a> {
    /// The configuration this analyzer uses.
    pub closed spec fn config(&self) -> AnalyzerConfig {
        *self.config
    }

    /// An analyzer with the given configuration.
    pub fn new(config: &'a AnalyzerConfig) -> (r: Result<Self, ReleasaurusError>)
        ensures
            r matches Ok(a) && a.config() == *config,
    {
        Ok(Analyzer { config, group_parser: GroupParser::new() })
    }

    /// The release of the commits the configuration keeps, oldest first.
    fn process_commits(&self, commits: &Vec<ForgeCommit>) -> (r: Release)
        ensures
            r.commits@.len() == kept_commits(commits@, self.config()).len(),
            forall|i: int| 0 <= i < r.commits@.len() ==>
                parsed_from_msg(#[trigger] r.commits@[i], kept_commits(commits@, self.config())[i].0,
                    kept_commits(commits@, self.config())[i].1),
            r.commits@.len() > 0 ==> r.sha@ == r.commits@.last().id@,
            r.include_author == self.config().include_author,
            r.tag.sha@.len() == 0,
            r.tag.timestamp is None,
            r.link@.len() == 0,
            r.notes@.len() == 0,
    {
        let mut release = Release::default();
        release.include_author = self.config.include_author;
        let mut i: usize = 0;
        while i < commits.len()
            invariant
                i <= commits@.len(),
                release.commits@.len() == kept_commits(commits@.take(i as int), self.config()).len(),
                forall|j: int| 0 <= j < release.commits@.len() ==>
                    parsed_from_msg(#[trigger] release.commits@[j], kept_commits(commits@.take(i as int), self.config())[j].0,
                        kept_commits(commits@.take(i as int), self.config())[j].1),
                release.commits@.len() > 0 ==> release.sha@ == release.commits@.last().id@,
                release.include_author == self.config().include_author,
                release.tag.sha@.len() == 0,
                release.tag.timestamp is None,
                release.link@.len() == 0,
                release.notes@.len() == 0,
            decreases commits.len() - i,
        {
            let fc = &commits[i];
            assert(commits@.take(i + 1).drop_last() =~= commits@.take(i as int));
            assert(commits@.take(i + 1).last() == *fc);
            let ghost before = release;
            if !is_skipped(fc.id.as_str(), &self.config.commit_modifiers.skip_shas) {
                let msg = reword_message(fc.id.as_str(), fc.message.as_str(), &self.config.commit_modifiers.reword);
                let modified = with_message(fc, msg);
                update_release_with_commit(&self.group_parser, &mut release, &modified, self.config);
                proof {
                    let kept_prev = kept_commits(commits@.take(i as int), self.config());
                    let kept_now = kept_commits(commits@.take(i + 1), self.config());
                    assert(spec_included_msg(modified, modified.message@, self.config())
                        == spec_included_msg(*fc, modified.message@, self.config()));
                    if spec_included_msg(*fc, modified.message@, self.config()) {
                        assert(kept_now == kept_prev.push((*fc, modified.message@)));
                        assert forall|j: int| 0 <= j < release.commits@.len() implies
                            parsed_from_msg(#[trigger] release.commits@[j], kept_now[j].0, kept_now[j].1) by {
                            if j < before.commits@.len() {
                                assert(release.commits@[j] == before.commits@[j]);
                            }
                        }
                    } else {
                        assert(kept_now == kept_prev);
                    }
                }
            } else {
                assert(kept_commits(commits@.take(i + 1), self.config()) == kept_commits(commits@.take(i as int), self.config()));
            }
            i = i + 1;
        }
        assert(commits@.take(commits@.len() as int) =~= commits@);
        release
    }

    /// The next release of the package, or `None` when the configuration
    /// keeps none of the commits. Its version follows the package's version
    /// strategy from the current tag and the kept commits; its tag is named
    /// with the tag prefix and links under the release link base URL. The
    /// notes are left empty for rendering.
    pub fn analyze(&self, commits: Vec<ForgeCommit>, current_tag: Option<Tag>) -> (r: Result<Option<Release>, ReleasaurusError>)
        requires
            current_tag matches Some(t) ==> well_formed(t.semver@) && increment_safe(t.semver@),
        ensures
            analyzed(self.config(), commits@, current_tag, r),
    {
        let mut release = self.process_commits(&commits);
        if release.commits.len() == 0 {
            return Ok(None);
        }
        let mut messages: Vec<String> = Vec::new();
        let mut i: usize = 0;
        while i < release.commits.len()
            invariant
                i <= release.commits@.len(),
                messages@.len() == i,
                forall|j: int| 0 <= j < i ==> (#[trigger] messages@[j])@ == release.commits@[j].raw_message@,
            decreases release.commits.len() - i,
        {
            messages.push(release.commits[i].raw_message.clone());
            i = i + 1;
        }
        let ghost kept = kept_commits(commits@, self.config());
        assert(texts(messages@) =~= kept_messages(kept)) by {
            assert forall|j: int| 0 <= j < kept.len() implies texts(messages@)[j] == kept_messages(kept)[j] by {
                assert(parsed_from_msg(release.commits@[j], kept[j].0, kept[j].1));
            }
        }
        if current_tag.is_some() {
            let major = match &self.config.custom_major_increment_regex {
                Some(s) => Some(s.as_str()),
                None => None,
            };
            let minor = match &self.config.custom_minor_increment_regex {
                Some(s) => Some(s.as_str()),
                None => None,
            };
            match IncrementRules::build(
                self.config.breaking_always_increment_major,
                self.config.features_always_increment_minor,
                major,
                minor,
            ) {
                Err(e) => {
                    return Err(e);
                },
                Ok(_) => {},
            }
        }
        let strategy = match VersionStrategyFactory::create(self.config.prerelease.as_ref()) {
            Ok(s) => s,
            Err(e) => {
                return Err(e);
            },
        };
        let context = VersionContext {
            current_tag: current_tag.as_ref(),
            commits: messages.as_slice(),
            breaking_always_increment_major: self.config.breaking_always_increment_major,
            features_always_increment_minor: self.config.features_always_increment_minor,
            custom_major_increment_regex: match &self.config.custom_major_increment_regex {
                Some(s) => Some(s.as_str()),
                None => None,
            },
            custom_minor_increment_regex: match &self.config.custom_minor_increment_regex {
                Some(s) => Some(s.as_str()),
                None => None,
            },
        };
        let next = match strategy.calculate_next_version(&context) {
            Ok(v) => v,
            Err(e) => {
                return Err(e);
            },
        };
        let version_text = next.to_text();
        let name = match &self.config.tag_prefix {
            Some(prefix) => crate::text::concat(prefix.as_str(), version_text.as_str()),
            None => version_text,
        };
        let sha = match &current_tag {
            Some(_) => String::new(),
            None => release.sha.clone(),
        };
        let with_slash = crate::text::concat(self.config.release_link_base_url.as_str(), "/");
        release.link = crate::text::concat(with_slash.as_str(), name.as_str());
        proof {
            reveal_strlit("/");
        }
        release.tag = Tag { sha, name, semver: next, timestamp: None };
        let r: Result<Option<Release>, ReleasaurusError> = Ok(Some(release));
        assert(kept.len() > 0);
        assert(r matches Ok(Some(rel)) && rel.commits@.len() == kept.len());
        proof {
            let config = self.config();
            let current = match current_tag {
                Some(t) => Some(t.semver@),
                None => None::<SpecVersion>,
            };
            let nx = spec_config_next(config, current, kept_messages(kept));
            let rel = r->Ok_0->Some_0;
            assert(nx == Some(rel.tag.semver@));
            assert(rel.tag.name@ == tag_name(config.tag_prefix, rel.tag.semver@));
            assert(rel.link@ == config.release_link_base_url@ + seq!['/'] + rel.tag.name@);
            assert(current_tag is None ==> rel.tag.sha@ == rel.commits@.last().id@ && rel.sha@ == rel.commits@.last().id@);
            assert(current_tag is Some ==> rel.tag.sha@.len() == 0);
            assert(rel.include_author == config.include_author);
            assert(rel.notes@.len() == 0);
            assert(current_tag matches Some(t) ==> numbers_not_lower(t.semver@, rel.tag.semver@));
            assert(forall|i: int| 0 <= i < kept.len() ==> parsed_from_msg(#[trigger] rel.commits@[i], kept[i].0, kept[i].1));
            assert(!(r is Err));
            assert(!(r matches Ok(None)));
        }
        assert(analyzed(self.config(), commits@, current_tag, r));
        r
    }
}

impl Release {
    /// Sets the release notes from rendered template output: trimmed, with
    /// runs of three or more newlines shortened to two.
    pub fn set_rendered_notes(&mut self, rendered: &str)
        ensures
            final(self).notes@ == trim(collapse_newlines(trim(rendered@))),
            final(self).tag == old(self).tag,
            final(self).link == old(self).link,
            final(self).sha == old(self).sha,
            final(self).commits@ == old(self).commits@,
            final(self).include_author == old(self).include_author,
            final(self).timestamp == old(self).timestamp,
    {
        let trimmed = crate::text::trim_str(rendered);
        self.notes = strip_extra_lines(trimmed.as_str());
    }
}

} // verus!
