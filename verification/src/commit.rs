//! Commits parsed into changelog entries.

use vstd::prelude::*;

use crate::analyzer_config::AnalyzerConfig;
use crate::config::{clone_opt, opt_view};
use crate::forge::ForgeCommit;
use crate::group::{spec_group, Group, GroupParser};
use crate::pattern::spec_regex_is_match;
use crate::text::{chars_of, split_once, string_of_range, trim, trim_bounds, trim_end};

verus! {

/// Structured commit with parsed conventional commit fields, author metadata
/// and changelog category.
#[derive(Debug, Clone)]
pub struct Commit {
    pub id: String,
    pub short_id: String,
    pub group: Group,
    pub scope: Option<String>,
    pub title: String,
    pub body: Option<String>,
    pub link: String,
    pub breaking: bool,
    pub breaking_description: Option<String>,
    pub merge_commit: bool,
    pub timestamp: i64,
    pub author_name: String,
    pub author_email: String,
    pub raw_title: String,
    pub raw_message: String,
}

impl Default for Commit {
    fn default() -> (r: Self)
        ensures
            r.id@.len() == 0,
            r.group == Group::Miscellaneous,
            r.scope is None,
            r.body is None,
            !r.breaking,
            r.breaking_description is None,
            !r.merge_commit,
            r.timestamp == 0,
            r.raw_message@.len() == 0,
    {
        Commit {
            id: String::new(),
            short_id: String::new(),
            group: Group::Miscellaneous,
            scope: None,
            title: String::new(),
            body: None,
            link: String::new(),
            breaking: false,
            breaking_description: None,
            merge_commit: false,
            timestamp: 0,
            author_name: String::new(),
            author_email: String::new(),
            raw_title: String::new(),
            raw_message: String::new(),
        }
    }
}

/// The parts of a conventional commit message.
#[derive(Debug, Clone)]
pub struct ConventionalCommit {
    pub type_: String,
    pub scope: Option<String>,
    pub description: String,
    pub body: Option<String>,
    pub breaking: bool,
    pub breaking_description: Option<String>,
}

/// Mathematical view of a [`ConventionalCommit`].
pub struct SpecConventional {
    pub type_: Seq<char>,
    pub scope: Option<Seq<char>>,
    pub description: Seq<char>,
    pub body: Option<Seq<char>>,
    pub breaking: bool,
    pub breaking_description: Option<Seq<char>>,
}

impl View for ConventionalCommit {
    type V = SpecConventional;

    open spec fn view(&self) -> SpecConventional {
        SpecConventional {
            type_: self.type_@,
            scope: opt_view(self.scope),
            description: self.description@,
            body: opt_view(self.body),
            breaking: self.breaking,
            breaking_description: opt_view(self.breaking_description),
        }
    }
}

/// The result of `git_conventional::Commit::parse` on `message`: `None` when
/// the message is not a conventional commit.
pub uninterp spec fn spec_conventional_parse(message: Seq<char>) -> Option<SpecConventional>;

/// Parses a message as a conventional commit (`git_conventional::Commit::parse`).
/// A parsed commit is breaking exactly when it has a breaking description.
#[verifier::external_body]
fn parse_conventional(message: &str) -> (r: Option<ConventionalCommit>)
    ensures
        r matches Some(c) ==> spec_conventional_parse(message@) == Some(c@),
        r is None ==> spec_conventional_parse(message@) is None,
        r matches Some(c) ==> (c.breaking <==> c.breaking_description is Some),
{
    match git_conventional::Commit::parse(message) {
        Ok(cc) => Some(ConventionalCommit {
            type_: cc.type_().as_str().to_string(),
            scope: cc.scope().map(|s| s.as_str().to_string()),
            description: cc.description().to_string(),
            body: cc.body().map(|b| b.to_string()),
            breaking: cc.breaking(),
            breaking_description: cc.breaking_description().map(|d| d.to_string()),
        }),
        Err(_) => None,
    }
}

/// The title and body of a commit message: the trimmed first line, and the
/// trimmed rest when there is a rest.
pub open spec fn title_and_body(message: Seq<char>) -> (Seq<char>, Option<Seq<char>>) {
    match split_once(message, '\n') {
        Some((t, b)) => (trim(t), if b.len() == 0 { None } else { Some(trim(b)) }),
        None => (message, None),
    }
}

/// Why a parsed conventional commit is left out of the changelog.
pub open spec fn conventional_skipped(
    config: AnalyzerConfig,
    group: Group,
    merge_commit: bool,
    raw_title: Seq<char>,
) -> bool {
    ||| (group == Group::Ci && config.skip_ci)
    ||| (group == Group::Chore && config.skip_chore)
    ||| (group == Group::Miscellaneous && config.skip_miscellaneous)
    ||| (merge_commit && config.skip_merge_commits)
    ||| (config.skip_release_commits && config.release_commit_matcher is Some
        && spec_regex_is_match(config.release_commit_matcher.unwrap().source(), raw_title))
}

/// The optional text trimmed.
pub open spec fn opt_trim(o: Option<Seq<char>>) -> Option<Seq<char>> {
    match o {
        Some(s) => Some(trim(s)),
        None => None,
    }
}

/// The fields a parsed commit takes over unchanged from the forge commit,
/// whose message is `msg`.
pub open spec fn keeps_metadata(c: Commit, fc: ForgeCommit, msg: Seq<char>) -> bool {
    &&& c.id@ == fc.id@
    &&& c.short_id@ == fc.short_id@
    &&& c.link@ == fc.link@
    &&& c.merge_commit == fc.merge_commit
    &&& c.timestamp == fc.timestamp
    &&& c.author_name@ == fc.author_name@
    &&& c.author_email@ == fc.author_email@
    &&& c.raw_message@ == msg
    &&& c.raw_title@ == title_and_body(msg).0
}

/// Whether the configuration keeps a forge commit whose message is `msg` in
/// the changelog: a conventional commit unless its group, merge status or
/// release title is skipped; any other commit unless miscellaneous or
/// skipped merge commits are left out.
pub open spec fn spec_included_msg(fc: ForgeCommit, msg: Seq<char>, config: AnalyzerConfig) -> bool {
    match spec_conventional_parse(trim_end(msg)) {
        Some(cc) => !conventional_skipped(config, spec_group(cc.breaking, msg), fc.merge_commit,
            title_and_body(msg).0),
        None => !(config.skip_miscellaneous || (fc.merge_commit && config.skip_merge_commits)),
    }
}

/// Whether the configuration keeps a forge commit in the changelog.
pub open spec fn spec_included(fc: ForgeCommit, config: AnalyzerConfig) -> bool {
    spec_included_msg(fc, fc.message@, config)
}

/// The changelog entry made of a forge commit whose message is `msg`: its
/// conventional commit fields where the message follows the convention,
/// otherwise its plain title and body in the miscellaneous group.
pub open spec fn parsed_from_msg(c: Commit, fc: ForgeCommit, msg: Seq<char>) -> bool {
    let tb = title_and_body(msg);
    &&& keeps_metadata(c, fc, msg)
    &&& match spec_conventional_parse(trim_end(msg)) {
        Some(cc) => {
            &&& c.group == spec_group(cc.breaking, msg)
            &&& opt_view(c.scope) == cc.scope
            &&& c.title@ == trim(cc.description)
            &&& opt_view(c.body) == opt_trim(cc.body)
            &&& c.breaking == cc.breaking
            &&& opt_view(c.breaking_description) == cc.breaking_description
        },
        None => {
            &&& c.group == Group::Miscellaneous
            &&& c.scope is None
            &&& c.title@ == tb.0
            &&& opt_view(c.body) == tb.1
            &&& !c.breaking
            &&& c.breaking_description is None
        },
    }
}

/// The changelog entry made of a forge commit.
pub open spec fn parsed_from(c: Commit, fc: ForgeCommit) -> bool {
    parsed_from_msg(c, fc, fc.message@)
}

/// The title and body of a message, with the bounds of its first line.
fn split_title_body(message: &str) -> (r: (String, Option<String>))
    ensures
        r.0@ == title_and_body(message@).0,
        opt_view(r.1) == title_and_body(message@).1,
{
    let v = chars_of(message);
    assert(v@.subrange(0, v@.len() as int) =~= v@);
    match crate::text::find_char_from(&v, 0, '\n') {
        Some(i) => {
            proof {
                crate::text::lemma_find_char_sound(v@, '\n');
            }
            assert(i < v.len());
            let (tlo, thi) = trim_bounds(&v, 0, i);
            let title = string_of_range(&v, tlo, thi);
            if i + 1 == v.len() {
                (title, None)
            } else {
                let (blo, bhi) = trim_bounds(&v, i + 1, v.len());
                (title, Some(string_of_range(&v, blo, bhi)))
            }
        },
        None => (message.to_owned(), None),
    }
}

/// Text with trailing whitespace removed.
fn trim_end_str(s: &str) -> (r: String)
    ensures
        r@ == trim_end(s@),
{
    let v = chars_of(s);
    let mut hi: usize = v.len();
    while hi > 0 && crate::text::char_is_ws(v[hi - 1])
        invariant
            hi <= v@.len(),
            forall|j: int| hi <= j < v@.len() ==> crate::text::is_ws(#[trigger] v@[j]),
        decreases hi,
    {
        hi = hi - 1;
    }
    proof {
        crate::text::lemma_trim_end_skip(v@, hi as int);
        let u = v@.subrange(0, hi as int);
        if hi > 0 {
            assert(u.last() == v@[hi - 1]);
        }
        assert(trim_end(u) == u);
    }
    string_of_range(&v, 0, hi)
}

/// A copy of an optional trimmed text.
fn trimmed_opt(o: &Option<String>) -> (r: Option<String>)
    ensures
        opt_view(r) == opt_trim(opt_view(*o)),
{
    match o {
        Some(s) => Some(crate::text::trim_str(s.as_str())),
        None => None,
    }
}

impl Commit {
    /// Parses a forge commit into a changelog entry, reading conventional
    /// commit fields where the message follows the convention and falling
    /// back to its plain title and body otherwise. Returns `None` for commits
    /// the configuration leaves out of the changelog.
    pub fn parse_forge_commit(
        group_parser: &GroupParser,
        forge_commit: &ForgeCommit,
        config: &AnalyzerConfig,
    ) -> (r: Option<Self>)
        ensures
            r is Some <==> spec_included(*forge_commit, *config),
            r matches Some(c) ==> parsed_from(c, *forge_commit),
    {
        let (raw_title, raw_body) = split_title_body(forge_commit.message.as_str());
        let trimmed = trim_end_str(forge_commit.message.as_str());
        match parse_conventional(trimmed.as_str()) {
            Some(cc) => {
                let mut commit = Commit {
                    id: forge_commit.id.clone(),
                    short_id: forge_commit.short_id.clone(),
                    scope: clone_opt(&cc.scope),
                    title: crate::text::trim_str(cc.description.as_str()),
                    body: trimmed_opt(&cc.body),
                    merge_commit: forge_commit.merge_commit,
                    breaking: cc.breaking,
                    breaking_description: clone_opt(&cc.breaking_description),
                    raw_title,
                    raw_message: forge_commit.message.clone(),
                    group: Group::Miscellaneous,
                    link: forge_commit.link.clone(),
                    timestamp: forge_commit.timestamp,
                    author_name: forge_commit.author_name.clone(),
                    author_email: forge_commit.author_email.clone(),
                };
                commit.group = group_parser.parse(&commit);
                if commit.group == Group::Ci && config.skip_ci {
                    return None;
                }
                if commit.group == Group::Chore && config.skip_chore {
                    return None;
                }
                if commit.group == Group::Miscellaneous && config.skip_miscellaneous {
                    return None;
                }
                if commit.merge_commit && config.skip_merge_commits {
                    return None;
                }
                if config.skip_release_commits {
                    if let Some(matcher) = &config.release_commit_matcher {
                        if matcher.is_match(commit.raw_title.as_str()) {
                            return None;
                        }
                    }
                }
                Some(commit)
            },
            None => {
                if config.skip_miscellaneous {
                    return None;
                }
                if forge_commit.merge_commit && config.skip_merge_commits {
                    return None;
                }
                Some(Commit {
                    id: forge_commit.id.clone(),
                    short_id: forge_commit.short_id.clone(),
                    scope: None,
                    title: raw_title.clone(),
                    body: raw_body,
                    merge_commit: forge_commit.merge_commit,
                    breaking: false,
                    breaking_description: None,
                    raw_title,
                    raw_message: forge_commit.message.clone(),
                    group: Group::Miscellaneous,
                    link: forge_commit.link.clone(),
                    timestamp: forge_commit.timestamp,
                    author_name: forge_commit.author_name.clone(),
                    author_email: forge_commit.author_email.clone(),
                })
            },
        }
    }
}

} // verus!
