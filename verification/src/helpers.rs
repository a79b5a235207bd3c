//! Changelog text helpers and release assembly.

use vstd::prelude::*;

use crate::analyzer_config::AnalyzerConfig;
use crate::commit::{parsed_from, spec_included, Commit};
use crate::forge::ForgeCommit;
use crate::group::GroupParser;
use crate::pattern::{spec_regex_split, spec_regex_valid, RegexMatcher};
use crate::release::Release;
use crate::text::{chars_of, trim, trim_str};

verus! {

/// The number of newlines that end `s`.
pub open spec fn trailing_newlines(s: Seq<char>) -> nat
    decreases s.len(),
{
    if s.len() > 0 && s.last() == '\n' {
        trailing_newlines(s.drop_last()) + 1
    } else {
        0
    }
}

/// `s` with every run of three or more newlines shortened to two.
pub open spec fn collapse_newlines(s: Seq<char>) -> Seq<char>
    decreases s.len(),
{
    if s.len() == 0 {
        Seq::empty()
    } else if s.last() == '\n' && trailing_newlines(s.drop_last()) >= 2 {
        collapse_newlines(s.drop_last())
    } else {
        collapse_newlines(s.drop_last()).push(s.last())
    }
}

/// Normalizes changelog formatting: runs of three or more newlines become
/// two, and surrounding whitespace is removed.
pub fn strip_extra_lines(changelog: &str) -> (r: String)
    ensures
        r@ == trim(collapse_newlines(changelog@)),
{
    let v = chars_of(changelog);
    let mut out: Vec<char> = Vec::new();
    let mut run: usize = 0;
    let mut i: usize = 0;
    while i < v.len()
        invariant
            i <= v@.len(),
            out@ == collapse_newlines(v@.take(i as int)),
            run == trailing_newlines(v@.take(i as int)),
            run <= i,
        decreases v.len() - i,
    {
        let c = v[i];
        assert(v@.take(i + 1).drop_last() =~= v@.take(i as int));
        assert(v@.take(i + 1).last() == c);
        if c == '\n' {
            if run < 2 {
                out.push(c);
            }
            run = run + 1;
        } else {
            out.push(c);
            run = 0;
        }
        i = i + 1;
    }
    assert(v@.take(v@.len() as int) =~= v@);
    let collapsed = crate::text::string_of(&out);
    trim_str(collapsed.as_str())
}

/// The line that starts a release in generated release notes.
pub const RELEASE_NOTES_START_LINE: &'static str = r"#\s\[.*\]\(.*\)\s-\s\d{4}-\d{2}-\d{2}";

/// The notes of the projected release in a changelog: the trimmed text
/// between the first and the second release heading.
pub fn parse_projected_release_notes(changelog: &str) -> (r: String)
    requires
        spec_regex_valid(RELEASE_NOTES_START_LINE@),
        spec_regex_split(RELEASE_NOTES_START_LINE@, trim(changelog@)).len() >= 2,
    ensures
        r@ == trim(spec_regex_split(RELEASE_NOTES_START_LINE@, trim(changelog@))[1]),
{
    let matcher = match RegexMatcher::new(RELEASE_NOTES_START_LINE) {
        Ok(m) => m,
        Err(_) => {
            assert(false);
            return String::new();
        },
    };
    let trimmed = trim_str(changelog);
    let pieces = matcher.split(trimmed.as_str());
    trim_str(pieces[1].as_str())
}

/// The notes of the projected release in a changelog, or `None` when the
/// changelog holds no release heading.
pub fn try_parse_projected_release_notes(changelog: &str) -> (r: Option<String>)
    ensures
        r is Some <==> spec_regex_valid(RELEASE_NOTES_START_LINE@)
            && spec_regex_split(RELEASE_NOTES_START_LINE@, trim(changelog@)).len() >= 2,
        r matches Some(s) ==> s@ == trim(spec_regex_split(RELEASE_NOTES_START_LINE@, trim(changelog@))[1]),
{
    let matcher = match RegexMatcher::new(RELEASE_NOTES_START_LINE) {
        Ok(m) => m,
        Err(_) => {
            return None;
        },
    };
    let trimmed = trim_str(changelog);
    let pieces = matcher.split(trimmed.as_str());
    if pieces.len() < 2 {
        return None;
    }
    Some(parse_projected_release_notes(changelog))
}

/// A line that starts a release heading in a changelog.
pub const RELEASE_HEADING_START: &'static str = r"(?m)^#\s";

/// The first release of a changelog without the releases after it: the
/// text up to the second release heading, as a heading followed by a blank
/// line.
pub fn strip_trailing_previous_release(changelog: &str) -> (r: String)
    requires
        spec_regex_valid(RELEASE_HEADING_START@),
        spec_regex_split(RELEASE_HEADING_START@, trim(changelog@)).len() >= 2,
    ensures
        r@ == "# "@ + trim(spec_regex_split(RELEASE_HEADING_START@, trim(changelog@))[1]) + "\n\n"@,
{
    let matcher = match RegexMatcher::new(RELEASE_HEADING_START) {
        Ok(m) => m,
        Err(_) => {
            assert(false);
            return String::new();
        },
    };
    let trimmed = trim_str(changelog);
    let pieces = matcher.split(trimmed.as_str());
    let release = trim_str(pieces[1].as_str());
    let headed = crate::text::concat("# ", release.as_str());
    proof {
        reveal_strlit("# ");
        reveal_strlit("\n\n");
    }
    crate::text::concat(headed.as_str(), "\n\n")
}

/// The first release of a changelog without the releases after it, or
/// `None` when the changelog holds no release heading.
pub fn try_strip_trailing_previous_release(changelog: &str) -> (r: Option<String>)
    ensures
        r is Some <==> spec_regex_valid(RELEASE_HEADING_START@)
            && spec_regex_split(RELEASE_HEADING_START@, trim(changelog@)).len() >= 2,
        r matches Some(s) ==> s@ == "# "@ + trim(spec_regex_split(RELEASE_HEADING_START@, trim(changelog@))[1]) + "\n\n"@,
{
    let matcher = match RegexMatcher::new(RELEASE_HEADING_START) {
        Ok(m) => m,
        Err(_) => {
            return None;
        },
    };
    let trimmed = trim_str(changelog);
    let pieces = matcher.split(trimmed.as_str());
    if pieces.len() < 2 {
        return None;
    }
    Some(strip_trailing_previous_release(changelog))
}

/// The release after adding a forge commit: when the configuration keeps the
/// commit, its changelog entry is appended and the release takes the
/// commit's SHA and timestamp; otherwise the release is unchanged.
pub open spec fn added_commit(old: Release, new: Release, fc: ForgeCommit, config: AnalyzerConfig) -> bool {
    &&& new.tag == old.tag
    &&& new.link == old.link
    &&& new.include_author == old.include_author
    &&& new.notes == old.notes
    &&& if spec_included(fc, config) {
        &&& new.commits@.len() == old.commits@.len() + 1
        &&& new.commits@.subrange(0, old.commits@.len() as int) == old.commits@
        &&& parsed_from(new.commits@.last(), fc)
        &&& new.sha@ == fc.id@
        &&& new.timestamp == fc.timestamp
    } else {
        &&& new.commits@ == old.commits@
        &&& new.sha == old.sha
        &&& new.timestamp == old.timestamp
    }
}

/// Adds a parsed commit to the release and moves the release SHA and
/// timestamp to that commit.
pub fn update_release_with_commit(
    group_parser: &GroupParser,
    release: &mut Release,
    forge_commit: &ForgeCommit,
    config: &AnalyzerConfig,
)
    ensures
        added_commit(*old(release), *final(release), *forge_commit, *config),
{
    if let Some(commit) = Commit::parse_forge_commit(group_parser, forge_commit, config) {
        let commit_id = commit.id.clone();
        release.commits.push(commit);
        release.sha = commit_id;
        release.timestamp = forge_commit.timestamp;
        assert(release.commits@.subrange(0, old(release).commits@.len() as int) =~= old(release).commits@);
    }
}

} // verus!
