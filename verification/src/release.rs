//! Tags and releases.

use vstd::prelude::*;

use crate::commit::Commit;
use crate::version::{SpecVersion, Version};

verus! {

/// Git tag that represents a release version, linking a semantic version to
/// a specific commit SHA.
#[derive(Debug, Clone, PartialEq, Eq)]
pub struct Tag {
    /// Git commit SHA of the tag.
    pub sha: String,
    /// Tag name.
    pub name: String,
    /// Semantic version parsed from tag name.
    pub semver: Version,
    /// Timestamp of tag.
    pub timestamp: Option<i64>,
}

impl Default for Tag {
    fn default() -> (r: Self)
        ensures
            r.sha@.len() == 0,
            r.name@.len() == 0,
            r.semver@ == (SpecVersion { major: 0, minor: 0, patch: 0, pre: Seq::empty(), build: Seq::empty() }),
            r.timestamp is None,
    {
        Tag { sha: String::new(), name: String::new(), semver: Version::new(0, 0, 0), timestamp: None }
    }
}

impl Tag {
    /// The text a tag displays as: its name.
    pub fn display(&self) -> (r: String)
        ensures
            r@ == self.name@,
    {
        self.name.clone()
    }

    /// A copy of this tag.
    pub fn duplicate(&self) -> (r: Tag)
        ensures
            r.sha@ == self.sha@,
            r.name@ == self.name@,
            r.semver@ == self.semver@,
            r.timestamp == self.timestamp,
    {
        Tag {
            sha: self.sha.clone(),
            name: self.name.clone(),
            semver: self.semver.duplicate(),
            timestamp: self.timestamp,
        }
    }
}

/// Release package: version tag, changelog notes and the commits it holds.
#[derive(Debug)]
pub struct Release {
    /// Associated version tag.
    pub tag: Tag,
    /// Release URL link.
    pub link: String,
    /// Git commit SHA for the release.
    pub sha: String,
    /// Commits included in this release.
    pub commits: Vec<Commit>,
    /// Whether to include the author name of each commit in the changelog.
    pub include_author: bool,
    /// Generated release notes.
    pub notes: String,
    /// Release timestamp.
    pub timestamp: i64,
}

impl Default for Release {
    fn default() -> (r: Self)
        ensures
            r.commits@.len() == 0,
            r.link@.len() == 0,
            r.sha@.len() == 0,
            r.notes@.len() == 0,
            r.timestamp == 0,
            !r.include_author,
            r.tag.name@.len() == 0,
            r.tag.sha@.len() == 0,
            r.tag.timestamp is None,
    {
        Release {
            tag: Tag::default(),
            link: String::new(),
            sha: String::new(),
            commits: Vec::new(),
            include_author: false,
            notes: String::new(),
            timestamp: 0,
        }
    }
}


/// The version a serialized release names: the parsed version, or 0.0.0
/// when the text is not a version.
pub open spec fn record_version(version: Seq<char>) -> SpecVersion {
    match crate::version::spec_semver_parse(version) {
        Ok(v) => v,
        Err(_) => SpecVersion { major: 0, minor: 0, patch: 0, pre: Seq::empty(), build: Seq::empty() },
    }
}

impl Release {
    /// A release read back from its serialized form: its tag is named
    /// `tag_name`, has the version parsed from `version` (0.0.0 when it is
    /// not a version) and neither SHA nor timestamp.
    pub fn from_record(
        version: &str,
        tag_name: String,
        link: String,
        sha: String,
        commits: Vec<Commit>,
        include_author: bool,
        notes: String,
        timestamp: i64,
    ) -> (r: Release)
        ensures
            r.tag.semver@ == record_version(version@),
            r.tag.name@ == tag_name@,
            r.tag.sha@.len() == 0,
            r.tag.timestamp is None,
            r.link@ == link@,
            r.sha@ == sha@,
            r.commits@ == commits@,
            r.include_author == include_author,
            r.notes@ == notes@,
            r.timestamp == timestamp,
    {
        let semver = match Version::parse(version) {
            Ok(v) => v,
            Err(_) => Version::new(0, 0, 0),
        };
        Release {
            tag: Tag { sha: String::new(), name: tag_name, semver, timestamp: None },
            link,
            sha,
            commits,
            include_author,
            notes,
            timestamp,
        }
    }
}
} // verus!
