//! Semantic versions and prerelease handling.
//!
//! `Version` holds the parts of a semantic version as plain values; the
//! prerelease and build metadata are kept as their text.

use vstd::prelude::*;

use crate::error::ReleasaurusError;
use crate::text::{chars_of, concat, decimal, find_char, split_on, string_of_range, u64_to_string};

verus! {

/// A semantic version: `major.minor.patch[-pre][+build]`.
#[derive(Debug, Clone, PartialEq, Eq)]
pub struct Version {
    pub major: u64,
    pub minor: u64,
    pub patch: u64,
    /// Prerelease identifiers, dot separated; empty for a stable version.
    pub pre: String,
    /// Build metadata, dot separated; empty when absent.
    pub build: String,
}

/// Mathematical view of a [`Version`].
pub struct SpecVersion {
    pub major: u64,
    pub minor: u64,
    pub patch: u64,
    pub pre: Seq<char>,
    pub build: Seq<char>,
}

impl View for Version {
    type V = SpecVersion;

    open spec fn view(&self) -> SpecVersion {
        SpecVersion {
            major: self.major,
            minor: self.minor,
            patch: self.patch,
            pre: self.pre@,
            build: self.build@,
        }
    }
}

/// Whether `c` may appear in a semver identifier.
pub open spec fn is_ident_char(c: char) -> bool {
    ('a' <= c && c <= 'z') || ('A' <= c && c <= 'Z') || ('0' <= c && c <= '9') || c == '-'
}

/// Whether every character of `s` is a digit.
pub open spec fn all_digits(s: Seq<char>) -> bool {
    forall|i: int| 0 <= i < s.len() ==> crate::text::is_digit(#[trigger] s[i])
}

/// A prerelease identifier: non-empty, made of `[0-9A-Za-z-]`, and a
/// numeric identifier has no leading zero.
pub open spec fn valid_pre_segment(seg: Seq<char>) -> bool {
    &&& seg.len() > 0
    &&& forall|i: int| 0 <= i < seg.len() ==> is_ident_char(#[trigger] seg[i])
    &&& !(seg.len() > 1 && all_digits(seg) && seg[0] == '0')
}

/// A build identifier: non-empty and made of `[0-9A-Za-z-]`.
pub open spec fn valid_build_segment(seg: Seq<char>) -> bool {
    &&& seg.len() > 0
    &&& forall|i: int| 0 <= i < seg.len() ==> is_ident_char(#[trigger] seg[i])
}

/// Text accepted by `semver::Prerelease::new`: empty, or dot separated
/// valid prerelease identifiers.
pub open spec fn valid_prerelease(s: Seq<char>) -> bool {
    s.len() == 0 || forall|j: int| 0 <= j < split_on(s, '.').len() ==> valid_pre_segment(#[trigger] split_on(s, '.')[j])
}

/// Text accepted by `semver::BuildMetadata::new`: empty, or dot separated
/// valid build identifiers.
pub open spec fn valid_build(s: Seq<char>) -> bool {
    s.len() == 0 || forall|j: int| 0 <= j < split_on(s, '.').len() ==> valid_build_segment(#[trigger] split_on(s, '.')[j])
}

/// A version whose prerelease and build text are well formed.
pub open spec fn well_formed(v: SpecVersion) -> bool {
    valid_prerelease(v.pre) && valid_build(v.build)
}

/// The first dot separated identifier of a prerelease text.
pub open spec fn first_identifier(pre: Seq<char>) -> Seq<char> {
    match find_char(pre, '.') {
        Some(i) => pre.subrange(0, i),
        None => pre,
    }
}

/// `v` without its prerelease part.
pub open spec fn graduated(v: SpecVersion) -> SpecVersion {
    SpecVersion { pre: Seq::empty(), ..v }
}

/// `v` with prerelease `pre`.
pub open spec fn with_pre(v: SpecVersion, pre: Seq<char>) -> SpecVersion {
    SpecVersion { pre: pre, ..v }
}

/// The text of a version as semver prints it.
pub open spec fn version_text(v: SpecVersion) -> Seq<char> {
    decimal(v.major as nat) + seq!['.'] + decimal(v.minor as nat) + seq!['.'] + decimal(v.patch as nat)
        + (if v.pre.len() > 0 { seq!['-'] + v.pre } else { Seq::empty() })
        + (if v.build.len() > 0 { seq!['+'] + v.build } else { Seq::empty() })
}

/// The prerelease text that `add_prerelease` sets for `identifier`.
pub open spec fn prerelease_text(identifier: Seq<char>, strategy: crate::config::PrereleaseStrategy) -> Seq<char> {
    match strategy {
        crate::config::PrereleaseStrategy::Versioned => identifier + ".1"@,
        crate::config::PrereleaseStrategy::Static => identifier,
    }
}

/// What `semver::Prerelease::new` gives for a text: `Ok` when it is a valid
/// prerelease, otherwise the text of its error.
pub uninterp spec fn spec_prerelease_new(text: Seq<char>) -> Result<(), Seq<char>>;

/// What `semver::Version::parse` gives for a text: the version, or the text
/// of its error.
pub uninterp spec fn spec_semver_parse(text: Seq<char>) -> Result<SpecVersion, Seq<char>>;

/// Whether a check succeeded, or the text of its error.
pub open spec fn check_outcome(r: Result<(), String>) -> Result<(), Seq<char>> {
    match r {
        Ok(_) => Ok(()),
        Err(m) => Err(m@),
    }
}

/// The content of a version parse result.
pub open spec fn parse_outcome(r: Result<Version, String>) -> Result<SpecVersion, Seq<char>> {
    match r {
        Ok(v) => Ok(v@),
        Err(m) => Err(m@),
    }
}

/// The text of the error `semver::Prerelease::new` gives for `text` (empty
/// when it is valid).
pub open spec fn prerelease_error_text(text: Seq<char>) -> Seq<char> {
    match spec_prerelease_new(text) {
        Ok(_) => Seq::empty(),
        Err(m) => m,
    }
}

/// Checks prerelease text with `semver::Prerelease::new`: it accepts
/// exactly the dot separated identifiers of semver (`valid_prerelease`);
/// the error is the text semver gives.
#[verifier::external_body]
fn check_prerelease(text: &str) -> (r: Result<(), String>)
    ensures
        check_outcome(r) == spec_prerelease_new(text@),
        r is Ok <==> valid_prerelease(text@),
{
    match semver::Prerelease::new(text) {
        Ok(_) => Ok(()),
        Err(e) => Err(e.to_string()),
    }
}

/// Parses a version with `semver::Version::parse`. A parsed version has
/// valid prerelease and build parts, as semver checks them.
#[verifier::external_body]
fn semver_parse(text: &str) -> (r: Result<Version, String>)
    ensures
        parse_outcome(r) == spec_semver_parse(text@),
        r matches Ok(v) ==> well_formed(v@),
{
    match semver::Version::parse(text) {
        Ok(v) => Ok(Version {
            major: v.major, minor: v.minor, patch: v.patch,
            pre: v.pre.as_str().to_string(), build: v.build.as_str().to_string(),
        }),
        Err(e) => Err(e.to_string()),
    }
}

impl Version {
    /// Parses a semantic version; an invalid-version error with semver's
    /// message when the text is not one.
    pub fn parse(text: &str) -> (r: Result<Version, ReleasaurusError>)
        ensures
            r matches Ok(v) ==> spec_semver_parse(text@) == Ok::<SpecVersion, Seq<char>>(v@) && well_formed(v@),
            r matches Err(e) ==> spec_semver_parse(text@) matches Err(m) && e@ == crate::error::ErrorView::InvalidVersion(m),
    {
        match semver_parse(text) {
            Ok(v) => Ok(v),
            Err(m) => Err(ReleasaurusError::InvalidVersion(m)),
        }
    }

    /// The version `major.minor.patch` with no prerelease and no build.
    pub fn new(major: u64, minor: u64, patch: u64) -> (r: Version)
        ensures
            r@ == (SpecVersion { major, minor, patch, pre: Seq::empty(), build: Seq::empty() }),
    {
        Version { major, minor, patch, pre: String::new(), build: String::new() }
    }

    /// A copy of this version.
    pub fn duplicate(&self) -> (r: Version)
        ensures
            r@ == self@,
    {
        Version {
            major: self.major,
            minor: self.minor,
            patch: self.patch,
            pre: self.pre.clone(),
            build: self.build.clone(),
        }
    }

    /// Whether this version has no prerelease part.
    pub fn is_stable(&self) -> (r: bool)
        ensures
            r == (self.pre@.len() == 0),
    {
        self.pre.as_str().is_empty()
    }

    /// The text of this version, `major.minor.patch[-pre][+build]`.
    pub fn to_text(&self) -> (r: String)
        ensures
            r@ == version_text(self@),
    {
        let mut s = u64_to_string(self.major);
        s.append(".");
        s.append(u64_to_string(self.minor).as_str());
        s.append(".");
        s.append(u64_to_string(self.patch).as_str());
        if !self.pre.as_str().is_empty() {
            s.append("-");
            s.append(self.pre.as_str());
        }
        if !self.build.as_str().is_empty() {
            s.append("+");
            s.append(self.build.as_str());
        }
        proof {
            reveal_strlit(".");
            reveal_strlit("-");
            reveal_strlit("+");
        }
        assert(s@ =~= version_text(self@));
        s
    }

    /// The first identifier of the prerelease part (empty when stable).
    pub fn prerelease_identifier(&self) -> (r: String)
        ensures
            r@ == first_identifier(self.pre@),
    {
        let v = chars_of(self.pre.as_str());
        assert(v@.subrange(0, v@.len() as int) =~= v@);
        let found = crate::text::find_char_from(&v, 0, '.');
        assert(v@ == self.pre@);
        match found {
            Some(i) => {
                assert(find_char(self.pre@, '.') == Some(i as int));
                string_of_range(&v, 0, i)
            },
            None => {
                assert(find_char(self.pre@, '.') is None);
                self.pre.clone()
            },
        }
    }
}

/// Replaces the prerelease part of `version` with `identifier` (followed by
/// `.1` for the versioned strategy), e.g. `1.1.0` with `alpha` gives
/// `1.1.0-alpha.1`. Fails when the result is not a valid prerelease.
pub fn add_prerelease(
    version: Version,
    identifier: &str,
    strategy: crate::config::PrereleaseStrategy,
) -> (r: Result<Version, ReleasaurusError>)
    ensures
        r is Ok <==> valid_prerelease(prerelease_text(identifier@, strategy)),
        r matches Ok(v) ==> v@ == with_pre(version@, prerelease_text(identifier@, strategy)),
        r matches Err(e) ==> e@ == crate::error::ErrorView::InvalidVersion(
            prerelease_error_text(prerelease_text(identifier@, strategy)),
        ),
{
    let pre = match strategy {
        crate::config::PrereleaseStrategy::Versioned => concat(identifier, ".1"),
        crate::config::PrereleaseStrategy::Static => identifier.to_owned(),
    };
    proof {
        reveal_strlit(".1");
    }
    match check_prerelease(pre.as_str()) {
        Ok(()) => {
            let mut version = version;
            version.pre = pre;
            Ok(version)
        },
        Err(msg) => Err(ReleasaurusError::InvalidVersion(msg)),
    }
}

/// Removes the prerelease part of a version, keeping its numbers and build
/// metadata (e.g. `1.0.0-alpha.5` gives `1.0.0`).
pub fn graduate_prerelease(version: &Version) -> (r: Version)
    ensures
        r@ == graduated(version@),
{
    Version {
        major: version.major,
        minor: version.minor,
        patch: version.patch,
        pre: String::new(),
        build: version.build.clone(),
    }
}

} // verus!
