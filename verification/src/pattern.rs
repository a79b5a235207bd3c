//! Regular expressions built from configuration, compiled and matched by
//! the `regex` crate.

use vstd::prelude::*;

verus! {

#[verifier::external_type_specification]
#[verifier::external_body]
pub struct ExRegex(regex::Regex);

/// What `regex::Regex::new` gives for `pattern`: `Ok` when it compiles,
/// otherwise the text of its error.
pub uninterp spec fn spec_regex_compile(pattern: Seq<char>) -> Result<(), Seq<char>>;

/// Whether `regex::Regex::new` accepts `pattern`.
pub open spec fn spec_regex_valid(pattern: Seq<char>) -> bool {
    spec_regex_compile(pattern) is Ok
}

/// The text of the error `regex::Regex::new` gives for `pattern` (empty
/// when it compiles).
pub open spec fn regex_error_text(pattern: Seq<char>) -> Seq<char> {
    match spec_regex_compile(pattern) {
        Ok(_) => Seq::empty(),
        Err(m) => m,
    }
}

/// Whether a compilation succeeded, or the text of its error.
pub open spec fn compile_outcome<T>(r: Result<T, String>) -> Result<(), Seq<char>> {
    match r {
        Ok(_) => Ok(()),
        Err(m) => Err(m@),
    }
}

/// Whether the regex compiled from `pattern` matches somewhere in `text`
/// (`regex::Regex::is_match`).
pub uninterp spec fn spec_regex_is_match(pattern: Seq<char>, text: Seq<char>) -> bool;

/// The capture group names of the regex compiled from `pattern`, in order,
/// `None` for unnamed groups (`regex::Regex::capture_names`).
pub uninterp spec fn spec_regex_capture_names(pattern: Seq<char>) -> Seq<Option<Seq<char>>>;

/// The pieces of `text` between the matches of the regex compiled from
/// `pattern` (`regex::Regex::split`).
pub uninterp spec fn spec_regex_split(pattern: Seq<char>, text: Seq<char>) -> Seq<Seq<char>>;

/// For each match of the regex compiled from `pattern` in `text`, in
/// order, the text of its capture group named `group` (`None` where that
/// group did not take part in the match) (`regex::Regex::captures_iter`).
pub uninterp spec fn spec_regex_captures(pattern: Seq<char>, text: Seq<char>, group: Seq<char>) -> Seq<Option<Seq<char>>>;

/// A compiled regular expression together with the pattern it was compiled
/// from. Values are only made by [`RegexMatcher::new`], so `regex` is always
/// the compilation of `pattern`.
#[derive(Debug)]
pub struct RegexMatcher {
    pattern: String,
    regex: regex::Regex,
}

impl RegexMatcher {
    /// The pattern this matcher was compiled from.
    pub closed spec fn source(&self) -> Seq<char> {
        self.pattern@
    }

    /// Compiles `pattern` (`regex::Regex::new`); the error is the text the
    /// regex crate gives.
    #[verifier::external_body]
    pub(crate) fn new(pattern: &str) -> (r: Result<RegexMatcher, String>)
        ensures
            compile_outcome(r) == spec_regex_compile(pattern@),
            r matches Ok(m) ==> m.source() == pattern@,
    {
        match regex::Regex::new(pattern) {
            Ok(regex) => Ok(RegexMatcher { pattern: pattern.to_string(), regex }),
            Err(e) => Err(e.to_string()),
        }
    }

    /// Whether the regex matches somewhere in `text` (`regex::Regex::is_match`).
    #[verifier::external_body]
    pub(crate) fn is_match(&self, text: &str) -> (r: bool)
        ensures
            r == spec_regex_is_match(self.source(), text@),
    {
        self.regex.is_match(text)
    }

    /// The names of the capture groups, `None` for unnamed ones
    /// (`regex::Regex::capture_names`).
    #[verifier::external_body]
    pub(crate) fn capture_names(&self) -> (r: Vec<Option<String>>)
        ensures
            r@.len() == spec_regex_capture_names(self.source()).len(),
            forall|i: int| 0 <= i < r@.len() ==>
                crate::config::opt_view(#[trigger] r@[i]) == spec_regex_capture_names(self.source())[i],
    {
        self.regex.capture_names().map(|n| n.map(|s| s.to_string())).collect()
    }

    /// The pieces of `text` between the matches of the regex
    /// (`regex::Regex::split`).
    #[verifier::external_body]
    pub(crate) fn split(&self, text: &str) -> (r: Vec<String>)
        ensures
            r@.len() == spec_regex_split(self.source(), text@).len(),
            forall|i: int| 0 <= i < r@.len() ==> (#[trigger] r@[i])@ == spec_regex_split(self.source(), text@)[i],
    {
        self.regex.split(text).map(|s| s.to_string()).collect()
    }

    /// The text of the group named `group` in each match in `text`
    /// (`regex::Regex::captures_iter` and `regex::Captures::name`).
    #[verifier::external_body]
    pub(crate) fn captures_named(&self, text: &str, group: &str) -> (r: Vec<Option<String>>)
        ensures
            r@.len() == spec_regex_captures(self.source(), text@, group@).len(),
            forall|i: int| 0 <= i < r@.len() ==>
                crate::config::opt_view(#[trigger] r@[i]) == spec_regex_captures(self.source(), text@, group@)[i],
    {
        self.regex.captures_iter(text).map(|c| c.name(group).map(|m| m.as_str().to_string())).collect()
    }

    /// A copy of this matcher (`regex::Regex::clone`).
    #[verifier::external_body]
    pub(crate) fn duplicate(&self) -> (r: RegexMatcher)
        ensures
            r.source() == self.source(),
    {
        RegexMatcher { pattern: self.pattern.clone(), regex: self.regex.clone() }
    }

    /// The pattern this matcher was compiled from.
    pub fn as_str(&self) -> (r: &str)
        ensures
            r@ == self.source(),
    {
        self.pattern.as_str()
    }
}

/// Compiles `pattern` into a matcher; an invalid pattern gives a regex
/// error carrying the regex crate's message.
pub fn compile_pattern(pattern: &str) -> (r: Result<RegexMatcher, crate::error::ReleasaurusError>)
    ensures
        r is Ok <==> spec_regex_valid(pattern@),
        r matches Ok(m) ==> m.source() == pattern@,
        r matches Err(e) ==> e@ == crate::error::ErrorView::RegexError(regex_error_text(pattern@)),
{
    match RegexMatcher::new(pattern) {
        Ok(m) => Ok(m),
        Err(msg) => Err(crate::error::ReleasaurusError::RegexError(msg)),
    }
}

/// Whether `matcher` matches somewhere in `text`.
pub fn matches_text(matcher: &RegexMatcher, text: &str) -> (r: bool)
    ensures
        r == spec_regex_is_match(matcher.source(), text@),
{
    matcher.is_match(text)
}

} // verus!
