//! Version strategies: how the next version follows from the current tag and
//! the commits since it.

use vstd::prelude::*;

use crate::config::{PrereleaseConfig, PrereleaseStrategy};
use crate::error::ReleasaurusError;
use crate::increment::{
    updater_breaking, updater_custom_major, updater_custom_minor, updater_features, updater_new, IncrementRules,
};
use crate::pattern::{compile_outcome, regex_error_text, spec_regex_compile, spec_regex_valid};
use crate::release::Tag;
use crate::text::{decimal, find_char};
use crate::version::{
    add_prerelease, all_digits, first_identifier, graduate_prerelease, graduated, prerelease_text,
    valid_prerelease, well_formed, with_pre, SpecVersion, Version,
};

verus! {

#[verifier::external_type_specification]
#[verifier::external_body]
pub struct ExVersionUpdater(next_version::VersionUpdater);

/// Index of the last occurrence of `c` in `s`, if any.
pub open spec fn rfind_char(s: Seq<char>, c: char) -> Option<int>
    decreases s.len(),
{
    if s.len() == 0 {
        None
    } else if s.last() == c {
        Some(s.len() - 1)
    } else {
        rfind_char(s.drop_last(), c)
    }
}

/// The number written by the decimal digits `s`.
pub open spec fn digits_value(s: Seq<char>) -> nat
    decreases s.len(),
{
    if s.len() == 0 {
        0
    } else {
        digits_value(s.drop_last()) * 10 + ((s.last() as int - '0' as int) as nat)
    }
}

/// Whether `s` is read by `str::parse::<u32>` (for text without `+`).
pub open spec fn parses_u32(s: Seq<char>) -> bool {
    s.len() > 0 && all_digits(s) && digits_value(s) <= u32::MAX
}

/// The prerelease text after next_version's prerelease increment: a
/// numeric last identifier goes up by one, otherwise `.1` is appended.
pub open spec fn increment_last_identifier(pre: Seq<char>) -> Seq<char> {
    match rfind_char(pre, '.') {
        Some(i) => {
            let right = pre.subrange(i + 1, pre.len() as int);
            if parses_u32(right) {
                pre.subrange(0, i) + seq!['.'] + decimal(digits_value(right) + 1)
            } else {
                pre + ".1"@
            }
        },
        None => pre + ".1"@,
    }
}

/// The version after a major increment.
pub open spec fn bump_major(v: SpecVersion) -> SpecVersion {
    SpecVersion { major: (v.major + 1) as u64, minor: 0, patch: 0, pre: Seq::empty(), build: v.build }
}

/// The version after a minor increment.
pub open spec fn bump_minor(v: SpecVersion) -> SpecVersion {
    SpecVersion { minor: (v.minor + 1) as u64, patch: 0, pre: Seq::empty(), ..v }
}

/// The version after a patch increment.
pub open spec fn bump_patch(v: SpecVersion) -> SpecVersion {
    SpecVersion { patch: (v.patch + 1) as u64, pre: Seq::empty(), ..v }
}

/// Versions next_version can increment without overflowing a counter.
pub open spec fn increment_safe(v: SpecVersion) -> bool {
    &&& v.major < u64::MAX
    &&& v.minor < u64::MAX
    &&& v.patch < u64::MAX
    &&& match rfind_char(v.pre, '.') {
        Some(i) => parses_u32(v.pre.subrange(i + 1, v.pre.len() as int))
            ==> digits_value(v.pre.subrange(i + 1, v.pre.len() as int)) < u32::MAX,
        None => true,
    }
}

/// `next` is not below `current` in its major, minor and patch numbers.
pub open spec fn numbers_not_lower(current: SpecVersion, next: SpecVersion) -> bool {
    ||| next.major > current.major
    ||| (next.major == current.major && next.minor > current.minor)
    ||| (next.major == current.major && next.minor == current.minor && next.patch >= current.patch)
}

/// The version `next_version::VersionUpdater::increment` computes for an
/// updater with the given settings, `version` and commit messages.
pub uninterp spec fn spec_next_version(
    breaking_always_increment_major: bool,
    features_always_increment_minor: bool,
    custom_major_increment_regex: Option<Seq<char>>,
    custom_minor_increment_regex: Option<Seq<char>>,
    version: SpecVersion,
    commits: Seq<Seq<char>>,
) -> SpecVersion;

/// The texts of a list of strings.
pub open spec fn texts(v: Seq<String>) -> Seq<Seq<char>> {
    v.map_values(|s: String| s@)
}

/// The text of an optional string slice.
pub open spec fn opt_str_view(o: Option<&str>) -> Option<Seq<char>> {
    match o {
        Some(s) => Some(s@),
        None => None,
    }
}

impl IncrementRules {
    /// An updater with the given settings; fails when a custom regex does
    /// not compile.
    pub fn build(
        breaking: bool,
        features: bool,
        major: Option<&str>,
        minor: Option<&str>,
    ) -> (r: Result<IncrementRules, ReleasaurusError>)
        ensures
            r is Ok <==> regexes_valid(opt_str_view(major), opt_str_view(minor)),
            r matches Ok(rules) ==> {
                &&& rules.breaking() == breaking
                &&& rules.features() == features
                &&& rules.major() == opt_str_view(major)
                &&& rules.minor() == opt_str_view(minor)
            },
            r matches Err(e) ==> e@ == rules_error(opt_str_view(major), opt_str_view(minor)),
    {
        let mut rules = updater_new();
        rules = updater_breaking(rules, breaking);
        rules = updater_features(rules, features);
        if let Some(pattern) = major {
            match updater_custom_major(rules, pattern) {
                Ok(r) => {
                    rules = r;
                },
                Err(msg) => {
                    return Err(ReleasaurusError::RegexError(msg));
                },
            }
        }
        if let Some(pattern) = minor {
            match updater_custom_minor(rules, pattern) {
                Ok(r) => {
                    rules = r;
                },
                Err(msg) => {
                    return Err(ReleasaurusError::RegexError(msg));
                },
            }
        }
        Ok(rules)
    }

}

proof fn lemma_digits_value_grows(s: Seq<char>, j: int)
    requires
        0 <= j <= s.len(),
        all_digits(s),
    ensures
        digits_value(s) >= digits_value(s.take(j)),
    decreases s.len(),
{
    if j < s.len() {
        let d = s.drop_last();
        assert(d.take(j) =~= s.take(j));
        assert(all_digits(d)) by {
            assert forall|i: int| 0 <= i < d.len() implies crate::text::is_digit(#[trigger] d[i]) by {
                assert(d[i] == s[i]);
            }
        }
        lemma_digits_value_grows(d, j);
    } else {
        assert(s.take(j) =~= s);
    }
}

/// Whether next_version can increment `version`: none of its numbers is at
/// its largest value, and a numeric last prerelease identifier is below
/// the largest `u32`.
pub fn increment_is_safe(version: &Version) -> (r: bool)
    ensures
        r == increment_safe(version@),
{
    if version.major == u64::MAX || version.minor == u64::MAX || version.patch == u64::MAX {
        return false;
    }
    let v = crate::text::chars_of(version.pre.as_str());
    let mut i: usize = v.len();
    assert(v@.take(v@.len() as int) =~= v@);
    while i > 0 && v[i - 1] != '.'
        invariant
            i <= v@.len(),
            rfind_char(v@, '.') == rfind_char(v@.take(i as int), '.'),
        decreases i,
    {
        assert(v@.take(i as int).last() == v@[i - 1]);
        assert(v@.take(i as int).drop_last() =~= v@.take(i - 1));
        i = i - 1;
    }
    if i == 0 {
        assert(v@.take(0) =~= Seq::<char>::empty());
        return true;
    }
    assert(v@.take(i as int).last() == v@[i - 1]);
    assert(rfind_char(v@, '.') == Some(i - 1));
    let ghost right = v@.subrange(i as int, v@.len() as int);
    let mut val: u64 = 0;
    let mut j: usize = i;
    while j < v.len()
        invariant
            0 < i <= j <= v@.len(),
            v@ == version.pre@,
            rfind_char(v@, '.') == Some(i - 1),
            version.major < u64::MAX && version.minor < u64::MAX && version.patch < u64::MAX,
            right == v@.subrange(i as int, v@.len() as int),
            all_digits(right.take(j - i)),
            val == digits_value(right.take(j - i)),
            val <= u32::MAX,
        decreases v.len() - j,
    {
        let c = v[j];
        assert(right.take(j + 1 - i).drop_last() =~= right.take(j - i));
        assert(right.take(j + 1 - i).last() == c);
        if !('0' <= c && c <= '9') {
            assert(!crate::text::is_digit(right[j - i]));
            assert(!parses_u32(right));
            return true;
        }
        assert(all_digits(right.take(j + 1 - i))) by {
            assert forall|k: int| 0 <= k < j + 1 - i implies crate::text::is_digit(#[trigger] right.take(j + 1 - i)[k]) by {
                if k < j - i {
                    assert(right.take(j + 1 - i)[k] == right.take(j - i)[k]);
                }
            }
        }
        let d = (c as u32 - '0' as u32) as u64;
        val = val * 10 + d;
        if val > 4294967295u64 {
            proof {
                if all_digits(right) {
                    lemma_digits_value_grows(right, j + 1 - i);
                }
            }
            assert(!parses_u32(right));
            return true;
        }
        j = j + 1;
    }
    assert(right.take(j - i) =~= right);
    j == i || val < 4294967295u64
}

/// The error of increment rules whose custom regexes do not both compile:
/// the error of the major regex when it fails, otherwise that of the minor
/// one.
pub open spec fn rules_error(major: Option<Seq<char>>, minor: Option<Seq<char>>) -> crate::error::ErrorView {
    let minor_text = match minor {
        Some(p) => regex_error_text(p),
        None => Seq::empty(),
    };
    crate::error::ErrorView::RegexError(match major {
        Some(p) => if !spec_regex_valid(p) { regex_error_text(p) } else { minor_text },
        None => minor_text,
    })
}

/// The error a strategy's version calculation can give: the increment
/// rules' error when there is a current version and the rules' regexes do
/// not compile, otherwise (for a prerelease strategy) the error of an
/// invalid prerelease made of its identifier.
pub open spec fn strategy_error(s: Strategy, current: Option<SpecVersion>, rules: SpecRules, e: crate::error::ErrorView) -> bool {
    ||| (current is Some && !rules.valid() && e == rules_error(rules.major, rules.minor))
    ||| match s {
        Strategy::Stable(_) => false,
        Strategy::VersionedPrerelease(p) => e == crate::error::ErrorView::InvalidVersion(
            crate::version::prerelease_error_text(prerelease_text(p.identifier(), PrereleaseStrategy::Versioned)),
        ),
        Strategy::StaticPrerelease(p) => e == crate::error::ErrorView::InvalidVersion(
            crate::version::prerelease_error_text(prerelease_text(p.identifier(), PrereleaseStrategy::Static)),
        ),
    }
}

/// Both optional custom regexes compile.
pub open spec fn regexes_valid(major: Option<Seq<char>>, minor: Option<Seq<char>>) -> bool {
    &&& (major matches Some(p) ==> spec_regex_valid(p))
    &&& (minor matches Some(p) ==> spec_regex_valid(p))
}

/// Everything a version calculation reads.
#[derive(Debug, Clone)]
pub struct VersionContext<'a> {
    /// Current version tag (None for the first release).
    pub current_tag: Option<&'a Tag>,
    /// Commit messages to analyze.
    pub commits: &'a [String],
    /// Breaking changes always increment the major version.
    pub breaking_always_increment_major: bool,
    /// Features always increment the minor version.
    pub features_always_increment_minor: bool,
    /// Custom regex for major version increments.
    pub custom_major_increment_regex: Option<&'a str>,
    /// Custom regex for minor version increments.
    pub custom_minor_increment_regex: Option<&'a str>,
}

impl<'a> VersionContext<'a> {
    /// The custom regexes of this context compile.
    pub open spec fn rules_valid(&self) -> bool {
        regexes_valid(opt_str_view(self.custom_major_increment_regex), opt_str_view(self.custom_minor_increment_regex))
    }

    /// The version next_version computes from `v` with this context's
    /// settings and commits.
    pub open spec fn next_of(&self, v: SpecVersion) -> SpecVersion {
        spec_next_version(
            self.breaking_always_increment_major,
            self.features_always_increment_minor,
            opt_str_view(self.custom_major_increment_regex),
            opt_str_view(self.custom_minor_increment_regex),
            v,
            texts(self.commits@),
        )
    }

    /// The current tag's version can be incremented.
    pub open spec fn ready(&self) -> bool {
        self.current_tag matches Some(t) ==> well_formed(t.semver@) && increment_safe(t.semver@)
    }

    /// A `next_version::VersionUpdater` configured with this context's
    /// settings.
    pub fn create_version_updater(&self) -> (r: Result<IncrementRules, ReleasaurusError>)
        ensures
            r is Ok <==> self.rules_valid(),
            r matches Ok(rules) ==> {
                &&& rules.breaking() == self.breaking_always_increment_major
                &&& rules.features() == self.features_always_increment_minor
                &&& rules.major() == opt_str_view(self.custom_major_increment_regex)
                &&& rules.minor() == opt_str_view(self.custom_minor_increment_regex)
            },
            r matches Err(e) ==> e@ == rules_error(self.rules().major, self.rules().minor),
    {
        IncrementRules::build(
            self.breaking_always_increment_major,
            self.features_always_increment_minor,
            self.custom_major_increment_regex,
            self.custom_minor_increment_regex,
        )
    }
}

/// The first version of a package: `0.1.0`.
pub open spec fn first_version() -> SpecVersion {
    SpecVersion { major: 0, minor: 1, patch: 0, pre: Seq::empty(), build: Seq::empty() }
}

/// `base` with the prerelease `identifier` added, when that is valid.
pub open spec fn spec_add_prerelease(base: SpecVersion, identifier: Seq<char>, strategy: PrereleaseStrategy) -> Option<SpecVersion> {
    if valid_prerelease(prerelease_text(identifier, strategy)) {
        Some(with_pre(base, prerelease_text(identifier, strategy)))
    } else {
        None
    }
}

/// The settings and commits a version calculation uses.
pub struct SpecRules {
    pub breaking: bool,
    pub features: bool,
    pub major: Option<Seq<char>>,
    pub minor: Option<Seq<char>>,
    pub commits: Seq<Seq<char>>,
}

impl SpecRules {
    /// The custom regexes compile.
    pub open spec fn valid(self) -> bool {
        regexes_valid(self.major, self.minor)
    }

    /// The version next_version computes from `v` under these rules.
    pub open spec fn next_of(self, v: SpecVersion) -> SpecVersion {
        spec_next_version(self.breaking, self.features, self.major, self.minor, v, self.commits)
    }
}

impl<'a> VersionContext<'a> {
    /// The settings and commits of this context.
    pub open spec fn rules(&self) -> SpecRules {
        SpecRules {
            breaking: self.breaking_always_increment_major,
            features: self.features_always_increment_minor,
            major: opt_str_view(self.custom_major_increment_regex),
            minor: opt_str_view(self.custom_minor_increment_regex),
            commits: texts(self.commits@),
        }
    }

    /// The current version, if any.
    pub open spec fn current(&self) -> Option<SpecVersion> {
        match self.current_tag {
            Some(t) => Some(t.semver@),
            None => None,
        }
    }
}

/// The stable strategy: the first release is `0.1.0`; a stable current
/// version is incremented by the commits; a prerelease graduates to its
/// stable version.
pub open spec fn spec_stable_next(current: Option<SpecVersion>, rules: SpecRules) -> Option<SpecVersion> {
    match current {
        None => Some(first_version()),
        Some(v) => if v.pre.len() == 0 {
            if rules.valid() { Some(rules.next_of(v)) } else { None }
        } else {
            Some(graduated(v))
        },
    }
}

/// The prerelease strategies, for identifier `id`: the first release is
/// `0.1.0` with the prerelease; a stable version is incremented and gets the
/// prerelease; under the versioned strategy a prerelease with the same
/// first identifier is incremented; any other prerelease graduates, is
/// incremented and gets the prerelease.
pub open spec fn spec_prerelease_next(
    current: Option<SpecVersion>,
    rules: SpecRules,
    id: Seq<char>,
    strategy: PrereleaseStrategy,
) -> Option<SpecVersion> {
    match current {
        None => spec_add_prerelease(first_version(), id, strategy),
        Some(v) => if !rules.valid() {
            None
        } else if v.pre.len() == 0 {
            spec_add_prerelease(rules.next_of(v), id, strategy)
        } else if first_identifier(v.pre) == id && strategy == PrereleaseStrategy::Versioned {
            Some(rules.next_of(v))
        } else {
            spec_add_prerelease(rules.next_of(graduated(v)), id, strategy)
        },
    }
}

/// Calculates the next version from a version context.
pub trait VersionStrategy {
    /// The next version for `context`; it is never below the current
    /// version's numbers.
    fn calculate_next_version(&self, context: &VersionContext) -> (r: Result<Version, ReleasaurusError>)
        requires
            context.ready(),
        ensures
            r matches Ok(v) ==> (context.current_tag matches Some(t) ==> numbers_not_lower(t.semver@, v@)),
    ;
}

/// Strategy for stable (non-prerelease) versions.
pub struct StableVersionStrategy;

impl StableVersionStrategy {
    /// A new stable version strategy.
    pub fn new() -> (r: Self) {
        StableVersionStrategy
    }
}

/// The increment facts give a version whose numbers are not lower.
proof fn lemma_increment_not_lower(v: SpecVersion, n: SpecVersion, commits_empty: bool)
    requires
        increment_safe(v),
        commits_empty ==> n == v,
        !commits_empty && v.pre.len() > 0 ==> n == with_pre(v, increment_last_identifier(v.pre)),
        !commits_empty && v.pre.len() == 0 ==> (n == bump_major(v) || n == bump_minor(v) || n == bump_patch(v)),
    ensures
        numbers_not_lower(v, n),
{
}

impl VersionStrategy for StableVersionStrategy {
    /// The stable strategy's next version; it never has a prerelease part.
    fn calculate_next_version(&self, context: &VersionContext) -> (r: Result<Version, ReleasaurusError>)
        ensures
            r is Ok <==> spec_stable_next(context.current(), context.rules()) is Some,
            r matches Ok(v) ==> spec_stable_next(context.current(), context.rules()) == Some(v@),
            r matches Ok(v) ==> v.pre@.len() == 0,
            r matches Err(e) ==> strategy_error(Strategy::Stable(*self), context.current(), context.rules(), e@),
    {
        match context.current_tag {
            Some(current) => {
                if current.semver.is_stable() {
                    let rules = context.create_version_updater()?;
                    let next = rules.increment(&current.semver, context.commits);
                    proof {
                        lemma_increment_not_lower(current.semver@, next@, context.commits@.len() == 0);
                    }
                    Ok(next)
                } else {
                    Ok(graduate_prerelease(&current.semver))
                }
            },
            None => Ok(Version::new(0, 1, 0)),
        }
    }
}

/// Strategy for versioned prereleases (e.g. alpha.1, alpha.2).
pub struct VersionedPrereleaseStrategy {
    identifier: String,
}

impl VersionedPrereleaseStrategy {
    /// A new versioned prerelease strategy with the given identifier.
    pub fn new(identifier: String) -> (r: Self)
        ensures
            r.identifier() == identifier@,
    {
        VersionedPrereleaseStrategy { identifier }
    }

    /// The prerelease identifier of this strategy.
    pub closed spec fn identifier(&self) -> Seq<char> {
        self.identifier@
    }
}

/// `find_char` on a concatenation whose first part holds the character.
proof fn lemma_find_char_prefix(a: Seq<char>, b: Seq<char>, c: char)
    requires
        find_char(a, c) is Some,
    ensures
        find_char(a + b, c) == find_char(a, c),
    decreases a.len(),
{
    if a[0] != c {
        assert((a + b).drop_first() =~= a.drop_first() + b);
        lemma_find_char_prefix(a.drop_first(), b, c);
    }
}

/// `find_char` on a concatenation whose first part lacks the character.
proof fn lemma_find_char_after(a: Seq<char>, b: Seq<char>, c: char)
    requires
        find_char(a, c) is None,
    ensures
        find_char(a + b, c) == (match find_char(b, c) {
            Some(i) => Some(i + a.len()),
            None => None::<int>,
        }),
    decreases a.len(),
{
    if a.len() == 0 {
        assert(a + b =~= b);
    } else {
        assert((a + b).drop_first() =~= a.drop_first() + b);
        lemma_find_char_after(a.drop_first(), b, c);
    }
}

/// The position `rfind_char` returns holds `c`.
proof fn lemma_rfind_char_sound(s: Seq<char>, c: char)
    ensures
        rfind_char(s, c) matches Some(i) ==> 0 <= i < s.len() && s[i] == c,
    decreases s.len(),
{
    if s.len() > 0 && s.last() != c {
        lemma_rfind_char_sound(s.drop_last(), c);
    }
}

/// The prerelease increment keeps the first identifier.
proof fn lemma_increment_keeps_first_identifier(pre: Seq<char>)
    requires
        pre.len() > 0,
    ensures
        first_identifier(increment_last_identifier(pre)) == first_identifier(pre),
{
    reveal_strlit(".1");
    let one = ".1"@;
    assert(one[0] == '.');
    match rfind_char(pre, '.') {
        Some(i) => {
            lemma_rfind_char_sound(pre, '.');
            let x = pre.subrange(0, i + 1);
            crate::text::lemma_find_char_sound(x, '.');
            if find_char(x, '.') is None {
                assert(x[i] == '.');
                assert(false);
            }
            let k = find_char(x, '.').unwrap();
            crate::text::lemma_find_char_sound(x, '.');
            let right = pre.subrange(i + 1, pre.len() as int);
            assert(pre =~= x + right);
            lemma_find_char_prefix(x, right, '.');
            if parses_u32(right) {
                let d = decimal(digits_value(right) + 1);
                assert(pre.subrange(0, i) + seq!['.'] + d =~= x + d);
                lemma_find_char_prefix(x, d, '.');
                assert((x + d).subrange(0, k) =~= x.subrange(0, k));
                assert(pre.subrange(0, k) =~= x.subrange(0, k));
            } else {
                lemma_find_char_prefix(x, right + one, '.');
                assert(pre + one =~= x + (right + one));
                assert((pre + one).subrange(0, k) =~= pre.subrange(0, k));
            }
        },
        None => {
            lemma_rfind_none(pre, '.');
            crate::text::lemma_find_char_sound(pre, '.');
            if find_char(pre, '.') is Some {
                assert(false);
            }
            lemma_find_char_after(pre, one, '.');
            assert((pre + one).subrange(0, pre.len() as int) =~= pre);
        },
    }
}

/// `rfind_char` finds nothing only where `c` does not occur.
proof fn lemma_rfind_none(s: Seq<char>, c: char)
    ensures
        rfind_char(s, c) is None ==> forall|j: int| 0 <= j < s.len() ==> s[j] != c,
    decreases s.len(),
{
    if s.len() > 0 && s.last() != c {
        lemma_rfind_none(s.drop_last(), c);
        assert forall|j: int| 0 <= j < s.len() - 1 implies s[j] == s.drop_last()[j] by {}
    }
}

impl VersionStrategy for VersionedPrereleaseStrategy {
    /// The versioned prerelease strategy's next version; when the identifier
    /// holds no dot, the result's first prerelease identifier is the
    /// strategy's identifier.
    fn calculate_next_version(&self, context: &VersionContext) -> (r: Result<Version, ReleasaurusError>)
        ensures
            r is Ok <==> spec_prerelease_next(context.current(), context.rules(), self.identifier(), PrereleaseStrategy::Versioned) is Some,
            r matches Ok(v) ==> spec_prerelease_next(context.current(), context.rules(), self.identifier(), PrereleaseStrategy::Versioned) == Some(v@),
            find_char(self.identifier(), '.') is None ==> (r matches Ok(v) ==> first_identifier(v.pre@) == self.identifier()),
            r matches Err(e) ==> strategy_error(Strategy::VersionedPrerelease(*self), context.current(), context.rules(), e@),
    {
        proof {
            reveal_strlit(".1");
            let one = ".1"@;
            assert(one[0] == '.');
            if find_char(self.identifier@, '.') is None {
                lemma_find_char_after(self.identifier@, one, '.');
                assert((self.identifier@ + one).subrange(0, self.identifier@.len() as int) =~= self.identifier@);
            }
        }
        match context.current_tag {
            Some(current) => {
                if current.semver.is_stable() {
                    let rules = context.create_version_updater()?;
                    let next_stable = rules.increment(&current.semver, context.commits);
                    proof {
                        lemma_increment_not_lower(current.semver@, next_stable@, context.commits@.len() == 0);
                    }
                    add_prerelease(next_stable, self.identifier.as_str(), PrereleaseStrategy::Versioned)
                } else {
                    let current_pre_id = current.semver.prerelease_identifier();
                    if current_pre_id == self.identifier {
                        let rules = context.create_version_updater()?;
                        let next = rules.increment(&current.semver, context.commits);
                        proof {
                            lemma_increment_not_lower(current.semver@, next@, context.commits@.len() == 0);
                            if context.commits@.len() > 0 {
                                lemma_increment_keeps_first_identifier(current.semver.pre@);
                            }
                        }
                        Ok(next)
                    } else {
                        let stable_current = graduate_prerelease(&current.semver);
                        let rules = context.create_version_updater()?;
                        let stable_next = rules.increment(&stable_current, context.commits);
                        proof {
                            lemma_increment_not_lower(stable_current@, stable_next@, context.commits@.len() == 0);
                        }
                        add_prerelease(stable_next, self.identifier.as_str(), PrereleaseStrategy::Versioned)
                    }
                }
            },
            None => add_prerelease(Version::new(0, 1, 0), self.identifier.as_str(), PrereleaseStrategy::Versioned),
        }
    }
}

/// Strategy for static prereleases (e.g. SNAPSHOT, dev).
pub struct StaticPrereleaseStrategy {
    identifier: String,
}

impl StaticPrereleaseStrategy {
    /// A new static prerelease strategy with the given identifier.
    pub fn new(identifier: String) -> (r: Self)
        ensures
            r.identifier() == identifier@,
    {
        StaticPrereleaseStrategy { identifier }
    }

    /// The prerelease identifier of this strategy.
    pub closed spec fn identifier(&self) -> Seq<char> {
        self.identifier@
    }
}

impl VersionStrategy for StaticPrereleaseStrategy {
    /// The static prerelease strategy's next version; its prerelease part is
    /// exactly the strategy's identifier.
    fn calculate_next_version(&self, context: &VersionContext) -> (r: Result<Version, ReleasaurusError>)
        ensures
            r is Ok <==> spec_prerelease_next(context.current(), context.rules(), self.identifier(), PrereleaseStrategy::Static) is Some,
            r matches Ok(v) ==> spec_prerelease_next(context.current(), context.rules(), self.identifier(), PrereleaseStrategy::Static) == Some(v@),
            r matches Ok(v) ==> v.pre@ == self.identifier(),
            r matches Err(e) ==> strategy_error(Strategy::StaticPrerelease(*self), context.current(), context.rules(), e@),
    {
        match context.current_tag {
            Some(current) => {
                if current.semver.is_stable() {
                    let rules = context.create_version_updater()?;
                    let next_stable = rules.increment(&current.semver, context.commits);
                    proof {
                        lemma_increment_not_lower(current.semver@, next_stable@, context.commits@.len() == 0);
                    }
                    add_prerelease(next_stable, self.identifier.as_str(), PrereleaseStrategy::Static)
                } else {
                    // whether or not the current prerelease has this identifier, the
                    // version graduates, is incremented and gets the identifier again
                    let stable_current = graduate_prerelease(&current.semver);
                    let rules = context.create_version_updater()?;
                    let stable_next = rules.increment(&stable_current, context.commits);
                    proof {
                        lemma_increment_not_lower(stable_current@, stable_next@, context.commits@.len() == 0);
                    }
                    add_prerelease(stable_next, self.identifier.as_str(), PrereleaseStrategy::Static)
                }
            },
            None => add_prerelease(Version::new(0, 1, 0), self.identifier.as_str(), PrereleaseStrategy::Static),
        }
    }
}

/// The version strategy chosen by a prerelease configuration.
pub enum Strategy {
    Stable(StableVersionStrategy),
    VersionedPrerelease(VersionedPrereleaseStrategy),
    StaticPrerelease(StaticPrereleaseStrategy),
}

impl VersionStrategy for Strategy {
    /// The chosen strategy's next version.
    fn calculate_next_version(&self, context: &VersionContext) -> (r: Result<Version, ReleasaurusError>)
        ensures
            r is Ok <==> spec_strategy_next(*self, context.current(), context.rules()) is Some,
            r matches Ok(v) ==> spec_strategy_next(*self, context.current(), context.rules()) == Some(v@),
            r matches Err(e) ==> strategy_error(*self, context.current(), context.rules(), e@),
    {
        match self {
            Strategy::Stable(s) => s.calculate_next_version(context),
            Strategy::VersionedPrerelease(s) => s.calculate_next_version(context),
            Strategy::StaticPrerelease(s) => s.calculate_next_version(context),
        }
    }
}

/// The next version a strategy gives.
pub open spec fn spec_strategy_next(s: Strategy, current: Option<SpecVersion>, rules: SpecRules) -> Option<SpecVersion> {
    match s {
        Strategy::Stable(_) => spec_stable_next(current, rules),
        Strategy::VersionedPrerelease(p) => spec_prerelease_next(current, rules, p.identifier(), PrereleaseStrategy::Versioned),
        Strategy::StaticPrerelease(p) => spec_prerelease_next(current, rules, p.identifier(), PrereleaseStrategy::Static),
    }
}

/// Chooses version strategies from prerelease configuration.
pub struct VersionStrategyFactory;

impl VersionStrategyFactory {
    /// The strategy for `prerelease`: stable without one, otherwise the
    /// configured prerelease strategy with the configured suffix. Fails when
    /// the configuration has no suffix.
    pub fn create(prerelease: Option<&PrereleaseConfig>) -> (r: Result<Strategy, ReleasaurusError>)
        ensures
            match prerelease {
                None => r matches Ok(s) && s is Stable,
                Some(c) => match c.suffix {
                    None => r matches Err(e) && e@ == crate::error::ErrorView::Other(
                        "resolved prerelease config must include suffix"@,
                    ),
                    Some(id) => match c.strategy {
                        PrereleaseStrategy::Versioned =>
                            r matches Ok(s) && s matches Strategy::VersionedPrerelease(p) && p.identifier() == id@,
                        PrereleaseStrategy::Static =>
                            r matches Ok(s) && s matches Strategy::StaticPrerelease(p) && p.identifier() == id@,
                    },
                },
            },
    {
        match prerelease {
            Some(config) => {
                let identifier = config.suffix()?.to_owned();
                match config.strategy {
                    PrereleaseStrategy::Versioned => Ok(Strategy::VersionedPrerelease(VersionedPrereleaseStrategy::new(identifier))),
                    PrereleaseStrategy::Static => Ok(Strategy::StaticPrerelease(StaticPrereleaseStrategy::new(identifier))),
                }
            },
            None => Ok(Strategy::Stable(StableVersionStrategy::new())),
        }
    }
}

} // verus!
