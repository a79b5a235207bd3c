//! Command line values: forge arguments, commit modifiers and
//! configuration overrides, with the parsing of their textual forms.

use vstd::prelude::*;

use git_url_parse::Scheme;

use crate::config::{clone_opt, opt_view, PrereleaseStrategy, RewordedCommit};
use crate::error::{result_view, ErrorView, ReleasaurusError};
use crate::forge::clone_strings;
use crate::text::{chars_of, concat, is_hex, split_once, split_once_str, str_eq, trim, trim_str};

verus! {

/// Number of bytes of the UTF-8 encoding of `c`.
pub open spec fn utf8_width(c: char) -> nat {
    let u = c as u32;
    if vstd::utf8::has_width_1_encoding(u) {
        1
    } else if vstd::utf8::has_width_2_encoding(u) {
        2
    } else if vstd::utf8::has_width_3_encoding(u) {
        3
    } else {
        4
    }
}

/// The UTF-8 length of `s[i..]` is that of `s[i]` plus that of `s[i+1..]`.
proof fn lemma_utf8_len_step(s: Seq<char>, i: int)
    requires
        0 <= i < s.len(),
    ensures
        vstd::utf8::encode_utf8(s.subrange(i, s.len() as int)).len()
            == utf8_width(s[i]) + vstd::utf8::encode_utf8(s.subrange(i + 1, s.len() as int)).len(),
{
    let t = s.subrange(i, s.len() as int);
    assert(t.drop_first() =~= s.subrange(i + 1, s.len() as int));
    assert(t[0] == s[i]);
}

/// The byte length of `s` (`str::len`), or `cap` when it is longer.
fn utf8_len_capped(s: &str, cap: u64) -> (r: u64)
    requires
        cap < u64::MAX - 4,
    ensures
        r as int == if vstd::utf8::encode_utf8(s@).len() < cap { vstd::utf8::encode_utf8(s@).len() as int } else { cap as int },
{
    let v = chars_of(s);
    let mut total: u64 = 0;
    let mut i: usize = v.len();
    assert(v@.subrange(v@.len() as int, v@.len() as int) =~= Seq::<char>::empty());
    while i > 0
        invariant
            i <= v@.len(),
            cap < u64::MAX - 4,
            total as int == if vstd::utf8::encode_utf8(v@.subrange(i as int, v@.len() as int)).len() < cap {
                vstd::utf8::encode_utf8(v@.subrange(i as int, v@.len() as int)).len() as int
            } else {
                cap as int
            },
        decreases i,
    {
        i = i - 1;
        let u = v[i] as u32;
        let w: u64 = if u <= 0x7F {
            1
        } else if u <= 0x7FF {
            2
        } else if u <= 0xFFFF && !(0xD800 <= u && u <= 0xDFFF) {
            3
        } else {
            4
        };
        proof { lemma_utf8_len_step(v@, i as int); }
        total = if total + w > cap { cap } else { total + w };
    }
    assert(v@.subrange(0, v@.len() as int) =~= v@);
    total
}

/// What SHA validation gives for `sha`: the trimmed SHA when it has 7 to 40
/// bytes, all of them hexadecimal digits.
pub open spec fn spec_validate_sha(sha: Seq<char>) -> Result<Seq<char>, ErrorView> {
    let t = trim(sha);
    let n = vstd::utf8::encode_utf8(t).len();
    if n < 7 {
        Err(ErrorView::InvalidConfig(
            "Invalid commit SHA: '"@ + sha + "'. Must be at least 7 characters"@,
        ))
    } else if n > 40 {
        Err(ErrorView::InvalidConfig(
            "Invalid commit SHA: '"@ + sha + "'. Must not exceed 40 characters"@,
        ))
    } else if !(forall|i: int| 0 <= i < t.len() ==> is_hex(#[trigger] t[i])) {
        Err(ErrorView::InvalidConfig(
            "Invalid commit SHA: '"@ + sha
                + "'. Must contain only hexadecimal characters (0-9, a-f)"@,
        ))
    } else {
        Ok(t)
    }
}

/// `a`, `b` and `c` one after the other.
fn concat3(a: &str, b: &str, c: &str) -> (r: String)
    ensures
        r@ == a@ + b@ + c@,
{
    let ab = concat(a, b);
    concat(ab.as_str(), c)
}

/// Whether every character of `s` is an ASCII hexadecimal digit.
fn all_hex(s: &str) -> (r: bool)
    ensures
        r == (forall|i: int| 0 <= i < s@.len() ==> is_hex(#[trigger] s@[i])),
{
    let v = chars_of(s);
    let mut i: usize = 0;
    while i < v.len()
        invariant
            v@ == s@,
            i <= v@.len(),
            forall|j: int| 0 <= j < i ==> is_hex(#[trigger] v@[j]),
        decreases v.len() - i,
    {
        let c = v[i];
        if !(('0' <= c && c <= '9') || ('a' <= c && c <= 'f') || ('A' <= c && c <= 'F')) {
            assert(!is_hex(v@[i as int]));
            return false;
        }
        i = i + 1;
    }
    true
}

/// Validates a git commit SHA (7 to 40 hexadecimal characters, surrounding
/// whitespace ignored) and gives it trimmed.
pub fn validate_sha(sha: &str) -> (r: Result<String, ReleasaurusError>)
    ensures
        result_view(r) == spec_validate_sha(sha@),
{
    let trimmed = trim_str(sha);
    let n = utf8_len_capped(trimmed.as_str(), 41);
    if n < 7 {
        return Err(ReleasaurusError::InvalidConfig(
            concat3("Invalid commit SHA: '", sha, "'. Must be at least 7 characters"),
        ));
    }
    if n > 40 {
        return Err(ReleasaurusError::InvalidConfig(
            concat3("Invalid commit SHA: '", sha, "'. Must not exceed 40 characters"),
        ));
    }
    if !all_hex(trimmed.as_str()) {
        return Err(ReleasaurusError::InvalidConfig(
            concat3("Invalid commit SHA: '", sha, "'. Must contain only hexadecimal characters (0-9, a-f)"),
        ));
    }
    Ok(trimmed)
}

/// A package property set on the command line (`--set-package
/// name.path=value`).
#[derive(Debug, Clone)]
pub struct PackagePathOverride {
    pub package_name: String,
    pub path: String,
    pub value: String,
}

/// The content of a package property override.
pub struct PathOverrideView {
    pub package_name: Seq<char>,
    pub path: Seq<char>,
    pub value: Seq<char>,
}

impl View for PackagePathOverride {
    type V = PathOverrideView;

    open spec fn view(&self) -> PathOverrideView {
        PathOverrideView { package_name: self.package_name@, path: self.path@, value: self.value@ }
    }
}

impl PackagePathOverride {
    /// A copy of this override.
    pub fn duplicate(&self) -> (r: PackagePathOverride)
        ensures
            r@ == self@,
    {
        PackagePathOverride {
            package_name: self.package_name.clone(),
            path: self.path.clone(),
            value: self.value.clone(),
        }
    }
}

/// What parsing `name.path=value` gives: the key is split at the first `=`,
/// and the package name is what comes before the key's first `.`.
pub open spec fn spec_package_override(s: Seq<char>) -> Result<PathOverrideView, ErrorView> {
    match split_once(s, '=') {
        None => Err(ErrorView::InvalidConfig(
            "Invalid format: '"@ + s + "'. Expected package_name.path=value"@,
        )),
        Some((key, value)) => match split_once(key, '.') {
            None => Err(ErrorView::InvalidConfig(
                "Invalid key: '"@ + key + "'. Expected package_name.path"@,
            )),
            Some((name, path)) => Ok(PathOverrideView { package_name: name, path, value }),
        },
    }
}

/// Parses a package property override of the form
/// `package_name.path=value`; the path may itself hold dots.
pub fn parse_package_override(s: &str) -> (r: Result<PackagePathOverride, ReleasaurusError>)
    ensures
        result_view(r) == spec_package_override(s@),
{
    match split_once_str(s, '=') {
        None => Err(ReleasaurusError::InvalidConfig(
            concat3("Invalid format: '", s, "'. Expected package_name.path=value"),
        )),
        Some((key, value)) => match split_once_str(key.as_str(), '.') {
            None => Err(ReleasaurusError::InvalidConfig(
                concat3("Invalid key: '", key.as_str(), "'. Expected package_name.path"),
            )),
            Some((name, path)) => Ok(PackagePathOverride { package_name: name, path, value }),
        },
    }
}

/// What parsing `sha=message` gives: the SHA before the first `=`,
/// validated and trimmed, and the message after it.
pub open spec fn spec_reworded_commit(s: Seq<char>) -> Result<(Seq<char>, Seq<char>), ErrorView> {
    match split_once(s, '=') {
        None => Err(ErrorView::InvalidConfig(
            "Invalid --reword format: '"@ + s
                + "'. Expected 'commit_sha=new_message'. Example: --reword 'abc123de=fix: corrected message'"@,
        )),
        Some((sha, message)) => match spec_validate_sha(sha) {
            Err(e) => Err(e),
            Ok(t) => Ok((t, message)),
        },
    }
}

/// Parses a reworded commit of the form `sha=message`.
pub fn parse_reworded_commit(s: &str) -> (r: Result<RewordedCommit, ReleasaurusError>)
    ensures
        result_view(r) == spec_reworded_commit(s@),
{
    match split_once_str(s, '=') {
        None => Err(ReleasaurusError::InvalidConfig(concat3(
            "Invalid --reword format: '",
            s,
            "'. Expected 'commit_sha=new_message'. Example: --reword 'abc123de=fix: corrected message'",
        ))),
        Some((sha, message)) => {
            let validated = validate_sha(sha.as_str())?;
            Ok(RewordedCommit { sha: validated, message })
        },
    }
}

/// Commits to skip or reword when calculating the next version and
/// generating the changelog.
#[derive(Debug, Clone)]
pub struct CommitModifiers {
    /// Commit SHAs (or prefixes) to skip.
    pub skip_shas: Vec<String>,
    /// Commits (by SHA or prefix) whose message is replaced.
    pub reword: Vec<RewordedCommit>,
}

/// The content of commit modifiers.
pub struct ModifiersView {
    pub skip_shas: Seq<Seq<char>>,
    pub reword: Seq<(Seq<char>, Seq<char>)>,
}

impl View for CommitModifiers {
    type V = ModifiersView;

    open spec fn view(&self) -> ModifiersView {
        ModifiersView {
            skip_shas: crate::config::strings_view(self.skip_shas@),
            reword: crate::config::rewords_view(self.reword@),
        }
    }
}

impl Default for CommitModifiers {
    fn default() -> (r: Self)
        ensures
            r.skip_shas@.len() == 0,
            r.reword@.len() == 0,
    {
        CommitModifiers { skip_shas: Vec::new(), reword: Vec::new() }
    }
}

impl CommitModifiers {
    /// A copy of these modifiers.
    pub fn duplicate(&self) -> (r: CommitModifiers)
        ensures
            r@ == self@,
    {
        let skip_shas = clone_strings(&self.skip_shas);
        let mut reword: Vec<RewordedCommit> = Vec::new();
        let mut i: usize = 0;
        while i < self.reword.len()
            invariant
                i <= self.reword@.len(),
                reword@.len() == i,
                forall|j: int| 0 <= j < i ==> (#[trigger] reword@[j])@ == self.reword@[j]@,
            decreases self.reword.len() - i,
        {
            reword.push(self.reword[i].duplicate());
            i = i + 1;
        }
        let r = CommitModifiers { skip_shas, reword };
        assert(r@.skip_shas =~= self@.skip_shas);
        assert(r@.reword =~= self@.reword);
        r
    }
}


/// Targets of release automation.
#[derive(Debug, Clone, Copy, PartialEq, Eq, Structural, PartialOrd, Ord)]
pub enum ForgeType {
    /// Targets Github as the remote forge.
    Github,
    /// Targets Gitlab as the remote forge.
    Gitlab,
    /// Targets Gitea as the remote forge.
    Gitea,
    /// Targets a local repository for testing and debugging.
    Local,
}

/// The scheme of a repository URL, as far as the remote cares.
#[derive(Debug, Clone, Copy, PartialEq, Eq, Structural)]
pub enum UrlScheme {
    Http,
    Https,
    /// Any scheme other than `http` and `https`.
    Other,
}

/// The parts of a parsed repository URL.
pub struct GitUrlParts {
    pub host: Option<String>,
    pub name: String,
    pub owner: Option<String>,
    pub scheme: UrlScheme,
    pub token: Option<String>,
    pub port: Option<u16>,
    pub path: String,
}

/// The content of a parsed repository URL.
pub struct GitUrlView {
    pub host: Option<Seq<char>>,
    pub name: Seq<char>,
    pub owner: Option<Seq<char>>,
    pub scheme: UrlScheme,
    pub token: Option<Seq<char>>,
    pub port: Option<u16>,
    pub path: Seq<char>,
}

impl View for GitUrlParts {
    type V = GitUrlView;

    open spec fn view(&self) -> GitUrlView {
        GitUrlView {
            host: opt_view(self.host),
            name: self.name@,
            owner: opt_view(self.owner),
            scheme: self.scheme,
            token: opt_view(self.token),
            port: self.port,
            path: self.path@,
        }
    }
}

/// What `git_url_parse::GitUrl::parse` gives for a URL: its parts, or the
/// text of its error.
pub uninterp spec fn spec_git_url(url: Seq<char>) -> Result<GitUrlView, Seq<char>>;

/// The content of a URL parse result.
pub open spec fn url_result_view(r: Result<GitUrlParts, String>) -> Result<GitUrlView, Seq<char>> {
    match r {
        Ok(p) => Ok(p@),
        Err(m) => Err(m@),
    }
}

/// The parts of a URL as `git_url_parse::normalize_url` gives them: the
/// scheme, the host and the path of the `url::Url` it makes.
pub struct NormalizedUrl {
    pub scheme: String,
    pub host: Option<String>,
    pub path: String,
}

/// The content of normalized URL parts.
pub struct NormalizedUrlView {
    pub scheme: Seq<char>,
    pub host: Option<Seq<char>>,
    pub path: Seq<char>,
}

impl View for NormalizedUrl {
    type V = NormalizedUrlView;

    open spec fn view(&self) -> NormalizedUrlView {
        NormalizedUrlView { scheme: self.scheme@, host: opt_view(self.host), path: self.path@ }
    }
}

/// What `git_url_parse::normalize_url` gives for a URL: the parts of the
/// normalized URL, or the text of its error.
pub uninterp spec fn spec_normalized_url(url: Seq<char>) -> Result<NormalizedUrlView, Seq<char>>;

/// The content of a normalization result.
pub open spec fn normalized_result_view(r: Result<NormalizedUrl, String>) -> Result<NormalizedUrlView, Seq<char>> {
    match r {
        Ok(n) => Ok(n@),
        Err(m) => Err(m@),
    }
}

/// Normalizes a repository URL with `git_url_parse::normalize_url`, the
/// first step of `GitUrl::parse`. The contract claims only that the result
/// is determined by the URL text.
#[verifier::external_body]
fn normalize_git_url(url: &str) -> (r: Result<NormalizedUrl, String>)
    ensures
        normalized_result_view(r) == spec_normalized_url(url@),
{
    match git_url_parse::normalize_url(url) {
        Ok(u) => Ok(NormalizedUrl { scheme: u.scheme().to_string(), host: u.host_str().map(String::from), path: u.path().to_string() }),
        Err(e) => Err(e.to_string()),
    }
}

/// The number of `/` characters in `s`.
pub open spec fn slash_count(s: Seq<char>) -> nat
    decreases s.len(),
{
    if s.len() == 0 {
        0
    } else {
        slash_count(s.drop_last()) + if s.last() == '/' { 1nat } else { 0nat }
    }
}

/// The number of pieces `str::rsplit_terminator('/')` gives for `s`: one
/// more than its slashes, less an empty last piece.
pub open spec fn path_piece_count(s: Seq<char>) -> nat {
    if s.len() == 0 || s.last() == '/' {
        slash_count(s)
    } else {
        slash_count(s) + 1
    }
}

/// Whether the host is one of the Azure DevOps hosts whose paths hold an
/// organization.
pub open spec fn azure_host(host: Option<Seq<char>>) -> bool {
    host matches Some(h) && (h == "dev.azure.com"@ || h == "ssh.dev.azure.com"@)
}

/// Whether `GitUrl::parse` panics after normalizing to `n`. An `ssh` path
/// loses its first byte, which panics when that character is not one byte;
/// the path's pieces are then indexed without a check: the first always
/// (none for an emptied path), and on an Azure DevOps host the third for
/// `ssh` and the fourth for `https`. An empty path is an error before any of
/// this.
pub open spec fn parse_panics(n: NormalizedUrlView) -> bool {
    let ssh = n.scheme == "ssh"@;
    let url_path = if ssh { n.path.drop_first() } else { n.path };
    &&& n.path.len() > 0
    &&& {
        ||| (ssh && (n.path[0] > '\u{7f}' || url_path.len() == 0))
        ||| (azure_host(n.host) && ssh && path_piece_count(url_path) < 3)
        ||| (azure_host(n.host) && n.scheme == "https"@ && path_piece_count(url_path) < 4)
    }
}

/// Whether the URL parser panics on `url`: its normalization succeeds with
/// parts on which the parsing that follows panics.
pub open spec fn url_parse_risk(url: Seq<char>) -> bool {
    spec_normalized_url(url) matches Ok(n) && parse_panics(n)
}

proof fn lemma_slash_count_bound(s: Seq<char>)
    ensures
        slash_count(s) <= s.len(),
        s.len() > 0 && s.last() != '/' ==> slash_count(s) < s.len(),
    decreases s.len(),
{
    if s.len() > 0 {
        lemma_slash_count_bound(s.drop_last());
    }
}

/// The number of pieces `str::rsplit_terminator('/')` gives for the
/// characters of `s` from `start` on.
fn piece_count_from(s: &Vec<char>, start: usize) -> (r: usize)
    requires
        start <= s@.len(),
    ensures
        r == path_piece_count(s@.subrange(start as int, s@.len() as int)),
{
    let ghost t = s@.subrange(start as int, s@.len() as int);
    let mut n: usize = 0;
    let mut i: usize = start;
    while i < s.len()
        invariant
            start <= i <= s@.len(),
            t == s@.subrange(start as int, s@.len() as int),
            n == slash_count(t.take(i - start)),
            n <= i - start,
        decreases s.len() - i,
    {
        assert(t.take(i + 1 - start).drop_last() =~= t.take(i - start));
        assert(t.take(i + 1 - start).last() == s@[i as int]);
        if s[i] == '/' {
            n = n + 1;
        }
        i = i + 1;
    }
    assert(t.take(t.len() as int) =~= t);
    proof {
        lemma_slash_count_bound(t);
    }
    if s.len() == start || s[s.len() - 1] == '/' {
        n
    } else {
        n + 1
    }
}

/// Whether `GitUrl::parse` panics after normalizing to `n`.
fn normalized_parse_panics(n: &NormalizedUrl) -> (r: bool)
    ensures
        r == parse_panics(n@),
{
    let path = chars_of(n.path.as_str());
    if path.len() == 0 {
        return false;
    }
    let ssh = str_eq(n.scheme.as_str(), "ssh");
    let https = str_eq(n.scheme.as_str(), "https");
    let azure = match &n.host {
        Some(h) => str_eq(h.as_str(), "dev.azure.com") || str_eq(h.as_str(), "ssh.dev.azure.com"),
        None => false,
    };
    assert(azure == azure_host(n@.host));
    if ssh {
        proof {
            reveal_strlit("ssh");
            reveal_strlit("https");
        }
        assert(path@.drop_first() =~= path@.subrange(1, path@.len() as int));
        assert(path@ == n@.path);
        assert(n@.scheme == "ssh"@);
        assert(n@.scheme != "https"@);
        if path[0] > '\u{7f}' || path.len() == 1 {
            return true;
        }
        let c = piece_count_from(&path, 1);
        assert(c == path_piece_count(n@.path.drop_first()));
        azure && c < 3
    } else {
        assert(path@ =~= path@.subrange(0, path@.len() as int));
        let c = piece_count_from(&path, 0);
        assert(c == path_piece_count(n@.path));
        azure && https && c < 4
    }
}

/// Whether the URL parser panics on `url` (`url_parse_risk`).
pub fn url_parse_is_risky(url: &str) -> (r: bool)
    ensures
        r == url_parse_risk(url@),
{
    match normalize_git_url(url) {
        Ok(n) => normalized_parse_panics(&n),
        Err(_) => false,
    }
}

/// Parses a repository URL with `git_url_parse::GitUrl::parse`, which
/// first normalizes it with `normalize_url`. The contract claims only that
/// the result is determined by the URL text; the parts themselves are
/// whatever the crate finds. URLs on which the parsing after normalization
/// panics (`url_parse_risk`) are left out.
#[verifier::external_body]
fn parse_git_url(url: &str) -> (r: Result<GitUrlParts, String>)
    requires
        !url_parse_risk(url@),
    ensures
        url_result_view(r) == spec_git_url(url@),
{
    match git_url_parse::GitUrl::parse(url) {
        Ok(u) => Ok(GitUrlParts {
            scheme: match u.scheme {
                Scheme::Http => UrlScheme::Http, Scheme::Https => UrlScheme::Https, Scheme::File => UrlScheme::Other,
                Scheme::Ftp => UrlScheme::Other, Scheme::Ftps => UrlScheme::Other, Scheme::Git => UrlScheme::Other,
                Scheme::GitSsh => UrlScheme::Other, Scheme::Ssh => UrlScheme::Other, Scheme::Unspecified => UrlScheme::Other,
            },
            host: u.host, name: u.name, owner: u.owner, token: u.token, port: u.port, path: u.path,
        }),
        Err(e) => Err(e.to_string()),
    }
}

/// Tokens found in the environment: `GITHUB_TOKEN`, `GITLAB_TOKEN` and
/// `GITEA_TOKEN`.
#[derive(Debug, Clone, Default)]
pub struct ForgeTokens {
    pub github: Option<String>,
    pub gitlab: Option<String>,
    pub gitea: Option<String>,
}

/// The environment token of a forge.
pub open spec fn env_token(forge: ForgeType, tokens: ForgeTokens) -> Option<Seq<char>> {
    match forge {
        ForgeType::Github => opt_view(tokens.github),
        ForgeType::Gitlab => opt_view(tokens.gitlab),
        ForgeType::Gitea => opt_view(tokens.gitea),
        ForgeType::Local => None,
    }
}

/// The token a remote uses: the one given, else the one in the URL, else
/// the forge's environment token.
pub open spec fn resolved_token(
    forge: ForgeType,
    given: Option<Seq<char>>,
    in_url: Option<Seq<char>>,
    tokens: ForgeTokens,
) -> Seq<char> {
    let t0 = match given {
        Some(t) => t,
        None => Seq::empty(),
    };
    let t1 = if t0.len() == 0 {
        match in_url {
            Some(t) => t,
            None => t0,
        }
    } else {
        t0
    };
    if t1.len() == 0 {
        match env_token(forge, tokens) {
            Some(t) => t,
            None => t1,
        }
    } else {
        t1
    }
}

/// The text of an accepted URL scheme.
pub open spec fn scheme_text(s: UrlScheme) -> Seq<char> {
    match s {
        UrlScheme::Http => "http"@,
        UrlScheme::Https => "https"@,
        UrlScheme::Other => Seq::empty(),
    }
}

/// Base URL of a forge's release pages.
pub open spec fn release_link(
    forge: ForgeType,
    base: Seq<char>,
    owner: Seq<char>,
    name: Seq<char>,
    project: Seq<char>,
) -> Seq<char> {
    match forge {
        ForgeType::Github => base + "/"@ + owner + "/"@ + name + "/releases/tag"@,
        ForgeType::Gitlab => base + "/"@ + project + "/-/releases"@,
        ForgeType::Gitea => base + "/"@ + owner + "/"@ + name + "/releases"@,
        ForgeType::Local => Seq::empty(),
    }
}

/// Base URL of a forge's compare pages.
pub open spec fn compare_link(
    forge: ForgeType,
    base: Seq<char>,
    owner: Seq<char>,
    name: Seq<char>,
    project: Seq<char>,
) -> Seq<char> {
    match forge {
        ForgeType::Github => base + "/"@ + owner + "/"@ + name + "/compare"@,
        ForgeType::Gitlab => base + "/"@ + project + "/-/compare"@,
        ForgeType::Gitea => base + "/"@ + owner + "/"@ + name + "/compare"@,
        ForgeType::Local => Seq::empty(),
    }
}

/// The remote configuration for a repository URL on a forge: a URL the URL
/// parser panics on (an `ssh` URL whose path empties, an Azure DevOps URL
/// with too few path pieces) is refused as unsupported; otherwise the URL must
/// use http or https, a token must be found, and the URL must name a host,
/// an owner and a path.
pub open spec fn spec_remote_config(
    forge: ForgeType,
    repo: Seq<char>,
    token: Option<Seq<char>>,
    tokens: ForgeTokens,
) -> Result<crate::forge::RemoteConfigView, ErrorView> {
    if url_parse_risk(repo) {
        Err(ErrorView::InvalidRemoteUrl("unsupported repo url: "@ + repo))
    } else {
        match spec_git_url(repo) {
            Err(m) => Err(ErrorView::GitUrlError(m)),
            Ok(u) => {
                let t = resolved_token(forge, token, u.token, tokens);
                if u.scheme == UrlScheme::Other {
                    Err(ErrorView::InvalidRemoteUrl("only http and https schemes are supported for repo urls"@))
                } else if t.len() == 0 {
                    Err(ErrorView::AuthenticationError("Token not provided"@))
                } else {
                    match u.host {
                        None => Err(ErrorView::InvalidRemoteUrl("unable to parse host from repo"@)),
                        Some(host) => match u.owner {
                            None => Err(ErrorView::InvalidRemoteUrl("unable to parse owner from repo"@)),
                            Some(owner) => {
                                if u.path.len() == 0 || u.path[0] != '/' {
                                    Err(ErrorView::Other("failed to process project path"@))
                                } else {
                                    let project = u.path.subrange(1, u.path.len() as int);
                                    let base = scheme_text(u.scheme) + "://"@ + host;
                                    Ok(crate::forge::RemoteConfigView {
                                        host,
                                        port: u.port,
                                        scheme: scheme_text(u.scheme),
                                        owner,
                                        repo: u.name,
                                        path: project,
                                        release_link_base_url: release_link(forge, base, owner, u.name, project),
                                        compare_link_base_url: compare_link(forge, base, owner, u.name, project),
                                        token: t,
                                    })
                                }
                            },
                        },
                    }
                }
            },
        }
    }
}

/// A copy of the environment token of a forge.
fn env_token_of(forge: ForgeType, tokens: &ForgeTokens) -> (r: Option<String>)
    ensures
        opt_view(r) == env_token(forge, *tokens),
{
    match forge {
        ForgeType::Github => clone_opt(&tokens.github),
        ForgeType::Gitlab => clone_opt(&tokens.gitlab),
        ForgeType::Gitea => clone_opt(&tokens.gitea),
        ForgeType::Local => None,
    }
}

/// `a`, `b`, `c`, `d` and `e` one after the other.
fn concat5(a: &str, b: &str, c: &str, d: &str, e: &str) -> (r: String)
    ensures
        r@ == a@ + b@ + c@ + d@ + e@,
{
    let abc = concat3(a, b, c);
    concat3(abc.as_str(), d, e)
}

/// The connection settings of a repository on a forge.
fn get_remote_config(
    forge: ForgeType,
    repo: &str,
    token: Option<String>,
    tokens: &ForgeTokens,
) -> (r: Result<crate::forge::RemoteConfig, ReleasaurusError>)
    ensures
        result_view(r) == spec_remote_config(forge, repo@, opt_view(token), *tokens),
{
    if url_parse_is_risky(repo) {
        return Err(ReleasaurusError::InvalidRemoteUrl(concat("unsupported repo url: ", repo)));
    }
    let parsed = match parse_git_url(repo) {
        Ok(p) => p,
        Err(m) => return Err(ReleasaurusError::GitUrlError(m)),
    };
    let ghost t0: Seq<char> = match opt_view(token) {
        Some(t) => t,
        None => Seq::empty(),
    };
    let mut tok = match token {
        Some(t) => t,
        None => String::new(),
    };
    assert(tok@ == t0);
    if tok.as_str().is_empty() {
        match &parsed.token {
            Some(t) => {
                tok = t.clone();
            },
            None => {},
        }
    }
    if tok.as_str().is_empty() {
        match env_token_of(forge, tokens) {
            Some(t) => {
                tok = t;
            },
            None => {},
        }
    }
    assert(tok@ == resolved_token(forge, opt_view(token), parsed@.token, *tokens));
    let scheme = match parsed.scheme {
        UrlScheme::Http => "http".to_owned(),
        UrlScheme::Https => "https".to_owned(),
        UrlScheme::Other => {
            return Err(ReleasaurusError::InvalidRemoteUrl(
                "only http and https schemes are supported for repo urls".to_owned(),
            ));
        },
    };
    if tok.as_str().is_empty() {
        return Err(ReleasaurusError::AuthenticationError("Token not provided".to_owned()));
    }
    let host = match &parsed.host {
        Some(h) => h.clone(),
        None => {
            return Err(ReleasaurusError::InvalidRemoteUrl("unable to parse host from repo".to_owned()));
        },
    };
    let owner = match &parsed.owner {
        Some(o) => o.clone(),
        None => {
            return Err(ReleasaurusError::InvalidRemoteUrl("unable to parse owner from repo".to_owned()));
        },
    };
    let path_chars = chars_of(parsed.path.as_str());
    if path_chars.len() == 0 || path_chars[0] != '/' {
        return Err(ReleasaurusError::Other("failed to process project path".to_owned()));
    }
    let project = crate::text::string_of_range(&path_chars, 1, path_chars.len());
    let base = concat3(scheme.as_str(), "://", host.as_str());
    let (release_link_base_url, compare_link_base_url) = match forge {
        ForgeType::Github => (
            concat5(base.as_str(), "/", owner.as_str(), "/", parsed.name.as_str()).concat("/releases/tag"),
            concat5(base.as_str(), "/", owner.as_str(), "/", parsed.name.as_str()).concat("/compare"),
        ),
        ForgeType::Gitlab => (
            concat3(base.as_str(), "/", project.as_str()).concat("/-/releases"),
            concat3(base.as_str(), "/", project.as_str()).concat("/-/compare"),
        ),
        ForgeType::Gitea => (
            concat5(base.as_str(), "/", owner.as_str(), "/", parsed.name.as_str()).concat("/releases"),
            concat5(base.as_str(), "/", owner.as_str(), "/", parsed.name.as_str()).concat("/compare"),
        ),
        ForgeType::Local => (String::new(), String::new()),
    };
    Ok(crate::forge::RemoteConfig {
        host,
        port: parsed.port,
        scheme,
        owner,
        repo: parsed.name,
        path: project,
        release_link_base_url,
        compare_link_base_url,
        token: tok,
    })
}

/// Forge selection, repository URL and token given on the command line.
#[derive(Debug, Clone)]
pub struct ForgeArgs {
    /// Targets a specific forge: github, gitlab, gitea, or local.
    pub forge: Option<ForgeType>,
    /// Repository URL.
    pub repo: Option<String>,
    /// Authentication token; the forge's environment token is used when
    /// none is given.
    pub token: Option<String>,
}

/// The message for missing forge or repository options (a pretty-printed
/// list of the missing option names).
pub open spec fn missing_options_message(forge_missing: bool, repo_missing: bool) -> Seq<char> {
    if forge_missing && repo_missing {
        "missing required options: [\n    \"forge\",\n    \"repo\",\n]"@
    } else if forge_missing {
        "missing required options: [\n    \"forge\",\n]"@
    } else {
        "missing required options: [\n    \"repo\",\n]"@
    }
}

/// The remote for forge arguments: both the forge and the repository must
/// be given; a local forge needs nothing else.
pub open spec fn spec_remote(args: ForgeArgs, tokens: ForgeTokens) -> Result<crate::forge::RemoteView, ErrorView> {
    match (args.forge, args.repo) {
        (Some(forge), Some(repo)) => match forge {
            ForgeType::Local => Ok(crate::forge::RemoteView::Local(repo@)),
            _ => match spec_remote_config(forge, repo@, opt_view(args.token), tokens) {
                Err(e) => Err(e),
                Ok(c) => Ok(
                    match forge {
                        ForgeType::Github => crate::forge::RemoteView::Github(c),
                        ForgeType::Gitlab => crate::forge::RemoteView::Gitlab(c),
                        _ => crate::forge::RemoteView::Gitea(c),
                    },
                ),
            },
        },
        _ => Err(ErrorView::InvalidConfig(missing_options_message(args.forge is None, args.repo is None))),
    }
}

impl ForgeArgs {
    /// The remote these arguments select; `tokens` are the forges' tokens
    /// from the environment.
    pub fn get_remote(&self, tokens: &ForgeTokens) -> (r: Result<crate::forge::Remote, ReleasaurusError>)
        ensures
            result_view(r) == spec_remote(*self, *tokens),
    {
        let (forge, repo) = match (&self.forge, &self.repo) {
            (Some(f), Some(r)) => (*f, r),
            _ => {
                let msg = if self.forge.is_none() && self.repo.is_none() {
                    "missing required options: [\n    \"forge\",\n    \"repo\",\n]".to_owned()
                } else if self.forge.is_none() {
                    "missing required options: [\n    \"forge\",\n]".to_owned()
                } else {
                    "missing required options: [\n    \"repo\",\n]".to_owned()
                };
                return Err(ReleasaurusError::invalid_config(msg));
            },
        };
        match forge {
            ForgeType::Local => Ok(crate::forge::Remote::Local(repo.clone())),
            ForgeType::Github => {
                let config = get_remote_config(forge, repo.as_str(), clone_opt(&self.token), tokens)?;
                Ok(crate::forge::Remote::Github(config))
            },
            ForgeType::Gitlab => {
                let config = get_remote_config(forge, repo.as_str(), clone_opt(&self.token), tokens)?;
                Ok(crate::forge::Remote::Gitlab(config))
            },
            ForgeType::Gitea => {
                let config = get_remote_config(forge, repo.as_str(), clone_opt(&self.token), tokens)?;
                Ok(crate::forge::Remote::Gitea(config))
            },
        }
    }
}


/// Optional per-package settings from `--set-package` options.
#[derive(Debug, Clone)]
pub struct PackageOverrides {
    pub tag_prefix: Option<String>,
    pub prerelease_suffix: Option<String>,
    pub prerelease_strategy: Option<PrereleaseStrategy>,
}

/// The content of package overrides.
pub struct OverridesView {
    pub tag_prefix: Option<Seq<char>>,
    pub prerelease_suffix: Option<Seq<char>>,
    pub prerelease_strategy: Option<PrereleaseStrategy>,
}

impl View for PackageOverrides {
    type V = OverridesView;

    open spec fn view(&self) -> OverridesView {
        OverridesView {
            tag_prefix: opt_view(self.tag_prefix),
            prerelease_suffix: opt_view(self.prerelease_suffix),
            prerelease_strategy: self.prerelease_strategy,
        }
    }
}

/// Settings that apply to every package unless a package override says
/// otherwise.
#[derive(Debug, Clone)]
pub struct GlobalOverrides {
    pub base_branch: Option<String>,
    pub tag_prefix: Option<String>,
    pub prerelease_suffix: Option<String>,
    pub prerelease_strategy: Option<PrereleaseStrategy>,
}

impl Default for GlobalOverrides {
    fn default() -> (r: Self)
        ensures
            r.base_branch is None,
            r.tag_prefix is None,
            r.prerelease_suffix is None,
            r.prerelease_strategy is None,
    {
        GlobalOverrides { base_branch: None, tag_prefix: None, prerelease_suffix: None, prerelease_strategy: None }
    }
}

/// Configuration overrides shared by the commands that calculate releases.
#[derive(Debug, Clone)]
pub struct SharedCommandOverrides {
    /// Package properties set with dot notation, e.g.
    /// `--set-package my-pkg.prerelease.suffix=beta`.
    pub package_overrides: Vec<PackagePathOverride>,
    /// Global override of the tag prefix.
    pub tag_prefix: Option<String>,
    /// Global override of the prerelease suffix.
    pub prerelease_suffix: Option<String>,
    /// Global override of the prerelease strategy.
    pub prerelease_strategy: Option<PrereleaseStrategy>,
}

/// What `get` reports.
#[derive(Debug, Clone)]
pub enum GetCommand {
    /// The projected next release.
    NextRelease {
        out_file: Option<String>,
        package: Option<String>,
        commit_modifiers: CommitModifiers,
        overrides: SharedCommandOverrides,
    },
    /// The most recent releases.
    CurrentRelease { out_file: Option<String>, package: Option<String> },
    /// The release data of a tag.
    Release { out_file: Option<String>, tag: String },
    /// Release notes recompiled from a projected-release file.
    RecompiledNotes { file: String, out_file: Option<String> },
}

/// Release operations.
#[derive(Debug)]
pub enum Command {
    /// Analyze commits and create a release pull request.
    ReleasePR { commit_modifiers: CommitModifiers, overrides: SharedCommandOverrides, dry_run: bool },
    /// Create a git tag and publish the release after the pull request is
    /// merged.
    Release { dry_run: bool },
    /// Information about projected and previous releases.
    Get { command: GetCommand },
    /// Start the next release with a patch version update of the manifests.
    StartNext { overrides: SharedCommandOverrides, packages: Option<Vec<String>>, dry_run: bool },
}

/// Global command line arguments and the command to run.
#[derive(Debug)]
pub struct Cli {
    pub forge_args: ForgeArgs,
    /// Enable debug logging.
    pub debug: bool,
    /// Base branch for releases; the repository's default branch when
    /// absent.
    pub base_branch: Option<String>,
    pub command: Command,
}

/// The commit modifiers a command carries, if it carries any.
pub open spec fn command_modifiers(command: Command) -> Option<CommitModifiers> {
    match command {
        Command::ReleasePR { commit_modifiers, .. } => Some(commit_modifiers),
        Command::Get { command: GetCommand::NextRelease { commit_modifiers, .. } } => Some(commit_modifiers),
        _ => None,
    }
}

/// The shared overrides a command carries, if it carries any.
pub open spec fn command_overrides(command: Command) -> Option<SharedCommandOverrides> {
    match command {
        Command::ReleasePR { overrides, .. } => Some(overrides),
        Command::StartNext { overrides, .. } => Some(overrides),
        Command::Get { command: GetCommand::NextRelease { overrides, .. } } => Some(overrides),
        _ => None,
    }
}

/// A package override set by one property path; unknown paths and
/// strategies are refused.
pub open spec fn spec_single_override(path: Seq<char>, value: Seq<char>) -> Result<OverridesView, ErrorView> {
    if path == "tag_prefix"@ {
        Ok(OverridesView { tag_prefix: Some(value), prerelease_suffix: None, prerelease_strategy: None })
    } else if path == "prerelease.suffix"@ {
        Ok(OverridesView { tag_prefix: None, prerelease_suffix: Some(value), prerelease_strategy: None })
    } else if path == "prerelease.strategy"@ {
        if value == "versioned"@ {
            Ok(OverridesView { tag_prefix: None, prerelease_suffix: None, prerelease_strategy: Some(PrereleaseStrategy::Versioned) })
        } else if value == "static"@ {
            Ok(OverridesView { tag_prefix: None, prerelease_suffix: None, prerelease_strategy: Some(PrereleaseStrategy::Static) })
        } else {
            Err(ErrorView::JsonParseError("unknown variant `"@ + value + "`, expected `versioned` or `static`"@))
        }
    } else {
        Err(ErrorView::JsonParseError(
            "unknown field `"@ + path + "`, expected one of `tag_prefix`, `prerelease.suffix`, `prerelease.strategy`"@,
        ))
    }
}

/// Overrides `newer` completed by `older`: each setting of `newer` wins.
pub open spec fn merged(newer: OverridesView, older: OverridesView) -> OverridesView {
    OverridesView {
        tag_prefix: if newer.tag_prefix is Some { newer.tag_prefix } else { older.tag_prefix },
        prerelease_suffix: if newer.prerelease_suffix is Some { newer.prerelease_suffix } else { older.prerelease_suffix },
        prerelease_strategy: if newer.prerelease_strategy is Some { newer.prerelease_strategy } else { older.prerelease_strategy },
    }
}

/// Index of the entry for `name`, if any.
pub open spec fn entry_index(entries: Seq<(Seq<char>, OverridesView)>, name: Seq<char>) -> Option<int>
    decreases entries.len(),
{
    if entries.len() == 0 {
        None
    } else if entries.last().0 == name {
        Some(entries.len() - 1)
    } else {
        entry_index(entries.drop_last(), name)
    }
}

/// The package overrides collected from `--set-package` options, in order:
/// one entry per package name, where a later option's setting wins over
/// an earlier one's.
pub open spec fn spec_package_overrides(ovs: Seq<PathOverrideView>) -> Result<Seq<(Seq<char>, OverridesView)>, ErrorView>
    decreases ovs.len(),
{
    if ovs.len() == 0 {
        Ok(Seq::empty())
    } else {
        match spec_package_overrides(ovs.drop_last()) {
            Err(e) => Err(e),
            Ok(acc) => {
                let o = ovs.last();
                match spec_single_override(o.path, o.value) {
                    Err(e) => Err(e),
                    Ok(single) => match entry_index(acc, o.package_name) {
                        Some(i) => Ok(acc.update(i, (o.package_name, merged(single, acc[i].1)))),
                        None => Ok(acc.push((o.package_name, single))),
                    },
                }
            },
        }
    }
}

/// The content of a list of package overrides.
pub open spec fn entries_view(v: Seq<(String, PackageOverrides)>) -> Seq<(Seq<char>, OverridesView)> {
    v.map_values(|e: (String, PackageOverrides)| (e.0@, e.1@))
}

/// The content of a package overrides result.
pub open spec fn entries_result_view(r: Result<Vec<(String, PackageOverrides)>, ReleasaurusError>)
    -> Result<Seq<(Seq<char>, OverridesView)>, ErrorView>
{
    match r {
        Ok(v) => Ok(entries_view(v@)),
        Err(e) => Err(e@),
    }
}

/// The package override set by one property path.
fn single_override(path: &str, value: &str) -> (r: Result<PackageOverrides, ReleasaurusError>)
    ensures
        result_view(r) == spec_single_override(path@, value@),
{
    if crate::text::str_eq(path, "tag_prefix") {
        Ok(PackageOverrides { tag_prefix: Some(value.to_owned()), prerelease_suffix: None, prerelease_strategy: None })
    } else if crate::text::str_eq(path, "prerelease.suffix") {
        Ok(PackageOverrides { tag_prefix: None, prerelease_suffix: Some(value.to_owned()), prerelease_strategy: None })
    } else if crate::text::str_eq(path, "prerelease.strategy") {
        if crate::text::str_eq(value, "versioned") {
            Ok(PackageOverrides { tag_prefix: None, prerelease_suffix: None, prerelease_strategy: Some(PrereleaseStrategy::Versioned) })
        } else if crate::text::str_eq(value, "static") {
            Ok(PackageOverrides { tag_prefix: None, prerelease_suffix: None, prerelease_strategy: Some(PrereleaseStrategy::Static) })
        } else {
            Err(ReleasaurusError::JsonParseError(concat3("unknown variant `", value, "`, expected `versioned` or `static`")))
        }
    } else {
        Err(ReleasaurusError::JsonParseError(concat3(
            "unknown field `",
            path,
            "`, expected one of `tag_prefix`, `prerelease.suffix`, `prerelease.strategy`",
        )))
    }
}

/// The first of two optional strings that is present, copied.
fn first_present(a: &Option<String>, b: &Option<String>) -> (r: Option<String>)
    ensures
        opt_view(r) == if a is Some { opt_view(*a) } else { opt_view(*b) },
{
    if a.is_some() {
        clone_opt(a)
    } else {
        clone_opt(b)
    }
}

/// The position of the entry for `name` in `entries`, if any.
fn find_entry(entries: &Vec<(String, PackageOverrides)>, name: &str) -> (r: Option<usize>)
    ensures
        match r {
            Some(i) => entry_index(entries_view(entries@), name@) == Some(i as int) && i < entries@.len(),
            None => entry_index(entries_view(entries@), name@) is None,
        },
{
    let mut i: usize = entries.len();
    assert(entries_view(entries@).take(entries@.len() as int) =~= entries_view(entries@));
    while i > 0
        invariant
            i <= entries@.len(),
            entry_index(entries_view(entries@), name@) == entry_index(entries_view(entries@).take(i as int), name@),
        decreases i,
    {
        let ghost before = entries_view(entries@).take(i as int);
        assert(before.drop_last() =~= entries_view(entries@).take(i - 1));
        if crate::text::str_eq(entries[i - 1].0.as_str(), name) {
            return Some(i - 1);
        }
        i = i - 1;
    }
    assert(entries_view(entries@).take(0) =~= Seq::<(Seq<char>, OverridesView)>::empty());
    None
}

/// Collects `--set-package` options into one override per package name.
fn collect_package_overrides(ovs: &Vec<PackagePathOverride>) -> (r: Result<Vec<(String, PackageOverrides)>, ReleasaurusError>)
    ensures
        entries_result_view(r) == spec_package_overrides(ovs@.map_values(|o: PackagePathOverride| o@)),
{
    let ghost views = ovs@.map_values(|o: PackagePathOverride| o@);
    let mut entries: Vec<(String, PackageOverrides)> = Vec::new();
    let mut i: usize = 0;
    assert(views.take(0) =~= Seq::<PathOverrideView>::empty());
    assert(entries_view(entries@) =~= Seq::<(Seq<char>, OverridesView)>::empty());
    while i < ovs.len()
        invariant
            i <= ovs@.len(),
            views == ovs@.map_values(|o: PackagePathOverride| o@),
            spec_package_overrides(views.take(i as int)) == Ok::<Seq<(Seq<char>, OverridesView)>, ErrorView>(entries_view(entries@)),
        decreases ovs.len() - i,
    {
        let o = &ovs[i];
        assert(views.take(i + 1).drop_last() =~= views.take(i as int));
        assert(views.take(i + 1).last() == o@);
        let single = match single_override(o.path.as_str(), o.value.as_str()) {
            Ok(s) => s,
            Err(e) => {
                proof {
                    lemma_package_overrides_err_prefix(views, i + 1);
                }
                return Err(e);
            },
        };
        let ghost old_entries = entries_view(entries@);
        match find_entry(&entries, o.package_name.as_str()) {
            Some(k) => {
                let existing = &entries[k].1;
                let combined = PackageOverrides {
                    tag_prefix: first_present(&single.tag_prefix, &existing.tag_prefix),
                    prerelease_suffix: first_present(&single.prerelease_suffix, &existing.prerelease_suffix),
                    prerelease_strategy: if single.prerelease_strategy.is_some() {
                        single.prerelease_strategy
                    } else {
                        existing.prerelease_strategy
                    },
                };
                let name = o.package_name.clone();
                entries.set(k, (name, combined));
                assert(entries_view(entries@) =~= old_entries.update(
                    k as int,
                    (o@.package_name, merged(single@, old_entries[k as int].1)),
                ));
            },
            None => {
                entries.push((o.package_name.clone(), single));
                assert(entries_view(entries@) =~= old_entries.push((o@.package_name, single@)));
            },
        }
        i = i + 1;
    }
    assert(views.take(ovs@.len() as int) =~= views);
    Ok(entries)
}

/// Once collecting the first `n` options fails, collecting all of them
/// fails with the same error.
proof fn lemma_package_overrides_err_prefix(views: Seq<PathOverrideView>, n: int)
    requires
        0 < n <= views.len(),
        spec_package_overrides(views.take(n)) is Err,
    ensures
        spec_package_overrides(views) == spec_package_overrides(views.take(n)),
    decreases views.len() - n,
{
    if n < views.len() {
        assert(views.take(n + 1).drop_last() =~= views.take(n));
        lemma_package_overrides_err_prefix(views, n + 1);
    } else {
        assert(views.take(n) =~= views);
    }
}

impl Cli {
    /// The commit modifiers of the command; none for commands that take
    /// none.
    pub fn get_commit_modifiers(&self) -> (r: CommitModifiers)
        ensures
            match command_modifiers(self.command) {
                Some(m) => r@ == m@,
                None => r.skip_shas@.len() == 0 && r.reword@.len() == 0,
            },
    {
        match &self.command {
            Command::ReleasePR { commit_modifiers, .. } => commit_modifiers.duplicate(),
            Command::Get { command: GetCommand::NextRelease { commit_modifiers, .. } } => commit_modifiers.duplicate(),
            _ => CommitModifiers::default(),
        }
    }

    /// The `--set-package` overrides of the command, one entry per package
    /// name (a later option's setting wins); none for commands that take
    /// none.
    pub fn get_package_overrides(&self) -> (r: Result<Vec<(String, PackageOverrides)>, ReleasaurusError>)
        ensures
            match command_overrides(self.command) {
                Some(o) => entries_result_view(r) == spec_package_overrides(
                    o.package_overrides@.map_values(|p: PackagePathOverride| p@),
                ),
                None => r matches Ok(v) && v@.len() == 0,
            },
    {
        match &self.command {
            Command::ReleasePR { overrides, .. } => collect_package_overrides(&overrides.package_overrides),
            Command::StartNext { overrides, .. } => collect_package_overrides(&overrides.package_overrides),
            Command::Get { command: GetCommand::NextRelease { overrides, .. } } => {
                collect_package_overrides(&overrides.package_overrides)
            },
            _ => Ok(Vec::new()),
        }
    }

    /// The global overrides: the base branch, and the command's tag prefix
    /// and prerelease settings where the command takes them.
    pub fn get_global_overrides(&self) -> (r: GlobalOverrides)
        ensures
            opt_view(r.base_branch) == opt_view(self.base_branch),
            match command_overrides(self.command) {
                Some(o) => {
                    &&& opt_view(r.tag_prefix) == opt_view(o.tag_prefix)
                    &&& opt_view(r.prerelease_suffix) == opt_view(o.prerelease_suffix)
                    &&& r.prerelease_strategy == o.prerelease_strategy
                },
                None => r.tag_prefix is None && r.prerelease_suffix is None && r.prerelease_strategy is None,
            },
    {
        let mut global = GlobalOverrides::default();
        global.base_branch = clone_opt(&self.base_branch);
        let cmd_overrides = match &self.command {
            Command::ReleasePR { overrides, .. } => Some(overrides),
            Command::StartNext { overrides, .. } => Some(overrides),
            Command::Get { command: GetCommand::NextRelease { overrides, .. } } => Some(overrides),
            _ => None,
        };
        if let Some(overrides) = cmd_overrides {
            global.tag_prefix = clone_opt(&overrides.tag_prefix);
            global.prerelease_suffix = clone_opt(&overrides.prerelease_suffix);
            global.prerelease_strategy = overrides.prerelease_strategy;
        }
        global
    }
}

} // verus!
