//! Properties that hold across the library's operations, each proved from
//! the contracts of the functions it speaks of.

use vstd::prelude::*;

use crate::analyzer::{analyzed, analyzed_message, kept_commits, skipped_sha};
use crate::analyzer_config::AnalyzerConfig;
use crate::cli::{
    entry_index, merged, spec_package_overrides, spec_single_override, spec_validate_sha, OverridesView, PathOverrideView,
};
use crate::config::{opt_view, Config, PrereleaseStrategy};
use crate::commit::Commit;
use crate::error::ReleasaurusError;
use crate::forge::ForgeCommit;
use crate::group::{group_index, group_label, Group};
use crate::packages::{
    commit_in_package, package_commits, package_paths, planned, releasable_selection, spec_commit_start, start_state, tag_timestamp,
    ReleasablePackage,
};
use crate::config::PackageConfig;
use crate::release::{Release, Tag};
use crate::resolver::{override_for, prerelease_view, resolved_base_branch, resolved_config, ConfigResolver};
use crate::release_pr::{
    branch_index, prs_by_branch, release_branch, release_pr_transition, BranchPrView, ReleasePrActionView, ReleasePrEvent,
    ReleasePrStep, ReleasePrView,
};
use crate::helpers::{collapse_newlines, trailing_newlines};
use crate::text::{is_hex, is_ws, trim, trim_end, trim_start};
use crate::version::{graduated, prerelease_text, with_pre, SpecVersion};

verus! {

/// Whether `s` holds three newlines in a row starting at `i`.
pub open spec fn three_newlines_at(s: Seq<char>, i: int) -> bool {
    0 <= i && i + 2 < s.len() && s[i] == '\n' && s[i + 1] == '\n' && s[i + 2] == '\n'
}

/// Whether `s` holds a blank run: three newlines in a row.
pub open spec fn has_blank_run(s: Seq<char>) -> bool {
    exists|i: int| #[trigger] three_newlines_at(s, i)
}

proof fn lemma_trailing_push(c: Seq<char>, x: char)
    ensures
        trailing_newlines(c.push(x)) == if x == '\n' { trailing_newlines(c) + 1 } else { 0 },
{
    assert(c.push(x).drop_last() =~= c);
}

proof fn lemma_two_newlines_trail(c: Seq<char>)
    requires
        c.len() >= 2,
        c[c.len() - 1] == '\n',
        c[c.len() - 2] == '\n',
    ensures
        trailing_newlines(c) >= 2,
{
    let d = c.drop_last();
    assert(d.last() == c[c.len() - 2]);
    assert(trailing_newlines(d) >= 1);
}

proof fn lemma_collapse_newlines(s: Seq<char>)
    ensures
        !has_blank_run(collapse_newlines(s)),
        trailing_newlines(collapse_newlines(s)) == if trailing_newlines(s) < 2 { trailing_newlines(s) } else { 2 },
    decreases s.len(),
{
    if s.len() > 0 {
        let d = s.drop_last();
        let x = s.last();
        lemma_collapse_newlines(d);
        let c = collapse_newlines(d);
        if x == '\n' && trailing_newlines(d) >= 2 {
            assert(collapse_newlines(s) == c);
        } else {
            assert(collapse_newlines(s) == c.push(x));
            lemma_trailing_push(c, x);
            assert forall|i: int| !three_newlines_at(#[trigger] c.push(x), i) by {
                if three_newlines_at(c.push(x), i) {
                    if i + 2 < c.len() {
                        assert(three_newlines_at(c, i));
                    } else {
                        assert(c.push(x)[i + 2] == x);
                        assert(c[c.len() - 1] == c.push(x)[i + 1]);
                        assert(c[c.len() - 2] == c.push(x)[i]);
                        lemma_two_newlines_trail(c);
                    }
                }
            }
        }
    }
}

proof fn lemma_no_blank_run_drop_first(s: Seq<char>)
    requires
        s.len() > 0,
        !has_blank_run(s),
    ensures
        !has_blank_run(s.drop_first()),
{
    assert forall|i: int| !three_newlines_at(#[trigger] s.drop_first(), i) by {
        if three_newlines_at(s.drop_first(), i) {
            assert(three_newlines_at(s, i + 1));
        }
    }
}

proof fn lemma_no_blank_run_drop_last(s: Seq<char>)
    requires
        s.len() > 0,
        !has_blank_run(s),
    ensures
        !has_blank_run(s.drop_last()),
{
    assert forall|i: int| !three_newlines_at(#[trigger] s.drop_last(), i) by {
        if three_newlines_at(s.drop_last(), i) {
            assert(three_newlines_at(s, i));
        }
    }
}

proof fn lemma_trim_keeps_no_blank_run(s: Seq<char>)
    requires
        !has_blank_run(s),
    ensures
        !has_blank_run(trim_start(s)),
        !has_blank_run(trim_end(s)),
    decreases s.len(),
{
    if s.len() > 0 {
        lemma_no_blank_run_drop_first(s);
        lemma_no_blank_run_drop_last(s);
        lemma_trim_keeps_no_blank_run(s.drop_first());
        lemma_trim_keeps_no_blank_run(s.drop_last());
    }
}

/// Changelog text normalized by `strip_extra_lines` never holds three
/// newlines in a row: every blank run is at most one empty line.
pub proof fn law_stripped_changelog_has_no_blank_runs(changelog: Seq<char>)
    ensures
        !has_blank_run(trim(collapse_newlines(changelog))),
{
    lemma_collapse_newlines(changelog);
    lemma_trim_keeps_no_blank_run(collapse_newlines(changelog));
    lemma_trim_keeps_no_blank_run(trim_start(collapse_newlines(changelog)));
}

proof fn lemma_trailing_two_last(d: Seq<char>)
    requires
        trailing_newlines(d) >= 2,
    ensures
        d.len() >= 2,
        d[d.len() - 1] == '\n',
        d[d.len() - 2] == '\n',
{
    let e = d.drop_last();
    assert(trailing_newlines(e) >= 1);
    assert(e.last() == d[d.len() - 2]);
}

proof fn lemma_collapse_without_blank_run(s: Seq<char>)
    requires
        !has_blank_run(s),
    ensures
        collapse_newlines(s) == s,
    decreases s.len(),
{
    if s.len() > 0 {
        let d = s.drop_last();
        lemma_no_blank_run_drop_last(s);
        lemma_collapse_without_blank_run(d);
        if s.last() == '\n' && trailing_newlines(d) >= 2 {
            lemma_trailing_two_last(d);
            assert(three_newlines_at(s, s.len() - 3));
        }
        assert(d.push(s.last()) =~= s);
    }
}

proof fn lemma_trim_start_shape(x: Seq<char>)
    ensures
        trim_start(x).len() == 0 || !is_ws(trim_start(x)[0]),
    decreases x.len(),
{
    if x.len() > 0 && is_ws(x[0]) {
        lemma_trim_start_shape(x.drop_first());
    }
}

proof fn lemma_trim_end_shape(x: Seq<char>)
    ensures
        trim_end(x).len() <= x.len(),
        trim_end(x) == x.subrange(0, trim_end(x).len() as int),
        trim_end(x).len() == 0 || !is_ws(trim_end(x).last()),
    decreases x.len(),
{
    if x.len() > 0 && is_ws(x.last()) {
        lemma_trim_end_shape(x.drop_last());
        assert(x.drop_last().subrange(0, trim_end(x).len() as int) =~= x.subrange(0, trim_end(x).len() as int));
    } else {
        assert(x.subrange(0, x.len() as int) =~= x);
    }
}

/// Trimming trimmed text changes nothing.
proof fn lemma_trim_idempotent(y: Seq<char>)
    ensures
        trim(trim(y)) == trim(y),
{
    let z = trim_start(y);
    let w = trim_end(z);
    lemma_trim_start_shape(y);
    lemma_trim_end_shape(z);
    if w.len() > 0 {
        assert(w[0] == z[0]);
    }
    assert(trim_start(w) == w);
    assert(trim_end(w) == w);
}

/// Normalizing changelog text twice gives what normalizing once gave, and
/// on text without three newlines in a row normalizing only trims it.
pub proof fn law_strip_extra_lines_idempotent(changelog: Seq<char>)
    ensures
        trim(collapse_newlines(trim(collapse_newlines(changelog)))) == trim(collapse_newlines(changelog)),
        !has_blank_run(changelog) ==> trim(collapse_newlines(changelog)) == trim(changelog),
        trim(trim(changelog)) == trim(changelog),
{
    law_stripped_changelog_has_no_blank_runs(changelog);
    lemma_collapse_without_blank_run(trim(collapse_newlines(changelog)));
    lemma_trim_idempotent(collapse_newlines(changelog));
    lemma_trim_idempotent(changelog);
    if !has_blank_run(changelog) {
        lemma_collapse_without_blank_run(changelog);
    }
}

/// Whether `a` comes before `b` in the lexicographic order of characters.
pub open spec fn lex_before(a: Seq<char>, b: Seq<char>) -> bool {
    exists|i: int| 0 <= i <= a.len() && i <= b.len() && #[trigger] a.take(i) == b.take(i)
        && ((i == a.len() && i < b.len()) || (i < a.len() && i < b.len() && a[i] < b[i]))
}

/// The decimal digit character of `n` (below 10).
pub open spec fn digit_char(n: int) -> char {
    ('0' as int + n) as char
}

proof fn lemma_lex_before_asymmetric(a: Seq<char>, b: Seq<char>)
    ensures
        !(lex_before(a, b) && lex_before(b, a)),
{
    if lex_before(a, b) && lex_before(b, a) {
        let i = choose|i: int| 0 <= i <= a.len() && i <= b.len() && #[trigger] a.take(i) == b.take(i)
            && ((i == a.len() && i < b.len()) || (i < a.len() && i < b.len() && a[i] < b[i]));
        let j = choose|j: int| 0 <= j <= b.len() && j <= a.len() && #[trigger] b.take(j) == a.take(j)
            && ((j == b.len() && j < a.len()) || (j < b.len() && j < a.len() && b[j] < a[j]));
        if i < j {
            assert(a.take(j)[i] == b.take(j)[i]);
        } else if j < i {
            assert(a.take(i)[j] == b.take(i)[j]);
        }
    }
}

/// Every group heading starts with `<!-- `, followed by the two digits of the
/// group's position in changelog order.
proof fn lemma_label_shape(g: Group)
    ensures
        group_label(g).len() >= 7,
        group_label(g)[0] == '<',
        group_label(g)[1] == '!',
        group_label(g)[2] == '-',
        group_label(g)[3] == '-',
        group_label(g)[4] == ' ',
        group_label(g)[5] == digit_char((group_index(g) / 10) as int),
        group_label(g)[6] == digit_char((group_index(g) % 10) as int),
{
    match g {
        Group::Breaking => { reveal_strlit("<!-- 00 -->❌ Breaking"); },
        Group::Feat => { reveal_strlit("<!-- 01 -->🚀 Features"); },
        Group::Fix => { reveal_strlit("<!-- 02 -->🐛 Bug Fixes"); },
        Group::Revert => { reveal_strlit("<!-- 03 -->◀️ Revert"); },
        Group::Refactor => { reveal_strlit("<!-- 04 -->🚜 Refactor"); },
        Group::Perf => { reveal_strlit("<!-- 05 -->⚡ Performance"); },
        Group::Doc => { reveal_strlit("<!-- 06 -->📚 Documentation"); },
        Group::Style => { reveal_strlit("<!-- 07 -->🎨 Styling"); },
        Group::Test => { reveal_strlit("<!-- 08 -->🧪 Testing"); },
        Group::Chore => { reveal_strlit("<!-- 09 -->🧹 Chore"); },
        Group::Ci => { reveal_strlit("<!-- 10 -->⏩ CI/CD"); },
        Group::Miscellaneous => { reveal_strlit("<!-- 11 -->⚙️ Miscellaneous Tasks"); },
    }
}

proof fn lemma_label_before(g1: Group, g2: Group)
    requires
        group_index(g1) < group_index(g2),
    ensures
        lex_before(group_label(g1), group_label(g2)),
{
    lemma_label_shape(g1);
    lemma_label_shape(g2);
    let a = group_label(g1);
    let b = group_label(g2);
    if group_index(g1) / 10 < group_index(g2) / 10 {
        assert(a.take(5) =~= b.take(5));
        assert(a[5] < b[5]);
        assert(lex_before(a, b));
    } else {
        assert(a.take(6) =~= b.take(6));
        assert(a[6] < b[6]);
        assert(lex_before(a, b));
    }
}

/// Group headings sort as the groups do: a group comes before another in
/// changelog order exactly when its heading comes first in the order of
/// characters, so sorting sections by heading keeps changelog order.
pub proof fn law_group_labels_sort_in_group_order(g1: Group, g2: Group)
    ensures
        group_index(g1) < group_index(g2) <==> lex_before(group_label(g1), group_label(g2)),
{
    if group_index(g1) < group_index(g2) {
        lemma_label_before(g1, g2);
    } else if group_index(g2) < group_index(g1) {
        lemma_label_before(g2, g1);
        lemma_lex_before_asymmetric(group_label(g1), group_label(g2));
    } else {
        assert(g1 == g2);
        lemma_lex_before_asymmetric(group_label(g1), group_label(g2));
    }
}

/// Whether one of a package's additional manifests is unusable: its
/// pattern does not compile or has no `version` capture group.
pub open spec fn unusable_manifest(p: PackageConfig) -> bool {
    exists|j: int| 0 <= j < crate::resolver::package_manifests(p).len()
        && (#[trigger] crate::resolver::manifest_error(
            crate::resolver::package_manifests(p)[j].0,
            crate::resolver::package_manifests(p)[j].1,
        )) is Some
}

proof fn lemma_first_manifest_error(ms: Seq<(Seq<char>, Seq<char>)>)
    ensures
        crate::resolver::first_manifest_error(ms) is Some
            <==> exists|j: int| 0 <= j < ms.len() && (#[trigger] crate::resolver::manifest_error(ms[j].0, ms[j].1)) is Some,
    decreases ms.len(),
{
    if ms.len() > 0 {
        lemma_first_manifest_error(ms.drop_first());
        if exists|j: int| 0 <= j < ms.len() && (#[trigger] crate::resolver::manifest_error(ms[j].0, ms[j].1)) is Some {
            let j = choose|j: int| 0 <= j < ms.len() && (#[trigger] crate::resolver::manifest_error(ms[j].0, ms[j].1)) is Some;
            if j > 0 {
                assert(ms.drop_first()[j - 1] == ms[j]);
            }
        }
        if exists|j: int| 0 <= j < ms.drop_first().len()
            && (#[trigger] crate::resolver::manifest_error(ms.drop_first()[j].0, ms.drop_first()[j].1)) is Some {
            let j = choose|j: int| 0 <= j < ms.drop_first().len()
                && (#[trigger] crate::resolver::manifest_error(ms.drop_first()[j].0, ms.drop_first()[j].1)) is Some;
            assert(ms[j + 1] == ms.drop_first()[j]);
        }
    }
}

proof fn lemma_first_package_error(pkgs: Seq<PackageConfig>)
    ensures
        crate::resolver::first_package_error(pkgs) is Some
            <==> exists|i: int| 0 <= i < pkgs.len() && #[trigger] unusable_manifest(pkgs[i]),
    decreases pkgs.len(),
{
    if pkgs.len() > 0 {
        lemma_first_package_error(pkgs.drop_first());
        lemma_first_manifest_error(crate::resolver::package_manifests(pkgs[0]));
        assert(unusable_manifest(pkgs[0]) <==> crate::resolver::first_manifest_error(crate::resolver::package_manifests(pkgs[0])) is Some);
        if exists|i: int| 0 <= i < pkgs.len() && #[trigger] unusable_manifest(pkgs[i]) {
            let i = choose|i: int| 0 <= i < pkgs.len() && #[trigger] unusable_manifest(pkgs[i]);
            if i > 0 {
                assert(pkgs.drop_first()[i - 1] == pkgs[i]);
            }
        }
        if exists|i: int| 0 <= i < pkgs.drop_first().len() && #[trigger] unusable_manifest(pkgs.drop_first()[i]) {
            let i = choose|i: int| 0 <= i < pkgs.drop_first().len() && #[trigger] unusable_manifest(pkgs.drop_first()[i]);
            assert(pkgs[i + 1] == pkgs.drop_first()[i]);
        }
    }
}

/// When the SHAs to skip and reword are valid, resolving a configuration
/// fails exactly when some package has an additional manifest whose
/// pattern does not compile or has no `version` capture group.
pub proof fn law_resolve_fails_exactly_on_unusable_manifests(r: ConfigResolver)
    requires
        crate::resolver::spec_resolved_modifiers(r.commit_modifiers, r.config.changelog) is Ok,
    ensures
        crate::resolver::spec_resolve_error(r) is Some
            <==> exists|i: int| 0 <= i < r.config.packages@.len() && #[trigger] unusable_manifest(r.config.packages@[i]),
{
    lemma_first_package_error(r.config.packages@);
}

/// The URL parser does not panic on a URL whose normalization names
/// neither the `ssh` scheme nor an Azure DevOps host.
pub proof fn law_only_ssh_and_azure_urls_are_refused(url: Seq<char>)
    requires
        crate::cli::spec_normalized_url(url) matches Ok(n) && n.scheme != "ssh"@ && !crate::cli::azure_host(n.host),
    ensures
        !crate::cli::url_parse_risk(url),
{
}

/// A repository URL that parses as `http` or `https` with a host, an owner
/// and a path gets its remote configuration with the first non-empty token
/// of the one given, the one in the URL and the forge's environment token;
/// without any, the answer is an authentication error.
pub proof fn law_remote_config_token(
    forge: crate::cli::ForgeType,
    repo: Seq<char>,
    token: Option<Seq<char>>,
    tokens: crate::cli::ForgeTokens,
)
    requires
        !crate::cli::url_parse_risk(repo),
        crate::cli::spec_git_url(repo) matches Ok(u) && u.scheme != crate::cli::UrlScheme::Other && u.host is Some
            && u.owner is Some && u.path.len() > 0 && u.path[0] == '/',
    ensures
        ({
            let t = crate::cli::resolved_token(forge, token, crate::cli::spec_git_url(repo)->Ok_0.token, tokens);
            &&& t.len() == 0 ==> (crate::cli::spec_remote_config(forge, repo, token, tokens) matches Err(
                crate::error::ErrorView::AuthenticationError(_),
            ))
            &&& t.len() > 0 ==> (crate::cli::spec_remote_config(forge, repo, token, tokens) matches Ok(c) && c.token == t)
        }),
{
}

/// A remote configuration names the host, port, owner and repository of
/// its URL and keeps its `http` or `https` scheme, and
/// its release and compare links lie under the URL's scheme and host: on
/// GitHub `/<owner>/<repo>/releases/tag` and `/<owner>/<repo>/compare`, on
/// GitLab `/<project path>/-/releases` and `/<project path>/-/compare`, on
/// Gitea `/<owner>/<repo>/releases` and `/<owner>/<repo>/compare`.
pub proof fn law_remote_links_name_owner_then_repo(
    forge: crate::cli::ForgeType,
    repo: Seq<char>,
    token: Option<Seq<char>>,
    tokens: crate::cli::ForgeTokens,
)
    ensures
        crate::cli::spec_remote_config(forge, repo, token, tokens) matches Ok(c) ==> {
            let base = c.scheme + "://"@ + c.host;
            &&& crate::cli::spec_git_url(repo) matches Ok(u) && u.owner == Some(c.owner) && u.name == c.repo
                && u.host == Some(c.host) && u.path == seq!['/'] + c.path && u.port == c.port
                && (u.scheme == crate::cli::UrlScheme::Http ==> c.scheme == "http"@)
                && (u.scheme == crate::cli::UrlScheme::Https ==> c.scheme == "https"@)
                && u.scheme != crate::cli::UrlScheme::Other
            &&& forge == crate::cli::ForgeType::Github ==> {
                &&& c.release_link_base_url == base + "/"@ + c.owner + "/"@ + c.repo + "/releases/tag"@
                &&& c.compare_link_base_url == base + "/"@ + c.owner + "/"@ + c.repo + "/compare"@
            }
            &&& forge == crate::cli::ForgeType::Gitlab ==> {
                &&& c.release_link_base_url == base + "/"@ + c.path + "/-/releases"@
                &&& c.compare_link_base_url == base + "/"@ + c.path + "/-/compare"@
            }
            &&& forge == crate::cli::ForgeType::Gitea ==> {
                &&& c.release_link_base_url == base + "/"@ + c.owner + "/"@ + c.repo + "/releases"@
                &&& c.compare_link_base_url == base + "/"@ + c.owner + "/"@ + c.repo + "/compare"@
            }
        },
{
    if let Ok(c) = crate::cli::spec_remote_config(forge, repo, token, tokens) {
        let u = crate::cli::spec_git_url(repo)->Ok_0;
        assert(u.path =~= seq!['/'] + u.path.subrange(1, u.path.len() as int));
    }
}

/// A resolved package's release-commit matcher is the title of the
/// package's release pull request up to its name, anchored at the start,
/// with the parentheses escaped: `^chore\(<base>\): release <name>`. It is
/// there exactly when that pattern compiles; the release pull request of the
/// package is titled `chore(<base>): release <name> <tag>`.
pub proof fn law_release_commit_matcher_matches_release_title(
    out: PackageConfig,
    inp: PackageConfig,
    r: ConfigResolver,
    mods: crate::cli::ModifiersView,
    base: Seq<char>,
    open_details: bool,
    tag: Seq<char>,
    notes: Seq<char>,
)
    requires
        crate::resolver::resolved_package(out, inp, r, mods, base),
    ensures
        ({
            let pattern = "^chore\\("@ + base + "\\): release "@ + out.name@;
            &&& out.analyzer_config.release_commit_matcher matches Some(m) ==> m.source() == pattern
            &&& (out.analyzer_config.release_commit_matcher is Some <==> crate::pattern::spec_regex_valid(pattern))
            &&& crate::release_pr::package_pr(base, open_details, out.name@, out.workspace_root@, out.path@, tag, notes).title
                == "chore("@ + base + "): release "@ + out.name@ + " "@ + tag
        }),
{
}

/// A resolved package keeps a configured tag prefix; without one, a package
/// whose workspace root and path are both `.` gets `v`, and any other
/// package gets its name followed by `-v`.
pub proof fn law_default_tag_prefix_follows_location(
    out: PackageConfig,
    inp: PackageConfig,
    r: ConfigResolver,
    mods: crate::cli::ModifiersView,
    base: Seq<char>,
)
    requires
        crate::resolver::resolved_package(out, inp, r, mods, base),
    ensures
        ({
            let expected = match inp.tag_prefix {
                Some(p) => p@,
                None => if inp.workspace_root@ == "."@ && inp.path@ == "."@ { "v"@ } else { out.name@ + "-v"@ },
            };
            &&& opt_view(out.tag_prefix) == Some(expected)
            &&& opt_view(out.analyzer_config.tag_prefix) == Some(expected)
        }),
{
}

/// Without prerelease settings, a stable current version is incremented by
/// `next_version` with exactly the package's settings: its breaking and
/// feature rules and its custom regexes, over the messages of the kept
/// commits.
pub proof fn law_stable_increment_uses_configured_rules(
    config: AnalyzerConfig,
    commits: Seq<ForgeCommit>,
    t: Tag,
    r: Result<Option<Release>, ReleasaurusError>,
)
    requires
        analyzed(config, commits, Some(t), r),
        config.prerelease is None,
        t.semver@.pre.len() == 0,
    ensures
        r matches Ok(Some(rel)) ==> rel.tag.semver@ == crate::strategy::spec_next_version(
            config.breaking_always_increment_major,
            config.features_always_increment_minor,
            opt_view(config.custom_major_increment_regex),
            opt_view(config.custom_minor_increment_regex),
            t.semver@,
            crate::analyzer::kept_messages(kept_commits(commits, config)),
        ),
{
}

/// A resolved package's version rules take the package's own setting where
/// it has one and the global setting otherwise: the breaking and feature
/// rules and both custom increment regexes.
pub proof fn law_package_version_rules_win_over_global(
    out: PackageConfig,
    inp: PackageConfig,
    r: ConfigResolver,
    mods: crate::cli::ModifiersView,
    base: Seq<char>,
)
    requires
        crate::resolver::resolved_package(out, inp, r, mods, base),
    ensures
        inp.breaking_always_increment_major matches Some(b) ==> out.analyzer_config.breaking_always_increment_major == b,
        inp.breaking_always_increment_major is None
            ==> out.analyzer_config.breaking_always_increment_major == r.config.breaking_always_increment_major,
        inp.features_always_increment_minor matches Some(b) ==> out.analyzer_config.features_always_increment_minor == b,
        inp.features_always_increment_minor is None
            ==> out.analyzer_config.features_always_increment_minor == r.config.features_always_increment_minor,
        inp.custom_major_increment_regex matches Some(p) ==> opt_view(out.analyzer_config.custom_major_increment_regex) == Some(p@),
        inp.custom_major_increment_regex is None ==> opt_view(out.analyzer_config.custom_major_increment_regex)
            == opt_view(r.config.custom_major_increment_regex),
        inp.custom_minor_increment_regex matches Some(p) ==> opt_view(out.analyzer_config.custom_minor_increment_regex) == Some(p@),
        inp.custom_minor_increment_regex is None ==> opt_view(out.analyzer_config.custom_minor_increment_regex)
            == opt_view(r.config.custom_minor_increment_regex),
{
}

/// A SHA that validation accepts is accepted again, unchanged: validating
/// twice gives what validating once gave.
pub proof fn law_validate_sha_idempotent(sha: Seq<char>)
    ensures
        spec_validate_sha(sha) matches Ok(t) ==> (spec_validate_sha(t) matches Ok(u) && u == t),
{
    if let Ok(t) = spec_validate_sha(sha) {
        assert(t == trim(sha));
        if t.len() == 0 {
            assert(vstd::utf8::encode_utf8(t).len() == 0);
        }
        assert(is_hex(t[0]));
        assert(!is_ws(t[0]));
        assert(trim_start(t) == t);
        assert(is_hex(t[t.len() - 1]));
        assert(!is_ws(t.last()));
        assert(trim_end(t) == t);
        assert(trim(t) == t);
    }
}

/// Whether `entry` is one of `fcs`, not skipped by SHA, paired with the
/// message it is analyzed with.
pub open spec fn kept_from(fcs: Seq<ForgeCommit>, config: AnalyzerConfig, entry: (ForgeCommit, Seq<char>)) -> bool {
    exists|j: int|
        0 <= j < fcs.len() && #[trigger] fcs[j] == entry.0
            && entry.1 == analyzed_message(fcs[j], config.commit_modifiers)
            && !skipped_sha(fcs[j].id@, config.commit_modifiers.skip_shas@)
}

/// Whether the release commit `c` comes from one of `fcs` that is not
/// skipped by SHA, and carries that commit's message after rewording.
pub open spec fn released_from(fcs: Seq<ForgeCommit>, config: AnalyzerConfig, c: Commit) -> bool {
    exists|j: int|
        0 <= j < fcs.len() && #[trigger] fcs[j].id@ == c.id@
            && c.raw_message@ == analyzed_message(fcs[j], config.commit_modifiers)
            && !skipped_sha(fcs[j].id@, config.commit_modifiers.skip_shas@)
}

proof fn lemma_kept_commits_from(fcs: Seq<ForgeCommit>, config: AnalyzerConfig)
    ensures
        forall|k: int| 0 <= k < kept_commits(fcs, config).len() ==> kept_from(fcs, config, #[trigger] kept_commits(fcs, config)[k]),
    decreases fcs.len(),
{
    if fcs.len() > 0 {
        let d = fcs.drop_last();
        lemma_kept_commits_from(d, config);
        let prev = kept_commits(d, config);
        let kept = kept_commits(fcs, config);
        assert forall|k: int| 0 <= k < kept.len() implies kept_from(fcs, config, #[trigger] kept[k]) by {
            if k < prev.len() {
                assert(kept[k] == prev[k]);
                assert(kept_from(d, config, prev[k]));
                let j = choose|j: int|
                    0 <= j < d.len() && #[trigger] d[j] == prev[k].0
                        && prev[k].1 == analyzed_message(d[j], config.commit_modifiers)
                        && !skipped_sha(d[j].id@, config.commit_modifiers.skip_shas@);
                assert(fcs[j] == d[j]);
            } else {
                assert(fcs[fcs.len() - 1] == kept[k].0);
            }
        }
    }
}

proof fn lemma_all_skipped_keeps_none(fcs: Seq<ForgeCommit>, config: AnalyzerConfig)
    requires
        forall|j: int| 0 <= j < fcs.len() ==> skipped_sha((#[trigger] fcs[j]).id@, config.commit_modifiers.skip_shas@),
    ensures
        kept_commits(fcs, config).len() == 0,
    decreases fcs.len(),
{
    if fcs.len() > 0 {
        let d = fcs.drop_last();
        assert forall|j: int| 0 <= j < d.len() implies skipped_sha((#[trigger] d[j]).id@, config.commit_modifiers.skip_shas@) by {
            assert(d[j] == fcs[j]);
        }
        lemma_all_skipped_keeps_none(d, config);
        assert(skipped_sha(fcs[fcs.len() - 1].id@, config.commit_modifiers.skip_shas@));
    }
}

/// Every commit of an analyzed release comes from the analyzed commits, is
/// not one of the SHAs to skip, and carries its message after rewording.
pub proof fn law_release_commits_respect_modifiers(
    config: AnalyzerConfig,
    commits: Seq<ForgeCommit>,
    current_tag: Option<Tag>,
    r: Result<Option<Release>, ReleasaurusError>,
)
    requires
        analyzed(config, commits, current_tag, r),
    ensures
        r matches Ok(Some(rel)) ==> forall|i: int| 0 <= i < rel.commits@.len() ==> {
            &&& released_from(commits, config, #[trigger] rel.commits@[i])
            &&& !skipped_sha(rel.commits@[i].id@, config.commit_modifiers.skip_shas@)
        },
{
    if let Ok(Some(rel)) = r {
        lemma_kept_commits_from(commits, config);
        let kept = kept_commits(commits, config);
        assert forall|i: int| 0 <= i < rel.commits@.len() implies {
            &&& released_from(commits, config, #[trigger] rel.commits@[i])
            &&& !skipped_sha(rel.commits@[i].id@, config.commit_modifiers.skip_shas@)
        } by {
            assert(crate::commit::parsed_from_msg(rel.commits@[i], kept[i].0, kept[i].1));
            assert(kept_from(commits, config, kept[i]));
            let j = choose|j: int|
                0 <= j < commits.len() && #[trigger] commits[j] == kept[i].0
                    && kept[i].1 == analyzed_message(commits[j], config.commit_modifiers)
                    && !skipped_sha(commits[j].id@, config.commit_modifiers.skip_shas@);
            assert(commits[j].id@ == rel.commits@[i].id@);
        }
    }
}

/// When every commit is one of the SHAs to skip, the analysis finds no
/// release.
pub proof fn law_all_skipped_gives_no_release(
    config: AnalyzerConfig,
    commits: Seq<ForgeCommit>,
    current_tag: Option<Tag>,
    r: Result<Option<Release>, ReleasaurusError>,
)
    requires
        analyzed(config, commits, current_tag, r),
        forall|j: int| 0 <= j < commits.len() ==> skipped_sha((#[trigger] commits[j]).id@, config.commit_modifiers.skip_shas@),
    ensures
        r matches Ok(None),
{
    lemma_all_skipped_keeps_none(commits, config);
}

/// Whether every package has a current tag with a timestamp.
pub open spec fn all_tagged(tags: Seq<Option<Tag>>) -> bool {
    forall|j: int| 0 <= j < tags.len() ==> (#[trigger] tags[j] matches Some(t) && t.timestamp is Some)
}

/// The timestamp of the tag at `j`, when it has one.
pub open spec fn tag_time(tags: Seq<Option<Tag>>, j: int) -> Option<i64> {
    match tags[j] {
        Some(t) => t.timestamp,
        None => None,
    }
}

/// Whether the tag at `i` is no younger than any other package's tag.
pub open spec fn oldest_tag_at(tags: Seq<Option<Tag>>, i: int) -> bool {
    &&& 0 <= i < tags.len()
    &&& tag_time(tags, i) is Some
    &&& forall|j: int| 0 <= j < tags.len() ==> (#[trigger] tag_time(tags, j) matches Some(ts) && tag_time(tags, i)->0 <= ts)
}

proof fn lemma_start_state(tags: Seq<Option<Tag>>)
    ensures
        start_state(tags) is Some <==> all_tagged(tags),
        start_state(tags) matches Some((oldest, sha)) ==> {
            &&& forall|j: int| 0 <= j < tags.len() ==> (#[trigger] tag_time(tags, j) matches Some(ts) && oldest <= ts)
            &&& sha is None ==> oldest == i64::MAX
            &&& sha matches Some(s) ==> exists|i: int| 0 <= i < tags.len() && #[trigger] tag_time(tags, i) == Some(oldest)
                && tags[i]->0.sha@ == s
        },
    decreases tags.len(),
{
    if tags.len() > 0 {
        let d = tags.drop_last();
        let n = tags.len() - 1;
        lemma_start_state(d);
        assert forall|j: int| 0 <= j < d.len() implies #[trigger] tag_time(d, j) == tag_time(tags, j) by {
            assert(d[j] == tags[j]);
        }
        if all_tagged(tags) {
            assert forall|j: int| 0 <= j < d.len() implies (#[trigger] d[j] matches Some(t) && t.timestamp is Some) by {
                assert(d[j] == tags[j]);
            }
        }
        if all_tagged(d) && tag_time(tags, n) is Some {
            assert forall|j: int| 0 <= j < tags.len() implies (#[trigger] tags[j] matches Some(t) && t.timestamp is Some) by {
                if j < n {
                    assert(d[j] == tags[j]);
                }
            }
        }
        if !all_tagged(d) {
            let j = choose|j: int| 0 <= j < d.len() && !(#[trigger] d[j] matches Some(t) && t.timestamp is Some);
            assert(d[j] == tags[j]);
        }
        match start_state(tags) {
            Some((oldest, sha)) => {
                let (o2, s2) = start_state(d)->0;
                assert(tag_time(tags, n) is Some);
                assert(oldest <= o2);
                assert(oldest <= tag_time(tags, n)->0);
                assert forall|j: int| 0 <= j < tags.len() implies (#[trigger] tag_time(tags, j) matches Some(ts) && oldest <= ts) by {
                    if j < n {
                        assert(tag_time(d, j) matches Some(ts) && o2 <= ts);
                    }
                }
                if let Some(s) = sha {
                    if s2 == sha && o2 == oldest {
                        let i = choose|i: int| 0 <= i < d.len() && #[trigger] tag_time(d, i) == Some(o2)
                            && d[i]->0.sha@ == s;
                        assert(tag_time(tags, i) == Some(oldest));
                        assert(tags[i] == d[i]);
                    } else {
                        assert(tag_time(tags, n) == Some(oldest));
                    }
                }
            },
            None => {},
        }
    }
}

/// Commits of all packages are read from the oldest of their current tags:
/// when some package has no tag (or a tag without timestamp) there is no
/// shared starting point; otherwise the starting point, when there is one,
/// is the SHA of a tag that no other package's tag predates, and there is
/// one whenever a tag is dated before the largest timestamp.
pub proof fn law_commit_start_is_oldest_tag(tags: Seq<Option<Tag>>)
    ensures
        !all_tagged(tags) ==> spec_commit_start(tags) is None,
        spec_commit_start(tags) matches Some(sha) ==> exists|i: int| #[trigger] oldest_tag_at(tags, i)
            && tags[i]->0.sha@ == sha,
        (all_tagged(tags) && exists|i: int| 0 <= i < tags.len() && #[trigger] tag_time(tags, i)->0 < i64::MAX)
            ==> spec_commit_start(tags) is Some,
{
    lemma_start_state(tags);
    if let Some(sha) = spec_commit_start(tags) {
        let (oldest, s) = start_state(tags)->0;
        let i = choose|i: int| 0 <= i < tags.len() && #[trigger] tag_time(tags, i) == Some(oldest)
            && tags[i]->0.sha@ == sha;
        assert(oldest_tag_at(tags, i));
    }
    if all_tagged(tags) && exists|i: int| 0 <= i < tags.len() && #[trigger] tag_time(tags, i)->0 < i64::MAX {
        let i = choose|i: int| 0 <= i < tags.len() && #[trigger] tag_time(tags, i)->0 < i64::MAX;
        let (oldest, s) = start_state(tags)->0;
        assert(tag_time(tags, i) matches Some(ts) && oldest <= ts);
    }
}

/// The number of pull request parts over all branch groups.
pub open spec fn total_prs(groups: Seq<(Seq<char>, Seq<ReleasePrView>)>) -> nat
    decreases groups.len(),
{
    if groups.len() == 0 {
        0
    } else {
        total_prs(groups.drop_last()) + groups.last().1.len()
    }
}

/// Whether no two branch groups share a branch.
pub open spec fn distinct_branches(groups: Seq<(Seq<char>, Seq<ReleasePrView>)>) -> bool {
    forall|a: int, b: int| 0 <= a < b < groups.len() ==> #[trigger] groups[a].0 != #[trigger] groups[b].0
}

/// Whether no two packages share a name.
pub open spec fn distinct_names(pkgs: Seq<ReleasablePackage>) -> bool {
    forall|a: int, b: int| 0 <= a < b < pkgs.len() ==> #[trigger] pkgs[a].name@ != #[trigger] pkgs[b].name@
}

proof fn lemma_branch_index(groups: Seq<(Seq<char>, Seq<ReleasePrView>)>, branch: Seq<char>)
    ensures
        branch_index(groups, branch) matches Some(i) ==> 0 <= i < groups.len() && groups[i].0 == branch,
        branch_index(groups, branch) is None ==> forall|i: int| 0 <= i < groups.len() ==> (#[trigger] groups[i]).0 != branch,
    decreases groups.len(),
{
    if groups.len() > 0 {
        let d = groups.drop_last();
        lemma_branch_index(d, branch);
        assert forall|i: int| 0 <= i < d.len() implies #[trigger] d[i] == groups[i] by {}
        if branch_index(groups, branch) is None {
            assert forall|i: int| 0 <= i < groups.len() implies (#[trigger] groups[i]).0 != branch by {
                if i < d.len() {
                    assert(d[i] == groups[i]);
                }
            }
        }
    }
}

proof fn lemma_total_prs_push(groups: Seq<(Seq<char>, Seq<ReleasePrView>)>, g: (Seq<char>, Seq<ReleasePrView>))
    ensures
        total_prs(groups.push(g)) == total_prs(groups) + g.1.len(),
{
    assert(groups.push(g).drop_last() =~= groups);
}

proof fn lemma_total_prs_grow(groups: Seq<(Seq<char>, Seq<ReleasePrView>)>, i: int, pr: ReleasePrView)
    requires
        0 <= i < groups.len(),
    ensures
        total_prs(groups.update(i, (groups[i].0, groups[i].1.push(pr)))) == total_prs(groups) + 1,
    decreases groups.len(),
{
    let u = groups.update(i, (groups[i].0, groups[i].1.push(pr)));
    let d = groups.drop_last();
    if i == groups.len() - 1 {
        assert(u.drop_last() =~= d);
    } else {
        lemma_total_prs_grow(d, i, pr);
        assert(u.drop_last() =~= d.update(i, (d[i].0, d[i].1.push(pr))));
    }
}

proof fn lemma_branch_injective(default_branch: Seq<char>, a: Seq<char>, b: Seq<char>)
    requires
        release_branch(default_branch, true, a) == release_branch(default_branch, true, b),
    ensures
        a == b,
{
    let p = crate::release_pr::DEFAULT_PR_BRANCH_PREFIX@ + "-"@ + default_branch + "-"@;
    assert(release_branch(default_branch, true, a) =~= p + a);
    assert(release_branch(default_branch, true, b) =~= p + b);
    assert(a =~= (p + a).subrange(p.len() as int, (p + a).len() as int));
    assert(b =~= (p + b).subrange(p.len() as int, (p + b).len() as int));
}

proof fn lemma_prs_by_branch(pkgs: Seq<ReleasablePackage>, default_branch: Seq<char>, separate: bool, open_details: bool)
    ensures
        ({
            let g = prs_by_branch(pkgs, default_branch, separate, open_details);
            &&& total_prs(g) == pkgs.len()
            &&& distinct_branches(g)
            &&& g.len() <= pkgs.len()
            &&& (pkgs.len() > 0 ==> g.len() > 0)
            &&& (!separate ==> g.len() <= 1)
            &&& (separate && distinct_names(pkgs) ==> g.len() == pkgs.len()
                && forall|i: int| 0 <= i < g.len() ==> (#[trigger] g[i]).0 == release_branch(default_branch, true, pkgs[i].name@))
        }),
    decreases pkgs.len(),
{
    if pkgs.len() > 0 {
        let d = pkgs.drop_last();
        lemma_prs_by_branch(d, default_branch, separate, open_details);
        let prev = prs_by_branch(d, default_branch, separate, open_details);
        let p = pkgs.last();
        let branch = release_branch(default_branch, separate, p.name@);
        let pr = crate::release_pr::package_pr(default_branch, open_details, p.name@, p.workspace_root@, p.path@,
            p.release.tag.name@, p.release.notes@);
        let g = prs_by_branch(pkgs, default_branch, separate, open_details);
        lemma_branch_index(prev, branch);
        match branch_index(prev, branch) {
            Some(i) => {
                lemma_total_prs_grow(prev, i, pr);
                assert(g == prev.update(i, (prev[i].0, prev[i].1.push(pr))));
                assert(distinct_branches(g));
                if separate && distinct_names(pkgs) {
                    assert(distinct_names(d)) by {
                        assert forall|a: int, b: int| 0 <= a < b < d.len() implies #[trigger] d[a].name@ != #[trigger] d[b].name@ by {
                            assert(d[a] == pkgs[a] && d[b] == pkgs[b]);
                        }
                    }
                    assert(prev[i].0 == release_branch(default_branch, true, d[i].name@));
                    lemma_branch_injective(default_branch, d[i].name@, p.name@);
                    assert(d[i] == pkgs[i]);
                    assert(false);
                }
            },
            None => {
                lemma_total_prs_push(prev, (branch, seq![pr]));
                assert(g == prev.push((branch, seq![pr])));
                if !separate {
                    if prev.len() > 0 {
                        assert(prev[0].0 == release_branch(default_branch, false, d[0].name@)) by {
                            lemma_first_group_branch(d, default_branch, open_details);
                        }
                        assert(false);
                    }
                }
                if separate && distinct_names(pkgs) {
                    assert(distinct_names(d)) by {
                        assert forall|a: int, b: int| 0 <= a < b < d.len() implies #[trigger] d[a].name@ != #[trigger] d[b].name@ by {
                            assert(d[a] == pkgs[a] && d[b] == pkgs[b]);
                        }
                    }
                    assert forall|i: int| 0 <= i < g.len() implies (#[trigger] g[i]).0 == release_branch(default_branch, true, pkgs[i].name@) by {
                        if i < prev.len() {
                            assert(g[i] == prev[i]);
                            assert(d[i] == pkgs[i]);
                        }
                    }
                }
            },
        }
    }
}

proof fn lemma_first_group_branch(pkgs: Seq<ReleasablePackage>, default_branch: Seq<char>, open_details: bool)
    requires
        pkgs.len() > 0,
    ensures
        prs_by_branch(pkgs, default_branch, false, open_details).len() > 0,
        prs_by_branch(pkgs, default_branch, false, open_details)[0].0 == release_branch(default_branch, false, pkgs[0].name@),
    decreases pkgs.len(),
{
    let d = pkgs.drop_last();
    let p = pkgs.last();
    let branch = release_branch(default_branch, false, p.name@);
    let prev = prs_by_branch(d, default_branch, false, open_details);
    lemma_branch_index(prev, branch);
    if d.len() > 0 {
        lemma_first_group_branch(d, default_branch, open_details);
        assert(d[0] == pkgs[0]);
        assert(prev[0].0 == branch);
    }
}

/// Release pull requests partition the packages: every package's part goes
/// to exactly one branch group, no two groups share a branch, all parts go
/// to one branch unless pull requests are separate, and with separate pull
/// requests and distinct package names each package has a branch of its
/// own, named after it.
pub proof fn law_release_prs_partition_packages(
    pkgs: Seq<ReleasablePackage>,
    default_branch: Seq<char>,
    separate: bool,
    open_details: bool,
)
    ensures
        total_prs(prs_by_branch(pkgs, default_branch, separate, open_details)) == pkgs.len(),
        distinct_branches(prs_by_branch(pkgs, default_branch, separate, open_details)),
        !separate && pkgs.len() > 0 ==> prs_by_branch(pkgs, default_branch, separate, open_details).len() == 1,
        separate && distinct_names(pkgs) ==> prs_by_branch(pkgs, default_branch, separate, open_details).len() == pkgs.len()
            && forall|i: int| 0 <= i < pkgs.len() ==> (#[trigger] prs_by_branch(pkgs, default_branch, separate, open_details)[i]).0
                == release_branch(default_branch, true, pkgs[i].name@),
{
    lemma_prs_by_branch(pkgs, default_branch, separate, open_details);
}

/// The pull request part of the package at `k` of `pkgs`.
pub open spec fn part_of(pkgs: Seq<ReleasablePackage>, default_branch: Seq<char>, open_details: bool, k: int) -> ReleasePrView {
    crate::release_pr::package_pr(
        default_branch,
        open_details,
        pkgs[k].name@,
        pkgs[k].workspace_root@,
        pkgs[k].path@,
        pkgs[k].release.tag.name@,
        pkgs[k].release.notes@,
    )
}

/// Whether the part of the package at `k` is in the group of its release
/// branch.
pub open spec fn part_in_branch(
    groups: Seq<(Seq<char>, Seq<ReleasePrView>)>,
    pkgs: Seq<ReleasablePackage>,
    default_branch: Seq<char>,
    separate: bool,
    open_details: bool,
    k: int,
) -> bool {
    exists|g: int, m: int|
        0 <= g < groups.len() && groups[g].0 == release_branch(default_branch, separate, pkgs[k].name@)
            && 0 <= m < groups[g].1.len() && #[trigger] groups[g].1[m] == part_of(pkgs, default_branch, open_details, k)
}

/// Every package's pull request part is in the group of the package's
/// release branch: titled with the package name and tag, its body holding
/// the metadata and notes, and its change prepending the notes to the
/// package's changelog.
pub proof fn law_each_package_part_in_its_branch(
    pkgs: Seq<ReleasablePackage>,
    default_branch: Seq<char>,
    separate: bool,
    open_details: bool,
    k: int,
)
    requires
        0 <= k < pkgs.len(),
    ensures
        part_in_branch(prs_by_branch(pkgs, default_branch, separate, open_details), pkgs, default_branch, separate, open_details, k),
    decreases pkgs.len(),
{
    let d = pkgs.drop_last();
    let p = pkgs.last();
    let branch = release_branch(default_branch, separate, p.name@);
    let prev = prs_by_branch(d, default_branch, separate, open_details);
    let groups = prs_by_branch(pkgs, default_branch, separate, open_details);
    let pr = part_of(pkgs, default_branch, open_details, pkgs.len() - 1);
    lemma_branch_index(prev, branch);
    if k == pkgs.len() - 1 {
        match branch_index(prev, branch) {
            Some(i) => {
                assert(groups[i].1[prev[i].1.len() as int] == pr);
            },
            None => {
                assert(groups[prev.len() as int].1[0] == pr);
            },
        }
    } else {
        law_each_package_part_in_its_branch(d, default_branch, separate, open_details, k);
        assert(d[k] == pkgs[k]);
        assert(part_of(d, default_branch, open_details, k) == part_of(pkgs, default_branch, open_details, k));
        let (g, m) = choose|g: int, m: int|
            0 <= g < prev.len() && prev[g].0 == release_branch(default_branch, separate, d[k].name@)
                && 0 <= m < prev[g].1.len() && #[trigger] prev[g].1[m] == part_of(d, default_branch, open_details, k);
        match branch_index(prev, branch) {
            Some(i) => {
                if g == i {
                    assert(groups[g].1[m] == prev[g].1[m]);
                } else {
                    assert(groups[g] == prev[g]);
                }
                assert(groups[g].1[m] == part_of(pkgs, default_branch, open_details, k));
            },
            None => {
                assert(groups[g] == prev[g]);
                assert(groups[g].1[m] == part_of(pkgs, default_branch, open_details, k));
            },
        }
    }
}

/// The pull request parts of the packages whose release branch is
/// `branch`, in the order of the packages.
pub open spec fn parts_for_branch(
    pkgs: Seq<ReleasablePackage>,
    default_branch: Seq<char>,
    separate: bool,
    open_details: bool,
    branch: Seq<char>,
) -> Seq<ReleasePrView>
    decreases pkgs.len(),
{
    if pkgs.len() == 0 {
        Seq::empty()
    } else {
        let prev = parts_for_branch(pkgs.drop_last(), default_branch, separate, open_details, branch);
        if release_branch(default_branch, separate, pkgs.last().name@) == branch {
            prev.push(part_of(pkgs, default_branch, open_details, pkgs.len() - 1))
        } else {
            prev
        }
    }
}

/// Each release branch's group holds exactly the parts of the packages
/// released on that branch, in the order of the packages; a branch that no
/// group names has no package.
pub proof fn law_release_branches_keep_package_order(
    pkgs: Seq<ReleasablePackage>,
    default_branch: Seq<char>,
    separate: bool,
    open_details: bool,
)
    ensures
        ({
            let groups = prs_by_branch(pkgs, default_branch, separate, open_details);
            &&& forall|g: int| 0 <= g < groups.len() ==> (#[trigger] groups[g]).1
                == parts_for_branch(pkgs, default_branch, separate, open_details, groups[g].0)
            &&& forall|b: Seq<char>| (forall|g: int| 0 <= g < groups.len() ==> (#[trigger] groups[g]).0 != b)
                ==> #[trigger] parts_for_branch(pkgs, default_branch, separate, open_details, b).len() == 0
        }),
    decreases pkgs.len(),
{
    if pkgs.len() > 0 {
        let d = pkgs.drop_last();
        let p = pkgs.last();
        let branch = release_branch(default_branch, separate, p.name@);
        let prev = prs_by_branch(d, default_branch, separate, open_details);
        let groups = prs_by_branch(pkgs, default_branch, separate, open_details);
        let pr = part_of(pkgs, default_branch, open_details, pkgs.len() - 1);
        law_release_branches_keep_package_order(d, default_branch, separate, open_details);
        lemma_prs_by_branch(d, default_branch, separate, open_details);
        lemma_branch_index(prev, branch);
        assert(pr == crate::release_pr::package_pr(default_branch, open_details, p.name@, p.workspace_root@, p.path@,
            p.release.tag.name@, p.release.notes@));
        assert forall|b: Seq<char>| b != branch implies #[trigger] parts_for_branch(pkgs, default_branch, separate, open_details, b)
            == parts_for_branch(d, default_branch, separate, open_details, b) by {
        }
        match branch_index(prev, branch) {
            Some(i) => {
                assert(groups == prev.update(i, (branch, prev[i].1.push(pr))));
                assert forall|g: int| 0 <= g < groups.len() implies (#[trigger] groups[g]).1
                    == parts_for_branch(pkgs, default_branch, separate, open_details, groups[g].0) by {
                    if g == i {
                        assert(prev[i].1 == parts_for_branch(d, default_branch, separate, open_details, prev[i].0));
                    } else {
                        assert(groups[g] == prev[g]);
                        if g < i {
                            assert(prev[g].0 != prev[i].0);
                        } else {
                            assert(prev[i].0 != prev[g].0);
                        }
                        assert(prev[g].1 == parts_for_branch(d, default_branch, separate, open_details, prev[g].0));
                    }
                }
                assert forall|b: Seq<char>| (forall|g: int| 0 <= g < groups.len() ==> (#[trigger] groups[g]).0 != b)
                    implies #[trigger] parts_for_branch(pkgs, default_branch, separate, open_details, b).len() == 0 by {
                    assert(groups[i].0 == branch);
                    assert forall|g: int| 0 <= g < prev.len() implies (#[trigger] prev[g]).0 != b by {
                        assert(groups[g].0 == prev[g].0);
                    }
                }
            },
            None => {
                assert(groups == prev.push((branch, seq![pr])));
                assert(parts_for_branch(d, default_branch, separate, open_details, branch).len() == 0);
                assert(parts_for_branch(pkgs, default_branch, separate, open_details, branch) =~= seq![pr]);
                assert forall|g: int| 0 <= g < groups.len() implies (#[trigger] groups[g]).1
                    == parts_for_branch(pkgs, default_branch, separate, open_details, groups[g].0) by {
                    if g < prev.len() {
                        assert(groups[g] == prev[g]);
                        assert(prev[g].1 == parts_for_branch(d, default_branch, separate, open_details, prev[g].0));
                    }
                }
                assert forall|b: Seq<char>| (forall|g: int| 0 <= g < groups.len() ==> (#[trigger] groups[g]).0 != b)
                    implies #[trigger] parts_for_branch(pkgs, default_branch, separate, open_details, b).len() == 0 by {
                    assert(groups[prev.len() as int].0 == branch);
                    assert forall|g: int| 0 <= g < prev.len() implies (#[trigger] prev[g]).0 != b by {
                        assert(groups[g].0 == prev[g].0);
                    }
                }
            },
        }
    }
}

/// The actions of a run that goes from `step` through the forge's replies
/// `events`, one action per reply.
pub open spec fn run_actions(
    default_branch: Seq<char>,
    pr: BranchPrView,
    step: ReleasePrStep,
    events: Seq<ReleasePrEvent>,
) -> Seq<ReleasePrActionView>
    decreases events.len(),
{
    if events.len() == 0 {
        Seq::empty()
    } else {
        let (next, action) = release_pr_transition(default_branch, pr, step, events[0]);
        seq![action] + run_actions(default_branch, pr, next, events.drop_first())
    }
}

proof fn lemma_done_run(default_branch: Seq<char>, pr: BranchPrView, events: Seq<ReleasePrEvent>)
    ensures
        run_actions(default_branch, pr, ReleasePrStep::Done, events).len() == events.len(),
        forall|i: int| 0 <= i < events.len() ==> #[trigger] run_actions(default_branch, pr, ReleasePrStep::Done, events)[i]
            == ReleasePrActionView::Done,
    decreases events.len(),
{
    if events.len() > 0 {
        lemma_done_run(default_branch, pr, events.drop_first());
        let rest = run_actions(default_branch, pr, ReleasePrStep::Done, events.drop_first());
        assert forall|i: int| 0 <= i < events.len() implies #[trigger] run_actions(default_branch, pr, ReleasePrStep::Done, events)[i]
            == ReleasePrActionView::Done by {
            if i > 0 {
                assert((seq![ReleasePrActionView::Done] + rest)[i] == rest[i - 1]);
            }
        }
    }
}

/// A release branch whose merged release pull request is not tagged yet
/// stops the run: after looking for it, the run fails with the pending
/// release error naming the branch and that pull request, and asks nothing
/// more of the forge, whatever it answers next; no branch is created and
/// no pull request is opened or changed.
pub proof fn law_pending_release_stops_the_run(
    default_branch: Seq<char>,
    pr: BranchPrView,
    pr_number: u64,
    later: Seq<ReleasePrEvent>,
)
    ensures
        ({
            let actions = run_actions(
                default_branch,
                pr,
                ReleasePrStep::Start,
                seq![ReleasePrEvent::Started, ReleasePrEvent::MergedPr(Some(pr_number))] + later,
            );
            &&& actions.len() == later.len() + 2
            &&& actions[0] == ReleasePrActionView::GetMergedReleasePr { head_branch: pr.branch, base_branch: default_branch }
            &&& actions[1] == ReleasePrActionView::Fail(crate::error::ErrorView::PendingRelease { branch: pr.branch, pr_number })
            &&& forall|i: int| 2 <= i < actions.len() ==> #[trigger] actions[i] == ReleasePrActionView::Done
        }),
{
    let events = seq![ReleasePrEvent::Started, ReleasePrEvent::MergedPr(Some(pr_number))] + later;
    assert(events.drop_first().drop_first() =~= later);
    assert(events[0] == ReleasePrEvent::Started);
    assert(events.drop_first()[0] == ReleasePrEvent::MergedPr(Some(pr_number)));
    lemma_done_run(default_branch, pr, later);
    let tail = run_actions(default_branch, pr, ReleasePrStep::Done, later);
    let second = run_actions(default_branch, pr, ReleasePrStep::CheckPending, events.drop_first());
    assert(second == seq![ReleasePrActionView::Fail(crate::error::ErrorView::PendingRelease { branch: pr.branch, pr_number })] + tail);
    let actions = run_actions(default_branch, pr, ReleasePrStep::Start, events);
    assert(actions == seq![ReleasePrActionView::GetMergedReleasePr { head_branch: pr.branch, base_branch: default_branch }] + second);
    assert forall|i: int| 2 <= i < actions.len() implies #[trigger] actions[i] == ReleasePrActionView::Done by {
        assert(actions[i] == tail[i - 2]);
    }
}

/// The setting that an override path names, read from `o`.
pub open spec fn setting_at(o: OverridesView, path: Seq<char>) -> (Option<Seq<char>>, Option<PrereleaseStrategy>) {
    if path == "tag_prefix"@ {
        (o.tag_prefix, None)
    } else if path == "prerelease.suffix"@ {
        (o.prerelease_suffix, None)
    } else {
        (None, o.prerelease_strategy)
    }
}

/// Whether no two override entries name the same package.
pub open spec fn distinct_entries(entries: Seq<(Seq<char>, OverridesView)>) -> bool {
    forall|a: int, b: int| 0 <= a < b < entries.len() ==> #[trigger] entries[a].0 != #[trigger] entries[b].0
}

proof fn lemma_entry_index(entries: Seq<(Seq<char>, OverridesView)>, name: Seq<char>)
    ensures
        entry_index(entries, name) matches Some(i) ==> 0 <= i < entries.len() && entries[i].0 == name,
        entry_index(entries, name) is None ==> forall|i: int| 0 <= i < entries.len() ==> (#[trigger] entries[i]).0 != name,
    decreases entries.len(),
{
    if entries.len() > 0 {
        let d = entries.drop_last();
        lemma_entry_index(d, name);
        if entry_index(entries, name) is None {
            assert forall|i: int| 0 <= i < entries.len() implies (#[trigger] entries[i]).0 != name by {
                if i < d.len() {
                    assert(d[i] == entries[i]);
                }
            }
        }
    }
}

proof fn lemma_entry_index_same_names(entries: Seq<(Seq<char>, OverridesView)>, j: int, v: OverridesView, name: Seq<char>)
    requires
        0 <= j < entries.len(),
    ensures
        entry_index(entries.update(j, (entries[j].0, v)), name) == entry_index(entries, name),
    decreases entries.len(),
{
    let u = entries.update(j, (entries[j].0, v));
    let d = entries.drop_last();
    if j < entries.len() - 1 {
        assert(u.drop_last() =~= d.update(j, (d[j].0, v)));
        lemma_entry_index_same_names(d, j, v, name);
    } else {
        assert(u.drop_last() =~= d);
    }
}

proof fn lemma_entry_index_push(entries: Seq<(Seq<char>, OverridesView)>, e: (Seq<char>, OverridesView), name: Seq<char>)
    ensures
        entry_index(entries.push(e), name) == if e.0 == name { Some(entries.len() as int) } else { entry_index(entries, name) },
{
    assert(entries.push(e).drop_last() =~= entries);
}

proof fn lemma_single_setting(path: Seq<char>, value: Seq<char>, other: Seq<char>)
    requires
        spec_single_override(path, value) is Ok,
        other == "tag_prefix"@ || other == "prerelease.suffix"@ || other == "prerelease.strategy"@,
    ensures
        other != path ==> setting_at(spec_single_override(path, value)->Ok_0, other) == (None::<Seq<char>>, None::<PrereleaseStrategy>),
{
}

proof fn lemma_valid_override_path(path: Seq<char>, value: Seq<char>)
    requires
        spec_single_override(path, value) is Ok,
    ensures
        path == "tag_prefix"@ || path == "prerelease.suffix"@ || path == "prerelease.strategy"@,
{
}

proof fn lemma_overrides_distinct(ovs: Seq<PathOverrideView>)
    ensures
        spec_package_overrides(ovs) matches Ok(acc) ==> distinct_entries(acc),
    decreases ovs.len(),
{
    if ovs.len() > 0 {
        let d = ovs.drop_last();
        lemma_overrides_distinct(d);
        if let Ok(acc) = spec_package_overrides(d) {
            let o = ovs.last();
            lemma_entry_index(acc, o.package_name);
            if let Ok(single) = spec_single_override(o.path, o.value) {
                match entry_index(acc, o.package_name) {
                    Some(i) => {
                        let u = acc.update(i, (o.package_name, merged(single, acc[i].1)));
                        assert forall|a: int, b: int| 0 <= a < b < u.len() implies #[trigger] u[a].0 != #[trigger] u[b].0 by {
                            assert(u[a].0 == acc[a].0 && u[b].0 == acc[b].0);
                        }
                    },
                    None => {
                        let u = acc.push((o.package_name, single));
                        assert forall|a: int, b: int| 0 <= a < b < u.len() implies #[trigger] u[a].0 != #[trigger] u[b].0 by {
                            if b < acc.len() {
                                assert(u[a] == acc[a] && u[b] == acc[b]);
                            } else {
                                assert(u[a] == acc[a]);
                            }
                        }
                    },
                }
            }
        }
    }
}

proof fn lemma_last_override_kept(ovs: Seq<PathOverrideView>, k: int, m: int)
    requires
        0 <= k < m <= ovs.len(),
        spec_single_override(ovs[k].path, ovs[k].value) is Ok,
        forall|n: int| k < n < ovs.len() ==> !(#[trigger] ovs[n].package_name == ovs[k].package_name && ovs[n].path == ovs[k].path),
    ensures
        spec_package_overrides(ovs.take(m)) matches Ok(acc) ==> (entry_index(acc, ovs[k].package_name) matches Some(i)
            && setting_at(acc[i].1, ovs[k].path) == setting_at(spec_single_override(ovs[k].path, ovs[k].value)->Ok_0, ovs[k].path)),
    decreases m - k,
{
    let name = ovs[k].package_name;
    let path = ovs[k].path;
    let t = ovs.take(m);
    let d = ovs.take(m - 1);
    assert(t.drop_last() =~= d);
    assert(t.last() == ovs[m - 1]);
    let o = ovs[m - 1];
    lemma_valid_override_path(path, ovs[k].value);
    if let Ok(acc) = spec_package_overrides(t) {
        let prev = spec_package_overrides(d)->Ok_0;
        let single = spec_single_override(o.path, o.value)->Ok_0;
        lemma_entry_index(prev, o.package_name);
        if m - 1 == k {
            match entry_index(prev, name) {
                Some(i) => {
                    lemma_entry_index_same_names(prev, i, merged(single, prev[i].1), name);
                },
                None => {
                    lemma_entry_index_push(prev, (name, single), name);
                },
            }
        } else {
            lemma_last_override_kept(ovs, k, m - 1);
            let i = entry_index(prev, name)->0;
            lemma_entry_index(prev, name);
            lemma_single_setting(o.path, o.value, path);
            match entry_index(prev, o.package_name) {
                Some(j) => {
                    lemma_entry_index_same_names(prev, j, merged(single, prev[j].1), name);
                    if j == i {
                        assert(o.path != path);
                    }
                },
                None => {
                    lemma_entry_index_push(prev, (o.package_name, single), name);
                },
            }
        }
    }
}

/// Package overrides collect into one entry per package, and for each
/// package and setting the last option that sets it wins over the earlier
/// ones.
pub proof fn law_later_package_override_wins(ovs: Seq<PathOverrideView>, k: int)
    requires
        0 <= k < ovs.len(),
        forall|n: int| k < n < ovs.len() ==> !(#[trigger] ovs[n].package_name == ovs[k].package_name && ovs[n].path == ovs[k].path),
    ensures
        spec_package_overrides(ovs) matches Ok(entries) ==> {
            &&& distinct_entries(entries)
            &&& exists|i: int| 0 <= i < entries.len() && #[trigger] entries[i].0 == ovs[k].package_name
                && setting_at(entries[i].1, ovs[k].path)
                    == setting_at(spec_single_override(ovs[k].path, ovs[k].value)->Ok_0, ovs[k].path)
        },
{
    lemma_overrides_distinct(ovs);
    assert(ovs.take(ovs.len() as int) =~= ovs);
    if let Ok(entries) = spec_package_overrides(ovs) {
        lemma_overrides_ok_prefix(ovs, k + 1);
        lemma_last_override_kept(ovs, k, ovs.len() as int);
        lemma_entry_index(entries, ovs[k].package_name);
    }
}

/// Whether some `--set-package` option cannot be read: its path names no
/// setting, or its prerelease strategy is unknown.
pub open spec fn unreadable_override(ovs: Seq<PathOverrideView>) -> bool {
    exists|k: int| 0 <= k < ovs.len() && (#[trigger] spec_single_override(ovs[k].path, ovs[k].value)) is Err
}

/// Whether some option for package `name` has the setting path `path`.
pub open spec fn option_sets(ovs: Seq<PathOverrideView>, name: Seq<char>, path: Seq<char>) -> bool {
    exists|k: int| 0 <= k < ovs.len() && (#[trigger] ovs[k]).package_name == name && ovs[k].path == path
}

/// Whether some option names package `name`.
pub open spec fn option_names(ovs: Seq<PathOverrideView>, name: Seq<char>) -> bool {
    exists|k: int| 0 <= k < ovs.len() && (#[trigger] ovs[k]).package_name == name
}

/// Whether every entry's name is named by an option, and each of its
/// settings is set by an option for it.
pub open spec fn entries_from_options(ovs: Seq<PathOverrideView>, entries: Seq<(Seq<char>, OverridesView)>) -> bool {
    forall|i: int| 0 <= i < entries.len() ==> {
        &&& option_names(ovs, (#[trigger] entries[i]).0)
        &&& (entries[i].1.tag_prefix is Some ==> option_sets(ovs, entries[i].0, "tag_prefix"@))
        &&& (entries[i].1.prerelease_suffix is Some ==> option_sets(ovs, entries[i].0, "prerelease.suffix"@))
        &&& (entries[i].1.prerelease_strategy is Some ==> option_sets(ovs, entries[i].0, "prerelease.strategy"@))
    }
}

proof fn lemma_option_facts_grow(ovs: Seq<PathOverrideView>, name: Seq<char>, path: Seq<char>)
    requires
        ovs.len() > 0,
    ensures
        option_sets(ovs.drop_last(), name, path) ==> option_sets(ovs, name, path),
        option_names(ovs.drop_last(), name) ==> option_names(ovs, name),
{
    let d = ovs.drop_last();
    if option_sets(d, name, path) {
        let k = choose|k: int| 0 <= k < d.len() && (#[trigger] d[k]).package_name == name && d[k].path == path;
        assert(ovs[k] == d[k]);
    }
    if option_names(d, name) {
        let k = choose|k: int| 0 <= k < d.len() && (#[trigger] d[k]).package_name == name;
        assert(ovs[k] == d[k]);
    }
}

proof fn lemma_overrides_collect(ovs: Seq<PathOverrideView>)
    ensures
        spec_package_overrides(ovs) is Err <==> unreadable_override(ovs),
        spec_package_overrides(ovs) matches Ok(entries) ==> {
            &&& entries_from_options(ovs, entries)
            &&& forall|k: int| 0 <= k < ovs.len() ==> #[trigger] entry_index(entries, ovs[k].package_name) is Some
        },
    decreases ovs.len(),
{
    if ovs.len() > 0 {
        let d = ovs.drop_last();
        let o = ovs.last();
        lemma_overrides_collect(d);
        if unreadable_override(d) {
            let k = choose|k: int| 0 <= k < d.len() && (#[trigger] spec_single_override(d[k].path, d[k].value)) is Err;
            assert(ovs[k] == d[k]);
        }
        if unreadable_override(ovs) && spec_package_overrides(d) is Ok {
            let k = choose|k: int| 0 <= k < ovs.len() && (#[trigger] spec_single_override(ovs[k].path, ovs[k].value)) is Err;
            if k < d.len() {
                assert(ovs[k] == d[k]);
            }
        }
        if let Ok(acc) = spec_package_overrides(d) {
            if let Ok(single) = spec_single_override(o.path, o.value) {
                let entries = spec_package_overrides(ovs)->Ok_0;
                lemma_entry_index(acc, o.package_name);
                assert(option_names(ovs, o.package_name)) by {
                    assert(ovs[ovs.len() - 1] == o);
                }
                assert(single.tag_prefix is Some ==> option_sets(ovs, o.package_name, "tag_prefix"@)) by {
                    assert(ovs[ovs.len() - 1] == o);
                }
                assert(single.prerelease_suffix is Some ==> option_sets(ovs, o.package_name, "prerelease.suffix"@)) by {
                    assert(ovs[ovs.len() - 1] == o);
                }
                assert(single.prerelease_strategy is Some ==> option_sets(ovs, o.package_name, "prerelease.strategy"@)) by {
                    assert(ovs[ovs.len() - 1] == o);
                }
                assert forall|i: int| 0 <= i < entries.len() implies {
                    &&& option_names(ovs, (#[trigger] entries[i]).0)
                    &&& (entries[i].1.tag_prefix is Some ==> option_sets(ovs, entries[i].0, "tag_prefix"@))
                    &&& (entries[i].1.prerelease_suffix is Some ==> option_sets(ovs, entries[i].0, "prerelease.suffix"@))
                    &&& (entries[i].1.prerelease_strategy is Some ==> option_sets(ovs, entries[i].0, "prerelease.strategy"@))
                } by {
                    if i < acc.len() {
                        let e = acc[i];
                        assert(option_names(d, e.0));
                        lemma_option_facts_grow(ovs, e.0, "tag_prefix"@);
                        lemma_option_facts_grow(ovs, e.0, "prerelease.suffix"@);
                        lemma_option_facts_grow(ovs, e.0, "prerelease.strategy"@);
                    }
                }
                assert forall|k: int| 0 <= k < ovs.len() implies #[trigger] entry_index(entries, ovs[k].package_name) is Some by {
                    lemma_entry_index(entries, ovs[k].package_name);
                    if k < d.len() {
                        assert(ovs[k] == d[k]);
                        assert(entry_index(acc, d[k].package_name) is Some);
                        lemma_entry_index(acc, d[k].package_name);
                        let j = entry_index(acc, d[k].package_name)->Some_0;
                        assert(entries[j].0 == acc[j].0);
                    } else {
                        assert(ovs[k] == o);
                        match entry_index(acc, o.package_name) {
                            Some(j) => { assert(entries[j].0 == o.package_name); },
                            None => { assert(entries[acc.len() as int].0 == o.package_name); },
                        }
                    }
                }
            }
        }
    }
}

/// `--set-package` options collect into package overrides as documented:
/// the collection fails exactly when some option cannot be read; otherwise
/// there is one entry per package that some option names, every package an
/// option names has an entry, and an entry's setting is present only where
/// an option for that package sets it.
pub proof fn law_package_overrides_collect(ovs: Seq<PathOverrideView>)
    ensures
        spec_package_overrides(ovs) is Err <==> unreadable_override(ovs),
        spec_package_overrides(ovs) matches Ok(entries) ==> {
            &&& distinct_entries(entries)
            &&& entries_from_options(ovs, entries)
            &&& forall|k: int| #![trigger ovs[k]] 0 <= k < ovs.len() ==> exists|i: int| 0 <= i < entries.len()
                && #[trigger] entries[i].0 == ovs[k].package_name
        },
{
    lemma_overrides_collect(ovs);
    lemma_overrides_distinct(ovs);
    if let Ok(entries) = spec_package_overrides(ovs) {
        assert forall|k: int| #![trigger ovs[k]] 0 <= k < ovs.len() implies exists|i: int| 0 <= i < entries.len()
            && #[trigger] entries[i].0 == ovs[k].package_name by {
            assert(entry_index(entries, ovs[k].package_name) is Some);
            lemma_entry_index(entries, ovs[k].package_name);
        }
    }
}

proof fn lemma_overrides_ok_prefix(ovs: Seq<PathOverrideView>, m: int)
    requires
        0 < m <= ovs.len(),
        spec_package_overrides(ovs) is Ok,
    ensures
        spec_single_override(ovs[m - 1].path, ovs[m - 1].value) is Ok,
    decreases ovs.len() - m,
{
    let d = ovs.drop_last();
    if m == ovs.len() {
    } else {
        assert(spec_package_overrides(d) is Ok);
        lemma_overrides_ok_prefix(d, m);
        assert(d[m - 1] == ovs[m - 1]);
    }
}

/// A prerelease suffix as resolution keeps it: trimmed, and dropped when
/// nothing is left.
pub open spec fn kept_suffix(s: Option<Seq<char>>) -> Option<Seq<char>> {
    match s {
        Some(t) => if trim(t).len() > 0 { Some(trim(t)) } else { None },
        None => None,
    }
}

/// The suffix of resolved prerelease settings.
pub open spec fn suffix_of(p: Option<(Option<Seq<char>>, PrereleaseStrategy)>) -> Option<Seq<char>> {
    match p {
        Some((s, _)) => s,
        None => None,
    }
}

/// Prerelease settings resolve with the documented precedence: a
/// package's command line override first, then the global command line
/// override, then the package's configuration, then the global
/// configuration; suffix and strategy each on their own. A prerelease
/// remains exactly when the chosen suffix is not blank.
pub proof fn law_prerelease_precedence(c: Config, r: ConfigResolver, i: int)
    requires
        resolved_config(c, r),
        0 <= i < c.packages@.len(),
    ensures
        ({
            let inp = r.config.packages@[i];
            let pre = prerelease_view(c.packages@[i].prerelease);
            let ov = override_for(r.package_overrides@, c.packages@[i].name@);
            let g = r.global_overrides;
            let pkg_suffix = ov matches Some(o) && o.prerelease_suffix is Some;
            let pkg_strategy = ov matches Some(o) && o.prerelease_strategy is Some;
            let base = match inp.prerelease {
                Some(p) => p,
                None => r.config.prerelease,
            };
            &&& (pre is Some <==> suffix_of(pre) is Some)
            &&& (ov matches Some(o) ==> (o.prerelease_suffix is Some ==> suffix_of(pre) == kept_suffix(o.prerelease_suffix)))
            &&& (!pkg_suffix && g.prerelease_suffix is Some ==> suffix_of(pre) == kept_suffix(opt_view(g.prerelease_suffix)))
            &&& (!pkg_suffix && g.prerelease_suffix is None ==> suffix_of(pre) == kept_suffix(opt_view(base.suffix)))
            &&& (pre matches Some((_, st)) ==> {
                &&& (ov matches Some(o) ==> (o.prerelease_strategy matches Some(x) ==> st == x))
                &&& (!pkg_strategy ==> (g.prerelease_strategy matches Some(x) ==> st == x))
                &&& (!pkg_strategy && g.prerelease_strategy is None ==> st == base.strategy)
            })
        }),
{
    let mods = crate::resolver::spec_resolved_modifiers(r.commit_modifiers, r.config.changelog)->Ok_0;
    assert(crate::resolver::resolved_package(c.packages@[i], r.config.packages@[i], r, mods, resolved_base_branch(r)));
}

/// The base branch resolves with the documented precedence: the global
/// command line override, then the configuration, then the repository's
/// default branch.
pub proof fn law_base_branch_precedence(c: Config, r: ConfigResolver)
    requires
        resolved_config(c, r),
    ensures
        r.global_overrides.base_branch matches Some(b) ==> opt_view(c.base_branch) == Some(b@),
        r.global_overrides.base_branch is None ==> (r.config.base_branch matches Some(b) ==> opt_view(c.base_branch) == Some(b@)),
        r.global_overrides.base_branch is None && r.config.base_branch is None
            ==> opt_view(c.base_branch) == Some(r.repo_default_branch@),
{
}

/// The test of whether a commit belongs to a package with these paths and
/// tag timestamp.
pub open spec fn belongs_to(paths: Seq<Seq<char>>, tag_timestamp: Option<i64>) -> spec_fn(ForgeCommit) -> bool {
    |c: ForgeCommit| commit_in_package(c, paths, tag_timestamp)
}

/// The commits of a package are exactly the commits that belong to it,
/// in the order they came: no commit that belongs is dropped, and every
/// kept commit belongs.
pub proof fn law_package_commits_are_the_matching_ones(cs: Seq<ForgeCommit>, paths: Seq<Seq<char>>, tag_timestamp: Option<i64>)
    ensures
        package_commits(cs, paths, tag_timestamp) == cs.filter(belongs_to(paths, tag_timestamp)),
        forall|i: int| 0 <= i < package_commits(cs, paths, tag_timestamp).len()
            ==> commit_in_package(#[trigger] package_commits(cs, paths, tag_timestamp)[i], paths, tag_timestamp)
                && cs.contains(package_commits(cs, paths, tag_timestamp)[i]),
        forall|j: int| 0 <= j < cs.len() && commit_in_package(#[trigger] cs[j], paths, tag_timestamp)
            ==> package_commits(cs, paths, tag_timestamp).contains(cs[j]),
    decreases cs.len(),
{
    let pred = belongs_to(paths, tag_timestamp);
    let out = package_commits(cs, paths, tag_timestamp);
    reveal(Seq::filter);
    if cs.len() > 0 {
        law_package_commits_are_the_matching_ones(cs.drop_last(), paths, tag_timestamp);
    }
    assert(out == cs.filter(pred));
    assert forall|i: int| 0 <= i < out.len() implies commit_in_package(#[trigger] out[i], paths, tag_timestamp)
        && cs.contains(out[i]) by {
        cs.lemma_filter_pred(pred, i);
        assert(out.contains(out[i]));
        cs.lemma_filter_contains_rev(pred, out[i]);
    }
    assert forall|j: int| 0 <= j < cs.len() && commit_in_package(#[trigger] cs[j], paths, tag_timestamp)
        implies out.contains(cs[j]) by {
        cs.lemma_filter_contains(pred, j);
    }
}

/// Graduating a version that `add_prerelease` marked as a prerelease gives
/// back the version without prerelease: its numbers and build metadata are
/// untouched by the round trip.
pub proof fn law_graduate_undoes_add_prerelease(v: SpecVersion, identifier: Seq<char>, strategy: PrereleaseStrategy)
    ensures
        graduated(with_pre(v, prerelease_text(identifier, strategy))) == graduated(v),
        with_pre(v, prerelease_text(identifier, strategy)).major == v.major,
        with_pre(v, prerelease_text(identifier, strategy)).minor == v.minor,
        with_pre(v, prerelease_text(identifier, strategy)).patch == v.patch,
{
}

/// Only packages that commits touch are released, and every release holds
/// at least one commit: a package listed as releasable has commits of its
/// own since its current tag, and its release is made of some of them.
pub proof fn law_released_packages_have_their_own_commits(
    packages: Seq<PackageConfig>,
    tags: Seq<Option<Tag>>,
    commits: Seq<ForgeCommit>,
    rels: Seq<Option<Release>>,
    idx: Seq<int>,
    out: Seq<ReleasablePackage>,
)
    requires
        releasable_selection(packages, tags, commits, rels, idx, out),
    ensures
        forall|k: int| 0 <= k < out.len() ==> {
            &&& package_commits(commits, package_paths(packages[#[trigger] idx[k]]), tag_timestamp(tags[idx[k]])).len() > 0
            &&& (*out[k].release).commits@.len() > 0
        },
{
    assert forall|k: int| 0 <= k < out.len() implies {
        &&& package_commits(commits, package_paths(packages[#[trigger] idx[k]]), tag_timestamp(tags[idx[k]])).len() > 0
        &&& (*out[k].release).commits@.len() > 0
    } by {
        let i = idx[k];
        assert(planned(packages[i], tags[i], commits, Ok(rels[i])));
        let pc = package_commits(commits, package_paths(packages[i]), tag_timestamp(tags[i]));
        if pc.len() > 0 {
            let r = Ok::<Option<Release>, crate::error::ReleasaurusError>(rels[i]);
            let f = choose|f: Seq<ForgeCommit>|
                #![trigger analyzed(packages[i].analyzer_config, f, tags[i], r)]
                f.len() == pc.len()
                && (forall|j: int| 0 <= j < pc.len() ==> crate::forge::same_forge_commit(#[trigger] f[j], pc[j]))
                && analyzed(packages[i].analyzer_config, f, tags[i], r);
            assert(analyzed(packages[i].analyzer_config, f, tags[i], r));
        }
    }
}

} // verus!
