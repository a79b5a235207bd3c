//! Publishing merged releases: finding a package's metadata in a merged
//! release pull request, and starting the next release.

use vstd::prelude::*;

use crate::config::{opt_view, PackageConfig};
use crate::error::{ErrorView, ReleasaurusError};
use crate::forge::{same_forge_commit, ForgeCommit};
use crate::manifest::FileLoader;
use crate::packages::{
    commit_in_package, get_releasable_packages_for_commits, package_commits, package_path, package_paths, releasable_selection,
    spec_package_path, tag_timestamp, untouched, ReleasablePackage, lemma_plan_stop_same, plan_stop, same_commits, PlanStop,
};
use crate::release::{Release, Tag};
use crate::pattern::{spec_regex_captures, spec_regex_valid, RegexMatcher};
use crate::release_pr::PRMetadataFields;
use crate::text::{concat, str_eq};
use crate::version::{version_text, SpecVersion, Version};

verus! {

/// Pattern of a package's metadata block in a release pull request body.
pub const METADATA_PATTERN: &'static str = r#"(?ms)^<!--(?<metadata>.*?)-->\n*<details"#;

/// The metadata blocks of a pull request body, or the error for the first
/// match without metadata text.
pub open spec fn spec_metadata_blocks(body: Seq<char>) -> Result<Seq<Seq<char>>, ErrorView> {
    blocks_of(spec_regex_captures(METADATA_PATTERN@, body, "metadata"@))
}

/// The texts of captures, or an error when one is missing.
pub open spec fn blocks_of(caps: Seq<Option<Seq<char>>>) -> Result<Seq<Seq<char>>, ErrorView>
    decreases caps.len(),
{
    if caps.len() == 0 {
        Ok(Seq::empty())
    } else {
        match caps[0] {
            None => Err(ErrorView::Other("failed to parse metadata from PR body"@)),
            Some(t) => match blocks_of(caps.drop_first()) {
                Ok(rest) => Ok(seq![t] + rest),
                Err(e) => Err(e),
            },
        }
    }
}

/// The metadata blocks (JSON text) of a merged release pull request body,
/// in order; `None` if the metadata pattern does not compile.
pub fn metadata_blocks(body: &str) -> (r: Option<Result<Vec<String>, ReleasaurusError>>)
    ensures
        r is Some <==> spec_regex_valid(METADATA_PATTERN@),
        r matches Some(Ok(v)) ==> spec_metadata_blocks(body@) == Ok::<Seq<Seq<char>>, ErrorView>(crate::config::strings_view(v@)),
        r matches Some(Err(e)) ==> spec_metadata_blocks(body@) == Err::<Seq<Seq<char>>, ErrorView>(e@),
{
    let matcher = match RegexMatcher::new(METADATA_PATTERN) {
        Ok(m) => m,
        Err(_) => {
            return None;
        },
    };
    let caps = matcher.captures_named(body, "metadata");
    let ghost cv = spec_regex_captures(METADATA_PATTERN@, body@, "metadata"@);
    assert(cv.len() == caps@.len());
    let mut out: Vec<String> = Vec::new();
    let mut i: usize = 0;
    assert(cv.subrange(0, cv.len() as int) =~= cv);
    assert(crate::config::strings_view(out@) =~= Seq::<Seq<char>>::empty());
    proof {
        match blocks_of(cv) {
            Ok(r0) => {
                assert(Seq::<Seq<char>>::empty() + r0 =~= r0);
            },
            Err(_) => {},
        }
    }
    while i < caps.len()
        invariant
            i <= caps@.len(),
            cv.len() == caps@.len(),
            cv == spec_regex_captures(METADATA_PATTERN@, body@, "metadata"@),
            spec_regex_valid(METADATA_PATTERN@),
            forall|j: int| 0 <= j < caps@.len() ==> opt_view(#[trigger] caps@[j]) == cv[j],
            blocks_of(cv) == match blocks_of(cv.subrange(i as int, cv.len() as int)) {
                Ok(rest) => Ok::<Seq<Seq<char>>, ErrorView>(crate::config::strings_view(out@) + rest),
                Err(e) => Err(e),
            },
        decreases caps.len() - i,
    {
        let ghost rest = cv.subrange(i as int, cv.len() as int);
        assert(rest[0] == cv[i as int]);
        assert(rest.drop_first() =~= cv.subrange(i + 1, cv.len() as int));
        assert(opt_view(caps@[i as int]) == cv[i as int]);
        match &caps[i] {
            None => {
                return Some(Err(ReleasaurusError::Other("failed to parse metadata from PR body".to_owned())));
            },
            Some(t) => {
                let ghost before = crate::config::strings_view(out@);
                out.push(t.clone());
                assert(crate::config::strings_view(out@) =~= before.push(t@));
                proof {
                    match blocks_of(rest.drop_first()) {
                        Ok(r2) => {
                            assert(before + (seq![t@] + r2) =~= crate::config::strings_view(out@) + r2);
                        },
                        Err(_) => {},
                    }
                }
            },
        }
        i = i + 1;
    }
    assert(cv.subrange(cv.len() as int, cv.len() as int) =~= Seq::<Option<Seq<char>>>::empty());
    assert(crate::config::strings_view(out@) + Seq::<Seq<char>>::empty() =~= crate::config::strings_view(out@));
    Some(Ok(out))
}

/// The first metadata that names the package, reading the parsed blocks in
/// order: a block that failed to parse stops the search with its error.
pub open spec fn spec_find_metadata(parsed: Seq<Result<PRMetadataFields, String>>, name: Seq<char>) -> Result<Option<int>, ErrorView>
    decreases parsed.len(),
{
    if parsed.len() == 0 {
        Ok(None)
    } else {
        match parsed[0] {
            Err(m) => Err(ErrorView::JsonParseError(m@)),
            Ok(f) => if f.name@ == name {
                Ok(Some(0))
            } else {
                match spec_find_metadata(parsed.drop_first(), name) {
                    Ok(Some(i)) => Ok(Some(i + 1)),
                    other => other,
                }
            },
        }
    }
}

/// The position of the metadata of package `name` among the parsed
/// metadata blocks of a merged pull request; an error naming the package
/// and the pull request when there is none.
pub fn find_package_metadata(
    parsed: &Vec<Result<PRMetadataFields, String>>,
    name: &str,
    pr_number: u64,
) -> (r: Result<usize, ReleasaurusError>)
    ensures
        match spec_find_metadata(parsed@, name@) {
            Ok(Some(i)) => r matches Ok(k) && k == i,
            Ok(None) => r matches Err(e) && e@ == ErrorView::Other(
                "failed to find metadata for package "@ + name@ + " in pr "@ + crate::text::decimal(pr_number as nat),
            ),
            Err(e) => r matches Err(x) && x@ == e,
        },
{
    let mut i: usize = 0;
    assert(parsed@.subrange(0, parsed@.len() as int) =~= parsed@);
    while i < parsed.len()
        invariant
            i <= parsed@.len(),
            spec_find_metadata(parsed@, name@) == match spec_find_metadata(parsed@.subrange(i as int, parsed@.len() as int), name@) {
                Ok(Some(k)) => Ok::<Option<int>, ErrorView>(Some(k + i)),
                other => other,
            },
        decreases parsed.len() - i,
    {
        let ghost rest = parsed@.subrange(i as int, parsed@.len() as int);
        assert(rest[0] == parsed@[i as int]);
        assert(rest.drop_first() =~= parsed@.subrange(i + 1, parsed@.len() as int));
        match &parsed[i] {
            Err(m) => {
                return Err(ReleasaurusError::JsonParseError(m.clone()));
            },
            Ok(f) => {
                if str_eq(f.name.as_str(), name) {
                    return Ok(i);
                }
            },
        }
        i = i + 1;
    }
    assert(parsed@.subrange(parsed@.len() as int, parsed@.len() as int) =~= Seq::<Result<PRMetadataFields, String>>::empty());
    let a = concat("failed to find metadata for package ", name);
    let b = concat(a.as_str(), " in pr ");
    let n = crate::text::u64_to_string(pr_number);
    Err(ReleasaurusError::Other(concat(b.as_str(), n.as_str())))
}

/// The commit that starts the next release of packages: a fix touching a
/// file in each package, so that each gets a patch increment.
pub fn start_next_commit(packages: &Vec<PackageConfig>, timestamp: i64) -> (r: ForgeCommit)
    ensures
        start_commit(r, packages@, timestamp),
{
    let mut files: Vec<String> = Vec::new();
    let mut i: usize = 0;
    while i < packages.len()
        invariant
            i <= packages@.len(),
            files@.len() == i,
            forall|j: int| 0 <= j < i ==> (#[trigger] files@[j])@
                == spec_package_path(packages@[j].workspace_root@, packages@[j].path@, Some("dummy.txt"@)),
        decreases packages.len() - i,
    {
        files.push(package_path(&packages[i], Some("dummy.txt")));
        i = i + 1;
    }
    ForgeCommit {
        id: "dummy".to_owned(),
        short_id: "dummy".to_owned(),
        link: String::new(),
        author_name: String::new(),
        author_email: String::new(),
        merge_commit: false,
        message: "fix: dummy commit".to_owned(),
        timestamp,
        files,
    }
}

/// The message of the commit that bumps a package's patch version.
pub open spec fn bump_message(base_branch: Seq<char>, package_name: Seq<char>, version: SpecVersion) -> Seq<char> {
    "chore("@ + base_branch + "): bump patch version "@ + package_name + " - "@ + version_text(version)
}

/// `c` is the commit that starts the next release of `packages` at
/// `timestamp`: a fix touching a file in each package.
pub open spec fn start_commit(c: ForgeCommit, packages: Seq<PackageConfig>, timestamp: i64) -> bool {
    &&& c.id@ == "dummy"@
    &&& c.short_id@ == "dummy"@
    &&& c.link@.len() == 0
    &&& c.author_name@.len() == 0
    &&& c.author_email@.len() == 0
    &&& c.message@ == "fix: dummy commit"@
    &&& c.timestamp == timestamp
    &&& !c.merge_commit
    &&& c.files@.len() == packages.len()
    &&& forall|i: int| 0 <= i < packages.len() ==> (#[trigger] c.files@[i])@
        == spec_package_path(packages[i].workspace_root@, packages[i].path@, Some("dummy.txt"@))
}

/// The message of the commit that bumps a package's patch version.
pub fn bump_patch_message(base_branch: &str, package_name: &str, version: &Version) -> (r: String)
    ensures
        r@ == bump_message(base_branch@, package_name@, version@),
{
    let a = concat("chore(", base_branch);
    let b = concat(a.as_str(), "): bump patch version ");
    let c = concat(b.as_str(), package_name);
    let d = concat(c.as_str(), " - ");
    let v = version.to_text();
    concat(d.as_str(), v.as_str())
}

/// Whether `name` is one of `names`.
pub open spec fn named_in(name: Seq<char>, names: Seq<String>) -> bool {
    exists|i: int| 0 <= i < names.len() && (#[trigger] names[i])@ == name
}

/// The positions of the packages named in `names`, in package order.
pub fn select_packages(packages: &Vec<PackageConfig>, names: &Vec<String>) -> (r: Vec<usize>)
    ensures
        forall|k: int| 0 <= k < r@.len() ==> r@[k] < packages@.len() && named_in(packages@[r@[k] as int].name@, names@),
        forall|k: int, l: int| 0 <= k < l < r@.len() ==> r@[k] < r@[l],
        forall|i: int| 0 <= i < packages@.len() && named_in(packages@[i].name@, names@) ==> r@.contains(i as usize),
{
    let mut out: Vec<usize> = Vec::new();
    let mut i: usize = 0;
    while i < packages.len()
        invariant
            i <= packages@.len(),
            forall|k: int| 0 <= k < out@.len() ==> out@[k] < i && named_in(packages@[out@[k] as int].name@, names@),
            forall|k: int, l: int| 0 <= k < l < out@.len() ==> out@[k] < out@[l],
            forall|j: int| 0 <= j < i && named_in(packages@[j].name@, names@) ==> out@.contains(j as usize),
        decreases packages.len() - i,
    {
        let mut found = false;
        let mut j: usize = 0;
        while j < names.len()
            invariant
                j <= names@.len(),
                i < packages@.len(),
                found ==> named_in(packages@[i as int].name@, names@),
                !found ==> forall|m: int| 0 <= m < j ==> (#[trigger] names@[m])@ != packages@[i as int].name@,
            decreases names.len() - j,
        {
            if !found && str_eq(names[j].as_str(), packages[i].name.as_str()) {
                found = true;
            }
            j = j + 1;
        }
        if found {
            let ghost before = out@;
            out.push(i);
            assert forall|j2: int| 0 <= j2 <= i && named_in(packages@[j2].name@, names@) implies out@.contains(j2 as usize) by {
                if j2 < i {
                    assert(before.contains(j2 as usize));
                    let w = choose|w: int| 0 <= w < before.len() && before[w] == j2 as usize;
                    assert(out@[w] == j2 as usize);
                } else {
                    assert(out@[out@.len() - 1] == i);
                }
            }
        }
        i = i + 1;
    }
    out
}

/// Whether every package's current tag is dated after `timestamp`.
pub open spec fn tagged_after(tags: Seq<Option<Tag>>, timestamp: i64) -> bool {
    forall|i: int| 0 <= i < tags.len() ==> (#[trigger] tag_timestamp(tags[i]) matches Some(ts) && timestamp < ts)
}

/// The start of the next release of `packages`: the releasable packages
/// for a commit that touches every package (so that each gets a patch
/// increment), with the message of each package's bump commit, the
/// manifest files being found by `loader` on `base_branch`. The packages'
/// plans for that commit end the call as they end
/// [`get_releasable_packages_for_commits`].
pub fn start_next_release<L: FileLoader>(
    packages: &Vec<PackageConfig>,
    current_tags: Vec<Option<Tag>>,
    loader: &L,
    base_branch: &str,
    timestamp: i64,
) -> (r: Result<(ForgeCommit, Vec<ReleasablePackage>, Vec<String>), ReleasaurusError>)
    requires
        current_tags@.len() == packages@.len(),
        forall|i: int| 0 <= i < current_tags@.len() ==> (#[trigger] current_tags@[i] matches Some(t)
            ==> crate::version::well_formed(t.semver@) && crate::strategy::increment_safe(t.semver@)),
    ensures
        r matches Ok((c, pkgs, msgs)) ==> {
            &&& start_commit(c, packages@, timestamp)
            &&& exists|rels: Seq<Option<Release>>, idx: Seq<int>|
                #[trigger] releasable_selection(packages@, current_tags@, seq![c], rels, idx, pkgs@)
            &&& msgs@.len() == pkgs@.len()
            &&& forall|k: int| 0 <= k < msgs@.len() ==> (#[trigger] msgs@[k])@
                == bump_message(base_branch@, pkgs@[k].name@, (*pkgs@[k].release).tag.semver@)
        },
        tagged_after(current_tags@, timestamp) ==> (r matches Ok((c, pkgs, msgs)) && pkgs@.len() == 0 && msgs@.len() == 0),
        forall|c: ForgeCommit| #[trigger] start_commit(c, packages@, timestamp) ==> {
            &&& plan_stop(packages@, current_tags@, seq![c], 0) is Clean ==> r is Ok
            &&& plan_stop(packages@, current_tags@, seq![c], 0) matches PlanStop::Fails(e) ==> (r matches Err(x) && x@ == e)
        },
{
    let commit = start_next_commit(packages, timestamp);
    proof {
        assert forall|c: ForgeCommit| #[trigger] start_commit(c, packages@, timestamp) implies
            plan_stop(packages@, current_tags@, seq![c], 0) == plan_stop(packages@, current_tags@, seq![commit], 0) by {
            assert(same_forge_commit(c, commit)) by {
                assert(c.link@ =~= commit.link@);
                assert(c.author_name@ =~= commit.author_name@);
                assert(c.author_email@ =~= commit.author_email@);
                assert forall|i: int| 0 <= i < c.files@.len() implies (#[trigger] c.files@[i])@ == commit.files@[i]@ by {
                    assert(c.files@[i]@ == spec_package_path(packages@[i].workspace_root@, packages@[i].path@, Some("dummy.txt"@)));
                }
            }
            assert(same_commits(seq![c], seq![commit]));
            lemma_plan_stop_same(packages@, current_tags@, seq![c], seq![commit], 0);
        }
    }
    let mut commits: Vec<ForgeCommit> = Vec::new();
    commits.push(commit);
    assert(commits@ == seq![commit]);
    proof {
        if tagged_after(current_tags@, timestamp) {
            assert(seq![commit].drop_last() =~= Seq::<ForgeCommit>::empty());
            assert forall|i: int| 0 <= i < packages@.len() implies (#[trigger] package_commits(
                commits@,
                package_paths(packages@[i]),
                tag_timestamp(current_tags@[i]),
            )).len() == 0 by {
                assert(tag_timestamp(current_tags@[i]) matches Some(ts) && timestamp < ts);
                assert(!commit_in_package(commit, package_paths(packages@[i]), tag_timestamp(current_tags@[i])));
                assert(commits@.drop_last() =~= Seq::<ForgeCommit>::empty());
                assert(commits@.last() == commit);
                assert(package_commits(commits@.drop_last(), package_paths(packages@[i]), tag_timestamp(current_tags@[i])).len() == 0);
            }
            assert(untouched(packages@, current_tags@, commits@));
        }
    }
    let releasable = get_releasable_packages_for_commits(packages, current_tags, &commits, loader, base_branch)?;
    let mut messages: Vec<String> = Vec::new();
    let mut k: usize = 0;
    while k < releasable.len()
        invariant
            k <= releasable@.len(),
            messages@.len() == k,
            forall|j: int| 0 <= j < k ==> (#[trigger] messages@[j])@
                == bump_message(base_branch@, releasable@[j].name@, (*releasable@[j].release).tag.semver@),
        decreases releasable.len() - k,
    {
        let p = &releasable[k];
        messages.push(bump_patch_message(base_branch, p.name.as_str(), &p.release.tag.semver));
        k = k + 1;
    }
    let ghost planned_commits = commits@;
    let commit = commits.remove(0);
    assert(planned_commits == seq![commit]);
    let r: Result<(ForgeCommit, Vec<ReleasablePackage>, Vec<String>), ReleasaurusError> = Ok((commit, releasable, messages));
    assert(r matches Ok((c, p, m)) && c == commit && p@ == releasable@ && m@ == messages@);
    r
}

} // verus!
