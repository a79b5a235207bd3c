//! Which commits belong to which package, and where the commits of all
//! packages are read from.

use vstd::prelude::*;

use crate::config::{strings_view, PackageConfig, ReleaseType, SubPackage};
use crate::forge::{same_commit, same_forge_commit, ForgeCommit};
use crate::error::{ErrorView, ReleasaurusError};
use crate::manifest::{
    additional_manifest_targets, additional_targets, found_in, load_manifest_targets, release_type_manifest_targets,
    release_type_targets, targets_view, type_targets, FileLoader, ManifestFile,
};
use crate::paths::{path_join, path_starts_with, replace_all, join_path, replace_str, starts_with_path};
use crate::release::{Release, Tag};
use crate::text::str_eq;

verus! {

/// A path with `\` separators turned into `/` and every `./` removed.
pub open spec fn normalized(p: Seq<char>) -> Seq<char> {
    replace_all(replace_all(p, seq!['\\'], seq!['/']), seq!['.', '/'], Seq::empty())
}

/// A path with `\` separators turned into `/` and every `./` removed.
pub fn normalize_path(p: &str) -> (r: String)
    ensures
        r@ == normalized(p@),
{
    let backslash = crate::text::string_of_range(&['\\'], 0, 1);
    let slash = crate::text::string_of_range(&['/'], 0, 1);
    let dot_slash = crate::text::string_of_range(&['.', '/'], 0, 2);
    assert(backslash@ =~= seq!['\\']);
    assert(slash@ =~= seq!['/']);
    assert(dot_slash@ =~= seq!['.', '/']);
    let forward = replace_str(p, backslash.as_str(), slash.as_str());
    let nothing = String::new();
    replace_str(forward.as_str(), dot_slash.as_str(), nothing.as_str())
}

/// The repository path of a package, or of a file in it.
pub open spec fn spec_package_path(workspace_root: Seq<char>, path: Seq<char>, file: Option<Seq<char>>) -> Seq<char> {
    let dir = path_join(workspace_root, path);
    normalized(
        match file {
            Some(f) => path_join(dir, f),
            None => dir,
        },
    )
}

/// The repository path of a package, or of `file` in it.
pub fn package_path(package: &PackageConfig, file: Option<&str>) -> (r: String)
    ensures
        r@ == spec_package_path(
            package.workspace_root@,
            package.path@,
            match file {
                Some(f) => Some(f@),
                None => None,
            },
        ),
{
    let dir = join_path(package.workspace_root.as_str(), package.path.as_str());
    match file {
        Some(f) => {
            let full = join_path(dir.as_str(), f);
            normalize_path(full.as_str())
        },
        None => normalize_path(dir.as_str()),
    }
}

/// The paths whose commits belong to a package: its own path and its
/// additional paths.
pub open spec fn package_paths(package: PackageConfig) -> Seq<Seq<char>> {
    seq![spec_package_path(package.workspace_root@, package.path@, None)] + match package.additional_paths {
        Some(v) => strings_view(v@),
        None => Seq::empty(),
    }
}

/// The prefix a file path is matched against for a package path: nothing
/// for `.`, the normalized path otherwise.
pub open spec fn match_base(p: Seq<char>) -> Seq<char> {
    if p == seq!['.'] {
        Seq::empty()
    } else {
        normalized(p)
    }
}

/// Whether a file lies under one of the paths.
pub open spec fn file_in_paths(file: Seq<char>, paths: Seq<Seq<char>>) -> bool {
    exists|j: int| 0 <= j < paths.len() && path_starts_with(file, match_base(#[trigger] paths[j]))
}

/// Whether a commit belongs to a package: it is not older than the
/// package's current tag and touches a file under one of its paths.
pub open spec fn commit_in_package(c: ForgeCommit, paths: Seq<Seq<char>>, tag_timestamp: Option<i64>) -> bool {
    &&& !(tag_timestamp matches Some(ts) && c.timestamp < ts)
    &&& exists|k: int| 0 <= k < c.files@.len() && file_in_paths((#[trigger] c.files@[k])@, paths)
}

/// The commits of `cs` that belong to a package, in order.
pub open spec fn package_commits(cs: Seq<ForgeCommit>, paths: Seq<Seq<char>>, tag_timestamp: Option<i64>) -> Seq<ForgeCommit>
    decreases cs.len(),
{
    if cs.len() == 0 {
        Seq::empty()
    } else {
        let prev = package_commits(cs.drop_last(), paths, tag_timestamp);
        if commit_in_package(cs.last(), paths, tag_timestamp) {
            prev.push(cs.last())
        } else {
            prev
        }
    }
}

/// The timestamp of an optional tag.
pub open spec fn tag_timestamp(tag: Option<Tag>) -> Option<i64> {
    match tag {
        Some(t) => t.timestamp,
        None => None,
    }
}

/// Whether `file` lies under one of the match bases.
fn file_under(file: &str, bases: &Vec<String>, paths: Ghost<Seq<Seq<char>>>) -> (r: bool)
    requires
        bases@.len() == paths@.len(),
        forall|j: int| 0 <= j < bases@.len() ==> (#[trigger] bases@[j])@ == match_base(paths@[j]),
    ensures
        r == file_in_paths(file@, paths@),
{
    let mut j: usize = 0;
    while j < bases.len()
        invariant
            j <= bases@.len(),
            bases@.len() == paths@.len(),
            forall|i: int| 0 <= i < bases@.len() ==> (#[trigger] bases@[i])@ == match_base(paths@[i]),
            forall|i: int| 0 <= i < j ==> !path_starts_with(file@, match_base(#[trigger] paths@[i])),
        decreases bases.len() - j,
    {
        if starts_with_path(file, bases[j].as_str()) {
            assert(path_starts_with(file@, match_base(paths@[j as int])));
            return true;
        }
        j = j + 1;
    }
    false
}

/// Whether a commit touches a file under one of the match bases.
fn touches(c: &ForgeCommit, bases: &Vec<String>, paths: Ghost<Seq<Seq<char>>>) -> (r: bool)
    requires
        bases@.len() == paths@.len(),
        forall|j: int| 0 <= j < bases@.len() ==> (#[trigger] bases@[j])@ == match_base(paths@[j]),
    ensures
        r == exists|k: int| 0 <= k < c.files@.len() && file_in_paths((#[trigger] c.files@[k])@, paths@),
{
    let mut k: usize = 0;
    while k < c.files.len()
        invariant
            k <= c.files@.len(),
            bases@.len() == paths@.len(),
            forall|j: int| 0 <= j < bases@.len() ==> (#[trigger] bases@[j])@ == match_base(paths@[j]),
            forall|i: int| 0 <= i < k ==> !file_in_paths((#[trigger] c.files@[i])@, paths@),
        decreases c.files.len() - k,
    {
        if file_under(c.files[k].as_str(), bases, paths) {
            return true;
        }
        k = k + 1;
    }
    false
}

/// The prefix a file path is matched against for a package path.
fn match_base_of(p: &str) -> (r: String)
    ensures
        r@ == match_base(p@),
{
    let v = crate::text::chars_of(p);
    if v.len() == 1 && v[0] == '.' {
        assert(p@ =~= seq!['.']);
        String::new()
    } else {
        assert(p@ != seq!['.']) by {
            if p@ == seq!['.'] {
                assert(v@.len() == 1);
            }
        }
        normalize_path(p)
    }
}

/// The commits that belong to a package: those not older than its current
/// tag that touch a file under its path or one of its additional paths, in
/// their order.
pub fn filter_commits_for_package(package: &PackageConfig, tag: Option<&Tag>, commits: &[ForgeCommit]) -> (r: Vec<ForgeCommit>)
    ensures
        ({
            let pc = package_commits(
                commits@,
                package_paths(*package),
                match tag {
                    Some(t) => t.timestamp,
                    None => None,
                },
            );
            &&& r@.len() == pc.len()
            &&& forall|i: int| 0 <= i < pc.len() ==> same_forge_commit(#[trigger] r@[i], pc[i])
        }),
{
    let ghost paths = package_paths(*package);
    let ghost ts: Option<i64> = match tag {
        Some(t) => t.timestamp,
        None => None,
    };
    let own = package_path(package, None);
    let mut bases: Vec<String> = Vec::new();
    bases.push(match_base_of(own.as_str()));
    match &package.additional_paths {
        Some(extra) => {
            let mut j: usize = 0;
            while j < extra.len()
                invariant
                    j <= extra@.len(),
                    package.additional_paths == Some(*extra),
                    paths == package_paths(*package),
                    bases@.len() == j + 1,
                    forall|i: int| 0 <= i < bases@.len() ==> (#[trigger] bases@[i])@ == match_base(paths[i]),
                decreases extra.len() - j,
            {
                assert(paths[j + 1] == extra@[j as int]@);
                bases.push(match_base_of(extra[j].as_str()));
                j = j + 1;
            }
        },
        None => {},
    }
    assert(bases@.len() == paths.len());
    let mut out: Vec<ForgeCommit> = Vec::new();
    let mut i: usize = 0;
    assert(commits@.take(0) =~= Seq::<ForgeCommit>::empty());
    while i < commits.len()
        invariant
            i <= commits@.len(),
            bases@.len() == paths.len(),
            forall|j: int| 0 <= j < bases@.len() ==> (#[trigger] bases@[j])@ == match_base(paths[j]),
            ts == match tag {
                Some(t) => t.timestamp,
                None => None::<i64>,
            },
            out@.len() == package_commits(commits@.take(i as int), paths, ts).len(),
            forall|j: int| 0 <= j < out@.len() ==> same_forge_commit(#[trigger] out@[j], package_commits(commits@.take(i as int), paths, ts)[j]),
        decreases commits.len() - i,
    {
        let c = &commits[i];
        assert(commits@.take(i + 1).drop_last() =~= commits@.take(i as int));
        assert(commits@.take(i + 1).last() == *c);
        let too_old = match tag {
            Some(t) => match t.timestamp {
                Some(tts) => c.timestamp < tts,
                None => false,
            },
            None => false,
        };
        if !too_old && touches(c, &bases, Ghost(paths)) {
            out.push(c.duplicate());
        }
        i = i + 1;
    }
    assert(commits@.take(commits@.len() as int) =~= commits@);
    out
}

/// Where the commits of all packages are read from.
pub enum CommitStart {
    /// From the tag commit with this SHA onwards, for all packages at once.
    FromSha(String),
    /// Separately for each package, from its own tag.
    PerPackage,
}

/// The oldest tag timestamp seen so far and its SHA, or `None` once an
/// untagged package (or a tag without timestamp) is seen.
pub open spec fn start_state(tags: Seq<Option<Tag>>) -> Option<(i64, Option<Seq<char>>)>
    decreases tags.len(),
{
    if tags.len() == 0 {
        Some((i64::MAX, None))
    } else {
        match start_state(tags.drop_last()) {
            None => None,
            Some((oldest, sha)) => match tags.last() {
                Some(t) => match t.timestamp {
                    Some(ts) => if ts < oldest {
                        Some((ts, Some(t.sha@)))
                    } else {
                        Some((oldest, sha))
                    },
                    None => None,
                },
                None => None,
            },
        }
    }
}

/// The SHA all packages' commits are read from, if there is one: the SHA of
/// the oldest of the packages' current tags, when every package has a tag
/// with a timestamp.
pub open spec fn spec_commit_start(tags: Seq<Option<Tag>>) -> Option<Seq<char>> {
    match start_state(tags) {
        Some((_, Some(sha))) => Some(sha),
        _ => None,
    }
}

/// Where the commits of all packages are read from, given each package's
/// current tag in order.
pub fn commit_start(tags: &Vec<Option<Tag>>) -> (r: CommitStart)
    ensures
        match r {
            CommitStart::FromSha(sha) => spec_commit_start(tags@) == Some(sha@),
            CommitStart::PerPackage => spec_commit_start(tags@) is None,
        },
{
    let mut oldest: i64 = i64::MAX;
    let mut start: Option<String> = None;
    let mut i: usize = 0;
    assert(tags@.take(0) =~= Seq::<Option<Tag>>::empty());
    while i < tags.len()
        invariant
            i <= tags@.len(),
            start_state(tags@.take(i as int)) == Some((oldest, crate::config::opt_view(start))),
        decreases tags.len() - i,
    {
        assert(tags@.take(i + 1).drop_last() =~= tags@.take(i as int));
        assert(tags@.take(i + 1).last() == tags@[i as int]);
        match &tags[i] {
            Some(t) => match t.timestamp {
                Some(ts) => {
                    if ts < oldest {
                        oldest = ts;
                        start = Some(t.sha.clone());
                    }
                },
                None => {
                    proof { lemma_start_state_stays_none(tags@, i as int + 1); }
                    return CommitStart::PerPackage;
                },
            },
            None => {
                proof { lemma_start_state_stays_none(tags@, i as int + 1); }
                return CommitStart::PerPackage;
            },
        }
        i = i + 1;
    }
    assert(tags@.take(tags@.len() as int) =~= tags@);
    match start {
        Some(sha) => CommitStart::FromSha(sha),
        None => CommitStart::PerPackage,
    }
}

/// Once the state is gone for a prefix, it stays gone.
proof fn lemma_start_state_stays_none(tags: Seq<Option<Tag>>, n: int)
    requires
        0 <= n <= tags.len(),
        start_state(tags.take(n)) is None,
    ensures
        start_state(tags) is None,
    decreases tags.len() - n,
{
    if n < tags.len() {
        assert(tags.take(n + 1).drop_last() =~= tags.take(n));
        lemma_start_state_stays_none(tags, n + 1);
    } else {
        assert(tags.take(n) =~= tags);
    }
}

/// A package that is part of another package's release.
#[derive(Debug)]
pub struct ReleasableSubPackage {
    /// Name of the sub-package.
    pub name: String,
    /// Path relative to the parent's workspace root.
    pub path: String,
    /// Kind of manifest files to update.
    pub release_type: ReleaseType,
    /// Manifest files of its release type.
    pub manifest_files: Option<Vec<ManifestFile>>,
}

/// A package with a release to make.
#[derive(Debug)]
pub struct ReleasablePackage {
    /// Name of the package.
    pub name: String,
    /// Path relative to the workspace root.
    pub path: String,
    /// Workspace root relative to the repository root.
    pub workspace_root: String,
    /// Packages released together with this one.
    pub sub_packages: Vec<ReleasableSubPackage>,
    /// Kind of manifest files to update.
    pub release_type: ReleaseType,
    /// The release to make, shared with the package's sub-packages.
    pub release: std::rc::Rc<Release>,
    /// Manifest files of its release type.
    pub manifest_files: Option<Vec<ManifestFile>>,
    /// Additional generic manifest files.
    pub additional_manifest_files: Option<Vec<ManifestFile>>,
}


/// `r` is the planned release of `package` from `current_tag` and the
/// commits of all packages: none when no commit belongs to the package,
/// otherwise the analysis of (copies of) its own commits.
pub open spec fn planned(
    package: PackageConfig,
    current_tag: Option<Tag>,
    commits: Seq<ForgeCommit>,
    r: Result<Option<Release>, crate::error::ReleasaurusError>,
) -> bool {
    let pc = package_commits(commits, package_paths(package), tag_timestamp(current_tag));
    &&& (pc.len() == 0 ==> r matches Ok(None))
    &&& (pc.len() > 0 ==> exists|f: Seq<ForgeCommit>|
        #![trigger crate::analyzer::analyzed(package.analyzer_config, f, current_tag, r)]
        f.len() == pc.len()
        && (forall|i: int| 0 <= i < pc.len() ==> same_forge_commit(#[trigger] f[i], pc[i]))
        && crate::analyzer::analyzed(package.analyzer_config, f, current_tag, r))
}

/// The release a package gets from the commits of all packages: none when
/// no commit belongs to it, otherwise the analysis of its own commits (the
/// ones [`filter_commits_for_package`] keeps) from its current tag with its
/// analysis settings.
pub fn plan_package_release(
    package: &PackageConfig,
    current_tag: Option<Tag>,
    commits: &[ForgeCommit],
) -> (r: Result<Option<Release>, crate::error::ReleasaurusError>)
    requires
        current_tag matches Some(t) ==> crate::version::well_formed(t.semver@) && crate::strategy::increment_safe(t.semver@),
    ensures
        planned(*package, current_tag, commits@, r),
{
    let own = filter_commits_for_package(
        package,
        match &current_tag {
            Some(t) => Some(t),
            None => None,
        },
        commits,
    );
    if own.len() == 0 {
        return Ok(None);
    }
    let ghost f = own@;
    let analyzer = match crate::analyzer::Analyzer::new(&package.analyzer_config) {
        Ok(a) => a,
        Err(e) => {
            return Err(e);
        },
    };
    let r = analyzer.analyze(own, current_tag);
    assert(crate::analyzer::analyzed(package.analyzer_config, f, current_tag, r));
    r
}

/// The release type a package is released as: its own, generic when unset.
pub open spec fn effective_type(t: Option<ReleaseType>) -> ReleaseType {
    match t {
        Some(x) => x,
        None => ReleaseType::Generic,
    }
}

/// The sub-packages a package configuration lists.
pub open spec fn subs_of(package: PackageConfig) -> Seq<SubPackage> {
    match package.sub_packages {
        Some(v) => v@,
        None => Seq::empty(),
    }
}

/// `sp` is `sub` of `package`, with the manifest files of its release type
/// found under the package's workspace root.
pub open spec fn releasable_sub(package: PackageConfig, sub: SubPackage, sp: ReleasableSubPackage) -> bool {
    &&& sp.name@ == sub.name@
    &&& sp.path@ == sub.path@
    &&& sp.release_type == effective_type(sub.release_type)
    &&& found_in(sp.manifest_files, type_targets(sub.release_type, package.workspace_root@, sub.path@, sub.name@))
}

/// `rp` is `package` with `release`, the manifest files of its release
/// type, its additional manifest files and its sub-packages.
pub open spec fn releasable_from(package: PackageConfig, release: Release, rp: ReleasablePackage) -> bool {
    &&& rp.name@ == package.name@
    &&& rp.path@ == package.path@
    &&& rp.workspace_root@ == package.workspace_root@
    &&& rp.release_type == effective_type(package.release_type)
    &&& *rp.release == release
    &&& found_in(rp.manifest_files, release_type_targets(package))
    &&& (additional_targets(package) matches Ok(t) && found_in(rp.additional_manifest_files, t))
    &&& rp.sub_packages@.len() == subs_of(package).len()
    &&& forall|j: int| 0 <= j < subs_of(package).len() ==> releasable_sub(package, subs_of(package)[j], #[trigger] rp.sub_packages@[j])
}

/// `out` lists, in package order, the packages whose planned release (one
/// of `rels`, each package's plan from its tag and `commits`) is a release,
/// `idx` giving each one's position among `packages`.
pub open spec fn releasable_selection(
    packages: Seq<PackageConfig>,
    tags: Seq<Option<Tag>>,
    commits: Seq<ForgeCommit>,
    rels: Seq<Option<Release>>,
    idx: Seq<int>,
    out: Seq<ReleasablePackage>,
) -> bool {
    &&& rels.len() == packages.len()
    &&& idx.len() == out.len()
    &&& forall|i: int| 0 <= i < packages.len() ==> planned(packages[i], tags[i], commits, Ok(#[trigger] rels[i]))
    &&& forall|k: int| 0 <= k < out.len() ==> {
        &&& 0 <= #[trigger] idx[k] < packages.len()
        &&& rels[idx[k]] == Some(*out[k].release)
        &&& releasable_from(packages[idx[k]], *out[k].release, out[k])
    }
    &&& forall|k: int, l: int| 0 <= k < l < idx.len() ==> #[trigger] idx[k] < #[trigger] idx[l]
    &&& forall|i: int| 0 <= i < rels.len() && (#[trigger] rels[i]) is Some ==> exists|k: int| 0 <= k < idx.len() && idx[k] == i
}

/// Whether no sub-package of `package` has a release type whose manifest
/// files are looked for, so that nothing is loaded for them.
pub open spec fn no_sub_targets(package: PackageConfig) -> bool {
    forall|j: int| 0 <= j < subs_of(package).len() ==> (#[trigger] type_targets(
        subs_of(package)[j].release_type,
        package.workspace_root@,
        subs_of(package)[j].path@,
        subs_of(package)[j].name@,
    )).len() == 0
}

/// Whether no commit belongs to any of `packages` since its tag.
pub open spec fn untouched(packages: Seq<PackageConfig>, tags: Seq<Option<Tag>>, commits: Seq<ForgeCommit>) -> bool {
    forall|i: int| 0 <= i < packages.len()
        ==> (#[trigger] package_commits(commits, package_paths(packages[i]), tag_timestamp(tags[i]))).len() == 0
}

/// The version a package's current tag carries, if it has one.
pub open spec fn tag_version(tag: Option<Tag>) -> Option<crate::version::SpecVersion> {
    match tag {
        Some(t) => Some(t.semver@),
        None => None,
    }
}

/// The messages a package's analysis works on: those of its own commits
/// that its configuration keeps, after rewording, oldest first.
pub open spec fn plan_messages(package: PackageConfig, tag: Option<Tag>, commits: Seq<ForgeCommit>) -> Seq<Seq<char>> {
    crate::analyzer::kept_messages(crate::analyzer::kept_commits(
        package_commits(commits, package_paths(package), tag_timestamp(tag)),
        package.analyzer_config,
    ))
}

/// The next version a package's plan finds.
pub open spec fn plan_next(package: PackageConfig, tag: Option<Tag>, commits: Seq<ForgeCommit>) -> Option<crate::version::SpecVersion> {
    crate::analyzer::spec_config_next(package.analyzer_config, tag_version(tag), plan_messages(package, tag, commits))
}

/// Whether a package's plan fails: it keeps commits but finds no next
/// version.
pub open spec fn plan_fails(package: PackageConfig, tag: Option<Tag>, commits: Seq<ForgeCommit>) -> bool {
    plan_messages(package, tag, commits).len() > 0 && plan_next(package, tag, commits) is None
}

/// Whether a package's plan gives a release.
pub open spec fn plan_releases(package: PackageConfig, tag: Option<Tag>, commits: Seq<ForgeCommit>) -> bool {
    plan_messages(package, tag, commits).len() > 0 && plan_next(package, tag, commits) is Some
}

/// The error of a failing plan.
pub open spec fn plan_error(package: PackageConfig, tag: Option<Tag>, commits: Seq<ForgeCommit>) -> ErrorView {
    crate::analyzer::spec_config_error(package.analyzer_config, tag_version(tag), plan_messages(package, tag, commits))
}

/// Whether a package with a release has manifest files to look for: those
/// of its release type, additional ones, or those of a sub-package.
pub open spec fn has_loads(package: PackageConfig) -> bool {
    ||| release_type_targets(package).len() > 0
    ||| (additional_targets(package) matches Ok(t) && t.len() > 0)
    ||| !no_sub_targets(package)
}

/// How the packages from position `i` on are gone through before any file
/// is loaded.
pub enum PlanStop {
    /// Every plan succeeds and nothing is loaded.
    Clean,
    /// A plan, or the additional manifest targets of a package with a
    /// release, fail with this error first.
    Fails(ErrorView),
    /// A package with a release has manifest files to load first.
    Loads,
}

/// How the packages from position `i` on are gone through, in order, until
/// the first failure or the first package with files to load.
pub open spec fn plan_stop(packages: Seq<PackageConfig>, tags: Seq<Option<Tag>>, commits: Seq<ForgeCommit>, i: int) -> PlanStop
    decreases packages.len() - i,
{
    if i < 0 || i >= packages.len() {
        PlanStop::Clean
    } else if plan_fails(packages[i], tags[i], commits) {
        PlanStop::Fails(plan_error(packages[i], tags[i], commits))
    } else if plan_releases(packages[i], tags[i], commits) {
        match additional_targets(packages[i]) {
            Err(e) => PlanStop::Fails(e),
            Ok(_) => if has_loads(packages[i]) {
                PlanStop::Loads
            } else {
                plan_stop(packages, tags, commits, i + 1)
            },
        }
    } else {
        plan_stop(packages, tags, commits, i + 1)
    }
}

/// Whether no package's plan fails or gives a release.
pub open spec fn nothing_planned(packages: Seq<PackageConfig>, tags: Seq<Option<Tag>>, commits: Seq<ForgeCommit>) -> bool {
    forall|i: int| 0 <= i < packages.len() ==> !plan_fails(packages[i], tags[i], commits)
        && !(#[trigger] plan_releases(packages[i], tags[i], commits))
}

/// Whether every forge commit of `a` has the content of the one at the same
/// position of `b`.
pub open spec fn same_commits(a: Seq<ForgeCommit>, b: Seq<ForgeCommit>) -> bool {
    a.len() == b.len() && forall|i: int| 0 <= i < a.len() ==> same_forge_commit(#[trigger] a[i], b[i])
}

proof fn lemma_package_commits_same(a: Seq<ForgeCommit>, b: Seq<ForgeCommit>, paths: Seq<Seq<char>>, ts: Option<i64>)
    requires
        same_commits(a, b),
    ensures
        same_commits(package_commits(a, paths, ts), package_commits(b, paths, ts)),
    decreases a.len(),
{
    if a.len() > 0 {
        assert(same_commits(a.drop_last(), b.drop_last())) by {
            assert forall|i: int| 0 <= i < a.drop_last().len() implies same_forge_commit(
                #[trigger] a.drop_last()[i], b.drop_last()[i]) by {
                assert(same_forge_commit(a[i], b[i]));
            }
        }
        lemma_package_commits_same(a.drop_last(), b.drop_last(), paths, ts);
        let x = a.last();
        let y = b.last();
        assert(same_forge_commit(x, y)) by {
            assert(same_forge_commit(a[a.len() - 1], b[a.len() - 1]));
        }
        if commit_in_package(x, paths, ts) {
            let k = choose|k: int| 0 <= k < x.files@.len() && file_in_paths((#[trigger] x.files@[k])@, paths);
            assert(file_in_paths(y.files@[k]@, paths));
        }
        if commit_in_package(y, paths, ts) {
            let k = choose|k: int| 0 <= k < y.files@.len() && file_in_paths((#[trigger] y.files@[k])@, paths);
            assert(file_in_paths(x.files@[k]@, paths));
        }
        let pa = package_commits(a.drop_last(), paths, ts);
        let pb = package_commits(b.drop_last(), paths, ts);
        if commit_in_package(x, paths, ts) {
            assert forall|i: int| 0 <= i < pa.push(x).len() implies same_forge_commit(
                #[trigger] pa.push(x)[i], pb.push(y)[i]) by {
                if i < pa.len() {
                    assert(same_forge_commit(pa[i], pb[i]));
                }
            }
        }
    }
}

proof fn lemma_kept_messages_same(a: Seq<ForgeCommit>, b: Seq<ForgeCommit>, config: crate::analyzer_config::AnalyzerConfig)
    requires
        same_commits(a, b),
    ensures
        crate::analyzer::kept_commits(a, config).len() == crate::analyzer::kept_commits(b, config).len(),
        crate::analyzer::kept_messages(crate::analyzer::kept_commits(a, config))
            == crate::analyzer::kept_messages(crate::analyzer::kept_commits(b, config)),
    decreases a.len(),
{
    if a.len() > 0 {
        assert(same_commits(a.drop_last(), b.drop_last())) by {
            assert forall|i: int| 0 <= i < a.drop_last().len() implies same_forge_commit(
                #[trigger] a.drop_last()[i], b.drop_last()[i]) by {
                assert(same_forge_commit(a[i], b[i]));
            }
        }
        lemma_kept_messages_same(a.drop_last(), b.drop_last(), config);
        assert(same_forge_commit(a[a.len() - 1], b[a.len() - 1]));
        let ka = crate::analyzer::kept_commits(a.drop_last(), config);
        let kb = crate::analyzer::kept_commits(b.drop_last(), config);
        let x = a.last();
        let y = b.last();
        let mx = crate::analyzer::analyzed_message(x, config.commit_modifiers);
        let my = crate::analyzer::analyzed_message(y, config.commit_modifiers);
        assert(mx == my);
        assert(crate::analyzer::kept_messages(ka.push((x, mx))) =~= crate::analyzer::kept_messages(ka).push(mx));
        assert(crate::analyzer::kept_messages(kb.push((y, my))) =~= crate::analyzer::kept_messages(kb).push(my));
    }
}

/// The plans of two packages over commits with the same contents agree.
proof fn lemma_plan_messages_same(package: PackageConfig, tag: Option<Tag>, a: Seq<ForgeCommit>, b: Seq<ForgeCommit>)
    requires
        same_commits(a, b),
    ensures
        plan_messages(package, tag, a) == plan_messages(package, tag, b),
{
    lemma_package_commits_same(a, b, package_paths(package), tag_timestamp(tag));
    lemma_kept_messages_same(
        package_commits(a, package_paths(package), tag_timestamp(tag)),
        package_commits(b, package_paths(package), tag_timestamp(tag)),
        package.analyzer_config,
    );
}

/// Going through packages over commits with the same contents ends the same
/// way.
pub proof fn lemma_plan_stop_same(packages: Seq<PackageConfig>, tags: Seq<Option<Tag>>, a: Seq<ForgeCommit>, b: Seq<ForgeCommit>, i: int)
    requires
        same_commits(a, b),
    ensures
        plan_stop(packages, tags, a, i) == plan_stop(packages, tags, b, i),
    decreases packages.len() - i,
{
    if 0 <= i < packages.len() {
        lemma_plan_messages_same(packages[i], tags[i], a, b);
        lemma_plan_stop_same(packages, tags, a, b, i + 1);
    }
}

/// A planned release fails exactly when the plan fails, with the plan's
/// error, and is a release exactly when the plan gives one.
proof fn lemma_planned_outcome(
    package: PackageConfig,
    tag: Option<Tag>,
    commits: Seq<ForgeCommit>,
    r: Result<Option<Release>, ReleasaurusError>,
)
    requires
        planned(package, tag, commits, r),
    ensures
        r is Err <==> plan_fails(package, tag, commits),
        r matches Err(e) ==> e@ == plan_error(package, tag, commits),
        r matches Ok(Some(_)) <==> plan_releases(package, tag, commits),
{
    let pc = package_commits(commits, package_paths(package), tag_timestamp(tag));
    if pc.len() == 0 {
        assert(crate::analyzer::kept_commits(pc, package.analyzer_config).len() == 0);
    } else {
        let f = choose|f: Seq<ForgeCommit>|
            #![trigger crate::analyzer::analyzed(package.analyzer_config, f, tag, r)]
            f.len() == pc.len()
            && (forall|i: int| 0 <= i < pc.len() ==> same_forge_commit(#[trigger] f[i], pc[i]))
            && crate::analyzer::analyzed(package.analyzer_config, f, tag, r);
        lemma_kept_messages_same(f, pc, package.analyzer_config);
    }
}

/// The sub-packages of `package` with the manifest files of their release
/// types as `loader` finds them on `base_branch`.
fn releasable_sub_packages<L: FileLoader>(
    loader: &L,
    package: &PackageConfig,
    base_branch: &str,
) -> (r: Result<Vec<ReleasableSubPackage>, ReleasaurusError>)
    ensures
        r matches Ok(v) ==> v@.len() == subs_of(*package).len()
            && forall|j: int| 0 <= j < v@.len() ==> releasable_sub(*package, subs_of(*package)[j], #[trigger] v@[j]),
        no_sub_targets(*package) ==> r is Ok,
{
    let mut out: Vec<ReleasableSubPackage> = Vec::new();
    match &package.sub_packages {
        None => Ok(out),
        Some(subs) => {
            let mut i: usize = 0;
            while i < subs.len()
                invariant
                    i <= subs@.len(),
                    subs_of(*package) == subs@,
                    out@.len() == i,
                    forall|j: int| 0 <= j < i ==> releasable_sub(*package, subs@[j], #[trigger] out@[j]),
                decreases subs.len() - i,
            {
                let sub = &subs[i];
                let as_package = PackageConfig {
                    name: sub.name.clone(),
                    workspace_root: package.workspace_root.clone(),
                    path: sub.path.clone(),
                    release_type: sub.release_type,
                    ..PackageConfig::default()
                };
                let targets = release_type_manifest_targets(&as_package);
                assert(targets_view(targets@) == type_targets(
                    subs@[i as int].release_type,
                    package.workspace_root@,
                    subs@[i as int].path@,
                    subs@[i as int].name@,
                ));
                let manifest_files = load_manifest_targets(loader, Some(base_branch.to_owned()), targets)?;
                let release_type = match sub.release_type {
                    Some(t) => t,
                    None => ReleaseType::Generic,
                };
                out.push(ReleasableSubPackage {
                    name: sub.name.clone(),
                    path: sub.path.clone(),
                    release_type,
                    manifest_files,
                });
                i = i + 1;
            }
            Ok(out)
        },
    }
}

/// The packages with a release to make, given the commits of all packages
/// and each package's current tag (in package order): each package's
/// release is planned from its own commits, and every package with a
/// release is listed, in package order, with the manifest files of its
/// release type, its additional manifest files and its sub-packages as
/// `loader` finds them on `base_branch`. Packages are gone through in order:
/// the first failing plan, or the first failing additional manifest targets
/// of a package with a release, ends the call with its error unless files
/// were loaded before; when every plan succeeds and nothing is to be loaded,
/// the call succeeds.
pub fn get_releasable_packages_for_commits<L: FileLoader>(
    packages: &Vec<PackageConfig>,
    current_tags: Vec<Option<Tag>>,
    commits: &Vec<ForgeCommit>,
    loader: &L,
    base_branch: &str,
) -> (r: Result<Vec<ReleasablePackage>, ReleasaurusError>)
    requires
        current_tags@.len() == packages@.len(),
        forall|i: int| 0 <= i < current_tags@.len() ==> (#[trigger] current_tags@[i] matches Some(t)
            ==> crate::version::well_formed(t.semver@) && crate::strategy::increment_safe(t.semver@)),
    ensures
        r matches Ok(out) ==> exists|rels: Seq<Option<Release>>, idx: Seq<int>|
            #[trigger] releasable_selection(packages@, current_tags@, commits@, rels, idx, out@),
        untouched(packages@, current_tags@, commits@) ==> (r matches Ok(out) && out@.len() == 0),
        nothing_planned(packages@, current_tags@, commits@) ==> (r matches Ok(out) && out@.len() == 0),
        plan_stop(packages@, current_tags@, commits@, 0) is Clean ==> r is Ok,
        plan_stop(packages@, current_tags@, commits@, 0) matches PlanStop::Fails(e) ==> (r matches Err(x) && x@ == e),
{
    let mut tags = current_tags;
    let ghost mut loaded = false;
    let mut out: Vec<ReleasablePackage> = Vec::new();
    let ghost mut rels: Seq<Option<Release>> = Seq::empty();
    let ghost mut idx: Seq<int> = Seq::empty();
    let mut i: usize = 0;
    assert(current_tags@.subrange(0, current_tags@.len() as int) =~= current_tags@);
    while i < packages.len()
        invariant
            i <= packages@.len(),
            packages@.len() == current_tags@.len(),
            tags@ == current_tags@.subrange(i as int, current_tags@.len() as int),
            forall|j: int| 0 <= j < current_tags@.len() ==> (#[trigger] current_tags@[j] matches Some(t)
                ==> crate::version::well_formed(t.semver@) && crate::strategy::increment_safe(t.semver@)),
            rels.len() == i,
            idx.len() == out@.len(),
            forall|j: int| 0 <= j < i ==> planned(packages@[j], current_tags@[j], commits@, Ok(#[trigger] rels[j])),
            forall|k: int| 0 <= k < out@.len() ==> {
                &&& 0 <= #[trigger] idx[k] < i
                &&& rels[idx[k]] == Some(*out@[k].release)
                &&& releasable_from(packages@[idx[k]], *out@[k].release, out@[k])
            },
            forall|k: int, l: int| 0 <= k < l < idx.len() ==> #[trigger] idx[k] < #[trigger] idx[l],
            forall|j: int| 0 <= j < i && (#[trigger] rels[j]) is Some ==> exists|k: int| 0 <= k < idx.len() && idx[k] == j,
            untouched(packages@, current_tags@, commits@) ==> out@.len() == 0,
            nothing_planned(packages@, current_tags@, commits@) ==> out@.len() == 0,
            !loaded ==> plan_stop(packages@, current_tags@, commits@, 0) == plan_stop(packages@, current_tags@, commits@, i as int),
            loaded ==> plan_stop(packages@, current_tags@, commits@, 0) is Loads,
        decreases packages.len() - i,
    {
        let tag = tags.remove(0);
        assert(tag == current_tags@[i as int]);
        assert(tags@ =~= current_tags@.subrange(i + 1, current_tags@.len() as int));
        let package = &packages[i];
        let plan = plan_package_release(package, tag, commits.as_slice());
        proof {
            lemma_planned_outcome(packages@[i as int], current_tags@[i as int], commits@, plan);
            if nothing_planned(packages@, current_tags@, commits@) {
                assert(!plan_fails(packages@[i as int], current_tags@[i as int], commits@)
                    && !plan_releases(packages@[i as int], current_tags@[i as int], commits@));
            }
            if untouched(packages@, current_tags@, commits@) {
                assert(package_commits(commits@, package_paths(packages@[i as int]), tag_timestamp(current_tags@[i as int])).len() == 0);
            }
        }
        match plan {
            Err(e) => {
                return Err(e);
            },
            Ok(None) => {
                proof {
                    rels = rels.push(None);
                }
            },
            Ok(Some(release)) => {
                let extra_targets = match additional_manifest_targets(package) {
                    Ok(t) => t,
                    Err(e) => {
                        return Err(e);
                    },
                };
                proof {
                    if has_loads(packages@[i as int]) {
                        loaded = true;
                    }
                }
                let manifest_files = load_manifest_targets(
                    loader,
                    Some(base_branch.to_owned()),
                    release_type_manifest_targets(package),
                )?;
                let additional_manifest_files = load_manifest_targets(loader, Some(base_branch.to_owned()), extra_targets)?;
                let sub_packages = releasable_sub_packages(loader, package, base_branch)?;
                let release_type = match package.release_type {
                    Some(t) => t,
                    None => ReleaseType::Generic,
                };
                let ghost rel = release;
                let ghost before = out@;
                let ghost old_rels = rels;
                let ghost old_idx = idx;
                out.push(ReleasablePackage {
                    name: package.name.clone(),
                    path: package.path.clone(),
                    workspace_root: package.workspace_root.clone(),
                    sub_packages,
                    release_type,
                    release: std::rc::Rc::new(release),
                    manifest_files,
                    additional_manifest_files,
                });
                proof {
                    rels = rels.push(Some(rel));
                    idx = idx.push(i as int);
                    assert forall|k: int| 0 <= k < out@.len() implies {
                        &&& 0 <= #[trigger] idx[k] < i + 1
                        &&& rels[idx[k]] == Some(*out@[k].release)
                        &&& releasable_from(packages@[idx[k]], *out@[k].release, out@[k])
                    } by {
                        if k < before.len() {
                            assert(out@[k] == before[k]);
                        }
                    }
                    assert forall|j: int| 0 <= j < i + 1 && (#[trigger] rels[j]) is Some
                        implies exists|k: int| 0 <= k < idx.len() && idx[k] == j by {
                        if j == i {
                            assert(idx[idx.len() - 1] == j);
                        } else {
                            assert(old_rels[j] == rels[j]);
                            let k = choose|k: int| 0 <= k < old_idx.len() && old_idx[k] == j;
                            assert(idx[k] == old_idx[k]);
                        }
                    }
                }
            },
        }
        i = i + 1;
    }
    assert(releasable_selection(packages@, current_tags@, commits@, rels, idx, out@));
    let r: Result<Vec<ReleasablePackage>, ReleasaurusError> = Ok(out);
    assert(r matches Ok(o) && o@ == out@);
    r
}

/// Whether `v` holds a commit with the content `c`.
pub open spec fn holds_commit(v: Seq<ForgeCommit>, c: crate::forge::ForgeCommitView) -> bool {
    exists|i: int| 0 <= i < v.len() && (#[trigger] v[i])@ == c
}

/// Whether one of the lists holds a commit with the content `c`.
pub open spec fn from_lists(lists: Seq<Vec<ForgeCommit>>, c: crate::forge::ForgeCommitView) -> bool {
    exists|k: int, m: int| 0 <= k < lists.len() && 0 <= m < lists[k]@.len() && (#[trigger] lists[k]@[m])@ == c
}

/// The commits of several lists merged: each distinct commit once, ordered
/// by timestamp.
pub fn merge_commit_lists(lists: &Vec<Vec<ForgeCommit>>) -> (r: Vec<ForgeCommit>)
    ensures
        forall|i: int, j: int| 0 <= i < j < r@.len() ==> r@[i].timestamp <= r@[j].timestamp,
        forall|i: int, j: int| 0 <= i < j < r@.len() ==> r@[i]@ != r@[j]@,
        forall|k: int, m: int| 0 <= k < lists@.len() && 0 <= m < lists@[k]@.len() ==> holds_commit(r@, #[trigger] lists@[k]@[m]@),
        forall|i: int| 0 <= i < r@.len() ==> from_lists(lists@, (#[trigger] r@[i])@),
{
    let mut out: Vec<ForgeCommit> = Vec::new();
    let mut k: usize = 0;
    while k < lists.len()
        invariant
            k <= lists@.len(),
            forall|i: int, j: int| 0 <= i < j < out@.len() ==> out@[i].timestamp <= out@[j].timestamp,
            forall|i: int, j: int| 0 <= i < j < out@.len() ==> out@[i]@ != out@[j]@,
            forall|k2: int, m: int| 0 <= k2 < k && 0 <= m < lists@[k2]@.len() ==> holds_commit(out@, #[trigger] lists@[k2]@[m]@),
            forall|i: int| 0 <= i < out@.len() ==> from_lists(lists@, (#[trigger] out@[i])@),
        decreases lists.len() - k,
    {
        let list = &lists[k];
        let mut m: usize = 0;
        while m < list.len()
            invariant
                k < lists@.len(),
                *list == lists@[k as int],
                m <= list@.len(),
                forall|i: int, j: int| 0 <= i < j < out@.len() ==> out@[i].timestamp <= out@[j].timestamp,
                forall|i: int, j: int| 0 <= i < j < out@.len() ==> out@[i]@ != out@[j]@,
                forall|k2: int, m2: int| 0 <= k2 < k && 0 <= m2 < lists@[k2]@.len() ==> holds_commit(out@, #[trigger] lists@[k2]@[m2]@),
                forall|m2: int| 0 <= m2 < m ==> holds_commit(out@, #[trigger] list@[m2]@),
                forall|i: int| 0 <= i < out@.len() ==> from_lists(lists@, (#[trigger] out@[i])@),
            decreases list.len() - m,
        {
            let c = &list[m];
            let mut present = false;
            let mut p: usize = 0;
            while p < out.len()
                invariant
                    p <= out@.len(),
                    present ==> holds_commit(out@, c@),
                    !present ==> forall|q: int| 0 <= q < p ==> (#[trigger] out@[q])@ != c@,
                decreases out.len() - p,
            {
                if !present && same_commit(&out[p], c) {
                    present = true;
                }
                p = p + 1;
            }
            if !present {
                let mut pos: usize = 0;
                while pos < out.len() && out[pos].timestamp <= c.timestamp
                    invariant
                        pos <= out@.len(),
                        forall|q: int| 0 <= q < pos ==> (#[trigger] out@[q]).timestamp <= c.timestamp,
                    decreases out.len() - pos,
                {
                    pos = pos + 1;
                }
                let ghost before = out@;
                assert(forall|q: int| pos <= q < before.len() ==> c.timestamp < (#[trigger] before[q]).timestamp) by {
                    assert forall|q: int| pos <= q < before.len() implies c.timestamp < (#[trigger] before[q]).timestamp by {
                        if pos < before.len() {
                            assert(c.timestamp < before[pos as int].timestamp);
                        }
                    }
                }
                out.insert(pos, c.duplicate());
                proof {
                    crate::forge::lemma_same_forge_commit_view(out@[pos as int], *c);
                    assert(out@ == before.insert(pos as int, out@[pos as int]));
                    assert forall|i: int| 0 <= i < out@.len() implies #[trigger] out@[i] == if i < pos {
                        before[i]
                    } else if i == pos {
                        out@[pos as int]
                    } else {
                        before[i - 1]
                    } by {}
                    assert forall|k2: int, m2: int| 0 <= k2 < k && 0 <= m2 < lists@[k2]@.len() implies holds_commit(out@, #[trigger] lists@[k2]@[m2]@) by {
                        let w = choose|w: int| 0 <= w < before.len() && (#[trigger] before[w])@ == lists@[k2]@[m2]@;
                        if w < pos {
                            assert(out@[w] == before[w]);
                        } else {
                            assert(out@[w + 1] == before[w]);
                        }
                    }
                    assert forall|m2: int| 0 <= m2 <= m implies holds_commit(out@, #[trigger] list@[m2]@) by {
                        if m2 < m {
                            let w = choose|w: int| 0 <= w < before.len() && (#[trigger] before[w])@ == list@[m2]@;
                            if w < pos {
                                assert(out@[w] == before[w]);
                            } else {
                                assert(out@[w + 1] == before[w]);
                            }
                        } else {
                            assert(out@[pos as int]@ == c@);
                        }
                    }
                    assert forall|i: int| 0 <= i < out@.len() implies from_lists(lists@, (#[trigger] out@[i])@) by {
                        if i < pos {
                            assert(out@[i] == before[i]);
                        } else if i == pos {
                            assert(out@[i]@ == lists@[k as int]@[m as int]@);
                            assert(from_lists(lists@, lists@[k as int]@[m as int]@));
                        } else {
                            assert(out@[i] == before[i - 1]);
                        }
                    }
                }
            }
            m = m + 1;
        }
        k = k + 1;
    }
    out
}

/// Another handle on a shared release (`Rc::clone`).
#[verifier::external_body]
fn share_release(release: &std::rc::Rc<Release>) -> (r: std::rc::Rc<Release>)
    ensures
        r == *release,
{
    std::rc::Rc::clone(release)
}

/// A copy of an optional list of manifest files.
fn copy_manifests(o: &Option<Vec<ManifestFile>>) -> (r: Option<Vec<ManifestFile>>)
    ensures
        match (r, *o) {
            (Some(a), Some(b)) => crate::manifest::manifests_view(a@) == crate::manifest::manifests_view(b@),
            (None, None) => true,
            _ => false,
        },
{
    match o {
        Some(v) => {
            let mut out: Vec<ManifestFile> = Vec::new();
            let mut i: usize = 0;
            while i < v.len()
                invariant
                    i <= v@.len(),
                    out@.len() == i,
                    forall|j: int| 0 <= j < i ==> (#[trigger] out@[j])@ == v@[j]@,
                decreases v.len() - i,
            {
                let m = &v[i];
                out.push(ManifestFile {
                    is_workspace: m.is_workspace,
                    file_path: m.file_path.clone(),
                    file_basename: m.file_basename.clone(),
                    content: m.content.clone(),
                });
                i = i + 1;
            }
            assert(crate::manifest::manifests_view(out@) =~= crate::manifest::manifests_view(v@));
            Some(out)
        },
        None => None,
    }
}

impl ReleasableSubPackage {
    /// This sub-package as a package of its own, sharing the parent's
    /// workspace root and release.
    pub fn to_releasable(&self, parent: &ReleasablePackage) -> (r: ReleasablePackage)
        ensures
            r.name@ == self.name@,
            r.path@ == self.path@,
            r.release_type == self.release_type,
            r.workspace_root@ == parent.workspace_root@,
            r.release == parent.release,
            r.sub_packages@.len() == 0,
            r.additional_manifest_files is None,
            match (r.manifest_files, self.manifest_files) {
                (Some(a), Some(b)) => crate::manifest::manifests_view(a@) == crate::manifest::manifests_view(b@),
                (None, None) => true,
                _ => false,
            },
    {
        ReleasablePackage {
            name: self.name.clone(),
            path: self.path.clone(),
            workspace_root: parent.workspace_root.clone(),
            sub_packages: Vec::new(),
            release_type: self.release_type,
            release: share_release(&parent.release),
            manifest_files: copy_manifests(&self.manifest_files),
            additional_manifest_files: None,
        }
    }
}
} // verus!
