//! Release pull requests: what each releasable package contributes, and
//! the single pull request made per release branch.

use vstd::prelude::*;

use crate::error::{ErrorView, ReleasaurusError};
use crate::packages::{spec_package_path, ReleasablePackage};
use crate::text::{concat, str_eq};

verus! {

/// Prefix of release branch names.
pub const DEFAULT_PR_BRANCH_PREFIX: &'static str = "releasaurus-release";

/// Label that marks a release pull request as pending.
pub const PENDING_LABEL: &'static str = "releasaurus:pending";

/// How a file change is applied.
#[derive(Debug, Clone, Copy, PartialEq, Eq, Structural)]
pub enum FileUpdateType {
    /// The content replaces the file.
    Replace,
    /// The content is put before the file's content.
    Prepend,
}

/// A change to one file of a release branch.
#[derive(Debug, Clone)]
pub struct FileChange {
    pub content: String,
    pub path: String,
    pub update_type: FileUpdateType,
}

impl View for FileChange {
    type V = (Seq<char>, Seq<char>, FileUpdateType);

    open spec fn view(&self) -> (Seq<char>, Seq<char>, FileUpdateType) {
        (self.content@, self.path@, self.update_type)
    }
}

/// The contents of a list of file changes.
pub open spec fn changes_view(v: Seq<FileChange>) -> Seq<(Seq<char>, Seq<char>, FileUpdateType)> {
    v.map_values(|c: FileChange| c@)
}

/// The part of a release pull request that one package contributes.
#[derive(Debug)]
pub struct ReleasePr {
    pub title: String,
    pub body: String,
    pub file_changes: Vec<FileChange>,
}

/// The content of a release pull request part.
pub struct ReleasePrView {
    pub title: Seq<char>,
    pub body: Seq<char>,
    pub file_changes: Seq<(Seq<char>, Seq<char>, FileUpdateType)>,
}

impl View for ReleasePr {
    type V = ReleasePrView;

    open spec fn view(&self) -> ReleasePrView {
        ReleasePrView { title: self.title@, body: self.body@, file_changes: changes_view(self.file_changes@) }
    }
}

/// Release metadata of one package, embedded in a pull request body.
#[derive(Debug, Default)]
pub struct PRMetadataFields {
    pub name: String,
    pub tag: String,
    pub notes: String,
}

/// The metadata block of a release pull request.
#[derive(Debug)]
pub struct PRMetadata {
    pub metadata: PRMetadataFields,
}

/// The lowercase hexadecimal digit of `n` (below 16).
pub open spec fn hex_digit(n: int) -> char {
    if n < 10 {
        ('0' as int + n) as char
    } else {
        ('a' as int + n - 10) as char
    }
}

/// How a character is written inside a JSON string: `"` and `\` behind a
/// backslash, backspace, tab, line feed, form feed and carriage return as
/// their short escapes, any other control character below U+0020 as
/// `\u00` and two lowercase hexadecimal digits, everything else as itself.
pub open spec fn json_escaped_char(c: char) -> Seq<char> {
    if c == '"' {
        seq!['\\', '"']
    } else if c == '\\' {
        seq!['\\', '\\']
    } else if c == '\u{8}' {
        seq!['\\', 'b']
    } else if c == '\t' {
        seq!['\\', 't']
    } else if c == '\n' {
        seq!['\\', 'n']
    } else if c == '\u{c}' {
        seq!['\\', 'f']
    } else if c == '\r' {
        seq!['\\', 'r']
    } else if (c as int) < 0x20 {
        seq!['\\', 'u', '0', '0', hex_digit(c as int / 16), hex_digit(c as int % 16)]
    } else {
        seq![c]
    }
}

/// The characters of a string as they are written inside a JSON string.
pub open spec fn json_escaped(s: Seq<char>) -> Seq<char>
    decreases s.len(),
{
    if s.len() == 0 {
        Seq::empty()
    } else {
        json_escaped(s.drop_last()) + json_escaped_char(s.last())
    }
}

/// A string as a JSON string literal: its escaped characters in double
/// quotes.
pub open spec fn json_quoted(s: Seq<char>) -> Seq<char> {
    seq!['"'] + json_escaped(s) + seq!['"']
}

/// A string as a JSON string literal (`serde_json::to_string` on `&str`,
/// which cannot fail for a string and writes it with the escapes of
/// `json_escaped_char`).
#[verifier::external_body]
fn json_string(s: &str) -> (r: String)
    ensures
        r@ == json_quoted(s@),
{
    match serde_json::to_string(s) {
        Ok(j) => j,
        Err(_) => String::new(),
    }
}

/// The metadata of a package in JSON, as `serde_json` writes
/// [`PRMetadata`].
pub open spec fn metadata_json(name: Seq<char>, tag: Seq<char>, notes: Seq<char>) -> Seq<char> {
    "{\"metadata\":{\"name\":"@ + json_quoted(name) + ",\"tag\":"@ + json_quoted(tag) + ",\"notes\":"@
        + json_quoted(notes) + "}}"@
}

impl PRMetadata {
    /// This metadata in JSON.
    pub fn to_json(&self) -> (r: String)
        ensures
            r@ == metadata_json(self.metadata.name@, self.metadata.tag@, self.metadata.notes@),
    {
        let name = json_string(self.metadata.name.as_str());
        let tag = json_string(self.metadata.tag.as_str());
        let notes = json_string(self.metadata.notes.as_str());
        let a = concat("{\"metadata\":{\"name\":", name.as_str());
        let b = concat(a.as_str(), ",\"tag\":");
        let c = concat(b.as_str(), tag.as_str());
        let d = concat(c.as_str(), ",\"notes\":");
        let e = concat(d.as_str(), notes.as_str());
        concat(e.as_str(), "}}")
    }
}

/// The release branch of a package.
pub open spec fn release_branch(default_branch: Seq<char>, separate: bool, name: Seq<char>) -> Seq<char> {
    let shared = DEFAULT_PR_BRANCH_PREFIX@ + "-"@ + default_branch;
    if separate {
        shared + "-"@ + name
    } else {
        shared
    }
}

/// The pull request part of a package: its title names the package and its
/// tag, its body holds the metadata and the notes in a dropdown (open when
/// it is the only package or pull requests are separate), and its change
/// prepends the notes to the package's changelog.
pub open spec fn package_pr(
    default_branch: Seq<char>,
    open_details: bool,
    name: Seq<char>,
    workspace_root: Seq<char>,
    path: Seq<char>,
    tag_name: Seq<char>,
    notes: Seq<char>,
) -> ReleasePrView {
    let details = if open_details { "<details open>"@ } else { "<details>"@ };
    let metadata = "\n<!--"@ + metadata_json(name, tag_name, notes) + "-->\n"@;
    ReleasePrView {
        title: "chore("@ + default_branch + "): release "@ + name + " "@ + tag_name,
        body: metadata + details + "<summary>"@ + tag_name + "</summary>\n\n"@ + notes + "</details>"@,
        file_changes: seq![(notes + "\n\n"@, spec_package_path(workspace_root, path, Some("CHANGELOG.md"@)), FileUpdateType::Prepend)],
    }
}

/// The pull request parts grouped by release branch, branches in the order
/// their first package comes.
pub open spec fn prs_by_branch(
    pkgs: Seq<ReleasablePackage>,
    default_branch: Seq<char>,
    separate: bool,
    open_details: bool,
) -> Seq<(Seq<char>, Seq<ReleasePrView>)>
    decreases pkgs.len(),
{
    if pkgs.len() == 0 {
        Seq::empty()
    } else {
        let prev = prs_by_branch(pkgs.drop_last(), default_branch, separate, open_details);
        let p = pkgs.last();
        let branch = release_branch(default_branch, separate, p.name@);
        let pr = package_pr(default_branch, open_details, p.name@, p.workspace_root@, p.path@, p.release.tag.name@, p.release.notes@);
        match branch_index(prev, branch) {
            Some(i) => prev.update(i, (branch, prev[i].1.push(pr))),
            None => prev.push((branch, seq![pr])),
        }
    }
}

/// Index of the group of `branch`, if any.
pub open spec fn branch_index(groups: Seq<(Seq<char>, Seq<ReleasePrView>)>, branch: Seq<char>) -> Option<int>
    decreases groups.len(),
{
    if groups.len() == 0 {
        None
    } else if groups.last().0 == branch {
        Some(groups.len() - 1)
    } else {
        branch_index(groups.drop_last(), branch)
    }
}

/// The content of grouped pull request parts.
pub open spec fn groups_view(v: Seq<(String, Vec<ReleasePr>)>) -> Seq<(Seq<char>, Seq<ReleasePrView>)> {
    v.map_values(|g: (String, Vec<ReleasePr>)| (g.0@, g.1@.map_values(|p: ReleasePr| p@)))
}

/// The pull request part of a package.
fn make_package_pr(default_branch: &str, open_details: bool, pkg: &ReleasablePackage) -> (r: ReleasePr)
    ensures
        r@ == package_pr(default_branch@, open_details, pkg.name@, pkg.workspace_root@, pkg.path@, pkg.release.tag.name@, pkg.release.notes@),
{
    let tag_name = pkg.release.tag.name.as_str();
    let notes = pkg.release.notes.as_str();
    let t1 = concat("chore(", default_branch);
    let t2 = concat(t1.as_str(), "): release ");
    let t3 = concat(t2.as_str(), pkg.name.as_str());
    let t4 = concat(t3.as_str(), " ");
    let title = concat(t4.as_str(), tag_name);
    let metadata = PRMetadata {
        metadata: PRMetadataFields { name: pkg.name.clone(), tag: pkg.release.tag.name.clone(), notes: pkg.release.notes.clone() },
    };
    let json = metadata.to_json();
    let m1 = concat("\n<!--", json.as_str());
    let m2 = concat(m1.as_str(), "-->\n");
    let details = if open_details { "<details open>" } else { "<details>" };
    let b1 = concat(m2.as_str(), details);
    let b2 = concat(b1.as_str(), "<summary>");
    let b3 = concat(b2.as_str(), tag_name);
    let b4 = concat(b3.as_str(), "</summary>\n\n");
    let b5 = concat(b4.as_str(), notes);
    let body = concat(b5.as_str(), "</details>");
    let dir = crate::paths::join_path(pkg.workspace_root.as_str(), pkg.path.as_str());
    let file = crate::paths::join_path(dir.as_str(), "CHANGELOG.md");
    let changelog_path = crate::packages::normalize_path(file.as_str());
    let content = concat(notes, "\n\n");
    let mut file_changes: Vec<FileChange> = Vec::new();
    file_changes.push(FileChange { content, path: changelog_path, update_type: FileUpdateType::Prepend });
    let r = ReleasePr { title, body, file_changes };
    assert(changes_view(r.file_changes@) =~= seq![(notes@ + "\n\n"@, spec_package_path(pkg.workspace_root@, pkg.path@, Some("CHANGELOG.md"@)), FileUpdateType::Prepend)]);
    r
}

/// The release branch of a package.
fn branch_for(default_branch: &str, separate: bool, name: &str) -> (r: String)
    ensures
        r@ == release_branch(default_branch@, separate, name@),
{
    let a = concat(DEFAULT_PR_BRANCH_PREFIX, "-");
    let shared = concat(a.as_str(), default_branch);
    if separate {
        let b = concat(shared.as_str(), "-");
        concat(b.as_str(), name)
    } else {
        shared
    }
}

/// The position of the group of `branch`, if any.
fn find_group(groups: &Vec<(String, Vec<ReleasePr>)>, branch: &str) -> (r: Option<usize>)
    ensures
        match r {
            Some(i) => branch_index(groups_view(groups@), branch@) == Some(i as int) && i < groups@.len(),
            None => branch_index(groups_view(groups@), branch@) is None,
        },
{
    let ghost gv = groups_view(groups@);
    let mut i: usize = groups.len();
    assert(gv.take(gv.len() as int) =~= gv);
    while i > 0
        invariant
            i <= groups@.len(),
            gv == groups_view(groups@),
            branch_index(gv, branch@) == branch_index(gv.take(i as int), branch@),
        decreases i,
    {
        assert(gv.take(i as int).drop_last() =~= gv.take(i - 1));
        assert(gv.take(i as int).last().0 == groups@[i - 1].0@);
        if str_eq(groups[i - 1].0.as_str(), branch) {
            return Some(i - 1);
        }
        i = i - 1;
    }
    assert(gv.take(0) =~= Seq::<(Seq<char>, Seq<ReleasePrView>)>::empty());
    None
}

/// The pull request parts of the releasable packages, grouped by release
/// branch. A package's dropdown is open when it is the only package or
/// pull requests are separate.
pub fn gather_release_prs_by_branch(
    packages: &Vec<ReleasablePackage>,
    default_branch: &str,
    separate_pull_requests: bool,
) -> (r: Vec<(String, Vec<ReleasePr>)>)
    ensures
        groups_view(r@) == prs_by_branch(
            packages@,
            default_branch@,
            separate_pull_requests,
            packages@.len() == 1 || separate_pull_requests,
        ),
{
    let open_details = packages.len() == 1 || separate_pull_requests;
    let mut groups: Vec<(String, Vec<ReleasePr>)> = Vec::new();
    let mut i: usize = 0;
    assert(packages@.take(0) =~= Seq::<ReleasablePackage>::empty());
    assert(groups_view(groups@) =~= Seq::<(Seq<char>, Seq<ReleasePrView>)>::empty());
    while i < packages.len()
        invariant
            i <= packages@.len(),
            open_details == (packages@.len() == 1 || separate_pull_requests),
            groups_view(groups@) == prs_by_branch(packages@.take(i as int), default_branch@, separate_pull_requests, open_details),
        decreases packages.len() - i,
    {
        let pkg = &packages[i];
        assert(packages@.take(i + 1).drop_last() =~= packages@.take(i as int));
        assert(packages@.take(i + 1).last() == *pkg);
        let branch = branch_for(default_branch, separate_pull_requests, pkg.name.as_str());
        let pr = make_package_pr(default_branch, open_details, pkg);
        let ghost before = groups_view(groups@);
        match find_group(&groups, branch.as_str()) {
            Some(k) => {
                let ghost old_group = groups@[k as int];
                let ghost pv = pr@;
                let (_, mut prs) = groups.remove(k);
                prs.push(pr);
                assert(prs@.map_values(|p: ReleasePr| p@) =~= old_group.1@.map_values(|p: ReleasePr| p@).push(pv));
                groups.insert(k, (branch.clone(), prs));
                assert(groups_view(groups@) =~= before.update(k as int, (branch@, before[k as int].1.push(pv))));
            },
            None => {
                let ghost pv = pr@;
                let mut prs: Vec<ReleasePr> = Vec::new();
                prs.push(pr);
                assert(prs@.map_values(|p: ReleasePr| p@) =~= seq![pv]);
                groups.push((branch, prs));
                assert(groups_view(groups@) =~= before.push((branch@, seq![pv])));
            },
        }
        i = i + 1;
    }
    assert(packages@.take(packages@.len() as int) =~= packages@);
    groups
}

/// The single pull request of a release branch.
#[derive(Debug)]
pub struct BranchPr {
    pub branch: String,
    pub title: String,
    pub body: String,
    pub file_changes: Vec<FileChange>,
}

/// The bodies of pull request parts joined by newlines.
pub open spec fn joined_bodies(prs: Seq<ReleasePrView>) -> Seq<char>
    decreases prs.len(),
{
    if prs.len() == 0 {
        Seq::empty()
    } else if prs.len() == 1 {
        prs[0].body
    } else {
        joined_bodies(prs.drop_last()) + "\n"@ + prs.last().body
    }
}

/// Where the body of part `i` begins in the combined body: after the body
/// of every earlier part, each followed by a newline.
pub open spec fn part_start(prs: Seq<ReleasePrView>, i: int) -> int
    decreases i,
{
    if i <= 0 {
        0
    } else {
        part_start(prs, i - 1) + prs[i - 1].body.len() + 1
    }
}

/// Whether `body` is the bodies of `prs` one after the other, a newline
/// between two bodies: each part's body at its place, newlines between
/// them, and nothing else.
pub open spec fn holds_every_body(body: Seq<char>, prs: Seq<ReleasePrView>) -> bool {
    &&& body.len() == if prs.len() == 0 { 0 } else { part_start(prs, prs.len() as int) - 1 }
    &&& forall|i: int| 0 <= i < prs.len() ==> body.subrange(part_start(prs, i), part_start(prs, i) + prs[i].body.len())
        == (#[trigger] prs[i]).body
    &&& forall|i: int| 0 <= i < prs.len() - 1 ==> body[part_start(prs, i) + (#[trigger] prs[i]).body.len()] == '\n'
}

proof fn lemma_part_start_prefix(prs: Seq<ReleasePrView>, i: int)
    requires
        0 <= i < prs.len(),
    ensures
        part_start(prs, i) == part_start(prs.drop_last(), i),
        part_start(prs, i) >= i,
    decreases i,
{
    if i > 0 {
        lemma_part_start_prefix(prs, i - 1);
        assert(prs.drop_last()[i - 1] == prs[i - 1]);
    }
}

/// The combined body of release pull request parts holds every part's body,
/// in order, with a newline between two bodies and nothing else.
pub proof fn law_combined_body_holds_every_part(prs: Seq<ReleasePrView>)
    ensures
        holds_every_body(joined_bodies(prs), prs),
    decreases prs.len(),
{
    let j = joined_bodies(prs);
    let n = prs.len() as int;
    if n == 0 {
    } else if n == 1 {
        assert(j.subrange(0, prs[0].body.len() as int) =~= prs[0].body);
        assert(part_start(prs, 0) == 0);
        assert(part_start(prs, 1) == prs[0].body.len() + 1);
    } else {
        let d = prs.drop_last();
        law_combined_body_holds_every_part(d);
        let jd = joined_bodies(d);
        let last = prs.last();
        reveal_strlit("\n");
        assert(j == jd + "\n"@ + last.body);
        lemma_part_start_prefix(prs, n - 1);
        assert(part_start(prs, n) == part_start(d, n - 1) + last.body.len() + 1);
        assert(jd.len() == part_start(d, n - 1) - 1);
        assert(j.len() == part_start(prs, n) - 1);
        assert forall|i: int| 0 <= i < n implies j.subrange(part_start(prs, i), part_start(prs, i) + prs[i].body.len())
            == (#[trigger] prs[i]).body by {
            if i < n - 1 {
                lemma_part_start_prefix(prs, i);
                assert(d[i] == prs[i]);
                assert(part_start(d, i) + d[i].body.len() < part_start(d, i + 1));
                lemma_part_start_prefix(prs, i + 1);
                assert(part_start(d, i + 1) <= part_start(d, n - 1)) by {
                    lemma_part_start_grows(d, i + 1, n - 1);
                }
                assert(j.subrange(part_start(prs, i), part_start(prs, i) + prs[i].body.len())
                    =~= jd.subrange(part_start(d, i), part_start(d, i) + d[i].body.len()));
            } else {
                assert(j.subrange(part_start(prs, i), part_start(prs, i) + prs[i].body.len()) =~= last.body);
            }
        }
        assert forall|i: int| 0 <= i < n - 1 implies j[part_start(prs, i) + (#[trigger] prs[i]).body.len()] == '\n' by {
            lemma_part_start_prefix(prs, i);
            assert(d[i] == prs[i]);
            if i < n - 2 {
                lemma_part_start_prefix(prs, i + 1);
                lemma_part_start_grows(d, i + 1, n - 1);
                assert(j[part_start(prs, i) + prs[i].body.len()] == jd[part_start(d, i) + d[i].body.len()]);
            } else {
                assert(part_start(d, i) + d[i].body.len() == part_start(d, n - 1) - 1);
            }
        }
    }
}

/// Where the file changes of part `i` begin among all file changes.
pub open spec fn changes_start(prs: Seq<ReleasePrView>, i: int) -> int
    decreases i,
{
    if i <= 0 {
        0
    } else {
        changes_start(prs, i - 1) + prs[i - 1].file_changes.len()
    }
}

proof fn lemma_changes_start_prefix(prs: Seq<ReleasePrView>, i: int)
    requires
        0 <= i < prs.len(),
    ensures
        changes_start(prs, i) == changes_start(prs.drop_last(), i),
    decreases i,
{
    if i > 0 {
        lemma_changes_start_prefix(prs, i - 1);
        assert(prs.drop_last()[i - 1] == prs[i - 1]);
    }
}

proof fn lemma_changes_start_grows(prs: Seq<ReleasePrView>, i: int, k: int)
    requires
        0 <= i <= k,
    ensures
        changes_start(prs, i) <= changes_start(prs, k),
    decreases k - i,
{
    if i < k {
        lemma_changes_start_grows(prs, i, k - 1);
    }
}

/// The file changes of a combined pull request are every part's changes,
/// part after part, each part's in its own order, and no others.
pub proof fn law_combined_changes_hold_every_part(prs: Seq<ReleasePrView>)
    ensures
        all_changes(prs).len() == changes_start(prs, prs.len() as int),
        forall|i: int, k: int| 0 <= i < prs.len() && 0 <= k < prs[i].file_changes.len()
            ==> all_changes(prs)[changes_start(prs, i) + k] == (#[trigger] prs[i].file_changes[k]),
    decreases prs.len(),
{
    let n = prs.len() as int;
    if n > 0 {
        let d = prs.drop_last();
        law_combined_changes_hold_every_part(d);
        lemma_changes_start_prefix(prs, n - 1);
        assert(all_changes(prs) == all_changes(d) + prs.last().file_changes);
        assert forall|i: int, k: int| 0 <= i < prs.len() && 0 <= k < prs[i].file_changes.len()
            implies all_changes(prs)[changes_start(prs, i) + k] == (#[trigger] prs[i].file_changes[k]) by {
            if i < n - 1 {
                lemma_changes_start_prefix(prs, i);
                lemma_changes_start_grows(d, i + 1, n - 1);
                assert(d[i] == prs[i]);
                assert(changes_start(d, i) + k < changes_start(d, i + 1));
                assert(all_changes(d).len() == changes_start(d, d.len() as int));
                assert(d.len() == n - 1);
                assert(changes_start(d, i + 1) <= changes_start(d, n - 1));
                assert(all_changes(d)[changes_start(d, i) + k] == d[i].file_changes[k]);
                lemma_changes_start_grows(d, 0, i);
                assert(changes_start(d, 0) == 0);
                let x = changes_start(d, i) + k;
                assert(0 <= x < all_changes(d).len());
                assert((all_changes(d) + prs.last().file_changes)[x] == all_changes(d)[x]);
                assert(changes_start(prs, i) == changes_start(d, i));
            } else {
                assert(prs[i] == prs.last());
                assert(all_changes(prs)[changes_start(prs, i) + k] == prs.last().file_changes[k]);
            }
        }
    }
}

proof fn lemma_part_start_grows(prs: Seq<ReleasePrView>, i: int, k: int)
    requires
        0 <= i <= k,
    ensures
        part_start(prs, i) <= part_start(prs, k),
    decreases k - i,
{
    if i < k {
        lemma_part_start_grows(prs, i, k - 1);
    }
}

/// All file changes of pull request parts, in order.
pub open spec fn all_changes(prs: Seq<ReleasePrView>) -> Seq<(Seq<char>, Seq<char>, FileUpdateType)>
    decreases prs.len(),
{
    if prs.len() == 0 {
        Seq::empty()
    } else {
        all_changes(prs.drop_last()) + prs.last().file_changes
    }
}

/// The title of a branch's pull request: the part's own title when there
/// is one part, a generic release title otherwise.
pub open spec fn branch_title(default_branch: Seq<char>, prs: Seq<ReleasePrView>) -> Seq<char> {
    if prs.len() == 1 {
        prs[0].title
    } else {
        "chore("@ + default_branch + "): release"@
    }
}

/// Combines the parts of a release branch into its single pull request.
#[verifier::rlimit(40)]
pub fn combine_branch_prs(default_branch: &str, branch: String, prs: Vec<ReleasePr>) -> (r: BranchPr)
    ensures
        r.branch@ == branch@,
        r.title@ == branch_title(default_branch@, prs@.map_values(|p: ReleasePr| p@)),
        r.body@ == joined_bodies(prs@.map_values(|p: ReleasePr| p@)),
        holds_every_body(r.body@, prs@.map_values(|p: ReleasePr| p@)),
        changes_view(r.file_changes@) == all_changes(prs@.map_values(|p: ReleasePr| p@)),
{
    let ghost pv = prs@.map_values(|p: ReleasePr| p@);
    let single = prs.len() == 1;
    let generic = concat("chore(", default_branch);
    let mut title = concat(generic.as_str(), "): release");
    let mut body = String::new();
    let mut file_changes: Vec<FileChange> = Vec::new();
    let mut i: usize = 0;
    assert(pv.take(0) =~= Seq::<ReleasePrView>::empty());
    assert(changes_view(file_changes@) =~= Seq::<(Seq<char>, Seq<char>, FileUpdateType)>::empty());
    while i < prs.len()
        invariant
            i <= prs@.len(),
            pv == prs@.map_values(|p: ReleasePr| p@),
            single == (prs@.len() == 1),
            body@ == joined_bodies(pv.take(i as int)),
            changes_view(file_changes@) == all_changes(pv.take(i as int)),
            title@ == if single && i == 1 { pv[0].title } else { "chore("@ + default_branch@ + "): release"@ },
        decreases prs.len() - i,
    {
        assert(pv.take(i + 1).drop_last() =~= pv.take(i as int));
        assert(pv.take(i + 1).last() == prs@[i as int]@);
        let pr = &prs[i];
        if single {
            title = pr.title.clone();
        }
        if i == 0 {
            body = pr.body.clone();
        } else {
            let with_newline = concat(body.as_str(), "\n");
            body = concat(with_newline.as_str(), pr.body.as_str());
        }
        let ghost before = changes_view(file_changes@);
        let mut j: usize = 0;
        while j < pr.file_changes.len()
            invariant
                j <= pr.file_changes@.len(),
                changes_view(file_changes@) == before + changes_view(pr.file_changes@).take(j as int),
            decreases pr.file_changes.len() - j,
        {
            let c = &pr.file_changes[j];
            let ghost old_fc = file_changes@;
            file_changes.push(FileChange { content: c.content.clone(), path: c.path.clone(), update_type: c.update_type });
            assert(changes_view(file_changes@) =~= changes_view(old_fc).push(c@));
            assert(changes_view(pr.file_changes@).take(j + 1) =~= changes_view(pr.file_changes@).take(j as int).push(c@));
            assert(changes_view(file_changes@) =~= before + changes_view(pr.file_changes@).take(j + 1));
            j = j + 1;
        }
        assert(changes_view(pr.file_changes@).take(pr.file_changes@.len() as int) =~= changes_view(pr.file_changes@));
        i = i + 1;
    }
    assert(pv.take(pv.len() as int) =~= pv);
    assert(holds_every_body(body@, pv)) by {
        law_combined_body_holds_every_part(pv);
    }
    BranchPr { branch, title, body, file_changes }
}

/// The content of a release branch's pull request.
pub struct BranchPrView {
    pub branch: Seq<char>,
    pub title: Seq<char>,
    pub body: Seq<char>,
    pub file_changes: Seq<(Seq<char>, Seq<char>, FileUpdateType)>,
}

impl View for BranchPr {
    type V = BranchPrView;

    open spec fn view(&self) -> BranchPrView {
        BranchPrView {
            branch: self.branch@,
            title: self.title@,
            body: self.body@,
            file_changes: changes_view(self.file_changes@),
        }
    }
}

/// Where the creation or update of a release branch's pull request stands.
#[derive(Debug, Clone, Copy, PartialEq, Eq, Structural)]
pub enum ReleasePrStep {
    /// Nothing has been asked of the forge yet.
    Start,
    /// The forge was asked for a merged release pull request of the branch.
    CheckPending,
    /// The forge was asked to create or update the release branch.
    CreateBranch,
    /// The forge was asked for an open release pull request of the branch.
    FindOpenPr,
    /// The forge was asked to update the open pull request `pr_number`.
    AwaitUpdate { pr_number: u64 },
    /// The forge was asked to create the pull request.
    AwaitCreate,
    /// The forge was asked to label the pull request.
    Labeling,
    /// The pull request is made, or the run has failed.
    Done,
}

/// What the forge answered to the last action.
#[derive(Debug, Clone, Copy, PartialEq, Eq, Structural)]
pub enum ReleasePrEvent {
    /// Nothing was asked yet.
    Started,
    /// The number of the merged release pull request of the branch that is
    /// not tagged yet, if there is one.
    MergedPr(Option<u64>),
    /// The release branch was created or updated.
    BranchCreated,
    /// The number of the open release pull request of the branch, if any.
    OpenPr(Option<u64>),
    /// The open pull request was updated.
    PrUpdated,
    /// The pull request was created with this number.
    PrCreated(u64),
    /// The labels were set.
    LabelsSet,
}

/// What the forge is asked to do next.
#[derive(Debug)]
pub enum ReleasePrAction {
    /// Find a merged release pull request from `head_branch` into
    /// `base_branch` that is not tagged yet.
    GetMergedReleasePr { head_branch: String, base_branch: String },
    /// Create or update the release branch with a commit of the file changes.
    CreateReleaseBranch { branch: String, message: String, file_changes: Vec<FileChange> },
    /// Find the open release pull request from `head_branch` into
    /// `base_branch`.
    GetOpenReleasePr { head_branch: String, base_branch: String },
    /// Update the open pull request.
    UpdatePr { pr_number: u64, title: String, body: String },
    /// Open a pull request from `head_branch` into `base_branch`.
    CreatePr { head_branch: String, base_branch: String, title: String, body: String },
    /// Replace the labels of the pull request.
    ReplaceLabels { pr_number: u64, labels: Vec<String> },
    /// Stop with this error.
    Fail(ReleasaurusError),
    /// Nothing more to do.
    Done,
}

/// The content of an action.
pub enum ReleasePrActionView {
    GetMergedReleasePr { head_branch: Seq<char>, base_branch: Seq<char> },
    CreateReleaseBranch { branch: Seq<char>, message: Seq<char>, file_changes: Seq<(Seq<char>, Seq<char>, FileUpdateType)> },
    GetOpenReleasePr { head_branch: Seq<char>, base_branch: Seq<char> },
    UpdatePr { pr_number: u64, title: Seq<char>, body: Seq<char> },
    CreatePr { head_branch: Seq<char>, base_branch: Seq<char>, title: Seq<char>, body: Seq<char> },
    ReplaceLabels { pr_number: u64, labels: Seq<Seq<char>> },
    Fail(ErrorView),
    Done,
}

/// The contents of a list of strings.
pub open spec fn texts_of(v: Seq<String>) -> Seq<Seq<char>> {
    v.map_values(|s: String| s@)
}

impl View for ReleasePrAction {
    type V = ReleasePrActionView;

    open spec fn view(&self) -> ReleasePrActionView {
        match self {
            ReleasePrAction::GetMergedReleasePr { head_branch, base_branch } =>
                ReleasePrActionView::GetMergedReleasePr { head_branch: head_branch@, base_branch: base_branch@ },
            ReleasePrAction::CreateReleaseBranch { branch, message, file_changes } =>
                ReleasePrActionView::CreateReleaseBranch {
                    branch: branch@,
                    message: message@,
                    file_changes: changes_view(file_changes@),
                },
            ReleasePrAction::GetOpenReleasePr { head_branch, base_branch } =>
                ReleasePrActionView::GetOpenReleasePr { head_branch: head_branch@, base_branch: base_branch@ },
            ReleasePrAction::UpdatePr { pr_number, title, body } =>
                ReleasePrActionView::UpdatePr { pr_number: *pr_number, title: title@, body: body@ },
            ReleasePrAction::CreatePr { head_branch, base_branch, title, body } =>
                ReleasePrActionView::CreatePr {
                    head_branch: head_branch@,
                    base_branch: base_branch@,
                    title: title@,
                    body: body@,
                },
            ReleasePrAction::ReplaceLabels { pr_number, labels } =>
                ReleasePrActionView::ReplaceLabels { pr_number: *pr_number, labels: texts_of(labels@) },
            ReleasePrAction::Fail(e) => ReleasePrActionView::Fail(e@),
            ReleasePrAction::Done => ReleasePrActionView::Done,
        }
    }
}

/// The step and action after a reply the current step does not expect.
pub open spec fn unexpected_reply() -> (ReleasePrStep, ReleasePrActionView) {
    (ReleasePrStep::Done, ReleasePrActionView::Fail(ErrorView::Other("unexpected reply from the forge"@)))
}

/// How a release branch's pull request is created or updated, one forge
/// reply at a time: first the branch's merged release pull request is
/// looked for, and one that is not tagged yet stops the run with a pending
/// release error; otherwise the release branch gets the file changes (the
/// pull request title being the commit message), the open release pull
/// request is updated with the title and body, or one is created from the
/// branch into the default branch, and the pull request is labelled as
/// pending. A reply that does not answer the last action ends the run with
/// an error.
pub open spec fn release_pr_transition(
    default_branch: Seq<char>,
    pr: BranchPrView,
    step: ReleasePrStep,
    event: ReleasePrEvent,
) -> (ReleasePrStep, ReleasePrActionView) {
    match step {
        ReleasePrStep::Start => (
            ReleasePrStep::CheckPending,
            ReleasePrActionView::GetMergedReleasePr { head_branch: pr.branch, base_branch: default_branch },
        ),
        ReleasePrStep::CheckPending => match event {
            ReleasePrEvent::MergedPr(Some(n)) => (
                ReleasePrStep::Done,
                ReleasePrActionView::Fail(ErrorView::PendingRelease { branch: pr.branch, pr_number: n }),
            ),
            ReleasePrEvent::MergedPr(None) => (
                ReleasePrStep::CreateBranch,
                ReleasePrActionView::CreateReleaseBranch {
                    branch: pr.branch,
                    message: pr.title,
                    file_changes: pr.file_changes,
                },
            ),
            _ => unexpected_reply(),
        },
        ReleasePrStep::CreateBranch => match event {
            ReleasePrEvent::BranchCreated => (
                ReleasePrStep::FindOpenPr,
                ReleasePrActionView::GetOpenReleasePr { head_branch: pr.branch, base_branch: default_branch },
            ),
            _ => unexpected_reply(),
        },
        ReleasePrStep::FindOpenPr => match event {
            ReleasePrEvent::OpenPr(Some(n)) => (
                ReleasePrStep::AwaitUpdate { pr_number: n },
                ReleasePrActionView::UpdatePr { pr_number: n, title: pr.title, body: pr.body },
            ),
            ReleasePrEvent::OpenPr(None) => (
                ReleasePrStep::AwaitCreate,
                ReleasePrActionView::CreatePr {
                    head_branch: pr.branch,
                    base_branch: default_branch,
                    title: pr.title,
                    body: pr.body,
                },
            ),
            _ => unexpected_reply(),
        },
        ReleasePrStep::AwaitUpdate { pr_number } => match event {
            ReleasePrEvent::PrUpdated => (
                ReleasePrStep::Labeling,
                ReleasePrActionView::ReplaceLabels { pr_number, labels: seq![PENDING_LABEL@] },
            ),
            _ => unexpected_reply(),
        },
        ReleasePrStep::AwaitCreate => match event {
            ReleasePrEvent::PrCreated(n) => (
                ReleasePrStep::Labeling,
                ReleasePrActionView::ReplaceLabels { pr_number: n, labels: seq![PENDING_LABEL@] },
            ),
            _ => unexpected_reply(),
        },
        ReleasePrStep::Labeling => match event {
            ReleasePrEvent::LabelsSet => (ReleasePrStep::Done, ReleasePrActionView::Done),
            _ => unexpected_reply(),
        },
        ReleasePrStep::Done => (ReleasePrStep::Done, ReleasePrActionView::Done),
    }
}

/// A copy of a list of file changes.
fn copy_changes(v: &Vec<FileChange>) -> (r: Vec<FileChange>)
    ensures
        changes_view(r@) == changes_view(v@),
{
    let mut out: Vec<FileChange> = Vec::new();
    let mut i: usize = 0;
    while i < v.len()
        invariant
            i <= v@.len(),
            changes_view(out@) == changes_view(v@).take(i as int),
        decreases v.len() - i,
    {
        let c = &v[i];
        let ghost before = out@;
        out.push(FileChange { content: c.content.clone(), path: c.path.clone(), update_type: c.update_type });
        assert(changes_view(out@) =~= changes_view(before).push(c@));
        assert(changes_view(v@).take(i + 1) =~= changes_view(v@).take(i as int).push(c@));
        i = i + 1;
    }
    assert(changes_view(v@).take(v@.len() as int) =~= changes_view(v@));
    out
}

/// The step and action after an unexpected reply.
fn unexpected() -> (r: (ReleasePrStep, ReleasePrAction))
    ensures
        (r.0, r.1@) == unexpected_reply(),
{
    (ReleasePrStep::Done, ReleasePrAction::Fail(ReleasaurusError::Other("unexpected reply from the forge".to_owned())))
}

/// The next step and forge action in creating or updating the pull request
/// `pr` of a release branch into `default_branch`, after the forge answered
/// `event` to the action of `step` (see [`release_pr_transition`]).
pub fn next_release_pr_action(
    default_branch: &str,
    pr: &BranchPr,
    step: ReleasePrStep,
    event: ReleasePrEvent,
) -> (r: (ReleasePrStep, ReleasePrAction))
    ensures
        (r.0, r.1@) == release_pr_transition(default_branch@, pr@, step, event),
{
    match step {
        ReleasePrStep::Start => (
            ReleasePrStep::CheckPending,
            ReleasePrAction::GetMergedReleasePr { head_branch: pr.branch.clone(), base_branch: default_branch.to_owned() },
        ),
        ReleasePrStep::CheckPending => match event {
            ReleasePrEvent::MergedPr(Some(n)) => (
                ReleasePrStep::Done,
                ReleasePrAction::Fail(ReleasaurusError::PendingRelease { branch: pr.branch.clone(), pr_number: n }),
            ),
            ReleasePrEvent::MergedPr(None) => (
                ReleasePrStep::CreateBranch,
                ReleasePrAction::CreateReleaseBranch {
                    branch: pr.branch.clone(),
                    message: pr.title.clone(),
                    file_changes: copy_changes(&pr.file_changes),
                },
            ),
            _ => unexpected(),
        },
        ReleasePrStep::CreateBranch => match event {
            ReleasePrEvent::BranchCreated => (
                ReleasePrStep::FindOpenPr,
                ReleasePrAction::GetOpenReleasePr { head_branch: pr.branch.clone(), base_branch: default_branch.to_owned() },
            ),
            _ => unexpected(),
        },
        ReleasePrStep::FindOpenPr => match event {
            ReleasePrEvent::OpenPr(Some(n)) => (
                ReleasePrStep::AwaitUpdate { pr_number: n },
                ReleasePrAction::UpdatePr { pr_number: n, title: pr.title.clone(), body: pr.body.clone() },
            ),
            ReleasePrEvent::OpenPr(None) => (
                ReleasePrStep::AwaitCreate,
                ReleasePrAction::CreatePr {
                    head_branch: pr.branch.clone(),
                    base_branch: default_branch.to_owned(),
                    title: pr.title.clone(),
                    body: pr.body.clone(),
                },
            ),
            _ => unexpected(),
        },
        ReleasePrStep::AwaitUpdate { pr_number } => match event {
            ReleasePrEvent::PrUpdated => (
                ReleasePrStep::Labeling,
                ReleasePrAction::ReplaceLabels { pr_number, labels: pending_labels() },
            ),
            _ => unexpected(),
        },
        ReleasePrStep::AwaitCreate => match event {
            ReleasePrEvent::PrCreated(n) => (
                ReleasePrStep::Labeling,
                ReleasePrAction::ReplaceLabels { pr_number: n, labels: pending_labels() },
            ),
            _ => unexpected(),
        },
        ReleasePrStep::Labeling => match event {
            ReleasePrEvent::LabelsSet => (ReleasePrStep::Done, ReleasePrAction::Done),
            _ => unexpected(),
        },
        ReleasePrStep::Done => (ReleasePrStep::Done, ReleasePrAction::Done),
    }
}

/// The labels of a pending release pull request.
fn pending_labels() -> (r: Vec<String>)
    ensures
        texts_of(r@) == seq![PENDING_LABEL@],
{
    let mut v: Vec<String> = Vec::new();
    v.push(PENDING_LABEL.to_owned());
    assert(texts_of(v@) =~= seq![PENDING_LABEL@]);
    v
}

} // verus!
