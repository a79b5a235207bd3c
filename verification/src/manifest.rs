//! Manifest version files of a package: which files are looked for, and
//! the files found.

use vstd::prelude::*;

use crate::config::{PackageConfig, ReleaseType};
use crate::error::{ErrorView, ReleasaurusError};
use crate::paths::{file_name, file_name_of, join_path, path_join, replace_all, replace_str};
use crate::resolver::{manifest_of, package_manifests};
use crate::text::concat;

verus! {

/// A manifest file and its current content.
#[derive(Debug, Clone, PartialEq, Eq)]
pub struct ManifestFile {
    /// Whether the file is a workspace manifest.
    pub is_workspace: bool,
    /// Repository path of the file.
    pub file_path: String,
    /// Base name of the file path.
    pub file_basename: String,
    /// Current content of the file.
    pub content: String,
}

/// The content of a manifest file.
pub struct ManifestFileView {
    pub is_workspace: bool,
    pub file_path: Seq<char>,
    pub file_basename: Seq<char>,
    pub content: Seq<char>,
}

impl View for ManifestFile {
    type V = ManifestFileView;

    open spec fn view(&self) -> ManifestFileView {
        ManifestFileView {
            is_workspace: self.is_workspace,
            file_path: self.file_path@,
            file_basename: self.file_basename@,
            content: self.content@,
        }
    }
}

/// A manifest file to look for.
#[derive(Debug, Clone)]
pub struct ManifestTarget {
    /// Repository path of the file.
    pub path: String,
    /// Base name recorded for the file.
    pub basename: String,
    /// Whether the file is a workspace manifest.
    pub is_workspace: bool,
}

impl View for ManifestTarget {
    type V = (Seq<char>, Seq<char>, bool);

    open spec fn view(&self) -> (Seq<char>, Seq<char>, bool) {
        (self.path@, self.basename@, self.is_workspace)
    }
}

/// The contents of a list of targets.
pub open spec fn targets_view(v: Seq<ManifestTarget>) -> Seq<(Seq<char>, Seq<char>, bool)> {
    v.map_values(|t: ManifestTarget| t@)
}

/// `s` without any `./`.
pub open spec fn without_dot_slash(s: Seq<char>) -> Seq<char> {
    replace_all(s, seq!['.', '/'], Seq::empty())
}

/// `s` without any `./`.
fn strip_dot_slash(s: &str) -> (r: String)
    ensures
        r@ == without_dot_slash(s@),
{
    let dot_slash = crate::text::string_of_range(&['.', '/'], 0, 2);
    assert(dot_slash@ =~= seq!['.', '/']);
    let nothing = String::new();
    replace_str(s, dot_slash.as_str(), nothing.as_str())
}

/// Repository path of `file` in the package directory.
pub open spec fn spec_gen_package_path(workspace_root: Seq<char>, path: Seq<char>, file: Seq<char>) -> Seq<char> {
    without_dot_slash(path_join(path_join(workspace_root, path), file))
}

/// Repository path of `file` in the package's workspace root.
pub open spec fn spec_gen_workspace_path(workspace_root: Seq<char>, file: Seq<char>) -> Seq<char> {
    without_dot_slash(path_join(workspace_root, file))
}

/// Repository path of `file` in the package directory.
pub fn gen_package_path(package: &PackageConfig, file: &str) -> (r: String)
    ensures
        r@ == spec_gen_package_path(package.workspace_root@, package.path@, file@),
{
    let dir = join_path(package.workspace_root.as_str(), package.path.as_str());
    let full = join_path(dir.as_str(), file);
    strip_dot_slash(full.as_str())
}

/// Repository path of `file` in the package's workspace root.
pub fn gen_workspace_path(package: &PackageConfig, file: &str) -> (r: String)
    ensures
        r@ == spec_gen_workspace_path(package.workspace_root@, file@),
{
    let full = join_path(package.workspace_root.as_str(), file);
    strip_dot_slash(full.as_str())
}

/// A target in the package directory.
fn package_target(package: &PackageConfig, file: &str, basename: &str) -> (r: ManifestTarget)
    ensures
        r@ == (spec_gen_package_path(package.workspace_root@, package.path@, file@), basename@, false),
{
    ManifestTarget { path: gen_package_path(package, file), basename: basename.to_owned(), is_workspace: false }
}

/// A target in the package's workspace root.
fn workspace_target(package: &PackageConfig, file: &str) -> (r: ManifestTarget)
    ensures
        r@ == (spec_gen_workspace_path(package.workspace_root@, file@), file@, true),
{
    ManifestTarget { path: gen_workspace_path(package, file), basename: file.to_owned(), is_workspace: true }
}

/// The manifests of a Java package.
pub struct JavaManifestLoader {}

/// The manifests of a Node package.
pub struct NodeManifestLoader {}

/// The manifests of a PHP package.
pub struct PhpManifestLoader {}

/// The manifests of a Ruby package.
pub struct RubyManifestLoader {}

/// The Java manifest targets: Gradle build files (also under `lib/`),
/// `gradle.properties` and `pom.xml`.
pub open spec fn java_targets(ws: Seq<char>, path: Seq<char>) -> Seq<(Seq<char>, Seq<char>, bool)> {
    seq![
        (spec_gen_package_path(ws, path, "build.gradle"@), "build.gradle"@, false),
        (spec_gen_package_path(ws, path, "lib/build.gradle"@), "build.gradle"@, false),
        (spec_gen_package_path(ws, path, "build.gradle.kts"@), "build.gradle.kts"@, false),
        (spec_gen_package_path(ws, path, "lib/build.gradle.kts"@), "build.gradle.kts"@, false),
        (spec_gen_package_path(ws, path, "gradle.properties"@), "gradle.properties"@, false),
        (spec_gen_package_path(ws, path, "pom.xml"@), "pom.xml"@, false),
    ]
}

/// The Node manifest targets: `package.json` and the lock files of the
/// package, and the workspace lock files when the package sits at its
/// workspace root.
pub open spec fn node_targets(ws: Seq<char>, path: Seq<char>) -> Seq<(Seq<char>, Seq<char>, bool)> {
    let own = seq![
        (spec_gen_package_path(ws, path, "package.json"@), "package.json"@, false),
        (spec_gen_package_path(ws, path, "package-lock.json"@), "package-lock.json"@, false),
        (spec_gen_package_path(ws, path, "yarn.lock"@), "yarn.lock"@, false),
    ];
    if spec_gen_package_path(ws, path, "package.json"@) == spec_gen_workspace_path(ws, "package.json"@) {
        own + seq![
            (spec_gen_workspace_path(ws, "package-lock.json"@), "package-lock.json"@, true),
            (spec_gen_workspace_path(ws, "yarn.lock"@), "yarn.lock"@, true),
        ]
    } else {
        own
    }
}

/// The PHP manifest targets: `composer.json`.
pub open spec fn php_targets(ws: Seq<char>, path: Seq<char>) -> Seq<(Seq<char>, Seq<char>, bool)> {
    seq![(spec_gen_package_path(ws, path, "composer.json"@), "composer.json"@, false)]
}

/// The Ruby manifest targets: the package's gemspec and its version files.
pub open spec fn ruby_targets(ws: Seq<char>, path: Seq<char>, name: Seq<char>) -> Seq<(Seq<char>, Seq<char>, bool)> {
    seq![
        (spec_gen_package_path(ws, path, name + ".gemspec"@), name + ".gemspec"@, false),
        (spec_gen_package_path(ws, path, "lib/"@ + name + "/version.rb"@), "version.rb"@, false),
        (spec_gen_package_path(ws, path, "lib/version.rb"@), "version.rb"@, false),
        (spec_gen_package_path(ws, path, "version.rb"@), "version.rb"@, false),
    ]
}

impl JavaManifestLoader {
    /// The manifest files looked for in a Java package.
    pub fn targets(package: &PackageConfig) -> (r: Vec<ManifestTarget>)
        ensures
            targets_view(r@) == java_targets(package.workspace_root@, package.path@),
    {
        let mut v: Vec<ManifestTarget> = Vec::new();
        v.push(package_target(package, "build.gradle", "build.gradle"));
        v.push(package_target(package, "lib/build.gradle", "build.gradle"));
        v.push(package_target(package, "build.gradle.kts", "build.gradle.kts"));
        v.push(package_target(package, "lib/build.gradle.kts", "build.gradle.kts"));
        v.push(package_target(package, "gradle.properties", "gradle.properties"));
        v.push(package_target(package, "pom.xml", "pom.xml"));
        assert(targets_view(v@) =~= java_targets(package.workspace_root@, package.path@));
        v
    }
}

impl NodeManifestLoader {
    /// The manifest files looked for in a Node package.
    pub fn targets(package: &PackageConfig) -> (r: Vec<ManifestTarget>)
        ensures
            targets_view(r@) == node_targets(package.workspace_root@, package.path@),
    {
        let pkg_json = gen_package_path(package, "package.json");
        let ws_json = gen_workspace_path(package, "package.json");
        let mut v: Vec<ManifestTarget> = Vec::new();
        v.push(package_target(package, "package.json", "package.json"));
        v.push(package_target(package, "package-lock.json", "package-lock.json"));
        v.push(package_target(package, "yarn.lock", "yarn.lock"));
        if crate::text::str_eq(pkg_json.as_str(), ws_json.as_str()) {
            v.push(workspace_target(package, "package-lock.json"));
            v.push(workspace_target(package, "yarn.lock"));
        }
        assert(targets_view(v@) =~= node_targets(package.workspace_root@, package.path@));
        v
    }
}

impl PhpManifestLoader {
    /// The manifest files looked for in a PHP package.
    pub fn targets(package: &PackageConfig) -> (r: Vec<ManifestTarget>)
        ensures
            targets_view(r@) == php_targets(package.workspace_root@, package.path@),
    {
        let mut v: Vec<ManifestTarget> = Vec::new();
        v.push(package_target(package, "composer.json", "composer.json"));
        assert(targets_view(v@) =~= php_targets(package.workspace_root@, package.path@));
        v
    }
}

impl RubyManifestLoader {
    /// The manifest files looked for in a Ruby package.
    pub fn targets(package: &PackageConfig) -> (r: Vec<ManifestTarget>)
        ensures
            targets_view(r@) == ruby_targets(package.workspace_root@, package.path@, package.name@),
    {
        let gemspec = concat(package.name.as_str(), ".gemspec");
        let lib_dir = concat("lib/", package.name.as_str());
        let lib_version = concat(lib_dir.as_str(), "/version.rb");
        let mut v: Vec<ManifestTarget> = Vec::new();
        v.push(package_target(package, gemspec.as_str(), gemspec.as_str()));
        v.push(package_target(package, lib_version.as_str(), "version.rb"));
        v.push(package_target(package, "lib/version.rb", "version.rb"));
        v.push(package_target(package, "version.rb", "version.rb"));
        assert(targets_view(v@) =~= ruby_targets(package.workspace_root@, package.path@, package.name@));
        v
    }
}

/// The manifest files looked for for a package's release type; none for
/// generic packages, packages without a release type, and the release
/// types whose manifests are not read here.
pub open spec fn release_type_targets(package: PackageConfig) -> Seq<(Seq<char>, Seq<char>, bool)> {
    type_targets(package.release_type, package.workspace_root@, package.path@, package.name@)
}

/// The manifest files looked for for a release type, in the package at
/// `path` of the workspace `ws`, named `name`.
pub open spec fn type_targets(
    release_type: Option<ReleaseType>,
    ws: Seq<char>,
    path: Seq<char>,
    name: Seq<char>,
) -> Seq<(Seq<char>, Seq<char>, bool)> {
    match release_type {
        Some(ReleaseType::Java) => java_targets(ws, path),
        Some(ReleaseType::Node) => node_targets(ws, path),
        Some(ReleaseType::Php) => php_targets(ws, path),
        Some(ReleaseType::Ruby) => ruby_targets(ws, path, name),
        _ => Seq::empty(),
    }
}

/// The manifest files looked for for a package's release type.
pub fn release_type_manifest_targets(package: &PackageConfig) -> (r: Vec<ManifestTarget>)
    ensures
        targets_view(r@) == release_type_targets(*package),
{
    match package.release_type {
        Some(ReleaseType::Java) => JavaManifestLoader::targets(package),
        Some(ReleaseType::Node) => NodeManifestLoader::targets(package),
        Some(ReleaseType::Php) => PhpManifestLoader::targets(package),
        Some(ReleaseType::Ruby) => RubyManifestLoader::targets(package),
        _ => {
            let v: Vec<ManifestTarget> = Vec::new();
            assert(targets_view(v@) =~= Seq::<(Seq<char>, Seq<char>, bool)>::empty());
            v
        },
    }
}

/// The targets of a package's additional manifests, or the error for the
/// first whose path has no final name.
pub open spec fn additional_targets(package: PackageConfig) -> Result<Seq<(Seq<char>, Seq<char>, bool)>, ErrorView> {
    additional_targets_of(package.workspace_root@, package.path@, package_manifests(package))
}

/// The targets of additional manifests (as paths and regexes) of a package
/// directory.
pub open spec fn additional_targets_of(ws: Seq<char>, path: Seq<char>, ms: Seq<(Seq<char>, Seq<char>)>) -> Result<Seq<(Seq<char>, Seq<char>, bool)>, ErrorView>
    decreases ms.len(),
{
    if ms.len() == 0 {
        Ok(Seq::empty())
    } else {
        let full = spec_gen_package_path(ws, path, ms[0].0);
        match file_name(full) {
            None => Err(ErrorView::Other("unable to determine manifest basename from path: "@ + full)),
            Some(base) => match additional_targets_of(ws, path, ms.drop_first()) {
                Ok(rest) => Ok(seq![(full, base, false)] + rest),
                Err(e) => Err(e),
            },
        }
    }
}

/// The manifest files looked for for a package's additional manifests.
pub fn additional_manifest_targets(package: &PackageConfig) -> (r: Result<Vec<ManifestTarget>, ReleasaurusError>)
    ensures
        match r {
            Ok(v) => additional_targets(*package) == Ok::<Seq<(Seq<char>, Seq<char>, bool)>, ErrorView>(targets_view(v@)),
            Err(e) => additional_targets(*package) == Err::<Seq<(Seq<char>, Seq<char>, bool)>, ErrorView>(e@),
        },
{
    let ghost ms = package_manifests(*package);
    let ghost ws = package.workspace_root@;
    let ghost path = package.path@;
    let mut out: Vec<ManifestTarget> = Vec::new();
    match &package.additional_manifest_files {
        None => {
            assert(targets_view(out@) =~= Seq::<(Seq<char>, Seq<char>, bool)>::empty());
            return Ok(out);
        },
        Some(list) => {
            let mut i: usize = 0;
            assert(ms.subrange(0, ms.len() as int) =~= ms);
            assert(targets_view(out@) =~= Seq::<(Seq<char>, Seq<char>, bool)>::empty());
            proof {
                match additional_targets_of(ws, path, ms) {
                    Ok(r0) => {
                        assert(targets_view(out@) + r0 =~= r0);
                    },
                    Err(_) => {},
                }
            }
            while i < list.len()
                invariant
                    i <= list@.len(),
                    package.additional_manifest_files == Some(*list),
                    ms == package_manifests(*package),
                    ws == package.workspace_root@,
                    path == package.path@,
                    ms == list@.map_values(|s: crate::config::AdditionalManifestSpec| manifest_of(s)),
                    additional_targets_of(ws, path, ms) == match additional_targets_of(ws, path, ms.subrange(i as int, ms.len() as int)) {
                        Ok(rest) => Ok::<Seq<(Seq<char>, Seq<char>, bool)>, ErrorView>(targets_view(out@) + rest),
                        Err(e) => Err(e),
                    },
                decreases list.len() - i,
            {
                let ghost rest = ms.subrange(i as int, ms.len() as int);
                assert(rest[0] == manifest_of(list@[i as int]));
                assert(rest.drop_first() =~= ms.subrange(i + 1, ms.len() as int));
                let file = match &list[i] {
                    crate::config::AdditionalManifestSpec::Path(p) => p.as_str(),
                    crate::config::AdditionalManifestSpec::Full(m) => m.path.as_str(),
                };
                let full = gen_package_path(package, file);
                let base = match file_name_of(full.as_str()) {
                    Some(b) => b,
                    None => {
                        return Err(ReleasaurusError::Other(
                            concat("unable to determine manifest basename from path: ", full.as_str()),
                        ));
                    },
                };
                let ghost before = targets_view(out@);
                out.push(ManifestTarget { path: full, basename: base, is_workspace: false });
                assert(targets_view(out@) =~= before.push(out@.last()@));
                proof {
                    match additional_targets_of(ws, path, rest.drop_first()) {
                        Ok(r2) => {
                            assert(before + (seq![out@.last()@] + r2) =~= targets_view(out@) + r2);
                        },
                        Err(_) => {},
                    }
                }
                i = i + 1;
            }
            assert(ms.subrange(ms.len() as int, ms.len() as int) =~= Seq::<(Seq<char>, Seq<char>)>::empty());
            assert(targets_view(out@) + Seq::<(Seq<char>, Seq<char>, bool)>::empty() =~= targets_view(out@));
            Ok(out)
        },
    }
}

/// The manifest files found: the targets whose content was read, in
/// order.
pub open spec fn found_manifests(targets: Seq<(Seq<char>, Seq<char>, bool)>, contents: Seq<Option<String>>) -> Seq<ManifestFileView>
    decreases targets.len(),
{
    if targets.len() == 0 || contents.len() == 0 {
        Seq::empty()
    } else {
        let prev = found_manifests(targets.drop_last(), contents.drop_last());
        match contents.last() {
            Some(c) => prev.push(
                ManifestFileView {
                    is_workspace: targets.last().2,
                    file_path: targets.last().0,
                    file_basename: targets.last().1,
                    content: c@,
                },
            ),
            None => prev,
        }
    }
}

/// The content of a list of manifest files.
pub open spec fn manifests_view(v: Seq<ManifestFile>) -> Seq<ManifestFileView> {
    v.map_values(|m: ManifestFile| m@)
}

/// The manifest files found for `targets`, given the content read for each
/// (`None` where the file does not exist); `None` when no file was found.
pub fn collect_manifests(targets: Vec<ManifestTarget>, contents: Vec<Option<String>>) -> (r: Option<Vec<ManifestFile>>)
    requires
        targets@.len() == contents@.len(),
    ensures
        match r {
            Some(v) => manifests_view(v@) == found_manifests(targets_view(targets@), contents@) && v@.len() > 0,
            None => found_manifests(targets_view(targets@), contents@).len() == 0,
        },
{
    let ghost tv = targets_view(targets@);
    let mut out: Vec<ManifestFile> = Vec::new();
    let mut i: usize = 0;
    assert(tv.take(0) =~= Seq::<(Seq<char>, Seq<char>, bool)>::empty());
    while i < targets.len()
        invariant
            i <= targets@.len(),
            targets@.len() == contents@.len(),
            tv == targets_view(targets@),
            manifests_view(out@) == found_manifests(tv.take(i as int), contents@.take(i as int)),
        decreases targets.len() - i,
    {
        assert(tv.take(i + 1).drop_last() =~= tv.take(i as int));
        assert(contents@.take(i + 1).drop_last() =~= contents@.take(i as int));
        assert(tv.take(i + 1).last() == targets@[i as int]@);
        assert(contents@.take(i + 1).last() == contents@[i as int]);
        match &contents[i] {
            Some(c) => {
                let ghost before = manifests_view(out@);
                out.push(ManifestFile {
                    is_workspace: targets[i].is_workspace,
                    file_path: targets[i].path.clone(),
                    file_basename: targets[i].basename.clone(),
                    content: c.clone(),
                });
                assert(manifests_view(out@) =~= before.push(out@.last()@));
            },
            None => {},
        }
        i = i + 1;
    }
    assert(tv.take(tv.len() as int) =~= tv);
    assert(contents@.take(contents@.len() as int) =~= contents@);
    if out.len() == 0 {
        None
    } else {
        Some(out)
    }
}

/// `r` is what loading `targets` can give: on success, the found files
/// for some content read for each target (`None` when there is no file),
/// and `None` exactly when no file was found.
pub open spec fn loaded_from(
    r: Result<Option<Vec<ManifestFile>>, ReleasaurusError>,
    targets: Seq<(Seq<char>, Seq<char>, bool)>,
) -> bool {
    r matches Ok(o) ==> found_in(o, targets)
}

/// `o` is what looking for `targets` can find: the found files for some
/// content read for each target, and `None` exactly when no file was found.
pub open spec fn found_in(o: Option<Vec<ManifestFile>>, targets: Seq<(Seq<char>, Seq<char>, bool)>) -> bool {
    &&& (o matches Some(v) ==> v@.len() > 0 && exists|contents: Seq<Option<String>>|
        #![trigger found_manifests(targets, contents)]
        contents.len() == targets.len() && manifests_view(v@) == found_manifests(targets, contents))
    &&& (o is None ==> exists|contents: Seq<Option<String>>|
        #![trigger found_manifests(targets, contents)]
        contents.len() == targets.len() && found_manifests(targets, contents).len() == 0)
}

/// A source of file content: a forge, a local checkout, a test double.
pub trait FileLoader {
    /// The content of the file at `path` (relative to the repository root)
    /// on `branch`, the default branch when `None`; `Ok(None)` when the
    /// file does not exist.
    fn load_file(&self, branch: Option<String>, path: String) -> Result<Option<String>, ReleasaurusError>;
}

/// The manifest files among `targets` that `loader` finds on `branch`: each
/// target is loaded in order, a load error stops the search, and the found
/// files keep the targets' order, paths and kinds with the loaded content.
pub fn load_manifest_targets<L: FileLoader>(
    loader: &L,
    branch: Option<String>,
    targets: Vec<ManifestTarget>,
) -> (r: Result<Option<Vec<ManifestFile>>, ReleasaurusError>)
    ensures
        loaded_from(r, targets_view(targets@)),
        targets@.len() == 0 ==> r matches Ok(None),
{
    let mut contents: Vec<Option<String>> = Vec::new();
    let mut i: usize = 0;
    while i < targets.len()
        invariant
            i <= targets@.len(),
            contents@.len() == i,
        decreases targets.len() - i,
    {
        let b = match &branch {
            Some(name) => Some(name.clone()),
            None => None,
        };
        let content = loader.load_file(b, targets[i].path.clone())?;
        contents.push(content);
        i = i + 1;
    }
    let ghost tv = targets_view(targets@);
    let ghost cv = contents@;
    assert(tv.len() == targets@.len());
    let found = collect_manifests(targets, contents);
    proof {
        if tv.len() == 0 {
            assert(found_manifests(tv, cv).len() == 0);
            assert(found is None);
        }
    }
    Ok(found)
}

impl JavaManifestLoader {
    /// The Java manifest files of a package that `loader` finds on the
    /// default branch.
    pub fn load_manifests<L: FileLoader>(loader: &L, pkg: &PackageConfig) -> (r: Result<Option<Vec<ManifestFile>>, ReleasaurusError>)
        ensures
            loaded_from(r, java_targets(pkg.workspace_root@, pkg.path@)),
    {
        load_manifest_targets(loader, None, Self::targets(pkg))
    }
}

impl NodeManifestLoader {
    /// The Node manifest files of a package that `loader` finds on the
    /// default branch.
    pub fn load_manifests<L: FileLoader>(loader: &L, pkg: &PackageConfig) -> (r: Result<Option<Vec<ManifestFile>>, ReleasaurusError>)
        ensures
            loaded_from(r, node_targets(pkg.workspace_root@, pkg.path@)),
    {
        load_manifest_targets(loader, None, Self::targets(pkg))
    }
}

impl PhpManifestLoader {
    /// The PHP manifest files of a package that `loader` finds on the
    /// default branch.
    pub fn load_manifests<L: FileLoader>(loader: &L, pkg: &PackageConfig) -> (r: Result<Option<Vec<ManifestFile>>, ReleasaurusError>)
        ensures
            loaded_from(r, php_targets(pkg.workspace_root@, pkg.path@)),
    {
        load_manifest_targets(loader, None, Self::targets(pkg))
    }
}

impl RubyManifestLoader {
    /// The Ruby manifest files of a package that `loader` finds on the
    /// default branch.
    pub fn load_manifests<L: FileLoader>(loader: &L, pkg: &PackageConfig) -> (r: Result<Option<Vec<ManifestFile>>, ReleasaurusError>)
        ensures
            loaded_from(r, ruby_targets(pkg.workspace_root@, pkg.path@, pkg.name@)),
    {
        load_manifest_targets(loader, None, Self::targets(pkg))
    }
}

/// The manifest files of a package's release type that `loader` finds on
/// the default branch.
pub fn load_release_type_manifests_for_package<L: FileLoader>(
    loader: &L,
    pkg: &PackageConfig,
) -> (r: Result<Option<Vec<ManifestFile>>, ReleasaurusError>)
    ensures
        loaded_from(r, release_type_targets(*pkg)),
        release_type_targets(*pkg).len() == 0 ==> r matches Ok(None),
{
    load_manifest_targets(loader, None, release_type_manifest_targets(pkg))
}

/// The additional manifest files of a package that `loader` finds on the
/// default branch; the error of the first manifest path without a final
/// name.
pub fn load_additional_manifests_for_package<L: FileLoader>(
    loader: &L,
    pkg: &PackageConfig,
) -> (r: Result<Option<Vec<ManifestFile>>, ReleasaurusError>)
    ensures
        additional_targets(*pkg) matches Err(e) ==> r matches Err(x) && x@ == e,
        additional_targets(*pkg) matches Ok(t) ==> loaded_from(r, t),
{
    let targets = additional_manifest_targets(pkg)?;
    load_manifest_targets(loader, None, targets)
}

} // verus!
