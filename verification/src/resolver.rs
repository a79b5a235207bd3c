//! Configuration resolution: the raw configuration of `releasaurus.toml`
//! turned into fully resolved per-package settings.
//!
//! Precedence, highest first: package command line overrides, global
//! command line overrides, package settings of the file, global settings of
//! the file, repository defaults, built-in defaults.

use vstd::prelude::*;

use crate::analyzer_config::AnalyzerConfig;
use crate::cli::{spec_validate_sha, validate_sha, CommitModifiers, GlobalOverrides, ModifiersView, OverridesView, PackageOverrides};
use crate::config::{
    clone_opt, opt_view, AdditionalManifestSpec, ChangelogConfig, CompiledAdditionalManifest, Config,
    PackageConfig, PrereleaseConfig, PrereleaseStrategy, RewordedCommit, SubPackage, GENERIC_VERSION_REGEX_PATTERN,
    rewords_view, reword_shas_view, strings_view,
};
use crate::error::{spec_message, ErrorView, ReleasaurusError};
use crate::forge::clone_strings;
use crate::paths::{file_name, file_name_of, join_path, path_join};
use crate::pattern::{regex_error_text, spec_regex_capture_names, spec_regex_valid, RegexMatcher};
use crate::text::{concat, str_eq, trim, trim_str};

verus! {

/// The name of a package: its configured name, else the final name of its
/// path under the workspace root, else the repository name.
pub open spec fn resolved_name(name: Seq<char>, workspace_root: Seq<char>, path: Seq<char>, repo: Seq<char>) -> Seq<char> {
    if name.len() > 0 {
        name
    } else {
        match file_name(path_join(workspace_root, path)) {
            Some(n) => n,
            None => repo,
        }
    }
}

/// The tag prefix of a package: its configured prefix, else `v` for a
/// package at the repository root and `<name>-v` for any other.
pub open spec fn resolved_tag_prefix(
    tag_prefix: Option<Seq<char>>,
    workspace_root: Seq<char>,
    path: Seq<char>,
    name: Seq<char>,
) -> Seq<char> {
    match tag_prefix {
        Some(p) => p,
        None => if workspace_root != "."@ || path != "."@ {
            name + "-v"@
        } else {
            "v"@
        },
    }
}

/// Extracts a package's name from its path, using the repository name for
/// a package at the root.
pub fn derive_package_name(package: &PackageConfig, repo_name: &str) -> (r: String)
    ensures
        r@ == resolved_name(package.name@, package.workspace_root@, package.path@, repo_name@),
{
    if !package.name.as_str().is_empty() {
        return package.name.clone();
    }
    let joined = join_path(package.workspace_root.as_str(), package.path.as_str());
    match file_name_of(joined.as_str()) {
        Some(n) => n,
        None => repo_name.to_owned(),
    }
}

/// The tag prefix of a package given its resolved name.
fn tag_prefix_for(tag_prefix: &Option<String>, workspace_root: &str, path: &str, name: &str) -> (r: String)
    ensures
        r@ == resolved_tag_prefix(opt_view(*tag_prefix), workspace_root@, path@, name@),
{
    match tag_prefix {
        Some(p) => p.clone(),
        None => {
            if !str_eq(workspace_root, ".") || !str_eq(path, ".") {
                concat(name, "-v")
            } else {
                "v".to_owned()
            }
        },
    }
}

/// The tag prefix of a package: its configured prefix or the default for
/// its location.
pub fn get_tag_prefix(package: &PackageConfig, repo_name: &str) -> (r: String)
    ensures
        r@ == resolved_tag_prefix(
            opt_view(package.tag_prefix),
            package.workspace_root@,
            package.path@,
            resolved_name(package.name@, package.workspace_root@, package.path@, repo_name@),
        ),
        package.tag_prefix is None && package.workspace_root@ == "."@ && package.path@ == "."@ ==> r@ == "v"@,
        package.tag_prefix is None && !(package.workspace_root@ == "."@ && package.path@ == "."@) ==> r@
            == resolved_name(package.name@, package.workspace_root@, package.path@, repo_name@) + "-v"@,
{
    let name = derive_package_name(package, repo_name);
    tag_prefix_for(&package.tag_prefix, package.workspace_root.as_str(), package.path.as_str(), name.as_str())
}

/// The message of the first SHA of `shas` that fails validation.
pub open spec fn first_invalid_sha(shas: Seq<Seq<char>>) -> Option<Seq<char>>
    decreases shas.len(),
{
    if shas.len() == 0 {
        None
    } else {
        match spec_validate_sha(shas[0]) {
            Err(e) => Some(spec_message(e)),
            Ok(_) => first_invalid_sha(shas.drop_first()),
        }
    }
}

/// The content of an optional list of strings.
pub open spec fn opt_strings_view(o: Option<Vec<String>>) -> Option<Seq<Seq<char>>> {
    match o {
        Some(v) => Some(strings_view(v@)),
        None => None,
    }
}

/// The content of an optional list of reworded commits.
pub open spec fn opt_rewords_view(o: Option<Vec<RewordedCommit>>) -> Option<Seq<(Seq<char>, Seq<char>)>> {
    match o {
        Some(v) => Some(rewords_view(v@)),
        None => None,
    }
}

/// The commit modifiers in effect: those of the command line, else those
/// of the changelog settings, whose SHAs must then be valid.
pub open spec fn spec_resolved_modifiers(cli: CommitModifiers, changelog: ChangelogConfig) -> Result<ModifiersView, ErrorView> {
    let skip: Result<Seq<Seq<char>>, ErrorView> = if cli.skip_shas@.len() > 0 {
        Ok(cli@.skip_shas)
    } else {
        match changelog.skip_shas {
            Some(list) => match first_invalid_sha(strings_view(list@)) {
                Some(m) => Err(ErrorView::InvalidConfig("Invalid SHA in changelog.skip_shas: "@ + m)),
                None => Ok(strings_view(list@)),
            },
            None => Ok(Seq::empty()),
        }
    };
    match skip {
        Err(e) => Err(e),
        Ok(skip_shas) => {
            let reword: Result<Seq<(Seq<char>, Seq<char>)>, ErrorView> = if cli.reword@.len() > 0 {
                Ok(cli@.reword)
            } else {
                match changelog.reword {
                    Some(list) => match first_invalid_sha(reword_shas_view(list@)) {
                        Some(m) => Err(ErrorView::InvalidConfig("Invalid SHA in changelog.reword: "@ + m)),
                        None => Ok(rewords_view(list@)),
                    },
                    None => Ok(Seq::empty()),
                }
            };
            match reword {
                Err(e) => Err(e),
                Ok(reword) => Ok(ModifiersView { skip_shas, reword }),
            }
        },
    }
}

/// The message of the first invalid SHA, validating each in order.
fn check_shas(shas: &Vec<String>) -> (r: Option<String>)
    ensures
        opt_view(r) == first_invalid_sha(strings_view(shas@)),
{
    let ghost all = strings_view(shas@);
    let mut i: usize = 0;
    assert(all.subrange(0, all.len() as int) =~= all);
    while i < shas.len()
        invariant
            i <= shas@.len(),
            all == strings_view(shas@),
            first_invalid_sha(all) == first_invalid_sha(all.subrange(i as int, all.len() as int)),
        decreases shas.len() - i,
    {
        let ghost rest = all.subrange(i as int, all.len() as int);
        assert(rest[0] == shas@[i as int]@);
        match validate_sha(shas[i].as_str()) {
            Err(e) => {
                return Some(e.message());
            },
            Ok(_) => {},
        }
        assert(rest.drop_first() =~= all.subrange(i + 1, all.len() as int));
        i = i + 1;
    }
    assert(all.subrange(all.len() as int, all.len() as int) =~= Seq::<Seq<char>>::empty());
    None
}

/// The SHAs of a list of reworded commits.
fn reword_shas(list: &Vec<RewordedCommit>) -> (r: Vec<String>)
    ensures
        strings_view(r@) == reword_shas_view(list@),
{
    let mut out: Vec<String> = Vec::new();
    let mut i: usize = 0;
    while i < list.len()
        invariant
            i <= list@.len(),
            out@.len() == i,
            forall|j: int| 0 <= j < i ==> (#[trigger] out@[j])@ == list@[j].sha@,
        decreases list.len() - i,
    {
        out.push(list[i].sha.clone());
        i = i + 1;
    }
    assert(strings_view(out@) =~= reword_shas_view(list@));
    out
}

/// A copy of a list of reworded commits.
fn copy_rewords(list: &Vec<RewordedCommit>) -> (r: Vec<RewordedCommit>)
    ensures
        rewords_view(r@) == rewords_view(list@),
{
    let mut out: Vec<RewordedCommit> = Vec::new();
    let mut i: usize = 0;
    while i < list.len()
        invariant
            i <= list@.len(),
            out@.len() == i,
            forall|j: int| 0 <= j < i ==> (#[trigger] out@[j])@ == list@[j]@,
        decreases list.len() - i,
    {
        out.push(list[i].duplicate());
        i = i + 1;
    }
    assert(rewords_view(out@) =~= rewords_view(list@));
    out
}

/// The commit modifiers in effect for a command line and changelog
/// settings.
fn resolve_commit_modifiers(cli: &CommitModifiers, changelog: &ChangelogConfig) -> (r: Result<CommitModifiers, ReleasaurusError>)
    ensures
        match r {
            Ok(m) => spec_resolved_modifiers(*cli, *changelog) == Ok::<ModifiersView, ErrorView>(m@),
            Err(e) => spec_resolved_modifiers(*cli, *changelog) == Err::<ModifiersView, ErrorView>(e@),
        },
{
    let skip_shas = if cli.skip_shas.len() > 0 {
        let s = clone_strings(&cli.skip_shas);
        assert(strings_view(s@) =~= cli@.skip_shas);
        s
    } else {
        match &changelog.skip_shas {
            Some(list) => {
                match check_shas(list) {
                    Some(m) => {
                        return Err(ReleasaurusError::invalid_config(concat("Invalid SHA in changelog.skip_shas: ", m.as_str())));
                    },
                    None => {},
                }
                let s = clone_strings(list);
                assert(strings_view(s@) =~= strings_view(list@));
                s
            },
            None => {
                let s: Vec<String> = Vec::new();
                assert(strings_view(s@) =~= Seq::<Seq<char>>::empty());
                s
            },
        }
    };
    let reword = if cli.reword.len() > 0 {
        copy_rewords(&cli.reword)
    } else {
        match &changelog.reword {
            Some(list) => {
                let shas = reword_shas(list);
                match check_shas(&shas) {
                    Some(m) => {
                        return Err(ReleasaurusError::invalid_config(concat("Invalid SHA in changelog.reword: ", m.as_str())));
                    },
                    None => {},
                }
                copy_rewords(list)
            },
            None => {
                let w: Vec<RewordedCommit> = Vec::new();
                assert(rewords_view(w@) =~= Seq::<(Seq<char>, Seq<char>)>::empty());
                w
            },
        }
    };
    let r = CommitModifiers { skip_shas, reword };
    assert(r@.skip_shas == strings_view(r.skip_shas@));
    assert(r@.reword == rewords_view(r.reword@));
    Ok(r)
}

/// The path and the version regex of an additional manifest entry.
pub open spec fn manifest_of(s: AdditionalManifestSpec) -> (Seq<char>, Seq<char>) {
    match s {
        AdditionalManifestSpec::Path(p) => (p@, GENERIC_VERSION_REGEX_PATTERN@),
        AdditionalManifestSpec::Full(m) => (
            m.path@,
            match m.version_regex {
                Some(re) => re@,
                None => GENERIC_VERSION_REGEX_PATTERN@,
            },
        ),
    }
}

/// The additional manifests of a package, as paths and version regexes.
pub open spec fn package_manifests(p: PackageConfig) -> Seq<(Seq<char>, Seq<char>)> {
    match p.additional_manifest_files {
        Some(v) => v@.map_values(|s: AdditionalManifestSpec| manifest_of(s)),
        None => Seq::empty(),
    }
}

/// Whether the regex compiled from `pattern` has a group named `version`.
pub open spec fn has_version_group(pattern: Seq<char>) -> bool {
    exists|i: int|
        0 <= i < spec_regex_capture_names(pattern).len() && #[trigger] spec_regex_capture_names(pattern)[i]
            == Some("version"@)
}

/// Why an additional manifest cannot be used, if it cannot: its regex must
/// compile and have a `version` group.
pub open spec fn manifest_error(path: Seq<char>, pattern: Seq<char>) -> Option<ErrorView> {
    if !spec_regex_valid(pattern) {
        Some(ErrorView::InvalidConfig(
            "Invalid regex pattern in additional_manifest_files for '"@ + path + "': "@ + regex_error_text(pattern),
        ))
    } else if !has_version_group(pattern) {
        Some(ErrorView::InvalidConfig(
            "Regex pattern for '"@ + path
                + "' must include a named capture group '(?<version>...)' to identify the version number to replace"@,
        ))
    } else {
        None
    }
}

/// The error of the first unusable manifest.
pub open spec fn first_manifest_error(ms: Seq<(Seq<char>, Seq<char>)>) -> Option<ErrorView>
    decreases ms.len(),
{
    if ms.len() == 0 {
        None
    } else {
        match manifest_error(ms[0].0, ms[0].1) {
            Some(e) => Some(e),
            None => first_manifest_error(ms.drop_first()),
        }
    }
}

/// A copy of an additional manifest entry.
fn copy_manifest_spec(s: &AdditionalManifestSpec) -> (r: AdditionalManifestSpec)
    ensures
        manifest_of(r) == manifest_of(*s),
{
    match s {
        AdditionalManifestSpec::Path(p) => AdditionalManifestSpec::Path(p.clone()),
        AdditionalManifestSpec::Full(m) => AdditionalManifestSpec::Full(
            crate::config::AdditionalManifest { path: m.path.clone(), version_regex: clone_opt(&m.version_regex) },
        ),
    }
}

/// Whether a regex has a capture group named `version`.
fn check_version_group(m: &RegexMatcher) -> (r: bool)
    ensures
        r == has_version_group(m.source()),
{
    let names = m.capture_names();
    let mut i: usize = 0;
    while i < names.len()
        invariant
            i <= names@.len(),
            names@.len() == spec_regex_capture_names(m.source()).len(),
            forall|j: int| 0 <= j < names@.len() ==> opt_view(#[trigger] names@[j]) == spec_regex_capture_names(m.source())[j],
            forall|j: int| 0 <= j < i ==> spec_regex_capture_names(m.source())[j] != Some("version"@),
        decreases names.len() - i,
    {
        assert(opt_view(names@[i as int]) == spec_regex_capture_names(m.source())[i as int]);
        match &names[i] {
            Some(n) => {
                if str_eq(n.as_str(), "version") {
                    return true;
                }
            },
            None => {},
        }
        i = i + 1;
    }
    false
}

/// Compiles a package's additional manifests.
fn compile_additional_manifests(specs: &Option<Vec<AdditionalManifestSpec>>) -> (r: Result<Vec<CompiledAdditionalManifest>, ReleasaurusError>)
    ensures
        ({
            let ms = match specs {
                Some(v) => v@.map_values(|s: AdditionalManifestSpec| manifest_of(s)),
                None => Seq::empty(),
            };
            &&& (r is Err <==> first_manifest_error(ms) is Some)
            &&& (r matches Err(e) ==> first_manifest_error(ms) == Some(e@))
            &&& (r matches Ok(v) ==> {
                &&& v@.len() == ms.len()
                &&& forall|i: int| 0 <= i < ms.len() ==> (#[trigger] v@[i]).path@ == ms[i].0 && v@[i].version_regex.source() == ms[i].1
            })
        }),
{
    let list = match specs {
        Some(v) => v,
        None => {
            return Ok(Vec::new());
        },
    };
    let ghost ms = list@.map_values(|s: AdditionalManifestSpec| manifest_of(s));
    let mut compiled: Vec<CompiledAdditionalManifest> = Vec::new();
    let mut i: usize = 0;
    assert(ms.subrange(0, ms.len() as int) =~= ms);
    while i < list.len()
        invariant
            i <= list@.len(),
            ms == list@.map_values(|s: AdditionalManifestSpec| manifest_of(s)),
            match specs {
                Some(v) => v@ == list@,
                None => false,
            },
            first_manifest_error(ms) == first_manifest_error(ms.subrange(i as int, ms.len() as int)),
            compiled@.len() == i,
            forall|j: int| 0 <= j < i ==> (#[trigger] compiled@[j]).path@ == ms[j].0 && compiled@[j].version_regex.source() == ms[j].1,
        decreases list.len() - i,
    {
        let ghost rest = ms.subrange(i as int, ms.len() as int);
        assert(rest[0] == manifest_of(list@[i as int]));
        let copied = copy_manifest_spec(&list[i]);
        let manifest = copied.into_manifest();
        assert(manifest.path@ == rest[0].0);
        let pattern = match &manifest.version_regex {
            Some(p) => p,
            None => {
                return Err(ReleasaurusError::invalid_config(concat3(
                    "Missing version_regex for additional_manifest_files entry '",
                    manifest.path.as_str(),
                    "'. This should not happen after spec conversion.",
                )));
            },
        };
        assert(pattern@ == rest[0].1);
        assert(first_manifest_error(rest) == match manifest_error(rest[0].0, rest[0].1) {
            Some(e) => Some(e),
            None => first_manifest_error(rest.drop_first()),
        });
        let matcher = match RegexMatcher::new(pattern.as_str()) {
            Ok(m) => m,
            Err(msg) => {
                let head = concat3("Invalid regex pattern in additional_manifest_files for '", manifest.path.as_str(), "': ");
                return Err(ReleasaurusError::invalid_config(concat(head.as_str(), msg.as_str())));
            },
        };
        if !check_version_group(&matcher) {
            return Err(ReleasaurusError::invalid_config(concat3(
                "Regex pattern for '",
                manifest.path.as_str(),
                "' must include a named capture group '(?<version>...)' to identify the version number to replace",
            )));
        }
        assert(rest.drop_first() =~= ms.subrange(i + 1, ms.len() as int));
        compiled.push(CompiledAdditionalManifest { path: manifest.path, version_regex: matcher });
        i = i + 1;
    }
    assert(ms.subrange(ms.len() as int, ms.len() as int) =~= Seq::<(Seq<char>, Seq<char>)>::empty());
    Ok(compiled)
}

/// `a`, `b` and `c` one after the other.
fn concat3(a: &str, b: &str, c: &str) -> (r: String)
    ensures
        r@ == a@ + b@ + c@,
{
    let ab = concat(a, b);
    concat(ab.as_str(), c)
}

/// The content of an optional prerelease configuration.
pub open spec fn prerelease_view(o: Option<PrereleaseConfig>) -> Option<(Option<Seq<char>>, PrereleaseStrategy)> {
    match o {
        Some(p) => Some((opt_view(p.suffix), p.strategy)),
        None => None,
    }
}

/// The overrides given for the package `name`: the first entry for it.
pub open spec fn override_for(entries: Seq<(String, PackageOverrides)>, name: Seq<char>) -> Option<OverridesView>
    decreases entries.len(),
{
    if entries.len() == 0 {
        None
    } else if entries[0].0@ == name {
        Some(entries[0].1@)
    } else {
        override_for(entries.drop_first(), name)
    }
}

/// The prerelease settings of a package: the package's settings, else the
/// global ones, then the global and the package overrides of suffix and
/// strategy; a suffix is trimmed, and no prerelease remains without a
/// non-empty suffix.
pub open spec fn resolved_prerelease(
    package: Option<PrereleaseConfig>,
    global: PrereleaseConfig,
    global_overrides: GlobalOverrides,
    package_overrides: Option<OverridesView>,
) -> Option<(Option<Seq<char>>, PrereleaseStrategy)> {
    let base = match package {
        Some(p) => p,
        None => global,
    };
    let suffix1 = match global_overrides.prerelease_suffix {
        Some(s) => Some(s@),
        None => opt_view(base.suffix),
    };
    let strategy1 = match global_overrides.prerelease_strategy {
        Some(s) => s,
        None => base.strategy,
    };
    let suffix2 = match package_overrides {
        Some(o) => if o.prerelease_suffix is Some { o.prerelease_suffix } else { suffix1 },
        None => suffix1,
    };
    let strategy2 = match package_overrides {
        Some(o) => match o.prerelease_strategy {
            Some(s) => s,
            None => strategy1,
        },
        None => strategy1,
    };
    match suffix2 {
        Some(s) => if trim(s).len() > 0 {
            Some((Some(trim(s)), strategy2))
        } else {
            None
        },
        None => None,
    }
}

/// The overrides given for the package `name`.
fn find_overrides<'a>(entries: &'a Vec<(String, PackageOverrides)>, name: &str) -> (r: Option<&'a PackageOverrides>)
    ensures
        match r {
            Some(o) => override_for(entries@, name@) == Some(o@),
            None => override_for(entries@, name@) is None,
        },
{
    let mut i: usize = 0;
    assert(entries@.subrange(0, entries@.len() as int) =~= entries@);
    while i < entries.len()
        invariant
            i <= entries@.len(),
            override_for(entries@, name@) == override_for(entries@.subrange(i as int, entries@.len() as int), name@),
        decreases entries.len() - i,
    {
        let ghost rest = entries@.subrange(i as int, entries@.len() as int);
        assert(rest[0] == entries@[i as int]);
        if str_eq(entries[i].0.as_str(), name) {
            return Some(&entries[i].1);
        }
        assert(rest.drop_first() =~= entries@.subrange(i + 1, entries@.len() as int));
        i = i + 1;
    }
    None
}

/// The prerelease settings of a package after overrides.
fn resolve_prerelease(
    package: &Option<PrereleaseConfig>,
    global: &PrereleaseConfig,
    global_overrides: &GlobalOverrides,
    package_overrides: Option<&PackageOverrides>,
) -> (r: Option<PrereleaseConfig>)
    ensures
        prerelease_view(r) == resolved_prerelease(
            *package,
            *global,
            *global_overrides,
            match package_overrides {
                Some(o) => Some(o@),
                None => None,
            },
        ),
{
    let mut prerelease = match package {
        Some(p) => p.duplicate(),
        None => global.duplicate(),
    };
    if let Some(suffix) = &global_overrides.prerelease_suffix {
        prerelease.suffix = Some(suffix.clone());
    }
    if let Some(strategy) = global_overrides.prerelease_strategy {
        prerelease.strategy = strategy;
    }
    if let Some(overrides) = package_overrides {
        if let Some(suffix) = &overrides.prerelease_suffix {
            prerelease.suffix = Some(suffix.clone());
        }
        if let Some(strategy) = overrides.prerelease_strategy {
            prerelease.strategy = strategy;
        }
    }
    let trimmed = match &prerelease.suffix {
        Some(s) => {
            let t = trim_str(s.as_str());
            if t.as_str().is_empty() {
                None
            } else {
                Some(t)
            }
        },
        None => None,
    };
    match trimmed {
        Some(t) => Some(PrereleaseConfig { suffix: Some(t), strategy: prerelease.strategy }),
        None => None,
    }
}


/// The contents of a list of sub-packages.
pub open spec fn subs_view(v: Seq<SubPackage>) -> Seq<(Seq<char>, Seq<char>, Option<crate::config::ReleaseType>)> {
    v.map_values(|s: SubPackage| (s.name@, s.path@, s.release_type))
}

/// The contents of an optional list of sub-packages.
pub open spec fn opt_subs_view(o: Option<Vec<SubPackage>>) -> Option<Seq<(Seq<char>, Seq<char>, Option<crate::config::ReleaseType>)>> {
    match o {
        Some(v) => Some(subs_view(v@)),
        None => None,
    }
}

/// A copy of an optional list of sub-packages.
fn copy_subs(o: &Option<Vec<SubPackage>>) -> (r: Option<Vec<SubPackage>>)
    ensures
        opt_subs_view(r) == opt_subs_view(*o),
{
    match o {
        Some(v) => {
            let mut out: Vec<SubPackage> = Vec::new();
            let mut i: usize = 0;
            while i < v.len()
                invariant
                    i <= v@.len(),
                    out@.len() == i,
                    forall|j: int| 0 <= j < i ==> (#[trigger] out@[j]).name@ == v@[j].name@ && out@[j].path@ == v@[j].path@
                        && out@[j].release_type == v@[j].release_type,
                decreases v.len() - i,
            {
                out.push(v[i].duplicate());
                i = i + 1;
            }
            assert(subs_view(out@) =~= subs_view(v@));
            Some(out)
        },
        None => None,
    }
}

/// A copy of an optional list of strings.
fn copy_opt_strings(o: &Option<Vec<String>>) -> (r: Option<Vec<String>>)
    ensures
        opt_strings_view(r) == opt_strings_view(*o),
{
    match o {
        Some(v) => {
            let c = clone_strings(v);
            assert(strings_view(c@) =~= strings_view(v@));
            Some(c)
        },
        None => None,
    }
}

/// A copy of an optional list of reworded commits.
fn copy_opt_rewords(o: &Option<Vec<RewordedCommit>>) -> (r: Option<Vec<RewordedCommit>>)
    ensures
        opt_rewords_view(r) == opt_rewords_view(*o),
{
    match o {
        Some(v) => Some(copy_rewords(v)),
        None => None,
    }
}

/// The pattern of the commits that release a package from a base branch.
pub open spec fn release_commit_pattern(base: Seq<char>, name: Seq<char>) -> Seq<char> {
    "^chore\\("@ + base + "\\): release "@ + name
}

/// Resolves configuration with command line overrides and repository
/// details.
pub struct ConfigResolver {
    pub config: Config,
    pub repo_name: String,
    pub repo_default_branch: String,
    pub release_link_base_url: String,
    /// Package overrides from the command line, one entry per package name.
    pub package_overrides: Vec<(String, PackageOverrides)>,
    pub global_overrides: GlobalOverrides,
    pub commit_modifiers: CommitModifiers,
}

/// The base branch: the global override, else the configured one, else
/// the repository's default branch.
pub open spec fn resolved_base_branch(r: ConfigResolver) -> Seq<char> {
    match r.global_overrides.base_branch {
        Some(b) => b@,
        None => match r.config.base_branch {
            Some(b) => b@,
            None => r.repo_default_branch@,
        },
    }
}

/// `out` is the resolution of package `inp` with the modifiers `mods` and
/// base branch `base`.
pub open spec fn resolved_package(out: PackageConfig, inp: PackageConfig, r: ConfigResolver, mods: ModifiersView, base: Seq<char>) -> bool {
    let name = resolved_name(inp.name@, inp.workspace_root@, inp.path@, r.repo_name@);
    let prefix = resolved_tag_prefix(opt_view(inp.tag_prefix), inp.workspace_root@, inp.path@, name);
    let pre = resolved_prerelease(inp.prerelease, r.config.prerelease, r.global_overrides, override_for(r.package_overrides@, name));
    let ms = package_manifests(inp);
    let a = out.analyzer_config;
    let ch = r.config.changelog;
    let pattern = release_commit_pattern(base, name);
    &&& out.name@ == name
    &&& out.workspace_root@ == inp.workspace_root@
    &&& out.path@ == inp.path@
    &&& out.release_type == inp.release_type
    &&& opt_view(out.tag_prefix) == Some(prefix)
    &&& opt_subs_view(out.sub_packages) == opt_subs_view(inp.sub_packages)
    &&& prerelease_view(out.prerelease) == pre
    &&& out.auto_start_next == (if inp.auto_start_next is Some { inp.auto_start_next } else { r.config.auto_start_next })
    &&& opt_strings_view(out.additional_paths) == opt_strings_view(inp.additional_paths)
    &&& out.additional_manifest_files is None
    &&& out.compiled_additional_manifests@.len() == ms.len()
    &&& (forall|i: int| 0 <= i < ms.len() ==> (#[trigger] out.compiled_additional_manifests@[i]).path@ == ms[i].0
        && out.compiled_additional_manifests@[i].version_regex.source() == ms[i].1)
    &&& out.breaking_always_increment_major == inp.breaking_always_increment_major
    &&& out.features_always_increment_minor == inp.features_always_increment_minor
    &&& out.custom_major_increment_regex is None
    &&& out.custom_minor_increment_regex is None
    &&& a.body@ == ch.body@
    &&& a.skip_ci == ch.skip_ci
    &&& a.skip_chore == ch.skip_chore
    &&& a.skip_miscellaneous == ch.skip_miscellaneous
    &&& a.skip_merge_commits == ch.skip_merge_commits
    &&& a.skip_release_commits == ch.skip_release_commits
    &&& a.include_author == ch.include_author
    &&& opt_view(a.tag_prefix) == Some(prefix)
    &&& a.release_link_base_url@ == r.release_link_base_url@
    &&& prerelease_view(a.prerelease) == pre
    &&& (match a.release_commit_matcher {
        Some(m) => spec_regex_valid(pattern) && m.source() == pattern,
        None => !spec_regex_valid(pattern),
    })
    &&& a.breaking_always_increment_major == match inp.breaking_always_increment_major {
        Some(b) => b,
        None => r.config.breaking_always_increment_major,
    }
    &&& a.features_always_increment_minor == match inp.features_always_increment_minor {
        Some(b) => b,
        None => r.config.features_always_increment_minor,
    }
    &&& opt_view(a.custom_major_increment_regex) == if inp.custom_major_increment_regex is Some {
        opt_view(inp.custom_major_increment_regex)
    } else {
        opt_view(r.config.custom_major_increment_regex)
    }
    &&& opt_view(a.custom_minor_increment_regex) == if inp.custom_minor_increment_regex is Some {
        opt_view(inp.custom_minor_increment_regex)
    } else {
        opt_view(r.config.custom_minor_increment_regex)
    }
    &&& a.commit_modifiers@ == mods
}

/// The error of the first package whose additional manifests cannot be
/// used.
pub open spec fn first_package_error(pkgs: Seq<PackageConfig>) -> Option<ErrorView>
    decreases pkgs.len(),
{
    if pkgs.len() == 0 {
        None
    } else {
        match first_manifest_error(package_manifests(pkgs[0])) {
            Some(e) => Some(e),
            None => first_package_error(pkgs.drop_first()),
        }
    }
}

/// Why resolution fails, if it does: invalid changelog SHAs first, then
/// the first unusable additional manifest.
pub open spec fn spec_resolve_error(r: ConfigResolver) -> Option<ErrorView> {
    match spec_resolved_modifiers(r.commit_modifiers, r.config.changelog) {
        Err(e) => Some(e),
        Ok(_) => first_package_error(r.config.packages@),
    }
}

/// `c` is the resolved configuration of `r`.
pub open spec fn resolved_config(c: Config, r: ConfigResolver) -> bool {
    let base = resolved_base_branch(r);
    match spec_resolved_modifiers(r.commit_modifiers, r.config.changelog) {
        Ok(mods) => {
            &&& opt_view(c.base_branch) == Some(base)
            &&& c.first_release_search_depth == r.config.first_release_search_depth
            &&& c.separate_pull_requests == r.config.separate_pull_requests
            &&& opt_view(c.prerelease.suffix) == opt_view(r.config.prerelease.suffix)
            &&& c.prerelease.strategy == r.config.prerelease.strategy
            &&& c.auto_start_next == r.config.auto_start_next
            &&& c.breaking_always_increment_major == r.config.breaking_always_increment_major
            &&& c.features_always_increment_minor == r.config.features_always_increment_minor
            &&& opt_view(c.custom_major_increment_regex) == opt_view(r.config.custom_major_increment_regex)
            &&& opt_view(c.custom_minor_increment_regex) == opt_view(r.config.custom_minor_increment_regex)
            &&& c.changelog.body@ == r.config.changelog.body@
            &&& c.changelog.skip_ci == r.config.changelog.skip_ci
            &&& c.changelog.skip_chore == r.config.changelog.skip_chore
            &&& c.changelog.skip_miscellaneous == r.config.changelog.skip_miscellaneous
            &&& c.changelog.skip_merge_commits == r.config.changelog.skip_merge_commits
            &&& c.changelog.skip_release_commits == r.config.changelog.skip_release_commits
            &&& c.changelog.include_author == r.config.changelog.include_author
            &&& opt_strings_view(c.changelog.skip_shas) == if r.commit_modifiers.skip_shas@.len() > 0 {
                opt_strings_view(r.config.changelog.skip_shas)
            } else {
                None
            }
            &&& opt_rewords_view(c.changelog.reword) == if r.commit_modifiers.reword@.len() > 0 {
                opt_rewords_view(r.config.changelog.reword)
            } else {
                None
            }
            &&& c.packages@.len() == r.config.packages@.len()
            &&& forall|i: int| 0 <= i < c.packages@.len() ==>
                resolved_package(#[trigger] c.packages@[i], r.config.packages@[i], r, mods, base)
        },
        Err(_) => false,
    }
}

impl ConfigResolver {
    /// Resolves one package.
    fn resolve_package(&self, inp: &PackageConfig, base: &str, mods: &CommitModifiers) -> (r: Result<PackageConfig, ReleasaurusError>)
        ensures
            match first_manifest_error(package_manifests(*inp)) {
                Some(e) => r matches Err(x) && x@ == e,
                None => r matches Ok(p) && resolved_package(p, *inp, *self, mods@, base@),
            },
    {
        let name = derive_package_name(inp, self.repo_name.as_str());
        let tag_prefix = tag_prefix_for(&inp.tag_prefix, inp.workspace_root.as_str(), inp.path.as_str(), name.as_str());
        let auto_start_next = if inp.auto_start_next.is_some() {
            inp.auto_start_next
        } else {
            self.config.auto_start_next
        };
        let overrides = find_overrides(&self.package_overrides, name.as_str());
        let prerelease = resolve_prerelease(&inp.prerelease, &self.config.prerelease, &self.global_overrides, overrides);
        let pattern = concat3("^chore\\(", base, "\\): release ");
        let pattern = concat(pattern.as_str(), name.as_str());
        let release_commit_matcher = match RegexMatcher::new(pattern.as_str()) {
            Ok(m) => Some(m),
            Err(_) => None,
        };
        let breaking = match inp.breaking_always_increment_major {
            Some(b) => b,
            None => self.config.breaking_always_increment_major,
        };
        let features = match inp.features_always_increment_minor {
            Some(b) => b,
            None => self.config.features_always_increment_minor,
        };
        let custom_major = if inp.custom_major_increment_regex.is_some() {
            clone_opt(&inp.custom_major_increment_regex)
        } else {
            clone_opt(&self.config.custom_major_increment_regex)
        };
        let custom_minor = if inp.custom_minor_increment_regex.is_some() {
            clone_opt(&inp.custom_minor_increment_regex)
        } else {
            clone_opt(&self.config.custom_minor_increment_regex)
        };
        let compiled = compile_additional_manifests(&inp.additional_manifest_files)?;
        let analyzer_prerelease = match &prerelease {
            Some(p) => Some(p.duplicate()),
            None => None,
        };
        let analyzer_config = AnalyzerConfig {
            body: self.config.changelog.body.clone(),
            skip_ci: self.config.changelog.skip_ci,
            skip_chore: self.config.changelog.skip_chore,
            skip_miscellaneous: self.config.changelog.skip_miscellaneous,
            skip_merge_commits: self.config.changelog.skip_merge_commits,
            skip_release_commits: self.config.changelog.skip_release_commits,
            include_author: self.config.changelog.include_author,
            tag_prefix: Some(tag_prefix.clone()),
            release_link_base_url: self.release_link_base_url.clone(),
            prerelease: analyzer_prerelease,
            release_commit_matcher,
            breaking_always_increment_major: breaking,
            features_always_increment_minor: features,
            custom_major_increment_regex: custom_major,
            custom_minor_increment_regex: custom_minor,
            commit_modifiers: mods.duplicate(),
        };
        Ok(PackageConfig {
            name,
            workspace_root: inp.workspace_root.clone(),
            path: inp.path.clone(),
            release_type: inp.release_type,
            tag_prefix: Some(tag_prefix),
            sub_packages: copy_subs(&inp.sub_packages),
            prerelease,
            auto_start_next,
            additional_paths: copy_opt_strings(&inp.additional_paths),
            additional_manifest_files: None,
            compiled_additional_manifests: compiled,
            breaking_always_increment_major: inp.breaking_always_increment_major,
            features_always_increment_minor: inp.features_always_increment_minor,
            custom_major_increment_regex: None,
            custom_minor_increment_regex: None,
            analyzer_config,
        })
    }

    /// The resolved configuration: base branch, commit modifiers and, for
    /// every package, its name, tag prefix, prerelease, compiled manifests
    /// and analysis settings.
    pub fn resolve(&self) -> (r: Result<Config, ReleasaurusError>)
        ensures
            match spec_resolve_error(*self) {
                Some(e) => r matches Err(x) && x@ == e,
                None => r matches Ok(c) && resolved_config(c, *self),
            },
    {
        let base_branch = match &self.global_overrides.base_branch {
            Some(b) => b.clone(),
            None => match &self.config.base_branch {
                Some(b) => b.clone(),
                None => self.repo_default_branch.clone(),
            },
        };
        let mods = match resolve_commit_modifiers(&self.commit_modifiers, &self.config.changelog) {
            Ok(m) => m,
            Err(e) => {
                return Err(e);
            },
        };
        let ghost all = self.config.packages@;
        let mut packages: Vec<PackageConfig> = Vec::new();
        let mut i: usize = 0;
        assert(all.subrange(0, all.len() as int) =~= all);
        while i < self.config.packages.len()
            invariant
                i <= all.len(),
                all == self.config.packages@,
                first_package_error(all) == first_package_error(all.subrange(i as int, all.len() as int)),
                packages@.len() == i,
                spec_resolved_modifiers(self.commit_modifiers, self.config.changelog) == Ok::<ModifiersView, ErrorView>(mods@),
                forall|j: int| 0 <= j < i ==> resolved_package(#[trigger] packages@[j], all[j], *self, mods@, base_branch@),
            decreases all.len() - i,
        {
            let ghost rest = all.subrange(i as int, all.len() as int);
            assert(rest[0] == all[i as int]);
            let p = match self.resolve_package(&self.config.packages[i], base_branch.as_str(), &mods) {
                Ok(p) => p,
                Err(e) => {
                    return Err(e);
                },
            };
            assert(rest.drop_first() =~= all.subrange(i + 1, all.len() as int));
            packages.push(p);
            i = i + 1;
        }
        assert(all.subrange(all.len() as int, all.len() as int) =~= Seq::<PackageConfig>::empty());
        let skip_shas = if self.commit_modifiers.skip_shas.len() > 0 {
            copy_opt_strings(&self.config.changelog.skip_shas)
        } else {
            None
        };
        let reword = if self.commit_modifiers.reword.len() > 0 {
            copy_opt_rewords(&self.config.changelog.reword)
        } else {
            None
        };
        let changelog = ChangelogConfig {
            body: self.config.changelog.body.clone(),
            skip_ci: self.config.changelog.skip_ci,
            skip_chore: self.config.changelog.skip_chore,
            skip_miscellaneous: self.config.changelog.skip_miscellaneous,
            skip_merge_commits: self.config.changelog.skip_merge_commits,
            skip_release_commits: self.config.changelog.skip_release_commits,
            skip_shas,
            reword,
            include_author: self.config.changelog.include_author,
        };
        Ok(Config {
            base_branch: Some(base_branch),
            first_release_search_depth: self.config.first_release_search_depth,
            separate_pull_requests: self.config.separate_pull_requests,
            prerelease: self.config.prerelease.duplicate(),
            auto_start_next: self.config.auto_start_next,
            breaking_always_increment_major: self.config.breaking_always_increment_major,
            features_always_increment_minor: self.config.features_always_increment_minor,
            custom_major_increment_regex: clone_opt(&self.config.custom_major_increment_regex),
            custom_minor_increment_regex: clone_opt(&self.config.custom_minor_increment_regex),
            changelog,
            packages,
        })
    }
}

/// Collects the inputs of a [`ConfigResolver`].
pub struct ConfigResolverBuilder {
    pub config: Option<Config>,
    pub repo_name: Option<String>,
    pub repo_default_branch: Option<String>,
    pub release_link_base_url: Option<String>,
    pub package_overrides: Option<Vec<(String, PackageOverrides)>>,
    pub global_overrides: Option<GlobalOverrides>,
    pub commit_modifiers: Option<CommitModifiers>,
}

impl Default for ConfigResolverBuilder {
    fn default() -> (r: Self)
        ensures
            r.is_empty(),
    {
        ConfigResolverBuilder {
            config: None,
            repo_name: None,
            repo_default_branch: None,
            release_link_base_url: None,
            package_overrides: None,
            global_overrides: None,
            commit_modifiers: None,
        }
    }
}

/// The error for a resolver input that was not given.
fn missing_input(name: &str) -> (r: ReleasaurusError)
    ensures
        r@ == ErrorView::Other("`"@ + name@ + "` must be initialized"@),
{
    let a = concat("`", name);
    ReleasaurusError::Other(concat(a.as_str(), "` must be initialized"))
}

impl ConfigResolverBuilder {
    /// Whether no input has been given yet.
    pub open spec fn is_empty(&self) -> bool {
        &&& self.config is None
        &&& self.repo_name is None
        &&& self.repo_default_branch is None
        &&& self.release_link_base_url is None
        &&& self.package_overrides is None
        &&& self.global_overrides is None
        &&& self.commit_modifiers is None
    }

    /// Whether every input has been given.
    pub open spec fn is_complete(&self) -> bool {
        &&& self.config is Some
        &&& self.repo_name is Some
        &&& self.repo_default_branch is Some
        &&& self.release_link_base_url is Some
        &&& self.package_overrides is Some
        &&& self.global_overrides is Some
        &&& self.commit_modifiers is Some
    }

    /// The name of the first input that has not been given, if any.
    pub open spec fn first_missing(&self) -> Option<Seq<char>> {
        if self.config is None {
            Some("config"@)
        } else if self.repo_name is None {
            Some("repo_name"@)
        } else if self.repo_default_branch is None {
            Some("repo_default_branch"@)
        } else if self.release_link_base_url is None {
            Some("release_link_base_url"@)
        } else if self.package_overrides is None {
            Some("package_overrides"@)
        } else if self.global_overrides is None {
            Some("global_overrides"@)
        } else if self.commit_modifiers is None {
            Some("commit_modifiers"@)
        } else {
            None
        }
    }

    /// Sets the raw configuration.
    pub fn config(self, config: Config) -> (r: Self)
        ensures
            r.is_complete() <==> (self.repo_name is Some && self.repo_default_branch is Some
                && self.release_link_base_url is Some && self.package_overrides is Some
                && self.global_overrides is Some && self.commit_modifiers is Some),
    {
        ConfigResolverBuilder { config: Some(config), ..self }
    }

    /// Sets the repository name.
    pub fn repo_name(self, name: &str) -> (r: Self)
        ensures
            r.is_complete() <==> (self.config is Some && self.repo_default_branch is Some
                && self.release_link_base_url is Some && self.package_overrides is Some
                && self.global_overrides is Some && self.commit_modifiers is Some),
    {
        ConfigResolverBuilder { repo_name: Some(name.to_owned()), ..self }
    }

    /// Sets the repository's default branch.
    pub fn repo_default_branch(self, branch: &str) -> (r: Self)
        ensures
            r.is_complete() <==> (self.config is Some && self.repo_name is Some
                && self.release_link_base_url is Some && self.package_overrides is Some
                && self.global_overrides is Some && self.commit_modifiers is Some),
    {
        ConfigResolverBuilder { repo_default_branch: Some(branch.to_owned()), ..self }
    }

    /// Sets the base URL of release links.
    pub fn release_link_base_url(self, url: &str) -> (r: Self)
        ensures
            r.is_complete() <==> (self.config is Some && self.repo_name is Some
                && self.repo_default_branch is Some && self.package_overrides is Some
                && self.global_overrides is Some && self.commit_modifiers is Some),
    {
        ConfigResolverBuilder { release_link_base_url: Some(url.to_owned()), ..self }
    }

    /// Sets the package overrides of the command line.
    pub fn package_overrides(self, overrides: Vec<(String, PackageOverrides)>) -> (r: Self)
        ensures
            r.is_complete() <==> (self.config is Some && self.repo_name is Some
                && self.repo_default_branch is Some && self.release_link_base_url is Some
                && self.global_overrides is Some && self.commit_modifiers is Some),
    {
        ConfigResolverBuilder { package_overrides: Some(overrides), ..self }
    }

    /// Sets the global overrides of the command line.
    pub fn global_overrides(self, overrides: GlobalOverrides) -> (r: Self)
        ensures
            r.is_complete() <==> (self.config is Some && self.repo_name is Some
                && self.repo_default_branch is Some && self.release_link_base_url is Some
                && self.package_overrides is Some && self.commit_modifiers is Some),
    {
        ConfigResolverBuilder { global_overrides: Some(overrides), ..self }
    }

    /// Sets the commit modifiers of the command line.
    pub fn commit_modifiers(self, modifiers: CommitModifiers) -> (r: Self)
        ensures
            r.is_complete() <==> (self.config is Some && self.repo_name is Some
                && self.repo_default_branch is Some && self.release_link_base_url is Some
                && self.package_overrides is Some && self.global_overrides is Some),
    {
        ConfigResolverBuilder { commit_modifiers: Some(modifiers), ..self }
    }

    /// The resolver with the given inputs; an error naming the first input
    /// that was not given.
    pub fn build(self) -> (r: Result<ConfigResolver, ReleasaurusError>)
        ensures
            r is Ok <==> self.is_complete(),
            r matches Err(e) ==> self.first_missing() matches Some(n)
                && e@ == ErrorView::Other("`"@ + n + "` must be initialized"@),
            r matches Ok(c) ==> {
                &&& Some(c.config) == self.config
                &&& Some(c.repo_name) == self.repo_name
                &&& Some(c.repo_default_branch) == self.repo_default_branch
                &&& Some(c.release_link_base_url) == self.release_link_base_url
                &&& Some(c.package_overrides) == self.package_overrides
                &&& Some(c.global_overrides) == self.global_overrides
                &&& Some(c.commit_modifiers) == self.commit_modifiers
            },
    {
        let ConfigResolverBuilder {
            config,
            repo_name,
            repo_default_branch,
            release_link_base_url,
            package_overrides,
            global_overrides,
            commit_modifiers,
        } = self;
        let config = match config {
            Some(c) => c,
            None => {
                return Err(missing_input("config"));
            },
        };
        let repo_name = match repo_name {
            Some(v) => v,
            None => {
                return Err(missing_input("repo_name"));
            },
        };
        let repo_default_branch = match repo_default_branch {
            Some(v) => v,
            None => {
                return Err(missing_input("repo_default_branch"));
            },
        };
        let release_link_base_url = match release_link_base_url {
            Some(v) => v,
            None => {
                return Err(missing_input("release_link_base_url"));
            },
        };
        let package_overrides = match package_overrides {
            Some(v) => v,
            None => {
                return Err(missing_input("package_overrides"));
            },
        };
        let global_overrides = match global_overrides {
            Some(v) => v,
            None => {
                return Err(missing_input("global_overrides"));
            },
        };
        let commit_modifiers = match commit_modifiers {
            Some(v) => v,
            None => {
                return Err(missing_input("commit_modifiers"));
            },
        };
        Ok(ConfigResolver {
            config,
            repo_name,
            repo_default_branch,
            release_link_base_url,
            package_overrides,
            global_overrides,
            commit_modifiers,
        })
    }
}
} // verus!
