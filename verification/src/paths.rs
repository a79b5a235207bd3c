//! Relative repository paths: joining, final names and prefixes, following
//! the component rules of `std::path::Path` on Unix.

use vstd::prelude::*;

use crate::text::{chars_of, concat, str_eq};

verus! {

/// One component of a path.
pub enum PathComponent {
    /// The leading `/` of an absolute path.
    RootDir,
    /// A leading `.` of a relative path.
    CurDir,
    /// A `..`.
    ParentDir,
    /// Any other name.
    Normal(Seq<char>),
}

/// The pieces of `s` between `/` separators (`str::split('/')`).
pub open spec fn path_segments(s: Seq<char>) -> Seq<Seq<char>>
    decreases s.len(),
{
    if s.len() == 0 {
        seq![Seq::<char>::empty()]
    } else {
        let prev = path_segments(s.drop_last());
        if s.last() == '/' {
            prev.push(Seq::<char>::empty())
        } else {
            prev.update(prev.len() - 1, prev.last().push(s.last()))
        }
    }
}

/// The component a segment stands for: empty segments and `.` inside a
/// path stand for none.
pub open spec fn seg_component(seg: Seq<char>, first_relative: bool) -> Option<PathComponent> {
    if seg.len() == 0 {
        None
    } else if seg == seq!['.'] {
        if first_relative {
            Some(PathComponent::CurDir)
        } else {
            None
        }
    } else if seg == seq!['.', '.'] {
        Some(PathComponent::ParentDir)
    } else {
        Some(PathComponent::Normal(seg))
    }
}

/// The components of a path's segments.
pub open spec fn components_of(segs: Seq<Seq<char>>, absolute: bool) -> Seq<PathComponent>
    decreases segs.len(),
{
    if segs.len() == 0 {
        if absolute {
            seq![PathComponent::RootDir]
        } else {
            Seq::empty()
        }
    } else {
        let prev = components_of(segs.drop_last(), absolute);
        match seg_component(segs.last(), !absolute && segs.len() == 1) {
            Some(c) => prev.push(c),
            None => prev,
        }
    }
}

/// Whether a path is absolute.
pub open spec fn is_absolute(p: Seq<char>) -> bool {
    p.len() > 0 && p[0] == '/'
}

/// The components of a path (`Path::components`).
pub open spec fn path_components(p: Seq<char>) -> Seq<PathComponent> {
    components_of(path_segments(p), is_absolute(p))
}

/// `base` joined with `rel` (`Path::join`): an absolute `rel` replaces
/// `base`, otherwise a separator is put between them when `base` is not
/// empty and does not end with one.
pub open spec fn path_join(base: Seq<char>, rel: Seq<char>) -> Seq<char> {
    if is_absolute(rel) {
        rel
    } else if base.len() == 0 || base.last() == '/' {
        base + rel
    } else {
        base + seq!['/'] + rel
    }
}

/// The final component of a path when it is a name (`Path::file_name`).
pub open spec fn file_name(p: Seq<char>) -> Option<Seq<char>> {
    let c = path_components(p);
    if c.len() > 0 {
        match c.last() {
            PathComponent::Normal(n) => Some(n),
            _ => None,
        }
    } else {
        None
    }
}

/// Whether the components of `base` begin the components of `p`
/// (`Path::starts_with`).
pub open spec fn path_starts_with(p: Seq<char>, base: Seq<char>) -> bool {
    let a = path_components(p);
    let b = path_components(base);
    b.len() <= a.len() && a.subrange(0, b.len() as int) == b
}

/// `s` with every non-overlapping occurrence of `pat` replaced by `rep`,
/// from left to right (`str::replace`).
pub open spec fn replace_all(s: Seq<char>, pat: Seq<char>, rep: Seq<char>) -> Seq<char>
    recommends
        pat.len() > 0,
    decreases s.len(),
{
    if s.len() == 0 || pat.len() == 0 {
        s
    } else if pat.len() <= s.len() && s.subrange(0, pat.len() as int) == pat {
        rep + replace_all(s.subrange(pat.len() as int, s.len() as int), pat, rep)
    } else {
        seq![s[0]] + replace_all(s.drop_first(), pat, rep)
    }
}

/// A path component held by executable code.
pub enum Component {
    RootDir,
    CurDir,
    ParentDir,
    Normal(String),
}

impl View for Component {
    type V = PathComponent;

    open spec fn view(&self) -> PathComponent {
        match self {
            Component::RootDir => PathComponent::RootDir,
            Component::CurDir => PathComponent::CurDir,
            Component::ParentDir => PathComponent::ParentDir,
            Component::Normal(s) => PathComponent::Normal(s@),
        }
    }
}

/// The view of a list of components.
pub open spec fn components_view(v: Seq<Component>) -> Seq<PathComponent> {
    v.map_values(|c: Component| c@)
}

/// The segments of a path always number at least one.
proof fn lemma_segments_nonempty(s: Seq<char>)
    ensures
        path_segments(s).len() >= 1,
    decreases s.len(),
{
    if s.len() > 0 {
        lemma_segments_nonempty(s.drop_last());
    }
}

/// The segments of a path, as character vectors.
fn segments(v: &Vec<char>) -> (r: Vec<Vec<char>>)
    ensures
        r@.len() == path_segments(v@).len(),
        forall|i: int| 0 <= i < r@.len() ==> (#[trigger] r@[i])@ == path_segments(v@)[i],
{
    let mut out: Vec<Vec<char>> = Vec::new();
    let mut cur: Vec<char> = Vec::new();
    let mut i: usize = 0;
    assert(v@.take(0) =~= Seq::<char>::empty());
    while i < v.len()
        invariant
            i <= v@.len(),
            out@.len() + 1 == path_segments(v@.take(i as int)).len(),
            forall|j: int| 0 <= j < out@.len() ==> (#[trigger] out@[j])@ == path_segments(v@.take(i as int))[j],
            cur@ == path_segments(v@.take(i as int)).last(),
        decreases v.len() - i,
    {
        let ghost before = v@.take(i as int);
        assert(v@.take(i + 1).drop_last() =~= before);
        assert(v@.take(i + 1).last() == v@[i as int]);
        proof { lemma_segments_nonempty(before); }
        if v[i] == '/' {
            let done = cur;
            out.push(done);
            cur = Vec::new();
            assert(cur@ =~= Seq::<char>::empty());
        } else {
            cur.push(v[i]);
        }
        i = i + 1;
    }
    assert(v@.take(v@.len() as int) =~= v@);
    out.push(cur);
    out
}

/// The component a segment stands for.
fn component_of(seg: &Vec<char>, first_relative: bool) -> (r: Option<Component>)
    ensures
        match r {
            Some(c) => seg_component(seg@, first_relative) == Some(c@),
            None => seg_component(seg@, first_relative) is None,
        },
{
    if seg.len() == 0 {
        None
    } else if seg.len() == 1 && seg[0] == '.' {
        assert(seg@ =~= seq!['.']);
        if first_relative {
            Some(Component::CurDir)
        } else {
            None
        }
    } else if seg.len() == 2 && seg[0] == '.' && seg[1] == '.' {
        assert(seg@ =~= seq!['.', '.']);
        assert(seg@ != seq!['.']);
        Some(Component::ParentDir)
    } else {
        assert(seg@ != seq!['.']) by {
            if seg@ == seq!['.'] {
                assert(seg@.len() == 1);
            }
        }
        assert(seg@ != seq!['.', '.']) by {
            if seg@ == seq!['.', '.'] {
                assert(seg@.len() == 2);
            }
        }
        Some(Component::Normal(crate::text::string_of(seg.as_slice())))
    }
}

/// The components of a path (`Path::components`).
pub fn components(p: &str) -> (r: Vec<Component>)
    ensures
        components_view(r@) == path_components(p@),
{
    let v = chars_of(p);
    let segs = segments(&v);
    let absolute = v.len() > 0 && v[0] == '/';
    let ghost all = path_segments(v@);
    let mut out: Vec<Component> = Vec::new();
    if absolute {
        out.push(Component::RootDir);
    }
    let mut i: usize = 0;
    assert(all.take(0) =~= Seq::<Seq<char>>::empty());
    assert(components_view(out@) =~= components_of(all.take(0), absolute));
    while i < segs.len()
        invariant
            i <= segs@.len(),
            segs@.len() == all.len(),
            forall|j: int| 0 <= j < segs@.len() ==> (#[trigger] segs@[j])@ == all[j],
            components_view(out@) == components_of(all.take(i as int), absolute),
        decreases segs.len() - i,
    {
        assert(all.take(i + 1).drop_last() =~= all.take(i as int));
        assert(all.take(i + 1).last() == all[i as int]);
        let ghost before = out@;
        match component_of(&segs[i], !absolute && i == 0) {
            Some(c) => {
                out.push(c);
                assert(components_view(out@) =~= components_view(before).push(out@.last()@));
            },
            None => {},
        }
        i = i + 1;
    }
    assert(all.take(all.len() as int) =~= all);
    out
}

/// Whether two components are the same.
fn same_component(a: &Component, b: &Component) -> (r: bool)
    ensures
        r == (a@ == b@),
{
    match (a, b) {
        (Component::RootDir, Component::RootDir) => true,
        (Component::CurDir, Component::CurDir) => true,
        (Component::ParentDir, Component::ParentDir) => true,
        (Component::Normal(x), Component::Normal(y)) => str_eq(x.as_str(), y.as_str()),
        _ => false,
    }
}

/// Whether the components of `base` begin the components of `p`
/// (`Path::starts_with`).
pub fn starts_with_path(p: &str, base: &str) -> (r: bool)
    ensures
        r == path_starts_with(p@, base@),
{
    let a = components(p);
    let b = components(base);
    let ghost va = components_view(a@);
    let ghost vb = components_view(b@);
    if b.len() > a.len() {
        return false;
    }
    let mut i: usize = 0;
    while i < b.len()
        invariant
            b@.len() <= a@.len(),
            i <= b@.len(),
            va == components_view(a@),
            vb == components_view(b@),
            va == path_components(p@),
            vb == path_components(base@),
            forall|j: int| 0 <= j < i ==> va[j] == vb[j],
        decreases b.len() - i,
    {
        assert(va[i as int] == a@[i as int]@);
        assert(vb[i as int] == b@[i as int]@);
        if !same_component(&a[i], &b[i]) {
            assert(va.subrange(0, vb.len() as int)[i as int] != vb[i as int]);
            return false;
        }
        i = i + 1;
    }
    assert(va.subrange(0, vb.len() as int) =~= vb);
    true
}

/// `base` joined with `rel` (`Path::join`).
pub fn join_path(base: &str, rel: &str) -> (r: String)
    ensures
        r@ == path_join(base@, rel@),
{
    let b = chars_of(base);
    let rv = chars_of(rel);
    if rv.len() > 0 && rv[0] == '/' {
        rel.to_owned()
    } else if b.len() == 0 || b[b.len() - 1] == '/' {
        concat(base, rel)
    } else {
        let with_sep = concat(base, "/");
        proof {
            reveal_strlit("/");
        }
        concat(with_sep.as_str(), rel)
    }
}

/// The final component of a path when it is a name (`Path::file_name`).
pub fn file_name_of(p: &str) -> (r: Option<String>)
    ensures
        crate::config::opt_view(r) == file_name(p@),
{
    let comps = components(p);
    let ghost cv = components_view(comps@);
    if comps.len() == 0 {
        return None;
    }
    assert(cv.last() == comps@.last()@);
    match &comps[comps.len() - 1] {
        Component::Normal(n) => Some(n.clone()),
        _ => None,
    }
}

/// `s` with every occurrence of `pat` replaced by `rep` (`str::replace`).
pub fn replace_str(s: &str, pat: &str, rep: &str) -> (r: String)
    requires
        pat@.len() > 0,
    ensures
        r@ == replace_all(s@, pat@, rep@),
{
    let v = chars_of(s);
    let p = chars_of(pat);
    let mut out = String::new();
    let mut i: usize = 0;
    assert(v@.subrange(0, v@.len() as int) =~= v@);
    while i < v.len()
        invariant
            i <= v@.len(),
            p@ == pat@,
            p@.len() > 0,
            out@ + replace_all(v@.subrange(i as int, v@.len() as int), pat@, rep@) == replace_all(s@, pat@, rep@),
            v@ == s@,
        decreases v.len() - i,
    {
        let ghost rest = v@.subrange(i as int, v@.len() as int);
        if crate::text::has_prefix_at(&v, i, &p) {
            assert(rest.subrange(p@.len() as int, rest.len() as int) =~= v@.subrange(i + p@.len(), v@.len() as int));
            let grown = concat(out.as_str(), rep);
            assert(grown@ + replace_all(v@.subrange(i + p@.len(), v@.len() as int), pat@, rep@)
                =~= out@ + replace_all(rest, pat@, rep@));
            out = grown;
            i = i + p.len();
        } else {
            assert(rest.drop_first() =~= v@.subrange(i + 1, v@.len() as int));
            let one = crate::text::string_of_range(&v, i, i + 1);
            assert(one@ =~= seq![rest[0]]);
            let grown = concat(out.as_str(), one.as_str());
            assert(grown@ + replace_all(v@.subrange(i + 1, v@.len() as int), pat@, rep@)
                =~= out@ + replace_all(rest, pat@, rep@));
            out = grown;
            i = i + 1;
        }
    }
    assert(v@.subrange(v@.len() as int, v@.len() as int) =~= Seq::<char>::empty());
    out
}

} // verus!
