//! Unix paths as sequences of components, with the component rules of
//! `std::path::Path`: a leading `/` is the root, a leading `.` element is the
//! current directory, empty and `.` elements elsewhere are dropped, and `..`
//! is the parent directory.
use vstd::prelude::*;

use crate::text::{chars_of, push_all};

verus! {

/// One component of a path.
pub enum PathComponent {
    RootDir,
    CurDir,
    ParentDir,
    Normal(Vec<char>),
}

/// The abstract value of a [`PathComponent`].
pub ghost enum ComponentModel {
    RootDir,
    CurDir,
    ParentDir,
    Normal(Seq<char>),
}

impl View for PathComponent {
    type V = ComponentModel;

    open spec fn view(&self) -> ComponentModel {
        match self {
            PathComponent::RootDir => ComponentModel::RootDir,
            PathComponent::CurDir => ComponentModel::CurDir,
            PathComponent::ParentDir => ComponentModel::ParentDir,
            PathComponent::Normal(v) => ComponentModel::Normal(v@),
        }
    }
}

/// The views of a list of components.
pub open spec fn comp_views(cs: Seq<PathComponent>) -> Seq<ComponentModel> {
    cs.map_values(|c: PathComponent| c@)
}

/// Scans `s` left to right, splitting at each `/`: the finished elements and
/// the element in progress.
pub open spec fn split_scan(s: Seq<char>) -> (Seq<Seq<char>>, Seq<char>)
    decreases s.len(),
{
    if s.len() == 0 {
        (Seq::empty(), Seq::empty())
    } else {
        let (done, cur) = split_scan(s.drop_last());
        if s.last() == '/' {
            (done.push(cur), Seq::empty())
        } else {
            (done, cur.push(s.last()))
        }
    }
}

/// The texts between the `/` characters of `s` (empty ones included).
pub open spec fn elements(s: Seq<char>) -> Seq<Seq<char>> {
    let (done, cur) = split_scan(s);
    done.push(cur)
}

/// The component an element after the first one stands for, if any.
pub open spec fn element_comps(es: Seq<Seq<char>>) -> Seq<ComponentModel>
    decreases es.len(),
{
    if es.len() == 0 {
        Seq::empty()
    } else {
        let e = es.last();
        let rest = element_comps(es.drop_last());
        if e.len() == 0 || e == seq!['.'] {
            rest
        } else if e == seq!['.', '.'] {
            rest.push(ComponentModel::ParentDir)
        } else {
            rest.push(ComponentModel::Normal(e))
        }
    }
}

/// Whether the path starts at the root.
pub open spec fn has_root(s: Seq<char>) -> bool {
    s.len() > 0 && s[0] == '/'
}

/// The components of the path `s`.
pub open spec fn components_spec(s: Seq<char>) -> Seq<ComponentModel> {
    let e = elements(s);
    if has_root(s) {
        seq![ComponentModel::RootDir] + element_comps(e.skip(1))
    } else if e[0] == seq!['.'] {
        seq![ComponentModel::CurDir] + element_comps(e.skip(1))
    } else {
        element_comps(e)
    }
}

/// The texts of the normal components, in order.
pub open spec fn normals(cs: Seq<ComponentModel>) -> Seq<Seq<char>>
    decreases cs.len(),
{
    if cs.len() == 0 {
        Seq::empty()
    } else {
        match cs.last() {
            ComponentModel::Normal(t) => normals(cs.drop_last()).push(t),
            _ => normals(cs.drop_last()),
        }
    }
}

/// Whether `prefix` is a leading part of `cs`, as `Path::strip_prefix` requires.
pub open spec fn is_prefix(prefix: Seq<ComponentModel>, cs: Seq<ComponentModel>) -> bool {
    prefix.len() <= cs.len() && cs.take(prefix.len() as int) == prefix
}

/// Whether two character vectors hold the same text.
pub fn chars_eq(a: &Vec<char>, b: &Vec<char>) -> (r: bool)
    ensures
        r == (a@ == b@),
{
    if a.len() != b.len() {
        return false;
    }
    let mut i: usize = 0;
    while i < a.len()
        invariant
            i <= a@.len(),
            a@.len() == b@.len(),
            forall|j: int| 0 <= j < i ==> a@[j] == b@[j],
        decreases a@.len() - i,
    {
        if a[i] != b[i] {
            return false;
        }
        i = i + 1;
    }
    assert(a@ =~= b@);
    true
}

impl PathComponent {
    /// Whether two components are the same.
    pub fn same_as(&self, other: &PathComponent) -> (r: bool)
        ensures
            r == (self@ == other@),
    {
        match (self, other) {
            (PathComponent::RootDir, PathComponent::RootDir) => true,
            (PathComponent::CurDir, PathComponent::CurDir) => true,
            (PathComponent::ParentDir, PathComponent::ParentDir) => true,
            (PathComponent::Normal(a), PathComponent::Normal(b)) => chars_eq(a, b),
            _ => false,
        }
    }

    /// A copy of this component.
    pub fn duplicate(&self) -> (r: PathComponent)
        ensures
            r@ == self@,
    {
        match self {
            PathComponent::RootDir => PathComponent::RootDir,
            PathComponent::CurDir => PathComponent::CurDir,
            PathComponent::ParentDir => PathComponent::ParentDir,
            PathComponent::Normal(a) => {
                let mut t: Vec<char> = Vec::new();
                push_all(&mut t, a);
                PathComponent::Normal(t)
            },
        }
    }
}

fn split_elements(s: &Vec<char>) -> (r: Vec<Vec<char>>)
    ensures
        r@.map_values(|e: Vec<char>| e@) == elements(s@),
{
    let mut done: Vec<Vec<char>> = Vec::new();
    let mut cur: Vec<char> = Vec::new();
    let mut i: usize = 0;
    while i < s.len()
        invariant
            i <= s@.len(),
            (done@.map_values(|e: Vec<char>| e@), cur@) == split_scan(s@.take(i as int)),
        decreases s@.len() - i,
    {
        proof {
            assert(s@.take(i + 1).drop_last() =~= s@.take(i as int));
            assert(s@.take(i + 1).last() == s@[i as int]);
        }
        if s[i] == '/' {
            let ghost before = done@;
            let finished = cur;
            cur = Vec::new();
            done.push(finished);
            proof {
                assert(done@.map_values(|e: Vec<char>| e@) =~= before.map_values(|e: Vec<char>| e@).push(finished@));
                assert(cur@ =~= Seq::<char>::empty());
            }
        } else {
            cur.push(s[i]);
        }
        i = i + 1;
    }
    proof {
        assert(s@.take(i as int) =~= s@);
    }
    let ghost before = done@;
    done.push(cur);
    proof {
        assert(done@.map_values(|e: Vec<char>| e@) =~= before.map_values(|e: Vec<char>| e@).push(cur@));
    }
    done
}

fn is_dot(e: &Vec<char>) -> (r: bool)
    ensures
        r == (e@ == seq!['.']),
{
    let r = e.len() == 1 && e[0] == '.';
    proof {
        if r {
            assert(e@ =~= seq!['.']);
        }
    }
    r
}

fn is_dot_dot(e: &Vec<char>) -> (r: bool)
    ensures
        r == (e@ == seq!['.', '.']),
{
    let r = e.len() == 2 && e[0] == '.' && e[1] == '.';
    proof {
        if r {
            assert(e@ =~= seq!['.', '.']);
        }
    }
    r
}

/// The components of the path `s` (see [`components_spec`]).
pub fn components(s: &str) -> (r: Vec<PathComponent>)
    ensures
        comp_views(r@) == components_spec(s@),
{
    let chars = chars_of(s);
    let elems = split_elements(&chars);
    let ghost ev = elems@.map_values(|e: Vec<char>| e@);
    assert(ev.len() >= 1);
    let mut out: Vec<PathComponent> = Vec::new();
    let rooted = chars.len() > 0 && chars[0] == '/';
    let start: usize;
    if rooted {
        out.push(PathComponent::RootDir);
        start = 1;
    } else if is_dot(&elems[0]) {
        out.push(PathComponent::CurDir);
        start = 1;
    } else {
        start = 0;
    }
    let ghost lead = comp_views(out@);
    let mut i: usize = start;
    proof {
        assert(ev.skip(start as int).take(0) =~= Seq::<Seq<char>>::empty());
        assert(comp_views(out@) =~= lead + element_comps(ev.skip(start as int).take(0)));
    }
    while i < elems.len()
        invariant
            start <= i <= elems@.len(),
            ev == elems@.map_values(|e: Vec<char>| e@),
            comp_views(out@) == lead + element_comps(ev.skip(start as int).take(i - start)),
        decreases elems@.len() - i,
    {
        let e = &elems[i];
        let ghost es = ev.skip(start as int).take(i + 1 - start);
        proof {
            assert(es.drop_last() =~= ev.skip(start as int).take(i - start));
            assert(es.last() == e@);
        }
        let ghost before = out@;
        if e.len() == 0 || is_dot(e) {
        } else if is_dot_dot(e) {
            out.push(PathComponent::ParentDir);
            proof {
                assert(comp_views(out@) =~= comp_views(before).push(ComponentModel::ParentDir));
            }
        } else {
            let mut t: Vec<char> = Vec::new();
            push_all(&mut t, e);
            out.push(PathComponent::Normal(t));
            proof {
                assert(comp_views(out@) =~= comp_views(before).push(ComponentModel::Normal(e@)));
            }
        }
        i = i + 1;
    }
    proof {
        assert(ev.skip(start as int).take(i - start) =~= ev.skip(start as int));
        if start == 0 {
            assert(ev.skip(0) =~= ev);
            assert(lead =~= Seq::<ComponentModel>::empty());
        }
    }
    out
}

} // verus!
