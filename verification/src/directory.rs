//! Directory module: displays the current working directory.
//!
//! The path is shown relative to the home directory (`~`) when it lies under
//! it. Components before the root of the enclosing git repository (the
//! nearest directory, from the current one up, holding a `.git` entry) are
//! cut to their first character and the repository's name is kept whole;
//! outside a repository, every component but the last is cut.
use vstd::prelude::*;

use crate::path::{
    comp_views, components, components_spec, is_prefix, normals, ComponentModel, PathComponent,
};
use crate::text::{chars_of, ends_with, join_sep, join_with, push_all, string_of};

verus! {

/// How soon a module's output is available.
#[derive(Clone, Copy, Debug, PartialEq, Eq, Structural)]
pub enum ModuleSpeed {
    /// Computed for every prompt.
    Fast,
    /// Computed in the background.
    Slow,
}

/// What modules see of the shell when they render.
#[derive(Clone, Debug)]
pub struct RenderContext {
    pub cwd: String,
    pub home_dir: String,
    pub last_exit_code: i32,
    pub duration_ms: Option<u64>,
    pub keymap: String,
    pub cols: usize,
}

/// The text a module renders.
#[derive(Clone, Debug, PartialEq, Eq)]
pub struct ModuleOutput {
    pub content: String,
}

/// Displays the current working directory.
///
/// Shows a compact path while preserving the active git repository name.
#[derive(Debug, Default)]
pub struct DirectoryModule;

// ---------------------------------------------------------------------------
// Specification
// ---------------------------------------------------------------------------

/// A component cut to its first character.
pub open spec fn shorten_spec(c: Seq<char>) -> Seq<char> {
    if c.len() > 0 { c.take(1) } else { c }
}

/// The components, those before position `full_from` cut to one character.
pub open spec fn shortened_parts(comps: Seq<Seq<char>>, full_from: nat) -> Seq<Seq<char>> {
    Seq::new(comps.len(), |i: int| if i < full_from { shorten_spec(comps[i]) } else { comps[i] })
}

/// `""` for an absolute path, `"."` for a relative one.
pub open spec fn root_prefix_spec(cwd: Seq<ComponentModel>) -> Seq<char> {
    if cwd.len() > 0 && cwd[0] == ComponentModel::RootDir {
        Seq::empty()
    } else {
        seq!['.']
    }
}

/// The position of the repository root's own component among the shown
/// components of `cwd`. A root under home counts, its components counted
/// below home. Otherwise, when `cwd` lies outside home, a root that is `cwd`
/// or one of its ancestors counts, its components counted from the start.
/// A root without a normal component in that range does not count.
pub open spec fn repo_full_from(
    cwd: Seq<ComponentModel>,
    home: Seq<ComponentModel>,
    root: Option<Seq<ComponentModel>>,
) -> Option<nat> {
    match root {
        Some(r) => if is_prefix(home, r) && normals(r.skip(home.len() as int)).len() >= 1 {
            Some((normals(r.skip(home.len() as int)).len() - 1) as nat)
        } else if !is_prefix(home, cwd) && is_prefix(r, cwd) && normals(r).len() >= 1 {
            Some((normals(r).len() - 1) as nat)
        } else {
            None
        },
        None => None,
    }
}

/// Whether `cwd` lies under `home`.
pub open spec fn under_home(cwd: Seq<ComponentModel>, home: Seq<ComponentModel>) -> bool {
    is_prefix(home, cwd)
}

/// The components of `cwd` that are shown: those below home when `cwd`
/// lies under home, all of them otherwise.
pub open spec fn shown_components(cwd: Seq<ComponentModel>, home: Seq<ComponentModel>) -> Seq<Seq<char>> {
    normals(if under_home(cwd, home) { cwd.skip(home.len() as int) } else { cwd })
}

/// The parts of the compact form, joined by `/`: the prefix (`~`, `""` or
/// `"."`), then one part per shown component, cut to its first character
/// before the repository's own component (before the last component when
/// there is no repository that counts).
pub open spec fn compact_parts(
    cwd: Seq<ComponentModel>,
    home: Seq<ComponentModel>,
    root: Option<Seq<ComponentModel>>,
) -> Seq<Seq<char>> {
    let comps = shown_components(cwd, home);
    let prefix = if under_home(cwd, home) { seq!['~'] } else { root_prefix_spec(cwd) };
    let full_from = match repo_full_from(cwd, home, root) {
        Some(f) => f,
        None => (comps.len() - 1) as nat,
    };
    seq![prefix] + shortened_parts(comps, full_from)
}

/// The compact form of the directory `cwd`, given the home directory and
/// the root of the enclosing git repository, if any.
pub open spec fn compact_spec(
    cwd: Seq<ComponentModel>,
    home: Seq<ComponentModel>,
    root: Option<Seq<ComponentModel>>,
) -> Seq<char> {
    if cwd == home {
        seq!['~']
    } else if shown_components(cwd, home).len() == 0 {
        let prefix = if under_home(cwd, home) { seq!['~'] } else { root_prefix_spec(cwd) };
        if prefix.len() == 0 { seq!['/'] } else { prefix }
    } else {
        join_with(compact_parts(cwd, home, root), '/')
    }
}

/// The text of one component as it is written in a path.
pub open spec fn comp_text(c: ComponentModel) -> Seq<char> {
    match c {
        ComponentModel::RootDir => seq!['/'],
        ComponentModel::CurDir => seq!['.'],
        ComponentModel::ParentDir => seq!['.', '.'],
        ComponentModel::Normal(t) => t,
    }
}

/// The path written from its components.
pub open spec fn dir_text(cs: Seq<ComponentModel>) -> Seq<char>
    decreases cs.len(),
{
    if cs.len() == 0 {
        Seq::empty()
    } else {
        let p = dir_text(cs.drop_last());
        if p.len() == 0 || p.last() == '/' {
            p + comp_text(cs.last())
        } else {
            p + seq!['/'] + comp_text(cs.last())
        }
    }
}

/// The path of the `.git` entry inside the directory with components `cs`.
pub open spec fn git_marker_path(cs: Seq<ComponentModel>) -> Seq<char> {
    let d = dir_text(cs);
    if d.len() == 0 {
        seq!['.', 'g', 'i', 't']
    } else if d.last() == '/' {
        d + seq!['.', 'g', 'i', 't']
    } else {
        d + seq!['/', '.', 'g', 'i', 't']
    }
}

/// A possible outcome of the search for the enclosing repository: none, or
/// an ancestor of `cwd` (`cwd` itself included).
pub open spec fn is_root_candidate(root: Option<Seq<ComponentModel>>, cwd: Seq<ComponentModel>) -> bool {
    match root {
        Some(r) => is_prefix(r, cwd),
        None => true,
    }
}

/// Number of directories the search for a repository looks at, nearest
/// first: the directory itself and each parent in turn, up to and including
/// the root (or the empty path, for a relative path).
pub open spec fn ancestor_count(cs: Seq<ComponentModel>) -> nat
    decreases cs.len(),
{
    if cs.len() == 0 || cs.last() == ComponentModel::RootDir {
        1
    } else {
        1 + ancestor_count(cs.drop_last())
    }
}

/// Position of the first `true` among `answers[i..limit]`, if any.
pub open spec fn first_true_from(answers: Seq<bool>, i: nat, limit: nat) -> Option<nat>
    decreases limit - i,
{
    if i >= limit || i >= answers.len() {
        None
    } else if answers[i as int] {
        Some(i)
    } else {
        first_true_from(answers, i + 1, limit)
    }
}

/// The repository root chosen from the answers to "does this directory hold
/// a `.git` entry?", one per directory looked at, nearest first (answer `i`
/// is for the directory made of the first `len - i` components): the nearest
/// directory answered `true`, or none when no answer is `true`.
pub open spec fn nearest_root_spec(start: Seq<ComponentModel>, answers: Seq<bool>) -> Option<Seq<ComponentModel>> {
    match first_true_from(answers, 0, ancestor_count(start)) {
        Some(i) => Some(start.take(start.len() - i)),
        None => None,
    }
}

/// The paths a search asks the disk about for its first `n` answers: the
/// `.git` entry of the directory itself, then of each parent in turn.
pub open spec fn search_asked(start: Seq<ComponentModel>, n: nat) -> Seq<Seq<char>> {
    Seq::new(n, |j: int| git_marker_path(start.take(start.len() - j)))
}

/// The answers a search gathers: one per directory looked at, nearest first,
/// stopping at the first `true` or after the last directory.
pub open spec fn search_answers_wf(start: Seq<ComponentModel>, answers: Seq<bool>) -> bool {
    &&& 1 <= answers.len() <= ancestor_count(start)
    &&& forall|i: int| 0 <= i < answers.len() - 1 ==> !answers[i]
    &&& (answers.len() == ancestor_count(start) || answers.last())
}

/// A search trace: the answers gathered (see [`search_answers_wf`]) and the
/// path each was asked about, nearest directory first (see [`search_asked`]).
pub open spec fn search_trace(start: Seq<ComponentModel>, answers: Seq<bool>, asked: Seq<Seq<char>>) -> bool {
    search_answers_wf(start, answers) && asked == search_asked(start, answers.len())
}

proof fn lemma_ancestor_count_bound(cs: Seq<ComponentModel>)
    ensures
        1 <= ancestor_count(cs) <= cs.len() + 1,
    decreases cs.len(),
{
    if !(cs.len() == 0 || cs.last() == ComponentModel::RootDir) {
        lemma_ancestor_count_bound(cs.drop_last());
    }
}

proof fn lemma_first_true_bound(answers: Seq<bool>, i: nat, limit: nat)
    ensures
        first_true_from(answers, i, limit) matches Some(j) ==> i <= j < limit && j < answers.len(),
    decreases limit - i,
{
    if !(i >= limit || i >= answers.len()) && !answers[i as int] {
        lemma_first_true_bound(answers, i + 1, limit);
    }
}

/// The chosen root, when there is one, is the directory itself or one of its ancestors.
pub proof fn law_nearest_root_is_ancestor(start: Seq<ComponentModel>, answers: Seq<bool>)
    ensures
        is_root_candidate(nearest_root_spec(start, answers), start),
{
    lemma_ancestor_count_bound(start);
    lemma_first_true_bound(answers, 0, ancestor_count(start));
    match first_true_from(answers, 0, ancestor_count(start)) {
        Some(i) => {
            let r = start.take(start.len() - i);
            assert(start.take(r.len() as int) =~= r);
        },
        None => {},
    }
}

// ---------------------------------------------------------------------------
// Trusted file-system query
// ---------------------------------------------------------------------------

/// Calls `std::path::Path::exists` on `path`, and hands back, as a ghost
/// value, the path it asked about. Nothing is stated of the answer: it
/// depends on what is on disk when the call is made.
#[verifier::external_body]
fn path_exists(path: &str) -> (r: (bool, Ghost<Seq<char>>))
    ensures
        r.1@ == path@,
{
    (std::path::Path::new(path).exists(), Ghost(path@))
}

// ---------------------------------------------------------------------------
// Implementation
// ---------------------------------------------------------------------------

fn comps_eq(a: &Vec<PathComponent>, b: &Vec<PathComponent>) -> (r: bool)
    ensures
        r == (comp_views(a@) == comp_views(b@)),
{
    if a.len() != b.len() {
        proof {
            assert(comp_views(a@).len() != comp_views(b@).len());
        }
        return false;
    }
    let mut i: usize = 0;
    while i < a.len()
        invariant
            i <= a@.len(),
            a@.len() == b@.len(),
            forall|j: int| 0 <= j < i ==> a@[j]@ == b@[j]@,
        decreases a@.len() - i,
    {
        if !a[i].same_as(&b[i]) {
            proof {
                assert(comp_views(a@)[i as int] != comp_views(b@)[i as int]);
            }
            return false;
        }
        i = i + 1;
    }
    proof {
        assert(comp_views(a@) =~= comp_views(b@));
    }
    true
}

fn comps_prefix(prefix: &Vec<PathComponent>, cs: &Vec<PathComponent>) -> (r: bool)
    ensures
        r == is_prefix(comp_views(prefix@), comp_views(cs@)),
{
    if prefix.len() > cs.len() {
        return false;
    }
    let mut i: usize = 0;
    while i < prefix.len()
        invariant
            i <= prefix@.len() <= cs@.len(),
            forall|j: int| 0 <= j < i ==> prefix@[j]@ == cs@[j]@,
        decreases prefix@.len() - i,
    {
        if !prefix[i].same_as(&cs[i]) {
            proof {
                assert(comp_views(cs@).take(prefix@.len() as int)[i as int] != comp_views(prefix@)[i as int]);
            }
            return false;
        }
        i = i + 1;
    }
    proof {
        assert(comp_views(cs@).take(prefix@.len() as int) =~= comp_views(prefix@));
    }
    true
}

/// The texts of the normal components of the path made of the components
/// of `cs` from position `from` on.
pub fn path_components(cs: &Vec<PathComponent>, from: usize) -> (r: Vec<Vec<char>>)
    requires
        from <= cs@.len(),
    ensures
        r@.map_values(|t: Vec<char>| t@) == normals(comp_views(cs@).skip(from as int)),
{
    let ghost all = comp_views(cs@).skip(from as int);
    let mut out: Vec<Vec<char>> = Vec::new();
    let mut i: usize = from;
    proof {
        assert(all.take(0) =~= Seq::<ComponentModel>::empty());
        assert(out@.map_values(|t: Vec<char>| t@) =~= Seq::<Seq<char>>::empty());
    }
    while i < cs.len()
        invariant
            from <= i <= cs@.len(),
            all == comp_views(cs@).skip(from as int),
            out@.map_values(|t: Vec<char>| t@) == normals(all.take(i - from)),
        decreases cs@.len() - i,
    {
        proof {
            assert(all.take(i + 1 - from).drop_last() =~= all.take(i - from));
            assert(all.take(i + 1 - from).last() == cs@[i as int]@);
        }
        match &cs[i] {
            PathComponent::Normal(t) => {
                let ghost before = out@;
                let mut copy: Vec<char> = Vec::new();
                push_all(&mut copy, t);
                out.push(copy);
                proof {
                    assert(out@.map_values(|t: Vec<char>| t@) =~= before.map_values(|t: Vec<char>| t@).push(t@));
                }
            },
            _ => {},
        }
        i = i + 1;
    }
    proof {
        assert(all.take(i - from) =~= all);
    }
    out
}

/// A component cut to its first character.
pub fn shorten_component(component: &Vec<char>) -> (r: Vec<char>)
    ensures
        r@ == shorten_spec(component@),
{
    let mut out: Vec<char> = Vec::new();
    if component.len() > 0 {
        out.push(component[0]);
        proof {
            assert(out@ =~= component@.take(1));
        }
    }
    out
}

/// `""` for an absolute path, `"."` for a relative one.
pub fn root_prefix(cwd: &Vec<PathComponent>) -> (r: Vec<char>)
    ensures
        r@ == root_prefix_spec(comp_views(cwd@)),
{
    let mut out: Vec<char> = Vec::new();
    let absolute = cwd.len() > 0 && match &cwd[0] {
        PathComponent::RootDir => true,
        _ => false,
    };
    if !absolute {
        out.push('.');
        proof {
            assert(out@ =~= seq!['.']);
        }
    } else {
        proof {
            assert(out@ =~= Seq::<char>::empty());
        }
    }
    out
}

fn single_char(c: char) -> (r: Vec<char>)
    ensures
        r@ == seq![c],
{
    let mut v: Vec<char> = Vec::new();
    v.push(c);
    proof {
        assert(v@ =~= seq![c]);
    }
    v
}

/// The compact form of `cwd` (see [`compact_spec`]), given as components.
pub fn compact_components_of(
    cwd: &Vec<PathComponent>,
    home: &Vec<PathComponent>,
    repo_root: Option<&Vec<PathComponent>>,
) -> (r: Vec<char>)
    ensures
        r@ == compact_spec(
            comp_views(cwd@),
            comp_views(home@),
            match repo_root {
                Some(x) => Some(comp_views(x@)),
                None => None,
            },
        ),
{
    if comps_eq(cwd, home) {
        return single_char('~');
    }
    let under_home = comps_prefix(home, cwd);
    let prefix = if under_home { single_char('~') } else { root_prefix(cwd) };
    let from: usize = if under_home { home.len() } else { 0 };
    let comps = path_components(cwd, from);
    proof {
        if !under_home {
            assert(comp_views(cwd@).skip(0) =~= comp_views(cwd@));
        }
        assert(comp_views(cwd@).skip(from as int) == if under_home {
            comp_views(cwd@).skip(comp_views(home@).len() as int)
        } else {
            comp_views(cwd@)
        });
    }
    if comps.len() == 0 {
        return if prefix.len() == 0 { single_char('/') } else { prefix };
    }
    let ghost root_model = match repo_root {
        Some(x) => Some(comp_views(x@)),
        None => None::<Seq<ComponentModel>>,
    };
    let mut full_from: usize = comps.len() - 1;
    match repo_root {
        Some(root) => {
            if comps_prefix(home, root) {
                let root_comps = path_components(root, home.len());
                if root_comps.len() >= 1 {
                    full_from = root_comps.len() - 1;
                } else if !under_home && comps_prefix(root, cwd) {
                    let all_comps = path_components(root, 0);
                    proof {
                        assert(comp_views(root@).skip(0) =~= comp_views(root@));
                    }
                    if all_comps.len() >= 1 {
                        full_from = all_comps.len() - 1;
                    }
                }
            } else if !under_home && comps_prefix(root, cwd) {
                let root_comps = path_components(root, 0);
                proof {
                    assert(comp_views(root@).skip(0) =~= comp_views(root@));
                }
                if root_comps.len() >= 1 {
                    full_from = root_comps.len() - 1;
                }
            }
        },
        None => {},
    }
    assert(full_from == match repo_full_from(comp_views(cwd@), comp_views(home@), root_model) {
        Some(f) => f,
        None => (comps@.len() - 1) as nat,
    });
    let ghost cv = comps@.map_values(|t: Vec<char>| t@);
    let mut parts: Vec<Vec<char>> = Vec::new();
    parts.push(prefix);
    let mut i: usize = 0;
    while i < comps.len()
        invariant
            i <= comps@.len(),
            cv == comps@.map_values(|t: Vec<char>| t@),
            parts@.len() == i + 1,
            parts@[0]@ == if under_home { seq!['~'] } else { root_prefix_spec(comp_views(cwd@)) },
            forall|j: int| 0 <= j < i ==> #[trigger] parts@[j + 1]@ == shortened_parts(cv, full_from as nat)[j],
        decreases comps@.len() - i,
    {
        let part = if i < full_from { shorten_component(&comps[i]) } else {
            let mut copy: Vec<char> = Vec::new();
            push_all(&mut copy, &comps[i]);
            copy
        };
        parts.push(part);
        i = i + 1;
    }
    proof {
        let expected = seq![parts@[0]@] + shortened_parts(cv, full_from as nat);
        assert forall|j: int| 0 <= j < parts@.len() implies parts@.map_values(|t: Vec<char>| t@)[j] == expected[j] by {
            if j > 0 {
                assert(parts@[(j - 1) + 1]@ == shortened_parts(cv, full_from as nat)[j - 1]);
            }
        }
        assert(parts@.map_values(|t: Vec<char>| t@) =~= expected);
    }
    join_sep(&parts, '/')
}

/// The compact form of `cwd`, given the home directory and the root of the
/// enclosing git repository, if any (see [`compact_spec`]).
pub fn compact_components(cwd: &str, home: &str, repo_root: Option<&str>) -> (r: String)
    ensures
        r@ == compact_spec(
            components_spec(cwd@),
            components_spec(home@),
            match repo_root {
                Some(x) => Some(components_spec(x@)),
                None => None,
            },
        ),
{
    let c = components(cwd);
    let h = components(home);
    let text = match repo_root {
        Some(root) => {
            let rc = components(root);
            compact_components_of(&c, &h, Some(&rc))
        },
        None => compact_components_of(&c, &h, None),
    };
    string_of(&text)
}

fn push_str_chars(out: &mut Vec<char>, s: &str)
    ensures
        final(out)@ == old(out)@ + s@,
{
    let c = chars_of(s);
    push_all(out, &c);
}

/// The path of the directory with components `cs`, written out.
fn dir_text_of(cs: &Vec<PathComponent>, count: usize) -> (r: Vec<char>)
    requires
        count <= cs@.len(),
    ensures
        r@ == dir_text(comp_views(cs@).take(count as int)),
{
    let ghost all = comp_views(cs@);
    let mut out: Vec<char> = Vec::new();
    let mut i: usize = 0;
    proof {
        assert(all.take(0) =~= Seq::<ComponentModel>::empty());
    }
    while i < count
        invariant
            i <= count <= cs@.len(),
            all == comp_views(cs@),
            out@ == dir_text(all.take(i as int)),
        decreases count - i,
    {
        proof {
            assert(all.take(i + 1).drop_last() =~= all.take(i as int));
            assert(all.take(i + 1).last() == cs@[i as int]@);
        }
        if !(out.len() == 0 || out[out.len() - 1] == '/') {
            out.push('/');
        }
        match &cs[i] {
            PathComponent::RootDir => out.push('/'),
            PathComponent::CurDir => out.push('.'),
            PathComponent::ParentDir => {
                out.push('.');
                out.push('.');
            },
            PathComponent::Normal(t) => push_all(&mut out, t),
        }
        proof {
            let p = dir_text(all.take(i as int));
            let t = comp_text(cs@[i as int]@);
            if p.len() == 0 || p.last() == '/' {
                assert(out@ =~= p + t);
            } else {
                assert(out@ =~= p + seq!['/'] + t);
            }
        }
        i = i + 1;
    }
    out
}

/// The path of the `.git` entry of the directory made of the first `count`
/// components of `cs` (see [`git_marker_path`]).
fn git_marker_of(cs: &Vec<PathComponent>, count: usize) -> (r: String)
    requires
        count <= cs@.len(),
    ensures
        r@ == git_marker_path(comp_views(cs@).take(count as int)),
{
    let mut d = dir_text_of(cs, count);
    if d.len() > 0 && d[d.len() - 1] != '/' {
        d.push('/');
    }
    let ghost before = d@;
    push_str_chars(&mut d, ".git");
    proof {
        reveal_strlit(".git");
        let dt = dir_text(comp_views(cs@).take(count as int));
        if dt.len() == 0 {
            assert(d@ =~= seq!['.', 'g', 'i', 't']);
        } else if dt.last() == '/' {
            assert(d@ =~= dt + seq!['.', 'g', 'i', 't']);
        } else {
            assert(d@ =~= dt + seq!['/', '.', 'g', 'i', 't']);
        }
    }
    string_of(&d)
}

fn copy_prefix(cs: &Vec<PathComponent>, count: usize) -> (r: Vec<PathComponent>)
    requires
        count <= cs@.len(),
    ensures
        comp_views(r@) == comp_views(cs@).take(count as int),
{
    let mut out: Vec<PathComponent> = Vec::new();
    let mut i: usize = 0;
    while i < count
        invariant
            i <= count <= cs@.len(),
            out@.len() == i,
            forall|j: int| 0 <= j < i ==> #[trigger] out@[j]@ == cs@[j]@,
        decreases count - i,
    {
        out.push(cs[i].duplicate());
        i = i + 1;
    }
    proof {
        assert(comp_views(out@) =~= comp_views(cs@).take(count as int));
    }
    out
}

/// The nearest directory answered `true`, from `start` up to the root (see
/// [`nearest_root_spec`]): answer `i` is for the directory made of the first
/// `len - i` components of `start`.
pub fn nearest_git_root(start: &Vec<PathComponent>, answers: &Vec<bool>) -> (r: Option<Vec<PathComponent>>)
    ensures
        match r {
            Some(x) => Some(comp_views(x@)),
            None => None,
        } == nearest_root_spec(comp_views(start@), answers@),
{
    let ghost cs = comp_views(start@);
    let ghost ac = ancestor_count(cs);
    let mut i: usize = 0;
    let mut count: usize = start.len();
    proof {
        assert(cs.take(count as int) =~= cs);
    }
    loop
        invariant
            cs == comp_views(start@),
            ac == ancestor_count(cs),
            i + count == start@.len(),
            ac == i + ancestor_count(cs.take(count as int)),
            first_true_from(answers@, 0, ac) == first_true_from(answers@, i as nat, ac),
        decreases count,
    {
        if i >= answers.len() {
            return None;
        }
        if answers[i] {
            let found = copy_prefix(start, count);
            return Some(found);
        }
        let at_top = count == 0 || match &start[count - 1] {
            PathComponent::RootDir => true,
            _ => false,
        };
        proof {
            let t = cs.take(count as int);
            if count > 0 {
                assert(t.last() == start@[count - 1]@);
                assert(t.drop_last() =~= cs.take(count - 1));
            }
        }
        if at_top {
            proof {
                assert(first_true_from(answers@, (i + 1) as nat, ac) == None::<nat>);
            }
            return None;
        }
        i = i + 1;
        count = count - 1;
    }
}

/// Looks for the repository enclosing `start`: asks the disk, directory by
/// directory from `start` up to the root, whether it holds a `.git` entry,
/// and stops at the first that does. Returns the chosen root, the answers
/// the disk gave, and the paths it was asked about (answer `j` is the one
/// `Path::exists` gave for path `j`). The root is the nearest directory
/// answered `true`, and none only when every directory up to the root was
/// answered `false`.
pub fn find_git_root(start: &Vec<PathComponent>) -> (r: (
    Option<Vec<PathComponent>>,
    Ghost<Seq<bool>>,
    Ghost<Seq<Seq<char>>>,
))
    ensures
        search_answers_wf(comp_views(start@), r.1@),
        r.2@ == search_asked(comp_views(start@), r.1@.len()),
        match r.0 {
            Some(x) => Some(comp_views(x@)),
            None => None,
        } == nearest_root_spec(comp_views(start@), r.1@),
{
    let ghost cs = comp_views(start@);
    let ghost ac = ancestor_count(cs);
    let mut answers: Vec<bool> = Vec::new();
    let ghost mut asked: Seq<Seq<char>> = Seq::empty();
    let mut count: usize = start.len();
    proof {
        assert(cs.take(count as int) =~= cs);
        assert(asked =~= search_asked(cs, 0));
    }
    loop
        invariant_except_break
            cs == comp_views(start@),
            ac == ancestor_count(cs),
            answers@.len() + count == start@.len(),
            ac == answers@.len() + ancestor_count(cs.take(count as int)),
            forall|j: int| 0 <= j < answers@.len() ==> !answers@[j],
            asked == search_asked(cs, answers@.len()),
        ensures
            search_answers_wf(cs, answers@),
            asked == search_asked(cs, answers@.len()),
        decreases count,
    {
        proof {
            lemma_ancestor_count_bound(cs.take(count as int));
        }
        let marker = git_marker_of(start, count);
        let (found, Ghost(path)) = path_exists(marker.as_str());
        let at_top = count == 0 || match &start[count - 1] {
            PathComponent::RootDir => true,
            _ => false,
        };
        proof {
            let t = cs.take(count as int);
            if count > 0 {
                assert(t.last() == start@[count - 1]@);
                assert(t.drop_last() =~= cs.take(count - 1));
            }
            let n = answers@.len();
            asked = asked.push(path);
            assert(cs.len() - n == count);
            assert(asked =~= search_asked(cs, n + 1));
        }
        answers.push(found);
        if found || at_top {
            break;
        }
        count = count - 1;
    }
    let root = nearest_git_root(start, &answers);
    (root, Ghost(answers@), Ghost(asked))
}

/// The compact form of `cwd`, using the git repository found on disk: the
/// nearest directory, from `cwd` up to the root, that holds a `.git` entry
/// (see [`compact_spec`] and [`find_git_root`]). `answers` are what the disk
/// said when asked about the paths `asked`, in that order.
pub fn format_directory(cwd: &str, home: &str) -> (r: String)
    ensures
        exists|answers: Seq<bool>, asked: Seq<Seq<char>>|
            #[trigger] search_trace(components_spec(cwd@), answers, asked) && r@ == compact_spec(
                components_spec(cwd@),
                components_spec(home@),
                nearest_root_spec(components_spec(cwd@), answers),
            ),
{
    let c = components(cwd);
    let h = components(home);
    let (root, answers, asked) = find_git_root(&c);
    let text = match &root {
        Some(x) => compact_components_of(&c, &h, Some(x)),
        None => compact_components_of(&c, &h, None),
    };
    let r = string_of(&text);
    assert(search_trace(components_spec(cwd@), answers@, asked@) && r@ == compact_spec(
        components_spec(cwd@),
        components_spec(home@),
        nearest_root_spec(components_spec(cwd@), answers@),
    ));
    r
}

impl DirectoryModule {
    /// Creates a new `DirectoryModule`.
    pub fn new() -> (m: Self)
        ensures
            m == DirectoryModule,
    {
        DirectoryModule
    }

    /// The module's name.
    pub fn name(&self) -> (r: &'static str)
        ensures
            r@ == "directory"@,
    {
        "directory"
    }

    /// The directory is computed for every prompt.
    pub fn speed(&self) -> (r: ModuleSpeed)
        ensures
            r == ModuleSpeed::Fast,
    {
        ModuleSpeed::Fast
    }

    /// The compact working directory (see [`format_directory`]); always present.
    pub fn render(&self, ctx: &RenderContext) -> (r: Option<ModuleOutput>)
        ensures
            r is Some,
            r->0.content@.len() > 0,
            exists|answers: Seq<bool>, asked: Seq<Seq<char>>|
                #[trigger] search_trace(components_spec(ctx.cwd@), answers, asked) && r->0.content@ == compact_spec(
                    components_spec(ctx.cwd@),
                    components_spec(ctx.home_dir@),
                    nearest_root_spec(components_spec(ctx.cwd@), answers),
                ),
    {
        let content = format_directory(ctx.cwd.as_str(), ctx.home_dir.as_str());
        proof {
            let cwd = components_spec(ctx.cwd@);
            let home = components_spec(ctx.home_dir@);
            assert forall|root: Option<Seq<ComponentModel>>| #[trigger] compact_spec(cwd, home, root).len() > 0 by {
                law_compact_nonempty(cwd, home, root);
            }
        }
        Some(ModuleOutput { content })
    }
}

// ---------------------------------------------------------------------------
// Laws
// ---------------------------------------------------------------------------

/// The home directory itself is shown as `~`, whatever repository is found.
pub proof fn law_home_is_tilde(home: Seq<ComponentModel>, root: Option<Seq<ComponentModel>>)
    ensures
        compact_spec(home, home, root) == seq!['~'],
{
}

proof fn lemma_normals_concat(a: Seq<ComponentModel>, b: Seq<ComponentModel>)
    ensures
        normals(a + b) == normals(a) + normals(b),
    decreases b.len(),
{
    if b.len() == 0 {
        assert(a + b =~= a);
        assert(normals(a) + normals(b) =~= normals(a));
    } else {
        assert((a + b).drop_last() =~= a + b.drop_last());
        lemma_normals_concat(a, b.drop_last());
        match b.last() {
            ComponentModel::Normal(t) => {
                assert(normals(a) + normals(b.drop_last()).push(t) =~= (normals(a) + normals(b.drop_last())).push(t));
            },
            _ => {},
        }
    }
}

proof fn lemma_join_with_ends_with_last(parts: Seq<Seq<char>>, sep: char)
    requires
        parts.len() > 0,
    ensures
        ends_with(join_with(parts, sep), parts.last()),
{
    let j = join_with(parts, sep);
    assert(j.skip(j.len() - parts.last().len()) =~= parts.last());
}

/// A repository root that counts is the directory itself or one of its
/// ancestors, so its own component is one of the shown ones.
proof fn lemma_full_from_bound(
    cwd: Seq<ComponentModel>,
    home: Seq<ComponentModel>,
    root: Option<Seq<ComponentModel>>,
)
    requires
        is_root_candidate(root, cwd),
    ensures
        repo_full_from(cwd, home, root) matches Some(f) ==> f < shown_components(cwd, home).len(),
{
    let under = under_home(cwd, home);
    let relative = if under { cwd.skip(home.len() as int) } else { cwd };
    match root {
        Some(r) => {
            if is_prefix(home, r) && normals(r.skip(home.len() as int)).len() >= 1 {
                // r is an ancestor of cwd and lies under home, so cwd does too
                assert(cwd.take(home.len() as int) =~= r.take(home.len() as int));
                assert(under);
                let rr = r.skip(home.len() as int);
                assert(relative =~= rr + relative.skip(rr.len() as int));
                lemma_normals_concat(rr, relative.skip(rr.len() as int));
            } else if !under && is_prefix(r, cwd) && normals(r).len() >= 1 {
                assert(cwd =~= r + cwd.skip(r.len() as int));
                lemma_normals_concat(r, cwd.skip(r.len() as int));
            }
        },
        None => {},
    }
}

/// The shape of the compact form: the prefix, then one part per shown
/// component, each whole or cut to its first character, in order; the last
/// component and the repository's own component (when a repository counts)
/// are whole; the parts before the repository's component (before the last
/// one without a repository) are cut. This holds whenever the repository root
/// is the directory itself, one of its ancestors, or absent.
pub proof fn law_compact_shape(
    cwd: Seq<ComponentModel>,
    home: Seq<ComponentModel>,
    root: Option<Seq<ComponentModel>>,
)
    requires
        cwd != home,
        is_root_candidate(root, cwd),
        shown_components(cwd, home).len() > 0,
    ensures
        ({
            let comps = shown_components(cwd, home);
            let parts = compact_parts(cwd, home, root);
            let full_from = match repo_full_from(cwd, home, root) {
                Some(f) => f,
                None => (comps.len() - 1) as nat,
            };
            &&& compact_spec(cwd, home, root) == join_with(parts, '/')
            &&& parts.len() == comps.len() + 1
            &&& parts[0] == (if under_home(cwd, home) { seq!['~'] } else { root_prefix_spec(cwd) })
            &&& full_from < comps.len()
            &&& forall|i: int| 0 <= i < comps.len() ==> #[trigger] parts[i + 1] == if i < full_from {
                shorten_spec(comps[i])
            } else {
                comps[i]
            }
            &&& forall|i: int| 0 <= i < comps.len() ==> (#[trigger] shorten_spec(comps[i])).len() <= 1
            &&& parts.last() == comps.last()
            &&& (repo_full_from(cwd, home, root) matches Some(f) ==> parts[(f + 1) as int] == comps[f as int])
        }),
{
    lemma_full_from_bound(cwd, home, root);
}

/// The compact form is never empty.
pub proof fn law_compact_nonempty(
    cwd: Seq<ComponentModel>,
    home: Seq<ComponentModel>,
    root: Option<Seq<ComponentModel>>,
)
    ensures
        compact_spec(cwd, home, root).len() > 0,
{
    if cwd != home && shown_components(cwd, home).len() > 0 {
        let parts = compact_parts(cwd, home, root);
        assert(parts.len() >= 2);
        assert(parts.drop_last().len() >= 1);
    }
}

/// The current directory's own name is never shortened: when the shown path
/// has components, it ends with the last one in full, provided the
/// repository root (if any) is the directory itself or one of its ancestors.
pub proof fn law_current_directory_kept_whole(
    cwd: Seq<ComponentModel>,
    home: Seq<ComponentModel>,
    root: Option<Seq<ComponentModel>>,
)
    requires
        cwd != home,
        is_root_candidate(root, cwd),
        shown_components(cwd, home).len() > 0,
    ensures
        ends_with(compact_spec(cwd, home, root), shown_components(cwd, home).last()),
{
    law_compact_shape(cwd, home, root);
    lemma_join_with_ends_with_last(compact_parts(cwd, home, root), '/');
}

/// The normal components with the given names.
pub open spec fn normal_comps(names: Seq<Seq<char>>) -> Seq<ComponentModel> {
    names.map_values(|n: Seq<char>| ComponentModel::Normal(n))
}

proof fn lemma_join_with_last_char(parts: Seq<Seq<char>>, sep: char)
    requires
        parts.len() > 0,
        parts.last().len() > 0,
    ensures
        join_with(parts, sep).len() > 0,
        join_with(parts, sep).last() == parts.last().last(),
{
    let j = join_with(parts, sep);
    if parts.len() > 1 {
        assert(j.last() == parts.last().last());
    }
}

proof fn lemma_dir_text_rooted(names: Seq<Seq<char>>)
    requires
        names.len() > 0,
        forall|i: int| 0 <= i < names.len() ==> (#[trigger] names[i]).len() > 0 && names[i].last() != '/',
    ensures
        dir_text(seq![ComponentModel::RootDir] + normal_comps(names)) == seq!['/'] + join_with(names, '/'),
    decreases names.len(),
{
    let cs = seq![ComponentModel::RootDir] + normal_comps(names);
    assert(cs.drop_last() =~= seq![ComponentModel::RootDir] + normal_comps(names.drop_last()));
    assert(cs.last() == ComponentModel::Normal(names.last()));
    let root_only = seq![ComponentModel::RootDir];
    assert(root_only.drop_last() =~= Seq::<ComponentModel>::empty());
    assert(dir_text(Seq::<ComponentModel>::empty()) =~= Seq::<char>::empty());
    assert(root_only.last() == ComponentModel::RootDir);
    assert(dir_text(root_only) == dir_text(root_only.drop_last()) + comp_text(ComponentModel::RootDir));
    assert(dir_text(root_only) =~= seq!['/']);
    if names.len() == 1 {
        assert(normal_comps(names.drop_last()) =~= Seq::<ComponentModel>::empty());
        assert(seq![ComponentModel::RootDir] + normal_comps(names.drop_last()) =~= root_only);
        assert(join_with(names, '/') == names[0]);
    } else {
        lemma_dir_text_rooted(names.drop_last());
        lemma_join_with_last_char(names.drop_last(), '/');
        let p = seq!['/'] + join_with(names.drop_last(), '/');
        assert(p.last() == names.drop_last().last().last());
        assert(names.drop_last().last() == names[names.len() - 2]);
        assert(p + seq!['/'] + names.last() =~= seq!['/'] + join_with(names, '/'));
    }
}

/// The path the repository search asks about for a directory is the `.git`
/// entry inside that directory: for the root, `/.git`; for the directory
/// `/n1/.../nk`, `/n1/.../nk/.git`.
pub proof fn law_git_marker_is_entry_in_directory(names: Seq<Seq<char>>)
    requires
        forall|i: int| 0 <= i < names.len() ==> (#[trigger] names[i]).len() > 0 && names[i].last() != '/',
    ensures
        git_marker_path(seq![ComponentModel::RootDir] + normal_comps(names)) == if names.len() == 0 {
            seq!['/', '.', 'g', 'i', 't']
        } else {
            seq!['/'] + join_with(names, '/') + seq!['/', '.', 'g', 'i', 't']
        },
{
    let cs = seq![ComponentModel::RootDir] + normal_comps(names);
    if names.len() == 0 {
        assert(normal_comps(names) =~= Seq::<ComponentModel>::empty());
        assert(cs =~= seq![ComponentModel::RootDir]);
        assert(cs.drop_last() =~= Seq::<ComponentModel>::empty());
        assert(dir_text(Seq::<ComponentModel>::empty()) =~= Seq::<char>::empty());
        assert(dir_text(cs) == dir_text(cs.drop_last()) + comp_text(ComponentModel::RootDir));
        assert(dir_text(cs) =~= seq!['/']);
        assert(seq!['/'] + seq!['.', 'g', 'i', 't'] =~= seq!['/', '.', 'g', 'i', 't']);
    } else {
        lemma_dir_text_rooted(names);
        lemma_join_with_last_char(names, '/');
        let d = dir_text(cs);
        assert(d.last() == names.last().last());
        assert(d + seq!['/', '.', 'g', 'i', 't'] =~= seq!['/'] + join_with(names, '/') + seq!['/', '.', 'g', 'i', 't']);
    }
}

proof fn lemma_first_true_at(answers: Seq<bool>, i: nat, j: nat, limit: nat)
    requires
        i <= j < limit,
        j < answers.len(),
        answers[j as int],
        forall|m: int| i <= m < j ==> !answers[m],
    ensures
        first_true_from(answers, i, limit) == Some(j),
    decreases j - i,
{
    if i < j {
        lemma_first_true_at(answers, i + 1, j, limit);
    }
}

proof fn lemma_no_true(answers: Seq<bool>, i: nat, limit: nat)
    requires
        forall|m: int| i <= m < answers.len() && m < limit ==> !answers[m],
    ensures
        first_true_from(answers, i, limit) is None,
    decreases limit - i,
{
    if !(i >= limit || i >= answers.len()) {
        lemma_no_true(answers, i + 1, limit);
    }
}

/// The search picks the nearest directory whose `.git` entry exists: when
/// the answer for the `j`-th directory looked at (the one made of the first
/// `len - j` components) is the first `true`, the root is that directory;
/// when no answer is `true`, there is no root.
pub proof fn law_nearest_root_is_first_found(start: Seq<ComponentModel>, answers: Seq<bool>, j: nat)
    requires
        j < ancestor_count(start),
        j < answers.len(),
    ensures
        (answers[j as int] && forall|m: int| 0 <= m < j ==> !answers[m]) ==> nearest_root_spec(start, answers)
            == Some(start.take(start.len() - j)),
        (forall|m: int| 0 <= m < answers.len() ==> !answers[m]) ==> nearest_root_spec(start, answers) is None,
{
    if answers[j as int] && forall|m: int| 0 <= m < j ==> !answers[m] {
        lemma_first_true_at(answers, 0, j, ancestor_count(start));
    }
    if forall|m: int| 0 <= m < answers.len() ==> !answers[m] {
        lemma_no_true(answers, 0, ancestor_count(start));
    }
}

} // verus!
