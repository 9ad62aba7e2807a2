//! Short lists of paths with labels, the latest first: recent folders, recent images, and the
//! folders of the library.

use vstd::prelude::*;

use crate::media::labels_for_paths;
use crate::path::{copy_paths, MediaPath};

verus! {

/// How many recent folders and images are kept.
pub const RECENT_CAP: usize = 10;

/// How many folders the library has at most.
pub const MANAGED_CAP: usize = 20;

/// How long the labels of recent folders and images are.
pub const RECENT_LABEL: usize = 32;

/// How long the labels of the folders of the library are.
pub const MANAGED_LABEL: usize = 24;

/// A list of paths with a label for each.
pub struct PathList {
    paths: Vec<MediaPath>,
    labels: Vec<String>,
    cap: usize,
    label_max: usize,
}

/// What a list of paths holds.
pub struct ListSpec {
    pub paths: Seq<crate::path::PathSpec>,
    pub cap: nat,
    pub label_max: nat,
}

/// The paths of `s` that do not have these components.
pub open spec fn without(
    s: Seq<crate::path::PathSpec>,
    k: crate::path::PathKey,
) -> Seq<crate::path::PathSpec>
    decreases s.len(),
{
    if s.len() == 0 {
        Seq::empty()
    } else if s.last().parts == k {
        without(s.drop_last(), k)
    } else {
        without(s.drop_last(), k).push(s.last())
    }
}

/// The first `n` paths of a list.
pub open spec fn at_most(s: Seq<crate::path::PathSpec>, n: nat) -> Seq<crate::path::PathSpec> {
    if s.len() <= n {
        s
    } else {
        s.take(n as int)
    }
}

impl ListSpec {
    /// The list with a path in front, which stands nowhere else in it.
    pub open spec fn pushed(self, p: crate::path::PathSpec) -> ListSpec {
        ListSpec { paths: at_most(seq![p] + without(self.paths, p.parts), self.cap), ..self }
    }

    /// The list without a path.
    pub open spec fn removed(self, k: crate::path::PathKey) -> ListSpec {
        ListSpec { paths: without(self.paths, k), ..self }
    }

    /// The list with other paths.
    pub open spec fn with_paths(self, paths: Seq<crate::path::PathSpec>) -> ListSpec {
        ListSpec { paths, ..self }
    }

    /// The list has a path with these components.
    pub open spec fn has(self, k: crate::path::PathKey) -> bool {
        crate::pathmap::has_key(self.paths, k)
    }

    /// The labels of the paths.
    pub open spec fn labels(self) -> Seq<Seq<char>> {
        crate::media::labels_of(self.paths, self.label_max)
    }
}

/// The paths of a list that do not have the components of `path`.
fn all_but(list: &Vec<MediaPath>, path: &MediaPath) -> (r: Vec<MediaPath>)
    ensures
        crate::path::paths_view(r@) == without(crate::path::paths_view(list@), path.key()),
{
    let mut out: Vec<MediaPath> = Vec::new();
    let ghost all = crate::path::paths_view(list@);
    assert(crate::path::paths_view(out@) =~= without(all.take(0), path.key()));
    for i in 0..list.len()
        invariant
            all == crate::path::paths_view(list@),
            crate::path::paths_view(out@) == without(all.take(i as int), path.key()),
    {
        assert(all.take(i + 1).drop_last() =~= all.take(i as int));
        let ghost before = crate::path::paths_view(out@);
        if !list[i].same(path) {
            out.push(list[i].clone());
            assert(crate::path::paths_view(out@) =~= before.push(all[i as int]));
        }
    }
    assert(all.take(all.len() as int) =~= all);
    out
}

impl View for PathList {
    type V = ListSpec;

    closed spec fn view(&self) -> ListSpec {
        ListSpec {
            paths: crate::path::paths_view(self.paths@),
            cap: self.cap as nat,
            label_max: self.label_max as nat,
        }
    }
}

impl PathList {
    #[verifier::type_invariant]
    spec fn inv(self) -> bool {
        crate::media::texts_view(self.labels@) == crate::media::labels_of(
            crate::path::paths_view(self.paths@),
            self.label_max as nat,
        )
    }

    /// An empty list that keeps up to `cap` paths, with labels of up to `label_max`
    /// characters.
    pub fn new(cap: usize, label_max: usize) -> (r: PathList)
        ensures
            r@ == (ListSpec {
                paths: Seq::empty(),
                cap: cap as nat,
                label_max: label_max as nat,
            }),
    {
        let paths: Vec<MediaPath> = Vec::new();
        let labels = labels_for_paths(&paths, label_max);
        assert(crate::path::paths_view(paths@) =~= Seq::empty());
        PathList { paths, labels, cap, label_max }
    }

    /// Takes other paths, as they are.
    pub fn set(&mut self, paths: Vec<MediaPath>)
        ensures
            final(self)@ == old(self)@.with_paths(crate::path::paths_view(paths@)),
    {
        let labels = labels_for_paths(&paths, self.label_max);
        *self = PathList { paths, labels, cap: self.cap, label_max: self.label_max };
    }

    /// Puts a path in front.
    pub fn push(&mut self, path: MediaPath)
        ensures
            final(self)@ == old(self)@.pushed(path@),
    {
        let ghost before = self@;
        let mut paths = all_but(&self.paths, &path);
        let ghost rest = crate::path::paths_view(paths@);
        paths.insert(0, path);
        assert(crate::path::paths_view(paths@) =~= seq![path@] + rest);
        let ghost whole = paths@;
        if paths.len() > self.cap {
            paths.truncate(self.cap);
            assert(crate::path::paths_view(paths@) =~= crate::path::paths_view(whole).take(
                self.cap as int,
            ));
        }
        self.set(paths);
        assert(self@.paths =~= before.pushed(path@).paths);
    }

    /// Takes a path out.
    pub fn remove(&mut self, path: &MediaPath)
        ensures
            final(self)@ == old(self)@.removed(path.key()),
    {
        let paths = all_but(&self.paths, path);
        self.set(paths);
    }

    /// Whether the list has a path.
    pub fn contains(&self, path: &MediaPath) -> (r: bool)
        ensures
            r == self@.has(path.key()),
    {
        let ghost v = self@.paths;
        for i in 0..self.paths.len()
            invariant
                v == crate::path::paths_view(self.paths@),
                forall|j: int| 0 <= j < i ==> (#[trigger] v[j]).parts != path.key(),
        {
            assert(v[i as int].parts == self.paths@[i as int].key());
            if self.paths[i].same(path) {
                return true;
            }
        }
        false
    }

    /// The paths of the list.
    pub fn paths(&self) -> (r: &Vec<MediaPath>)
        ensures
            crate::path::paths_view(r@) == self@.paths,
    {
        &self.paths
    }

    /// A copy of the paths of the list.
    pub fn copy(&self) -> (r: Vec<MediaPath>)
        ensures
            crate::path::paths_view(r@) == self@.paths,
    {
        copy_paths(&self.paths)
    }

    /// The labels of the list, one for each path.
    pub fn labels(&self) -> (r: &Vec<String>)
        ensures
            crate::media::texts_view(r@) == self@.labels(),
    {
        proof {
            use_type_invariant(&*self);
        }
        &self.labels
    }
}

/// No two paths of the list are the same.
pub open spec fn distinct_paths(s: Seq<crate::path::PathSpec>) -> bool {
    forall|i: int, j: int|
        0 <= i < j < s.len() ==> (#[trigger] s[i]).parts != (#[trigger] s[j]).parts
}

proof fn without_drops_only(s: Seq<crate::path::PathSpec>, k: crate::path::PathKey)
    ensures
        forall|i: int| 0 <= i < without(s, k).len() ==> (#[trigger] without(s, k)[i]).parts != k,
        forall|q: crate::path::PathKey| #[trigger]
            crate::pathmap::has_key(without(s, k), q) <==> q != k && crate::pathmap::has_key(s, q),
        distinct_paths(s) ==> distinct_paths(without(s, k)),
        !crate::pathmap::has_key(s, k) ==> without(s, k) == s,
    decreases s.len(),
{
    if s.len() > 0 {
        let front = s.drop_last();
        let w = without(front, k);
        without_drops_only(front, k);
        assert(s =~= front.push(s.last()));
        assert forall|q: crate::path::PathKey| #[trigger]
            crate::pathmap::has_key(without(s, k), q) <==> q != k && crate::pathmap::has_key(
                s,
                q,
            ) by {
            crate::scan::has_key_of_push(front, s.last(), q);
            crate::scan::has_key_of_push(w, s.last(), q);
            assert(crate::pathmap::has_key(w, q) <==> q != k && crate::pathmap::has_key(front, q));
        }
        if distinct_paths(s) {
            assert forall|i: int, j: int| 0 <= i < j < front.len() implies (
            #[trigger] front[i]).parts != (#[trigger] front[j]).parts by {
                assert(front[i] == s[i] && front[j] == s[j]);
            }
            let t = without(s, k);
            assert forall|i: int, j: int| 0 <= i < j < t.len() implies (#[trigger] t[i]).parts
                != (#[trigger] t[j]).parts by {
                if s.last().parts != k && j == w.len() {
                    assert(t[j] == s.last() && t[i] == w[i]);
                    if w[i].parts == s.last().parts {
                        assert(crate::pathmap::has_key(w, s.last().parts));
                        assert(crate::pathmap::has_key(front, s.last().parts));
                        let x = choose|x: int|
                            0 <= x < front.len() && (#[trigger] front[x]).parts == s.last().parts;
                        assert(s[x].parts == s[s.len() - 1].parts);
                    }
                } else {
                    assert(t[i] == w[i] && t[j] == w[j]);
                }
            }
        }
        if !crate::pathmap::has_key(s, k) {
            crate::scan::has_key_of_push(front, s.last(), k);
        }
    }
}

/// A path that is put in front is the first of the list; the list stays free of repeats and
/// within its bounds, and holds nothing that it did not hold.
pub proof fn pushing_keeps_the_list_short(l: ListSpec, p: crate::path::PathSpec)
    requires
        l.cap >= 1,
        distinct_paths(l.paths),
    ensures
        l.pushed(p).paths.len() > 0 && l.pushed(p).paths[0] == p,
        l.pushed(p).paths.len() <= l.cap,
        distinct_paths(l.pushed(p).paths),
        forall|q: crate::path::PathKey| #[trigger]
            l.pushed(p).has(q) ==> q == p.parts || l.has(q),
{
    without_drops_only(l.paths, p.parts);
    let w = without(l.paths, p.parts);
    let t = seq![p] + w;
    let r = l.pushed(p).paths;
    assert forall|i: int, j: int| 0 <= i < j < r.len() implies (#[trigger] r[i]).parts != (
    #[trigger] r[j]).parts by {
        assert(r[i] == t[i] && r[j] == t[j]);
        assert(t[j] == w[j - 1]);
        if i > 0 {
            assert(t[i] == w[i - 1]);
        }
    }
    assert forall|q: crate::path::PathKey| #[trigger] l.pushed(p).has(q) implies q == p.parts
        || l.has(q) by {
        let i = choose|i: int| 0 <= i < r.len() && (#[trigger] r[i]).parts == q;
        assert(r[i] == t[i]);
        if i > 0 {
            assert(w[i - 1].parts == q);
            assert(crate::pathmap::has_key(w, q));
        }
    }
}

/// A path that is taken out is gone, and every other path stays.
pub proof fn removing_takes_out_one_path(
    l: ListSpec,
    k: crate::path::PathKey,
    q: crate::path::PathKey,
)
    ensures
        l.removed(k).has(q) <==> q != k && l.has(q),
        !l.has(k) ==> l.removed(k) == l,
        distinct_paths(l.paths) ==> distinct_paths(l.removed(k).paths),
{
    without_drops_only(l.paths, k);
}

proof fn without_an_absent_path(s: Seq<crate::path::PathSpec>, k: crate::path::PathKey)
    requires
        forall|i: int| 0 <= i < s.len() ==> (#[trigger] s[i]).parts != k,
    ensures
        without(s, k) == s,
    decreases s.len(),
{
    if s.len() > 0 {
        let front = s.drop_last();
        assert forall|i: int| 0 <= i < front.len() implies (#[trigger] front[i]).parts != k by {
            assert(front[i] == s[i]);
        }
        without_an_absent_path(front, k);
        assert(s[s.len() - 1] == s.last());
        assert(front.push(s.last()) =~= s);
    } else {
        assert(without(s, k) =~= s);
    }
}

proof fn without_one_path(s: Seq<crate::path::PathSpec>, j: int)
    requires
        0 <= j < s.len(),
        distinct_paths(s),
    ensures
        without(s, s[j].parts) == s.take(j) + s.skip(j + 1),
    decreases s.len(),
{
    let k = s[j].parts;
    let front = s.drop_last();
    assert forall|i: int, n: int| 0 <= i < n < front.len() implies (#[trigger] front[i]).parts != (
    #[trigger] front[n]).parts by {
        assert(front[i] == s[i] && front[n] == s[n]);
    }
    if j == s.len() - 1 {
        assert forall|i: int| 0 <= i < front.len() implies (#[trigger] front[i]).parts != k by {
            assert(front[i] == s[i] && s[i].parts != s[j].parts);
        }
        without_an_absent_path(front, k);
        assert(s.take(j) + s.skip(j + 1) =~= front);
    } else {
        assert(front[j] == s[j]);
        without_one_path(front, j);
        assert(s.last().parts != k) by {
            assert(s[j].parts != s[s.len() - 1].parts);
        }
        assert((front.take(j) + front.skip(j + 1)).push(s.last()) =~= s.take(j) + s.skip(j + 1));
    }
}

/// A path that is new to the list comes in front of all others, which stay in their order; only
/// where there is no room for one more does the last one go.
pub proof fn a_new_path_comes_in_front(l: ListSpec, p: crate::path::PathSpec)
    requires
        l.cap >= 1,
        l.paths.len() <= l.cap,
        forall|i: int| 0 <= i < l.paths.len() ==> (#[trigger] l.paths[i]).parts != p.parts,
    ensures
        l.pushed(p).paths.len() == if l.paths.len() < l.cap {
            l.paths.len() + 1
        } else {
            l.cap as nat
        },
        l.pushed(p).paths[0] == p,
        forall|i: int|
            0 < i < l.pushed(p).paths.len() ==> #[trigger] l.pushed(p).paths[i] == l.paths[i - 1],
        l.pushed(p).cap == l.cap && l.pushed(p).label_max == l.label_max,
{
    without_an_absent_path(l.paths, p.parts);
    let t = seq![p] + l.paths;
    assert forall|i: int| 0 < i < l.pushed(p).paths.len() implies #[trigger] l.pushed(p).paths[i]
        == l.paths[i - 1] by {
        assert(l.pushed(p).paths[i] == t[i]);
    }
}

/// A path that is already in the list moves to the front: those that stood in front of it come
/// behind it, and those behind it stay where they are.
pub proof fn a_known_path_moves_to_the_front(l: ListSpec, p: crate::path::PathSpec, j: int)
    requires
        distinct_paths(l.paths),
        l.paths.len() <= l.cap,
        0 <= j < l.paths.len(),
        l.paths[j].parts == p.parts,
    ensures
        l.pushed(p).paths.len() == l.paths.len(),
        l.pushed(p).paths[0] == p,
        forall|i: int|
            0 < i <= j ==> #[trigger] l.pushed(p).paths[i] == l.paths[i - 1],
        forall|i: int|
            j < i < l.paths.len() ==> #[trigger] l.pushed(p).paths[i] == l.paths[i],
{
    without_one_path(l.paths, j);
    let t = seq![p] + (l.paths.take(j) + l.paths.skip(j + 1));
    assert(l.pushed(p).paths == t);
}

/// A path that is taken out leaves the others in their order.
pub proof fn removing_keeps_the_order(l: ListSpec, j: int)
    requires
        distinct_paths(l.paths),
        0 <= j < l.paths.len(),
    ensures
        l.removed(l.paths[j].parts).paths.len() == l.paths.len() - 1,
        forall|i: int|
            0 <= i < j ==> #[trigger] l.removed(l.paths[j].parts).paths[i] == l.paths[i],
        forall|i: int|
            j <= i < l.paths.len() - 1 ==> #[trigger] l.removed(l.paths[j].parts).paths[i]
                == l.paths[i + 1],
        l.removed(l.paths[j].parts).cap == l.cap && l.removed(l.paths[j].parts).label_max
            == l.label_max,
{
    without_one_path(l.paths, j);
}

/// Ten recent folders and media are kept, and twenty folders of the library; a list that is cut
/// keeps what stands in front.
pub proof fn lists_keep_what_stands_in_front(s: Seq<crate::path::PathSpec>, n: nat, i: int)
    ensures
        RECENT_CAP == 10,
        MANAGED_CAP == 20,
        at_most(s, n).len() == if s.len() < n {
            s.len()
        } else {
            n
        },
        0 <= i < at_most(s, n).len() ==> at_most(s, n)[i] == s[i],
{
}

/// The labels of a list are those of its paths, each at its place.
pub proof fn labels_follow_the_paths(l: ListSpec, i: int)
    requires
        0 <= i < l.paths.len(),
    ensures
        l.labels().len() == l.paths.len(),
        l.labels()[i] == crate::media::label_of(l.paths[i], l.label_max),
        l.has(l.paths[i].parts),
{
}

/// A list has the paths that stand in it, by their components, and no others.
pub proof fn a_list_has_what_stands_in_it(l: ListSpec, k: crate::path::PathKey)
    ensures
        l.has(k) <==> exists|i: int| 0 <= i < l.paths.len() && (#[trigger] l.paths[i]).parts == k,
{
}

} // verus!
