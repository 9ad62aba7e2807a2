//! Maps and sets of paths, kept in the order of the paths.

use vstd::prelude::*;

use crate::path::{compare_paths, MediaPath};
use crate::text::Rank;

verus! {

/// A map from paths to values. Two paths with the same components are one key.
pub struct PathMap<V> {
    entries: Vec<(MediaPath, V)>,
}

/// A set of paths.
pub type PathSet = PathMap<()>;

spec fn holds_at<V>(s: Seq<(MediaPath, V)>, i: int, k: crate::path::PathKey) -> bool {
    0 <= i < s.len() && s[i].0.key() == k
}

spec fn place<V>(s: Seq<(MediaPath, V)>, k: crate::path::PathKey) -> int {
    choose|i: int| holds_at(s, i, k)
}

spec fn ordered<V>(s: Seq<(MediaPath, V)>) -> bool {
    forall|i: int, j: int|
        0 <= i < j < s.len() ==> crate::path::path_lt(
            (#[trigger] s[i]).0.key(),
            (#[trigger] s[j]).0.key(),
        )
}

spec fn map_of<V>(s: Seq<(MediaPath, V)>) -> Map<crate::path::PathKey, V> {
    Map::new(|k: crate::path::PathKey| exists|i: int| holds_at(s, i, k), |k| s[place(s, k)].1)
}

spec fn paths_of<V>(s: Seq<(MediaPath, V)>) -> Map<
    crate::path::PathKey,
    crate::path::PathSpec,
> {
    Map::new(|k: crate::path::PathKey| exists|i: int| holds_at(s, i, k), |k| s[place(s, k)].0@)
}

impl<V> View for PathMap<V> {
    type V = Map<crate::path::PathKey, V>;

    closed spec fn view(&self) -> Map<crate::path::PathKey, V> {
        map_of(self.entries@)
    }
}

impl<V> PathMap<V> {
    /// The paths that the map was given as keys, each under its components.
    pub closed spec fn paths(&self) -> Map<crate::path::PathKey, crate::path::PathSpec> {
        paths_of(self.entries@)
    }

    /// The keys in the order of the map.
    pub closed spec fn order(&self) -> Seq<crate::path::PathKey> {
        Seq::new(self.entries@.len(), |i: int| self.entries@[i].0.key())
    }

    #[verifier::type_invariant]
    spec fn inv(self) -> bool {
        ordered(self.entries@)
    }
}

proof fn unique_place<V>(s: Seq<(MediaPath, V)>, i: int)
    requires
        ordered(s),
        0 <= i < s.len(),
    ensures
        place(s, s[i].0.key()) == i,
        map_of(s).dom().contains(s[i].0.key()),
        map_of(s)[s[i].0.key()] == s[i].1,
        paths_of(s).dom().contains(s[i].0.key()),
        paths_of(s)[s[i].0.key()] == s[i].0@,
{
    let k = s[i].0.key();
    assert(holds_at(s, i, k));
    let j = place(s, k);
    assert(holds_at(s, j, k));
    crate::path::path_order_is_total(s[i].0.key(), s[j].0.key());
    if i < j {
        assert(crate::path::path_lt(s[i].0.key(), s[j].0.key()));
    } else if j < i {
        assert(crate::path::path_lt(s[j].0.key(), s[i].0.key()));
    }
}

impl<V> PathMap<V> {
    /// An empty map.
    pub fn new() -> (r: Self)
        ensures
            r@ == Map::<crate::path::PathKey, V>::empty(),
            r.paths() == Map::<crate::path::PathKey, crate::path::PathSpec>::empty(),
            r.order() == Seq::<crate::path::PathKey>::empty(),
    {
        let r = PathMap { entries: Vec::new() };
        assert(r@ =~= Map::<crate::path::PathKey, V>::empty());
        assert(r.paths() =~= Map::<crate::path::PathKey, crate::path::PathSpec>::empty());
        assert(r.order() =~= Seq::<crate::path::PathKey>::empty());
        r
    }

    /// The number of keys. The order of the map goes through each of its keys once, from
    /// the first path to the last.
    pub fn len(&self) -> (r: usize)
        ensures
            r == self.order().len(),
            in_path_order(self.order()),
            self.order().no_duplicates(),
            forall|k: crate::path::PathKey| self@.dom().contains(k) <==> self.order().contains(k),
            self@.dom() == self.paths().dom(),
            self@.dom().finite(),
            r == self@.dom().len(),
    {
        proof {
            use_type_invariant(&*self);
            let s = self.entries@;
            assert forall|i: int, j: int| 0 <= i < j < s.len() implies crate::path::path_lt(
                #[trigger] self.order()[i],
                #[trigger] self.order()[j],
            ) by {
                assert(crate::path::path_lt(s[i].0.key(), s[j].0.key()));
            }
            order_has_no_duplicates(self.order());
            assert forall|k: crate::path::PathKey|
                self@.dom().contains(k) <==> self.order().contains(k) by {
                if self@.dom().contains(k) {
                    let i = choose|i: int| holds_at(s, i, k);
                    assert(self.order()[i] == k);
                }
                if self.order().contains(k) {
                    let i = choose|i: int| 0 <= i < self.order().len() && self.order()[i] == k;
                    assert(holds_at(s, i, k));
                }
            }
            assert(self@.dom() =~= self.paths().dom());
            self.order().unique_seq_to_set();
            assert(self@.dom() =~= self.order().to_set());
        }
        self.entries.len()
    }

    /// The path at a place of the order.
    pub fn path_at(&self, i: usize) -> (r: &MediaPath)
        requires
            i < self.order().len(),
        ensures
            r.key() == self.order()[i as int],
            self@.dom().contains(r.key()),
            r@ == self.paths()[r.key()],
    {
        proof {
            use_type_invariant(&*self);
            unique_place(self.entries@, i as int);
        }
        &self.entries[i].0
    }

    /// The value at a place of the order.
    pub fn value_at(&self, i: usize) -> (r: &V)
        requires
            i < self.order().len(),
        ensures
            self@.dom().contains(self.order()[i as int]),
            *r == self@[self.order()[i as int]],
    {
        proof {
            use_type_invariant(&*self);
            unique_place(self.entries@, i as int);
        }
        &self.entries[i].1
    }

    /// The place of a key, or the place where it belongs.
    fn search(&self, path: &MediaPath) -> (r: (bool, usize))
        ensures
            r.1 <= self.entries.len(),
            r.0 ==> r.1 < self.entries.len() && self.entries@[r.1 as int].0.key() == path.key(),
            !r.0 ==> forall|j: int|
                0 <= j < r.1 ==> crate::path::path_lt(
                    (#[trigger] self.entries@[j]).0.key(),
                    path.key(),
                ),
            !r.0 ==> forall|j: int|
                r.1 <= j < self.entries.len() ==> crate::path::path_lt(
                    path.key(),
                    (#[trigger] self.entries@[j]).0.key(),
                ),
    {
        proof {
            use_type_invariant(&*self);
        }
        let mut lo: usize = 0;
        let mut hi: usize = self.entries.len();
        while lo < hi
            invariant
                lo <= hi <= self.entries.len(),
                ordered(self.entries@),
                forall|j: int|
                    0 <= j < lo ==> crate::path::path_lt(
                        (#[trigger] self.entries@[j]).0.key(),
                        path.key(),
                    ),
                forall|j: int|
                    hi <= j < self.entries.len() ==> crate::path::path_lt(
                        path.key(),
                        (#[trigger] self.entries@[j]).0.key(),
                    ),
            decreases hi - lo,
        {
            let mid: usize = lo + (hi - lo) / 2;
            let ghost mid_key = self.entries@[mid as int].0.key();
            proof {
                crate::path::path_order_is_total(mid_key, path.key());
            }
            match compare_paths(&self.entries[mid].0, path) {
                Rank::Equal => {
                    return (true, mid);
                },
                Rank::Less => {
                    assert forall|j: int| 0 <= j < mid + 1 implies crate::path::path_lt(
                        (#[trigger] self.entries@[j]).0.key(),
                        path.key(),
                    ) by {
                        if j < mid {
                            crate::path::path_order_is_transitive(
                                self.entries@[j].0.key(),
                                mid_key,
                                path.key(),
                            );
                        }
                    }
                    lo = mid + 1;
                },
                Rank::Greater => {
                    assert forall|j: int|
                        mid <= j < self.entries.len() implies crate::path::path_lt(
                        path.key(),
                        (#[trigger] self.entries@[j]).0.key(),
                    ) by {
                        if mid < j {
                            crate::path::path_order_is_transitive(
                                path.key(),
                                mid_key,
                                self.entries@[j].0.key(),
                            );
                        }
                    }
                    hi = mid;
                },
            }
        }
        (false, lo)
    }

    /// The value of a key.
    pub fn get(&self, path: &MediaPath) -> (r: Option<&V>)
        ensures
            r is Some <==> self@.dom().contains(path.key()),
            r matches Some(v) ==> *v == self@[path.key()],
    {
        let (found, i) = self.search(path);
        proof {
            use_type_invariant(&*self);
            if found {
                unique_place(self.entries@, i as int);
            } else {
                absent(self.entries@, path.key(), i as int);
            }
        }
        if found {
            Some(&self.entries[i].1)
        } else {
            None
        }
    }

    /// Whether the map has a key.
    pub fn contains(&self, path: &MediaPath) -> (r: bool)
        ensures
            r == self@.dom().contains(path.key()),
    {
        self.get(path).is_some()
    }
}

impl<V> PathMap<V> {
    /// Gives a key a value. A key that the map has keeps the path that it was first given as.
    /// Returns whether the key is new.
    pub fn insert(&mut self, path: MediaPath, value: V) -> (r: bool)
        ensures
            r == !old(self)@.dom().contains(path.key()),
            final(self)@ == old(self)@.insert(path.key(), value),
            final(self).paths() == if old(self)@.dom().contains(path.key()) {
                old(self).paths()
            } else {
                old(self).paths().insert(path.key(), path@)
            },
    {
        let (found, at) = self.search(&path);
        proof {
            use_type_invariant(&*self);
        }
        let ghost before = self.entries@;
        let ghost k = path.key();
        let mut entries: Vec<(MediaPath, V)> = Vec::new();
        std::mem::swap(&mut entries, &mut self.entries);
        if found {
            let (kept, _) = entries.remove(at);
            entries.insert(at, (kept, value));
            proof {
                unique_place(before, at as int);
                let after = entries@;
                assert(after =~= before.update(at as int, (before[at as int].0, value)));
                assert(ordered(after)) by {
                    assert forall|i: int, j: int| 0 <= i < j < after.len() implies crate::path::path_lt(
                        (#[trigger] after[i]).0.key(),
                        (#[trigger] after[j]).0.key(),
                    ) by {
                        assert(crate::path::path_lt(before[i].0.key(), before[j].0.key()));
                    }
                }
                same_keys(before, after);
                assert(map_of(after) =~= map_of(before).insert(k, value)) by {
                    values_by_place(before, after);
                    unique_place(after, at as int);
                }
                assert(paths_of(after) =~= paths_of(before)) by {
                    values_by_place(before, after);
                }
            }
        } else {
            entries.insert(at, (path, value));
            proof {
                absent(before, k, at as int);
                let after = entries@;
                assert(after =~= before.insert(at as int, (path, value)));
                inserted(before, at as int, path, value);
            }
        }
        self.entries = entries;
        !found
    }

    /// Takes a key out of the map.
    pub fn remove(&mut self, path: &MediaPath) -> (r: Option<V>)
        ensures
            r is Some <==> old(self)@.dom().contains(path.key()),
            r matches Some(v) ==> v == old(self)@[path.key()],
            final(self)@ == old(self)@.remove(path.key()),
            final(self).paths() == old(self).paths().remove(path.key()),
    {
        let (found, at) = self.search(path);
        proof {
            use_type_invariant(&*self);
        }
        let ghost before = self.entries@;
        let ghost k = path.key();
        if found {
            let mut entries: Vec<(MediaPath, V)> = Vec::new();
            std::mem::swap(&mut entries, &mut self.entries);
            let (_, value) = entries.remove(at);
            proof {
                unique_place(before, at as int);
                removed(before, at as int);
                assert(entries@ =~= before.remove(at as int));
            }
            self.entries = entries;
            Some(value)
        } else {
            proof {
                absent(before, k, at as int);
                assert(self@ =~= old(self)@.remove(k));
                assert(self.paths() =~= old(self).paths().remove(k));
            }
            None
        }
    }
}

impl<V> PathMap<V> {
    /// Whether the map has no keys.
    pub fn is_empty(&self) -> (r: bool)
        ensures
            r <==> self@.dom() == Set::<crate::path::PathKey>::empty(),
    {
        let n: usize = self.len();
        proof {
            if n > 0 {
                assert(self.order().contains(self.order()[0]));
                assert(self@.dom().contains(self.order()[0]));
            } else {
                assert(self@.dom() =~= Set::empty());
            }
        }
        n == 0
    }

    /// Takes all keys of another map out of this one.
    pub fn forget<W>(&mut self, gone: &PathMap<W>)
        ensures
            final(self)@ == old(self)@.remove_keys(gone@.dom()),
            final(self).paths() == old(self).paths().remove_keys(gone@.dom()),
    {
        let n: usize = gone.len();
        let ghost start = self@;
        let ghost start_paths = self.paths();
        let ghost order = gone.order();
        assert(self@ =~= start.remove_keys(order.take(0).to_set()));
        assert(self.paths() =~= start_paths.remove_keys(order.take(0).to_set()));
        for i in 0..n
            invariant
                order == gone.order(),
                n == order.len(),
                self@ == start.remove_keys(order.take(i as int).to_set()),
                self.paths() == start_paths.remove_keys(order.take(i as int).to_set()),
        {
            self.remove(gone.path_at(i));
            proof {
                let a = order.take(i as int);
                let b = order.take(i + 1);
                assert(b =~= a.push(order[i as int]));
                assert forall|k: crate::path::PathKey| b.to_set().contains(k) <==> a.to_set().contains(
                    k,
                ) || k == order[i as int] by {
                    if b.contains(k) {
                        let j = choose|j: int| 0 <= j < b.len() && b[j] == k;
                        if j < i {
                            assert(a[j] == k);
                        }
                    }
                    if a.contains(k) {
                        let j = choose|j: int| 0 <= j < a.len() && a[j] == k;
                        assert(b[j] == k);
                    }
                    if k == order[i as int] {
                        assert(b[i as int] == k);
                    }
                }
                assert(self@ =~= start.remove_keys(b.to_set()));
                assert(self.paths() =~= start_paths.remove_keys(b.to_set()));
            }
        }
        assert(order.take(n as int) =~= order);
        assert(order.to_set() =~= gone@.dom());
    }
}

/// Paths that stand in their order, each once.
pub open spec fn in_path_order(s: Seq<crate::path::PathKey>) -> bool {
    forall|i: int, j: int|
        0 <= i < j < s.len() ==> crate::path::path_lt(#[trigger] s[i], #[trigger] s[j])
}

/// Paths in order hold no path twice.
pub proof fn order_has_no_duplicates(s: Seq<crate::path::PathKey>)
    requires
        in_path_order(s),
    ensures
        s.no_duplicates(),
{
    assert forall|i: int, j: int| 0 <= i < s.len() && 0 <= j < s.len() && i != j implies s[i]
        != s[j] by {
        crate::path::path_order_is_total(s[i], s[j]);
        if i < j {
            assert(crate::path::path_lt(s[i], s[j]));
        } else {
            assert(crate::path::path_lt(s[j], s[i]));
        }
    }
}

proof fn same_keys<V>(a: Seq<(MediaPath, V)>, b: Seq<(MediaPath, V)>)
    requires
        a.len() == b.len(),
        forall|i: int| 0 <= i < a.len() ==> (#[trigger] a[i]).0.key() == b[i].0.key(),
    ensures
        forall|k: crate::path::PathKey|
            map_of(a).dom().contains(k) <==> #[trigger] map_of(b).dom().contains(k),
{
    assert forall|k: crate::path::PathKey|
        map_of(a).dom().contains(k) <==> #[trigger] map_of(b).dom().contains(k) by {
        if map_of(a).dom().contains(k) {
            let i = choose|i: int| holds_at(a, i, k);
            assert(holds_at(b, i, k));
        }
        if map_of(b).dom().contains(k) {
            let i = choose|i: int| holds_at(b, i, k);
            assert(holds_at(a, i, k));
        }
    }
}

proof fn values_by_place<V>(a: Seq<(MediaPath, V)>, b: Seq<(MediaPath, V)>)
    requires
        a.len() == b.len(),
        ordered(a),
        ordered(b),
        forall|i: int| 0 <= i < a.len() ==> (#[trigger] a[i]).0.key() == b[i].0.key(),
    ensures
        forall|k: crate::path::PathKey| #[trigger]
            map_of(a).dom().contains(k) ==> 0 <= place(a, k) < a.len() && place(a, k) == place(b, k)
                && map_of(b).dom().contains(k) && a[place(a, k)].0.key() == k,
        forall|k: crate::path::PathKey| #[trigger]
            map_of(b).dom().contains(k) ==> map_of(a).dom().contains(k),
{
    same_keys(a, b);
    assert forall|k: crate::path::PathKey| #[trigger] map_of(a).dom().contains(k) implies 0
        <= place(a, k) < a.len() && place(a, k) == place(b, k) && map_of(b).dom().contains(k)
        && a[place(a, k)].0.key() == k by {
        let i = choose|i: int| holds_at(a, i, k);
        unique_place(a, i);
        unique_place(b, i);
    }
}

proof fn inserted<V>(s: Seq<(MediaPath, V)>, at: int, path: MediaPath, value: V)
    requires
        ordered(s),
        0 <= at <= s.len(),
        forall|j: int| 0 <= j < at ==> crate::path::path_lt((#[trigger] s[j]).0.key(), path.key()),
        forall|j: int|
            at <= j < s.len() ==> crate::path::path_lt(path.key(), (#[trigger] s[j]).0.key()),
    ensures
        ordered(s.insert(at, (path, value))),
        map_of(s.insert(at, (path, value))) == map_of(s).insert(path.key(), value),
        paths_of(s.insert(at, (path, value))) == paths_of(s).insert(path.key(), path@),
{
    let t = s.insert(at, (path, value));
    let k = path.key();
    assert forall|i: int, j: int| 0 <= i < j < t.len() implies crate::path::path_lt(
        (#[trigger] t[i]).0.key(),
        (#[trigger] t[j]).0.key(),
    ) by {
        let x = if i < at { s[i] } else { s[i - 1] };
        let y = if j < at { s[j] } else { s[j - 1] };
        if i != at && j != at {
            assert(t[i] == x && t[j] == y);
        }
    }
    assert forall|q: crate::path::PathKey| map_of(t).dom().contains(q) <==> (map_of(
        s,
    ).dom().contains(q) || q == k) by {
        if map_of(t).dom().contains(q) {
            let i = choose|i: int| holds_at(t, i, q);
            if i < at {
                assert(holds_at(s, i, q));
            } else if i > at {
                assert(holds_at(s, i - 1, q));
            }
        }
        if map_of(s).dom().contains(q) {
            let i = choose|i: int| holds_at(s, i, q);
            if i < at {
                assert(holds_at(t, i, q));
            } else {
                assert(holds_at(t, i + 1, q));
            }
        }
        if q == k {
            assert(holds_at(t, at, q));
        }
    }
    assert forall|q: crate::path::PathKey| #[trigger] map_of(t).dom().contains(q) implies map_of(t)[q] == map_of(
        s,
    ).insert(k, value)[q] && paths_of(t)[q] == paths_of(s).insert(k, path@)[q] by {
        let i = choose|i: int| holds_at(t, i, q);
        unique_place(t, i);
        if i < at {
            unique_place(s, i);
            absent(s, k, at);
        } else if i > at {
            unique_place(s, i - 1);
            absent(s, k, at);
        }
    }
    assert(map_of(t) =~= map_of(s).insert(k, value));
    assert forall|q: crate::path::PathKey| paths_of(t).dom().contains(q) <==> map_of(
        t,
    ).dom().contains(q) by {}
    assert(paths_of(t) =~= paths_of(s).insert(k, path@));
}

proof fn removed<V>(s: Seq<(MediaPath, V)>, at: int)
    requires
        ordered(s),
        0 <= at < s.len(),
    ensures
        ordered(s.remove(at)),
        map_of(s.remove(at)) == map_of(s).remove(s[at].0.key()),
        paths_of(s.remove(at)) == paths_of(s).remove(s[at].0.key()),
{
    let t = s.remove(at);
    let k = s[at].0.key();
    assert forall|i: int, j: int| 0 <= i < j < t.len() implies crate::path::path_lt(
        (#[trigger] t[i]).0.key(),
        (#[trigger] t[j]).0.key(),
    ) by {
        let x = if i < at { s[i] } else { s[i + 1] };
        let y = if j < at { s[j] } else { s[j + 1] };
        assert(t[i] == x && t[j] == y);
    }
    assert forall|q: crate::path::PathKey| map_of(t).dom().contains(q) <==> (map_of(
        s,
    ).dom().contains(q) && q != k) by {
        if map_of(t).dom().contains(q) {
            let i = choose|i: int| holds_at(t, i, q);
            let j = if i < at { i } else { i + 1 };
            assert(holds_at(s, j, q));
            unique_place(s, j);
            unique_place(s, at);
        }
        if map_of(s).dom().contains(q) && q != k {
            let i = choose|i: int| holds_at(s, i, q);
            if i < at {
                assert(holds_at(t, i, q));
            } else {
                assert(holds_at(t, i - 1, q));
            }
        }
    }
    assert forall|q: crate::path::PathKey| #[trigger] map_of(t).dom().contains(q) implies map_of(t)[q] == map_of(
        s,
    )[q] && paths_of(t)[q] == paths_of(s)[q] by {
        let i = choose|i: int| holds_at(t, i, q);
        unique_place(t, i);
        unique_place(s, if i < at { i } else { i + 1 });
    }
    assert(map_of(t) =~= map_of(s).remove(k));
    assert forall|q: crate::path::PathKey| paths_of(t).dom().contains(q) <==> map_of(
        t,
    ).dom().contains(q) by {}
    assert(paths_of(t) =~= paths_of(s).remove(k));
}

proof fn absent<V>(s: Seq<(MediaPath, V)>, k: crate::path::PathKey, at: int)
    requires
        0 <= at <= s.len(),
        forall|j: int| 0 <= j < at ==> crate::path::path_lt((#[trigger] s[j]).0.key(), k),
        forall|j: int| at <= j < s.len() ==> crate::path::path_lt(k, (#[trigger] s[j]).0.key()),
    ensures
        !map_of(s).dom().contains(k),
        !paths_of(s).dom().contains(k),
{
    if exists|i: int| holds_at(s, i, k) {
        let i = choose|i: int| holds_at(s, i, k);
        crate::path::path_order_is_total(s[i].0.key(), k);
        if i < at {
            assert(crate::path::path_lt(s[i].0.key(), k));
        } else {
            assert(crate::path::path_lt(k, s[i].0.key()));
        }
    }
}


/// The keys of a map are the components of the paths that it was given.
pub proof fn keys_are_paths<V>(m: PathMap<V>)
    ensures
        m@.dom() == m.paths().dom(),
        forall|k: crate::path::PathKey| #[trigger]
            m.paths().dom().contains(k) ==> m.paths()[k].parts == k,
{
    assert(m@.dom() =~= m.paths().dom());
    assert forall|k: crate::path::PathKey| #[trigger] m.paths().dom().contains(k) implies m.paths()[k].parts
        == k by {
        let i = choose|i: int| holds_at(m.entries@, i, k);
        assert(holds_at(m.entries@, place(m.entries@, k), k));
    }
}

impl<V> PathMap<V> {
    /// Takes over all keys and values of another map; its values replace those of keys that
    /// both maps have.
    pub fn absorb(&mut self, other: PathMap<V>)
        ensures
            final(self)@ == old(self)@.union_prefer_right(other@),
            final(self).paths() == other.paths().union_prefer_right(old(self).paths()),
    {
        proof {
            use_type_invariant(&other);
        }
        let ghost start = self@;
        let ghost start_paths = self.paths();
        let ghost all = other.entries@;
        let mut rest = other.entries;
        assert(all.take(all.len() as int) =~= all);
        let ghost mut left: int = all.len() as int;
        assert(start =~= start.union_prefer_right(part_map(all, left)));
        assert(start_paths =~= part_paths(all, left).union_prefer_right(start_paths));
        loop
            invariant
                ordered(all),
                all == other.entries@,
                0 <= left <= all.len(),
                rest@ == all.take(left),
                self@ == start.union_prefer_right(part_map(all, left)),
                self.paths() == part_paths(all, left).union_prefer_right(start_paths),
                start.dom() == start_paths.dom(),
                start == old(self)@,
                start_paths == old(self).paths(),
            decreases rest.len(),
        {
            match rest.pop() {
                None => {
                    assert(left == 0);
                    assert(part_map(all, 0) =~= map_of(all)) by {
                        part_is_whole(all);
                    }
                    assert(part_paths(all, 0) =~= paths_of(all)) by {
                        part_is_whole(all);
                    }
                    return ;
                },
                Some((path, value)) => {
                    proof {
                        left = left - 1;
                        assert(rest@ =~= all.take(left));
                        assert(path == all[left].0 && value == all[left].1);
                        part_grows(all, left);
                    }
                    let ghost k = path.key();
                    let ghost before = self@;
                    let ghost before_paths = self.paths();
                    self.insert(path, value);
                    proof {
                        let p = part_map(all, left);
                        assert(self@ =~= start.union_prefer_right(p));
                        assert(before.dom() =~= before_paths.dom());
                        assert(self.paths() =~= part_paths(all, left).union_prefer_right(
                            start_paths,
                        ));
                    }
                },
            }
        }
    }
}

spec fn held_from<V>(s: Seq<(MediaPath, V)>, from: int, k: crate::path::PathKey) -> bool {
    exists|i: int| from <= i && holds_at(s, i, k)
}

spec fn part_map<V>(s: Seq<(MediaPath, V)>, from: int) -> Map<crate::path::PathKey, V> {
    Map::new(|k: crate::path::PathKey| held_from(s, from, k), |k| s[place(s, k)].1)
}

spec fn part_paths<V>(s: Seq<(MediaPath, V)>, from: int) -> Map<
    crate::path::PathKey,
    crate::path::PathSpec,
> {
    Map::new(|k: crate::path::PathKey| held_from(s, from, k), |k| s[place(s, k)].0@)
}

proof fn part_is_whole<V>(s: Seq<(MediaPath, V)>)
    ensures
        part_map(s, 0) == map_of(s),
        part_paths(s, 0) == paths_of(s),
{
    assert forall|k: crate::path::PathKey| held_from(s, 0, k) <==> (exists|i: int|
        holds_at(s, i, k)) by {
        if exists|i: int| holds_at(s, i, k) {
            let i = choose|i: int| holds_at(s, i, k);
            assert(0 <= i && holds_at(s, i, k));
        }
    }
    assert(part_map(s, 0) =~= map_of(s));
    assert(part_paths(s, 0) =~= paths_of(s));
}

proof fn part_grows<V>(s: Seq<(MediaPath, V)>, from: int)
    requires
        ordered(s),
        0 <= from < s.len(),
    ensures
        part_map(s, from) == part_map(s, from + 1).insert(s[from].0.key(), s[from].1),
        part_paths(s, from) == part_paths(s, from + 1).insert(s[from].0.key(), s[from].0@),
        !part_map(s, from + 1).dom().contains(s[from].0.key()),
{
    let k = s[from].0.key();
    unique_place(s, from);
    assert forall|q: crate::path::PathKey| held_from(s, from, q) <==> (held_from(s, from + 1, q)
        || q == k) by {
        if held_from(s, from, q) {
            let i = choose|i: int| from <= i && holds_at(s, i, q);
            if i != from {
                assert(from + 1 <= i && holds_at(s, i, q));
            }
        }
        if held_from(s, from + 1, q) {
            let i = choose|i: int| from + 1 <= i && holds_at(s, i, q);
            assert(from <= i && holds_at(s, i, q));
        }
        if q == k {
            assert(from <= from && holds_at(s, from, q));
        }
    }
    if held_from(s, from + 1, k) {
        let i = choose|i: int| from + 1 <= i && holds_at(s, i, k);
        unique_place(s, i);
    }
    assert(part_map(s, from) =~= part_map(s, from + 1).insert(k, s[from].1));
    assert(part_paths(s, from) =~= part_paths(s, from + 1).insert(k, s[from].0@));
}

// ── Sets ─────────────────────────────────────────────────────────────────────

/// A set of paths with one more path; a path that the set has stays as it was first given.
pub open spec fn add_path(
    m: Map<crate::path::PathKey, crate::path::PathSpec>,
    p: crate::path::PathSpec,
) -> Map<crate::path::PathKey, crate::path::PathSpec> {
    if m.dom().contains(p.parts) {
        m
    } else {
        m.insert(p.parts, p)
    }
}

/// A set of paths with the paths of a list, added one after the other.
pub open spec fn add_paths(
    m: Map<crate::path::PathKey, crate::path::PathSpec>,
    s: Seq<crate::path::PathSpec>,
) -> Map<crate::path::PathKey, crate::path::PathSpec>
    decreases s.len(),
{
    if s.len() == 0 {
        m
    } else {
        add_path(add_paths(m, s.drop_last()), s.last())
    }
}

/// Some path of the list has these components.
pub open spec fn has_key(s: Seq<crate::path::PathSpec>, k: crate::path::PathKey) -> bool {
    exists|i: int| 0 <= i < s.len() && (#[trigger] s[i]).parts == k
}

/// Adding the paths of two lists is adding those of the first, and of the second.
pub proof fn add_paths_in_turn(
    m: Map<crate::path::PathKey, crate::path::PathSpec>,
    a: Seq<crate::path::PathSpec>,
    b: Seq<crate::path::PathSpec>,
)
    ensures
        add_paths(m, a + b) == add_paths(add_paths(m, a), b),
    decreases b.len(),
{
    if b.len() == 0 {
        assert(a + b =~= a);
    } else {
        add_paths_in_turn(m, a, b.drop_last());
        assert((a + b).drop_last() =~= a + b.drop_last());
    }
}

/// Adding to a set keeps what it has, and takes of the list what it has not.
pub proof fn add_paths_keeps(
    m: Map<crate::path::PathKey, crate::path::PathSpec>,
    s: Seq<crate::path::PathSpec>,
)
    ensures
        add_paths(m, s) == add_paths(Map::empty(), s).union_prefer_right(m),
    decreases s.len(),
{
    if s.len() == 0 {
        assert(add_paths(m, s) =~= add_paths(Map::empty(), s).union_prefer_right(m));
    } else {
        add_paths_keeps(m, s.drop_last());
        assert(add_paths(m, s) =~= add_paths(Map::empty(), s).union_prefer_right(m));
    }
}

/// To add a list, and then another that was first brought in order, is to add the one and
/// then the other.
pub proof fn listed_paths_in_turn(
    m: Map<crate::path::PathKey, crate::path::PathSpec>,
    a: Seq<crate::path::PathSpec>,
    b: Seq<crate::path::PathSpec>,
    v: Seq<crate::path::PathSpec>,
)
    requires
        lists(v, add_paths(Map::empty(), b)),
    ensures
        add_paths(add_paths(m, a), v) == add_paths(m, a + b),
{
    let own = add_paths(Map::empty(), b);
    let again = add_paths(Map::empty(), v);
    added_paths_are_there(Map::empty(), v);
    assert forall|k: crate::path::PathKey| #[trigger] again.dom().contains(k) implies again[k]
        == own[k] by {
        assert(v.contains(again[k]) && again[k].parts == k);
        let i = choose|i: int| 0 <= i < v.len() && v[i] == again[k];
        assert(v[i] == own[v[i].parts]);
    }
    assert(again =~= own);
    add_paths_keeps(add_paths(m, a), v);
    add_paths_keeps(add_paths(m, a), b);
    add_paths_in_turn(m, a, b);
}

/// A set with the paths of a list holds what it held and the paths of the list.
pub proof fn added_paths_are_there(
    m: Map<crate::path::PathKey, crate::path::PathSpec>,
    s: Seq<crate::path::PathSpec>,
)
    ensures
        forall|k: crate::path::PathKey| #[trigger]
            add_paths(m, s).dom().contains(k) <==> m.dom().contains(k) || has_key(s, k),
        forall|k: crate::path::PathKey|
            m.dom().contains(k) ==> #[trigger] add_paths(m, s)[k] == m[k],
        forall|k: crate::path::PathKey|
            !m.dom().contains(k) && has_key(s, k) ==> s.contains(#[trigger] add_paths(m, s)[k])
                && add_paths(m, s)[k].parts == k,
    decreases s.len(),
{
    if s.len() > 0 {
        let r = s.drop_last();
        added_paths_are_there(m, r);
        assert forall|k: crate::path::PathKey| has_key(s, k) <==> has_key(r, k) || s.last().parts
            == k by {
            if has_key(s, k) {
                let i = choose|i: int| 0 <= i < s.len() && (#[trigger] s[i]).parts == k;
                if i < s.len() - 1 {
                    assert(r[i].parts == k);
                }
            }
            if has_key(r, k) {
                let i = choose|i: int| 0 <= i < r.len() && (#[trigger] r[i]).parts == k;
                assert(s[i].parts == k);
            }
            if s.last().parts == k {
                assert(s[s.len() - 1].parts == k);
            }
        }
        assert forall|k: crate::path::PathKey| #[trigger]
            add_paths(m, s).dom().contains(k) <==> m.dom().contains(k) || has_key(s, k) by {
            assert(add_paths(m, r).dom().contains(k) <==> m.dom().contains(k) || has_key(r, k));
        }
        assert forall|k: crate::path::PathKey| m.dom().contains(k) implies #[trigger] add_paths(
            m,
            s,
        )[k] == m[k] by {
            assert(add_paths(m, r).dom().contains(k));
            assert(add_paths(m, r)[k] == m[k]);
        }
        assert forall|k: crate::path::PathKey|
            !m.dom().contains(k) && has_key(s, k) implies s.contains(#[trigger] add_paths(m, s)[k])
            && add_paths(m, s)[k].parts == k by {
            if has_key(r, k) {
                let x = add_paths(m, r)[k];
                assert(r.contains(x));
                let i = choose|i: int| 0 <= i < r.len() && r[i] == x;
                assert(s[i] == x);
                assert(add_paths(m, r).dom().contains(k));
            } else {
                assert(!add_paths(m, r).dom().contains(k));
                assert(s[s.len() - 1] == s.last());
            }
        }
    }
}

impl PathMap<()> {
    /// Adds a path to the set. Returns whether it is new there.
    pub fn add(&mut self, path: MediaPath) -> (r: bool)
        ensures
            r == !old(self)@.dom().contains(path.key()),
            final(self).paths() == add_path(old(self).paths(), path@),
            final(self)@.dom() == old(self)@.dom().insert(path.key()),
    {
        proof {
            keys_are_paths(*self);
        }
        let ghost before = self@.dom();
        let r = self.insert(path, ());
        assert(self@.dom() =~= before.insert(path.key()));
        r
    }

    /// Adds the paths of a list to the set.
    pub fn add_all(&mut self, list: &Vec<MediaPath>)
        ensures
            final(self).paths() == add_paths(
                old(self).paths(),
                crate::path::paths_view(list@),
            ),
    {
        let ghost all = crate::path::paths_view(list@);
        let ghost start = self.paths();
        for i in 0..list.len()
            invariant
                all == crate::path::paths_view(list@),
                self.paths() == add_paths(start, all.take(i as int)),
        {
            self.add(list[i].clone());
            assert(all.take(i + 1).drop_last() =~= all.take(i as int));
        }
        assert(all.take(all.len() as int) =~= all);
    }

    /// The paths of the set, in order.
    pub fn to_list(&self) -> (r: Vec<MediaPath>)
        ensures
            lists(crate::path::paths_view(r@), self.paths()),
    {
        let n: usize = self.len();
        let mut out: Vec<MediaPath> = Vec::new();
        proof {
            keys_are_paths(*self);
        }
        for i in 0..n
            invariant
                n == self.order().len(),
                out@.len() == i,
                forall|j: int|
                    0 <= j < i ==> (#[trigger] out@[j])@ == self.paths()[self.order()[j]]
                        && out@[j].key() == self.order()[j],
        {
            out.push(self.path_at(i).clone());
        }
        proof {
            let v = crate::path::paths_view(out@);
            assert forall|i: int, j: int| 0 <= i < j < v.len() implies crate::path::path_lt(
                (#[trigger] v[i]).parts,
                (#[trigger] v[j]).parts,
            ) by {
                assert(v[i].parts == self.order()[i] && v[j].parts == self.order()[j]);
            }
            assert forall|k: crate::path::PathKey| #[trigger]
                self.paths().dom().contains(k) <==> has_key(v, k) by {
                if self.paths().dom().contains(k) {
                    assert(self.order().contains(k));
                    let i = choose|i: int| 0 <= i < self.order().len() && self.order()[i] == k;
                    assert(v[i].parts == k);
                }
                if has_key(v, k) {
                    let i = choose|i: int| 0 <= i < v.len() && (#[trigger] v[i]).parts == k;
                    assert(self.order()[i] == k);
                    assert(self.order().contains(k));
                }
            }
        }
        out
    }
}

/// A list goes through the paths of a set, each once, in order.
pub open spec fn lists(
    v: Seq<crate::path::PathSpec>,
    m: Map<crate::path::PathKey, crate::path::PathSpec>,
) -> bool {
    &&& forall|i: int, j: int|
        0 <= i < j < v.len() ==> crate::path::path_lt((#[trigger] v[i]).parts, (#[trigger] v[j]).parts)
    &&& forall|k: crate::path::PathKey| #[trigger] m.dom().contains(k) <==> has_key(v, k)
    &&& forall|i: int| 0 <= i < v.len() ==> #[trigger] v[i] == m[v[i].parts]
}

/// Paths in order stand from the first to the last, each before all that follow.
pub proof fn each_path_stands_before_those_that_follow(
    s: Seq<crate::path::PathKey>,
    i: int,
    j: int,
)
    requires
        in_path_order(s),
        0 <= i < j < s.len(),
    ensures
        crate::path::path_lt(s[i], s[j]),
        s[i] != s[j],
{
    order_has_no_duplicates(s);
}

} // verus!
