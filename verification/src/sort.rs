//! Stable sorting by a key.

use vstd::prelude::*;

use crate::path::{compare_paths, MediaPath};
use crate::text::{compare_text, Rank};

verus! {

/// Keys that items are sorted by.
pub trait SortKey: Sized {
    /// This key comes before the other one.
    spec fn before(&self, other: &Self) -> bool;

    /// No key comes before one that comes before it.
    proof fn before_is_asymmetric(&self, other: &Self)
        ensures
            self.before(other) ==> !other.before(self),
    ;

    /// Not to come after is transitive.
    proof fn not_after_is_transitive(&self, other: &Self, third: &Self)
        requires
            !other.before(self),
            !third.before(other),
        ensures
            !third.before(self),
    ;

    /// Compares two keys.
    fn rank(&self, other: &Self) -> (r: Rank)
        ensures
            r == Rank::Less <==> self.before(other),
            r == Rank::Greater <==> other.before(self),
    ;
}

impl SortKey for MediaPath {
    open spec fn before(&self, other: &Self) -> bool {
        crate::path::path_lt(self.key(), other.key())
    }

    proof fn before_is_asymmetric(&self, other: &Self) {
        crate::path::path_order_is_total(self.key(), other.key());
    }

    proof fn not_after_is_transitive(&self, other: &Self, third: &Self) {
        crate::path::path_order_is_total(self.key(), other.key());
        crate::path::path_order_is_total(other.key(), third.key());
        crate::path::path_order_is_total(self.key(), third.key());
        if self.before(other) && other.before(third) {
            crate::path::path_order_is_transitive(self.key(), other.key(), third.key());
        }
    }

    fn rank(&self, other: &Self) -> (r: Rank) {
        proof {
            crate::path::path_order_is_total(self.key(), other.key());
        }
        compare_paths(self, other)
    }
}

impl SortKey for String {
    open spec fn before(&self, other: &Self) -> bool {
        crate::text::text_lt(self@, other@)
    }

    proof fn before_is_asymmetric(&self, other: &Self) {
        crate::text::text_order_is_total(self@, other@);
    }

    proof fn not_after_is_transitive(&self, other: &Self, third: &Self) {
        crate::text::text_order_is_total(self@, other@);
        crate::text::text_order_is_total(other@, third@);
        crate::text::text_order_is_total(self@, third@);
        if self.before(other) && other.before(third) {
            crate::text::text_order_is_transitive(self@, other@, third@);
        }
    }

    fn rank(&self, other: &Self) -> (r: Rank) {
        proof {
            crate::text::text_order_is_total(self@, other@);
        }
        compare_text(self.as_str(), other.as_str())
    }
}

/// The places of `s`, each once, in order: what comes before stands in front, and of two items
/// that neither comes before the other the earlier stands in front.
pub open spec fn order_of<A>(places: Seq<int>, s: Seq<A>, before: spec_fn(A, A) -> bool) -> bool {
    &&& places.len() == s.len()
    &&& forall|i: int| 0 <= i < places.len() ==> 0 <= #[trigger] places[i] < s.len()
    &&& places.no_duplicates()
    &&& forall|i: int, j: int|
        0 <= i < j < places.len() ==> before(s[#[trigger] places[i]], s[#[trigger] places[j]]) || (
        !before(s[places[j]], s[places[i]]) && places[i] < places[j])
}

/// The items of `s` at the given places.
pub open spec fn at_places<A>(s: Seq<A>, places: Seq<int>) -> Seq<A> {
    Seq::new(places.len(), |i: int| s[places[i]])
}

/// `r` holds the items of `s`, sorted: items that neither comes before the other keep their
/// order.
pub open spec fn stable_sort_of<A>(
    r: Seq<A>,
    s: Seq<A>,
    before: spec_fn(A, A) -> bool,
) -> bool {
    exists|places: Seq<int>| #[trigger] order_of(places, s, before) && r == at_places(s, places)
}

/// Sorting neither loses an item nor adds one, and leaves no item in front of one that comes
/// before it.
pub proof fn sorting_keeps_all<A>(r: Seq<A>, s: Seq<A>, before: spec_fn(A, A) -> bool)
    requires
        stable_sort_of(r, s, before),
        forall|a: A, b: A| #[trigger] before(a, b) ==> !before(b, a),
    ensures
        r.len() == s.len(),
        forall|x: A| r.contains(x) <==> s.contains(x),
        forall|i: int, j: int| 0 <= i < j < r.len() ==> !before(#[trigger] r[j], #[trigger] r[i]),
{
    let places = choose|places: Seq<int>| #[trigger]
        order_of(places, s, before) && r == at_places(s, places);
    places.unique_seq_to_set();
    vstd::seq_lib::seq_to_set_is_finite(places);
    vstd::set_lib::lemma_int_range(0, s.len() as int);
    let all = vstd::set_lib::set_int_range(0, s.len() as int);
    assert(places.to_set().subset_of(all)) by {
        assert forall|x: int| places.to_set().contains(x) implies all.contains(x) by {
            let i = choose|i: int| 0 <= i < places.len() && places[i] == x;
        }
    }
    vstd::set_lib::lemma_subset_equality(places.to_set(), all);
    assert forall|x: A| r.contains(x) <==> s.contains(x) by {
        if r.contains(x) {
            let i = choose|i: int| 0 <= i < r.len() && r[i] == x;
            assert(s[places[i]] == x);
        }
        if s.contains(x) {
            let i = choose|i: int| 0 <= i < s.len() && s[i] == x;
            assert(all.contains(i));
            assert(places.to_set().contains(i));
            let j = choose|j: int| 0 <= j < places.len() && places[j] == i;
            assert(r[j] == x);
        }
    }
    assert forall|i: int, j: int| 0 <= i < j < r.len() implies !before(
        #[trigger] r[j],
        #[trigger] r[i],
    ) by {
        assert(before(s[places[i]], s[places[j]]) || !before(s[places[j]], s[places[i]]));
    }
}

/// Two lists of the same length whose items compare alike have the same order.
pub proof fn order_by_other_keys<A, B>(
    places: Seq<int>,
    s: Seq<A>,
    t: Seq<B>,
    f: spec_fn(A, A) -> bool,
    g: spec_fn(B, B) -> bool,
)
    requires
        order_of(places, s, f),
        s.len() == t.len(),
        forall|i: int, j: int|
            0 <= i < s.len() && 0 <= j < s.len() ==> #[trigger] f(s[i], s[j]) == g(t[i], t[j]),
    ensures
        order_of(places, t, g),
{
    assert forall|i: int, j: int| 0 <= i < j < places.len() implies g(
        t[#[trigger] places[i]],
        t[#[trigger] places[j]],
    ) || (!g(t[places[j]], t[places[i]]) && places[i] < places[j]) by {
        assert(f(s[places[i]], s[places[j]]) == g(t[places[i]], t[places[j]]));
        assert(f(s[places[j]], s[places[i]]) == g(t[places[j]], t[places[i]]));
    }
}

/// Sorts items by their keys.
pub fn sort_by_key<T, K: SortKey>(items: Vec<T>, keys: Vec<K>) -> (r: (Vec<T>, Ghost<Seq<int>>))
    requires
        items.len() == keys.len(),
    ensures
        order_of(r.1@, keys@, |a: K, b: K| a.before(&b)),
        r.0@ == at_places(items@, r.1@),
{
    let ghost all = items@;
    let ghost ks = keys@;
    let mut rest = items;
    let mut rest_keys = keys;
    let ghost n = ks.len() as int;
    let mut out: Vec<T> = Vec::new();
    let mut out_keys: Vec<K> = Vec::new();
    let ghost mut places: Seq<int> = Seq::empty();
    assert(ks.take(n) =~= ks);
    assert(all.take(n) =~= all);
    loop
        invariant
            rest.len() == rest_keys.len(),
            all == items@,
            ks == keys@,
            rest@.len() <= all.len(),
            all.len() == ks.len() == n,
            rest@ == all.take(rest@.len() as int),
            rest_keys@ == ks.take(rest@.len() as int),
            places.len() == n - rest@.len(),
            out@ == at_places(all, places),
            out_keys@ == at_places(ks, places),
            forall|i: int| 0 <= i < places.len() ==> rest@.len() <= #[trigger] places[i] < n,
            places.no_duplicates(),
            forall|i: int, j: int|
                0 <= i < j < places.len() ==> ks[#[trigger] places[i]].before(
                    &ks[#[trigger] places[j]],
                ) || (!ks[places[j]].before(&ks[places[i]]) && places[i] < places[j]),
        decreases rest.len(),
    {
        match rest.pop() {
            None => {
                assert(order_of(places, ks, |a: K, b: K| a.before(&b)));
                return (out, Ghost(places));
            },
            Some(item) => {
                let key = rest_keys.pop().unwrap();
                let ghost p = rest@.len() as int;
                assert(item == all[p] && key == ks[p]);
                assert(rest@ =~= all.take(p));
                assert(rest_keys@ =~= ks.take(p));
                let mut lo: usize = 0;
                let mut hi: usize = out_keys.len();
                while lo < hi
                    invariant
                        lo <= hi <= out_keys.len(),
                        out_keys@ == at_places(ks, places),
                        forall|i: int| 0 <= i < places.len() ==> 0 <= #[trigger] places[i] < ks.len(),
                        forall|i: int, j: int|
                            0 <= i < j < places.len() ==> ks[#[trigger] places[i]].before(
                                &ks[#[trigger] places[j]],
                            ) || (!ks[places[j]].before(&ks[places[i]]) && places[i] < places[j]),
                        forall|i: int|
                            0 <= i < lo ==> ks[#[trigger] places[i]].before(&key),
                        forall|i: int|
                            hi <= i < places.len() ==> !ks[#[trigger] places[i]].before(&key),
                    decreases hi - lo,
                {
                    let mid: usize = lo + (hi - lo) / 2;
                    let ghost m = ks[places[mid as int]];
                    match out_keys[mid].rank(&key) {
                        Rank::Less => {
                            assert forall|i: int| 0 <= i < mid + 1 implies ks[#[trigger] places[i]].before(
                                &key,
                            ) by {
                                if i < mid {
                                    let a = ks[places[i]];
                                    K::before_is_asymmetric(&a, &m);
                                    if !a.before(&key) {
                                        K::not_after_is_transitive(&key, &a, &m);
                                    }
                                }
                            }
                            lo = mid + 1;
                        },
                        _ => {
                            assert forall|i: int| mid <= i < places.len() implies !ks[#[trigger] places[i]].before(
                                &key,
                            ) by {
                                if mid < i {
                                    let a = ks[places[i]];
                                    K::before_is_asymmetric(&m, &a);
                                    K::not_after_is_transitive(&key, &m, &a);
                                }
                            }
                            hi = mid;
                        },
                    }
                }
                let ghost at = lo as int;
                let ghost next = places.insert(at, p);
                out.insert(lo, item);
                out_keys.insert(lo, key);
                proof {
                    assert(out@ =~= at_places(all, next));
                    assert(out_keys@ =~= at_places(ks, next));
                    assert forall|i: int, j: int| 0 <= i < j < next.len() implies ks[#[trigger] next[i]].before(
                        &ks[#[trigger] next[j]],
                    ) || (!ks[next[j]].before(&ks[next[i]]) && next[i] < next[j]) by {
                        let x = if i < at { i } else { i - 1 };
                        let y = if j < at { j } else { j - 1 };
                        if i == at {
                            assert(next[j] == places[y]);
                        } else if j == at {
                            assert(next[i] == places[x]);
                        } else {
                            assert(next[i] == places[x] && next[j] == places[y]);
                        }
                    }
                    assert(next.no_duplicates()) by {
                        assert forall|i: int, j: int|
                            0 <= i < next.len() && 0 <= j < next.len() && i != j implies next[i]
                            != next[j] by {
                            let x = if i < at { i } else { i - 1 };
                            let y = if j < at { j } else { j - 1 };
                            if i != at {
                                assert(next[i] == places[x]);
                            }
                            if j != at {
                                assert(next[j] == places[y]);
                            }
                        }
                    }
                    places = next;
                }
            },
        }
    }
}

proof fn every_place_is_there<A>(
    places: Seq<int>,
    s: Seq<A>,
    before: spec_fn(A, A) -> bool,
    x: int,
)
    requires
        order_of(places, s, before),
        0 <= x < s.len(),
    ensures
        places.contains(x),
{
    places.unique_seq_to_set();
    vstd::seq_lib::seq_to_set_is_finite(places);
    vstd::set_lib::lemma_int_range(0, s.len() as int);
    let all = vstd::set_lib::set_int_range(0, s.len() as int);
    assert(places.to_set().subset_of(all)) by {
        assert forall|y: int| places.to_set().contains(y) implies all.contains(y) by {
            let i = choose|i: int| 0 <= i < places.len() && places[i] == y;
        }
    }
    vstd::set_lib::lemma_subset_equality(places.to_set(), all);
    assert(all.contains(x));
    assert(places.to_set().contains(x));
}

proof fn orders_agree<A>(
    a: Seq<int>,
    b: Seq<int>,
    s: Seq<A>,
    before: spec_fn(A, A) -> bool,
    n: int,
)
    requires
        order_of(a, s, before),
        order_of(b, s, before),
        forall|x: A, y: A| #[trigger] before(x, y) ==> !before(y, x),
        0 <= n <= s.len(),
    ensures
        a.take(n) == b.take(n),
    decreases n,
{
    if n > 0 {
        let i = n - 1;
        orders_agree(a, b, s, before, i);
        every_place_is_there(b, s, before, a[i]);
        every_place_is_there(a, s, before, b[i]);
        let j = choose|j: int| 0 <= j < b.len() && b[j] == a[i];
        let k = choose|k: int| 0 <= k < a.len() && a[k] == b[i];
        if j < i {
            assert(a.take(i)[j] == b.take(i)[j]);
            assert(a[j] == a[i]);
        }
        if k < i {
            assert(a.take(i)[k] == b.take(i)[k]);
            assert(b[k] == b[i]);
        }
        if a[i] != b[i] {
            assert(i < j && i < k);
            assert(before(s[a[i]], s[a[k]]) || (!before(s[a[k]], s[a[i]]) && a[i] < a[k]));
            assert(before(s[b[i]], s[b[j]]) || (!before(s[b[j]], s[b[i]]) && b[i] < b[j]));
        }
        assert(a.take(n) =~= a.take(i).push(a[i]));
        assert(b.take(n) =~= b.take(i).push(b[i]));
    }
}

/// There is one way to sort a list.
pub proof fn sorting_has_one_result<A>(
    r: Seq<A>,
    t: Seq<A>,
    s: Seq<A>,
    before: spec_fn(A, A) -> bool,
)
    requires
        stable_sort_of(r, s, before),
        stable_sort_of(t, s, before),
        forall|x: A, y: A| #[trigger] before(x, y) ==> !before(y, x),
    ensures
        r == t,
{
    let a = choose|places: Seq<int>| #[trigger]
        order_of(places, s, before) && r == at_places(s, places);
    let b = choose|places: Seq<int>| #[trigger]
        order_of(places, s, before) && t == at_places(s, places);
    orders_agree(a, b, s, before, s.len() as int);
    assert(a.take(s.len() as int) =~= a);
    assert(b.take(s.len() as int) =~= b);
}

/// Items that neither comes before the other stay in the order in which they stood: each item of the
/// sorted list has its own place in the list as it was, and the places of such items go up.
pub proof fn sorting_keeps_the_order_of_equals<A>(
    r: Seq<A>,
    s: Seq<A>,
    before: spec_fn(A, A) -> bool,
)
    requires
        stable_sort_of(r, s, before),
    ensures
        exists|at: Seq<int>|
            {
                &&& at.len() == r.len() && r.len() == s.len()
                &&& forall|i: int|
                    0 <= i < r.len() ==> 0 <= #[trigger] at[i] < s.len() && r[i] == s[at[i]]
                &&& forall|i: int, j: int|
                    0 <= i < j < r.len() ==> #[trigger] at[i] != #[trigger] at[j]
                &&& forall|i: int, j: int|
                    0 <= i < j < r.len() && !before(r[i], r[j]) && !before(r[j], r[i])
                        ==> #[trigger] at[i] < #[trigger] at[j]
            },
{
    let places = choose|places: Seq<int>| #[trigger]
        order_of(places, s, before) && r == at_places(s, places);
    assert forall|i: int| 0 <= i < r.len() implies 0 <= #[trigger] places[i] < s.len() && r[i]
        == s[places[i]] by {}
    assert forall|i: int, j: int|
        0 <= i < j < r.len() && !before(r[i], r[j]) && !before(r[j], r[i]) implies #[trigger] places[i]
        < #[trigger] places[j] by {
        assert(r[i] == s[places[i]] && r[j] == s[places[j]]);
    }
}

} // verus!
