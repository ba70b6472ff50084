//! Ordering items by a strict total order on their positions.
//!
//! Each ordering that the library needs (widgets by render time, trends by
//! change, statistics by name) breaks ties by position, so it is a strict
//! total order on the positions `0..size`. Sorting the positions then has
//! exactly one result, and it is stable.
use vstd::prelude::*;

verus! {

/// A strict total order on the positions `0..size()`.
pub trait PositionOrder {
    /// The number of positions.
    spec fn size(&self) -> nat;

    /// Whether the order is well defined.
    spec fn valid(&self) -> bool;

    /// Whether position `i` comes before position `j`.
    spec fn precedes(&self, i: int, j: int) -> bool;

    /// Whether position `i` comes before position `j`.
    fn precedes_exec(&self, i: usize, j: usize) -> (b: bool)
        requires
            self.valid(),
            i < self.size(),
            j < self.size(),
        ensures
            b == self.precedes(i as int, j as int),
    ;

    /// The order is irreflexive, transitive and total on `0..size()`.
    proof fn lemma_strict_total(&self, i: int, j: int, k: int)
        requires
            self.valid(),
            0 <= i < self.size(),
            0 <= j < self.size(),
            0 <= k < self.size(),
        ensures
            !self.precedes(i, i),
            self.precedes(i, j) && self.precedes(j, k) ==> self.precedes(i, k),
            i != j ==> self.precedes(i, j) || self.precedes(j, i),
    ;
}

/// Whether position `x` occurs in `r`.
pub open spec fn lists(r: Seq<usize>, x: int) -> bool {
    exists|a: int| 0 <= a < r.len() && r[a] == x
}

/// Whether `r` lists each of the positions `0..n` exactly once.
pub open spec fn is_arrangement(r: Seq<usize>, n: nat) -> bool {
    &&& r.len() == n
    &&& forall|a: int| 0 <= a < r.len() ==> r[a] < n
    &&& forall|a: int, b: int| 0 <= a < r.len() && 0 <= b < r.len() && a != b ==> r[a] != r[b]
    &&& forall|x: int| 0 <= x < n ==> #[trigger] lists(r, x)
}

/// Whether `r` lists positions in the order `o`.
pub open spec fn is_ordered_by<O: PositionOrder>(o: &O, r: Seq<usize>) -> bool {
    forall|a: int, b: int| 0 <= a < b < r.len() ==> o.precedes(r[a] as int, r[b] as int)
}

/// The items of `s` at the positions listed in `r`, in that order.
pub open spec fn arranged<T>(s: Seq<T>, r: Seq<usize>) -> Seq<T> {
    r.map_values(|i: usize| s[i as int])
}

/// Lists the positions `0..n` in the order `o`.
pub fn sorted_positions<O: PositionOrder>(o: &O, n: usize) -> (r: Vec<usize>)
    requires
        o.valid(),
        n == o.size(),
    ensures
        is_arrangement(r@, n as nat),
        is_ordered_by(o, r@),
{
    let mut r: Vec<usize> = Vec::new();
    let mut k: usize = 0;
    while k < n
        invariant
            k <= n,
            o.valid(),
            n == o.size(),
            r@.len() == k,
            forall|a: int| 0 <= a < r@.len() ==> r@[a] < k,
            forall|a: int, b: int| 0 <= a < r@.len() && 0 <= b < r@.len() && a != b ==> r@[a] != r@[b],
            forall|x: int| 0 <= x < k ==> #[trigger] lists(r@, x),
            is_ordered_by(o, r@),
        decreases n - k,
    {
        let mut p: usize = 0;
        while p < r.len() && !o.precedes_exec(k, r[p])
            invariant
                p <= r@.len(),
                k < n,
                o.valid(),
                n == o.size(),
                forall|a: int| 0 <= a < r@.len() ==> r@[a] < k,
                forall|a: int| 0 <= a < p ==> !o.precedes(k as int, r@[a] as int),
            decreases r@.len() - p,
        {
            p = p + 1;
        }
        let ghost old_r = r@;
        r.insert(p, k);
        proof {
            assert forall|x: int| 0 <= x < k + 1 implies #[trigger] lists(r@, x) by {
                if x == k {
                    assert(r@[p as int] == x);
                } else {
                    assert(lists(old_r, x));
                    let a = choose|a: int| 0 <= a < old_r.len() && old_r[a] == x;
                    if a < p {
                        assert(r@[a] == x);
                    } else {
                        assert(r@[a + 1] == x);
                    }
                }
            }
            assert forall|a: int, b: int| 0 <= a < b < r@.len() implies o.precedes(
                r@[a] as int,
                r@[b] as int,
            ) by {
                if a < p && b < p {
                    assert(r@[a] == old_r[a] && r@[b] == old_r[b]);
                } else if a < p && b == p {
                    o.lemma_strict_total(k as int, old_r[a] as int, k as int);
                } else if a < p && b > p {
                    assert(r@[a] == old_r[a] && r@[b] == old_r[b - 1]);
                    assert(a < b - 1);
                } else if a == p {
                    assert(r@[b] == old_r[b - 1]);
                    if b - 1 > p {
                        o.lemma_strict_total(k as int, old_r[p as int] as int, old_r[b - 1] as int);
                    }
                } else {
                    assert(r@[a] == old_r[a - 1] && r@[b] == old_r[b - 1]);
                }
            }
        }
        k = k + 1;
    }
    r
}

/// Whether `before` is a strict total order on the positions `0..n`.
pub open spec fn strict_total_on(n: nat, before: spec_fn(int, int) -> bool) -> bool {
    &&& forall|i: int| 0 <= i < n ==> !#[trigger] before(i, i)
    &&& forall|i: int, j: int, k: int|
        0 <= i < n && 0 <= j < n && 0 <= k < n && #[trigger] before(i, j) && #[trigger] before(
            j,
            k,
        ) ==> before(i, k)
    &&& forall|i: int, j: int|
        0 <= i < n && 0 <= j < n && i != j ==> #[trigger] before(i, j) || before(j, i)
}

/// Whether `r` lists positions in the order `before`.
pub open spec fn lists_in_order(r: Seq<usize>, before: spec_fn(int, int) -> bool) -> bool {
    forall|a: int, b: int| 0 <= a < b < r.len() ==> before(r[a] as int, r[b] as int)
}

proof fn lemma_prefix_agrees(
    n: nat,
    before: spec_fn(int, int) -> bool,
    r1: Seq<usize>,
    r2: Seq<usize>,
    k: int,
)
    requires
        strict_total_on(n, before),
        is_arrangement(r1, n),
        is_arrangement(r2, n),
        lists_in_order(r1, before),
        lists_in_order(r2, before),
        0 <= k <= n,
    ensures
        forall|a: int| 0 <= a < k ==> r1[a] == r2[a],
    decreases k,
{
    if k > 0 {
        lemma_prefix_agrees(n, before, r1, r2, k - 1);
        let a = k - 1;
        let x = r1[a] as int;
        let y = r2[a] as int;
        if x != y {
            assert(0 <= x < n && 0 <= y < n);
            if before(x, y) {
                assert(lists(r2, x));
                let b = choose|b: int| 0 <= b < r2.len() && r2[b] == x;
                if b < a {
                    assert(r1[b] == r2[b]);
                } else {
                    assert(b != a);
                    assert(before(y, x));
                    assert(before(x, x));
                }
            } else {
                assert(before(y, x));
                assert(lists(r1, y));
                let b = choose|b: int| 0 <= b < r1.len() && r1[b] == y;
                if b < a {
                    assert(r1[b] == r2[b]);
                } else {
                    assert(b != a);
                    assert(before(x, y));
                }
            }
        }
    }
}

/// There is only one way to list the positions `0..n` in a strict total
/// order: a sort by such an order has exactly one result.
pub proof fn lemma_unique_arrangement(
    n: nat,
    before: spec_fn(int, int) -> bool,
    r1: Seq<usize>,
    r2: Seq<usize>,
)
    requires
        strict_total_on(n, before),
        is_arrangement(r1, n),
        is_arrangement(r2, n),
        lists_in_order(r1, before),
        lists_in_order(r2, before),
    ensures
        r1 == r2,
{
    lemma_prefix_agrees(n, before, r1, r2, n as int);
    assert(r1 =~= r2);
}

} // verus!
