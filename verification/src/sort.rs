use vstd::prelude::*;

verus! {

/// `le` is a total preorder on the positions `0..n`: any two are comparable,
/// and it is transitive.
pub open spec fn total_preorder(le: spec_fn(int, int) -> bool, n: int) -> bool {
    &&& forall|i: int, j: int| 0 <= i < n && 0 <= j < n ==> #[trigger] le(i, j) || le(j, i)
    &&& forall|i: int, j: int, k: int|
        0 <= i < n && 0 <= j < n && 0 <= k < n && #[trigger] le(i, j) && #[trigger] le(j, k) ==> le(i, k)
}

/// `order` lists each of the positions `0..n` exactly once.
pub open spec fn is_arrangement(order: Seq<usize>, n: int) -> bool {
    &&& order.len() == n
    &&& forall|a: int| 0 <= a < order.len() ==> #[trigger] order[a] < n
    &&& forall|a: int, b: int| 0 <= a < b < order.len() ==> #[trigger] order[a] != #[trigger] order[b]
    &&& forall|m: int| 0 <= m < n ==> #[trigger] lists(order, m)
}

/// Position `m` occurs in `order`.
pub open spec fn lists(order: Seq<usize>, m: int) -> bool {
    exists|a: int| 0 <= a < order.len() && order[a] == m
}

/// The positions in `order` go up by `le`.
pub open spec fn ascends(order: Seq<usize>, le: spec_fn(int, int) -> bool) -> bool {
    forall|a: int, b: int| 0 <= a < b < order.len() ==> #[trigger] le(order[a] as int, order[b] as int)
}

/// Positions that `le` cannot tell apart keep their first-to-last order.
pub open spec fn keeps_ties(order: Seq<usize>, le: spec_fn(int, int) -> bool) -> bool {
    forall|a: int, b: int|
        0 <= a < b < order.len() && #[trigger] le(order[b] as int, order[a] as int) ==> order[a] < order[b]
}

/// The stable ordering of the positions `0..n` by `le`.
pub open spec fn stable_order_of(order: Seq<usize>, n: int, le: spec_fn(int, int) -> bool) -> bool {
    &&& is_arrangement(order, n)
    &&& ascends(order, le)
    &&& keeps_ties(order, le)
}

/// Two stable orderings of the same positions by the same total preorder
/// agree on their first `k` entries.
proof fn lemma_stable_orders_agree(o1: Seq<usize>, o2: Seq<usize>, n: int, le: spec_fn(int, int) -> bool, k: int)
    requires
        total_preorder(le, n),
        stable_order_of(o1, n, le),
        stable_order_of(o2, n, le),
        0 <= k <= n,
    ensures
        forall|b: int| 0 <= b < k ==> #[trigger] o1[b] == o2[b],
    decreases k,
{
    if k > 0 {
        lemma_stable_orders_agree(o1, o2, n, le, k - 1);
        let a = k - 1;
        let x = o1[a];
        let y = o2[a];
        if x != y {
            assert(lists(o1, y as int));
            let b = choose|b: int| 0 <= b < o1.len() && o1[b] == y;
            assert(lists(o2, x as int));
            let c = choose|c: int| 0 <= c < o2.len() && o2[c] == x;
            if b < a {
                assert(o2[b] == o1[b]);
                assert(o2[b] != o2[a]);
            }
            if c < a {
                assert(o1[c] == o2[c]);
                assert(o1[c] != o1[a]);
            }
            assert(le(o1[a] as int, o1[b] as int));
            assert(le(o2[a] as int, o2[c] as int));
            assert(false);
        }
    }
}

/// A stable ordering is unique: two stable orderings of the same positions
/// by the same total preorder are the same.
pub proof fn law_stable_order_unique(o1: Seq<usize>, o2: Seq<usize>, n: int, le: spec_fn(int, int) -> bool)
    requires
        total_preorder(le, n),
        stable_order_of(o1, n, le),
        stable_order_of(o2, n, le),
    ensures
        o1 == o2,
{
    lemma_stable_orders_agree(o1, o2, n, le, n);
    assert(o1 =~= o2);
}

/// Orders the positions `0..n` by `le_exec` (which computes `le`), keeping
/// positions that compare equal in their first-to-last order: a stable
/// insertion sort.
pub fn stable_order<F: Fn(usize, usize) -> bool>(
    n: usize,
    le_exec: F,
    Ghost(le): Ghost<spec_fn(int, int) -> bool>,
) -> (order: Vec<usize>)
    requires
        total_preorder(le, n as int),
        forall|i: usize, j: usize| i < n && j < n ==> le_exec.requires((i, j)),
        forall|i: usize, j: usize, r: bool| i < n && j < n && le_exec.ensures((i, j), r) ==> r == le(i as int, j as int),
    ensures
        stable_order_of(order@, n as int, le),
{
    let mut out: Vec<usize> = Vec::new();
    let mut k: usize = 0;
    while k < n
        invariant
            k <= n,
            total_preorder(le, n as int),
            forall|i: usize, j: usize| i < n && j < n ==> le_exec.requires((i, j)),
            forall|i: usize, j: usize, r: bool| i < n && j < n && le_exec.ensures((i, j), r) ==> r == le(i as int, j as int),
            stable_order_of(out@, k as int, le),
        decreases n - k,
    {
        let mut p: usize = 0;
        while p < k && le_exec(out[p], k)
            invariant
                p <= k,
                k < n,
                out@.len() == k,
                is_arrangement(out@, k as int),
                forall|i: usize, j: usize| i < n && j < n ==> le_exec.requires((i, j)),
                forall|i: usize, j: usize, r: bool| i < n && j < n && le_exec.ensures((i, j), r) ==> r == le(i as int, j as int),
                forall|q: int| 0 <= q < p ==> #[trigger] le(out@[q] as int, k as int),
            decreases k - p,
        {
            p = p + 1;
        }
        let ghost old_out = out@;
        proof {
            if p < k {
                assert(!le(old_out[p as int] as int, k as int));
            }
        }
        out.insert(p, k);
        proof {
            let new_out = out@;
            assert(new_out =~= old_out.insert(p as int, k));
            assert forall|a: int| 0 <= a < new_out.len() implies #[trigger] new_out[a] < k + 1 by {
                if a != p {
                    if a < p { assert(new_out[a] == old_out[a]); } else { assert(new_out[a] == old_out[a - 1]); }
                }
            }
            assert forall|a: int, b: int| 0 <= a < b < new_out.len() implies #[trigger] new_out[a] != #[trigger] new_out[b] by {
                if a == p {
                    assert(new_out[b] == old_out[b - 1]);
                } else if b == p {
                    assert(new_out[a] == old_out[a]);
                } else {
                    let a0 = if a < p { a } else { a - 1 };
                    let b0 = if b < p { b } else { b - 1 };
                    assert(new_out[a] == old_out[a0]);
                    assert(new_out[b] == old_out[b0]);
                }
            }
            assert forall|m: int| 0 <= m < k + 1 implies #[trigger] lists(new_out, m) by {
                if m == k {
                    assert(new_out[p as int] == k);
                } else {
                    assert(lists(old_out, m));
                    let a = choose|a: int| 0 <= a < old_out.len() && old_out[a] == m;
                    if a < p {
                        assert(new_out[a] == m);
                    } else {
                        assert(new_out[a + 1] == m);
                    }
                }
            }
            assert forall|a: int, b: int| 0 <= a < b < new_out.len() implies #[trigger] le(new_out[a] as int, new_out[b] as int) by {
                if a == p {
                    // every later position is at or above the first one kept after `k`
                    let b0 = b - 1;
                    assert(new_out[b] == old_out[b0]);
                    assert(le(k as int, old_out[p as int] as int));
                    if b0 > p {
                        assert(le(old_out[p as int] as int, old_out[b0] as int));
                    }
                } else if b == p {
                    assert(new_out[a] == old_out[a]);
                } else {
                    let a0 = if a < p { a } else { a - 1 };
                    let b0 = if b < p { b } else { b - 1 };
                    assert(new_out[a] == old_out[a0]);
                    assert(new_out[b] == old_out[b0]);
                }
            }
            assert forall|a: int, b: int| 0 <= a < b < new_out.len() && #[trigger] le(new_out[b] as int, new_out[a] as int)
                implies new_out[a] < new_out[b] by {
                if a == p {
                    let b0 = b - 1;
                    assert(new_out[b] == old_out[b0]);
                    if b0 > p {
                        assert(le(old_out[p as int] as int, old_out[b0] as int));
                    }
                    assert(le(old_out[p as int] as int, k as int));
                    assert(false);
                } else if b == p {
                    assert(new_out[a] == old_out[a]);
                } else {
                    let a0 = if a < p { a } else { a - 1 };
                    let b0 = if b < p { b } else { b - 1 };
                    assert(new_out[a] == old_out[a0]);
                    assert(new_out[b] == old_out[b0]);
                }
            }
        }
        k = k + 1;
    }
    out
}

} // verus!
