//! The order in which the compositor stacks layers: by z-index, layers with
//! equal z-index keeping their order, and the frame rate it targets.
use vstd::prelude::*;

verus! {

/// Layer `a` (at position `a` of `z`) is drawn before layer `b`: a lower
/// z-index, or the same z-index and an earlier position.
pub open spec fn stacks_before(z: Seq<i32>, a: int, b: int) -> bool {
    z[a] < z[b] || (z[a] == z[b] && a < b)
}

/// `order` lists every layer position of `z` once, in stacking order.
pub open spec fn is_stacking_order(z: Seq<i32>, order: Seq<usize>) -> bool {
    &&& order.len() == z.len()
    &&& forall|k: int| 0 <= k < order.len() ==> (#[trigger] order[k] as int) < z.len()
    &&& forall|j: int, k: int| 0 <= j < k < order.len() ==> stacks_before(z, order[j] as int, order[k] as int)
}

/// Positions listed in stacking order are distinct.
pub proof fn lemma_stacking_distinct(z: Seq<i32>, order: Seq<usize>)
    requires
        is_stacking_order(z, order),
    ensures
        order.no_duplicates(),
{
    assert forall|j: int, k: int| 0 <= j < order.len() && 0 <= k < order.len() && j != k implies order[j]
        != order[k] by {
        if j < k {
            assert(stacks_before(z, order[j] as int, order[k] as int));
        } else {
            assert(stacks_before(z, order[k] as int, order[j] as int));
        }
    }
}

/// The stacking order of layers with z-indices `z`: a stable sort of their
/// positions by z-index.
pub fn z_order(z: &Vec<i32>) -> (order: Vec<usize>)
    ensures
        is_stacking_order(z@, order@),
{
    let n = z.len();
    let mut order: Vec<usize> = Vec::new();
    let mut i: usize = 0;
    while i < n
        invariant
            n == z@.len(),
            i <= n,
            order@.len() == i,
            forall|k: int| 0 <= k < order@.len() ==> (#[trigger] order@[k] as int) < i,
            forall|a: int, b: int| 0 <= a < b < order@.len() ==> stacks_before(z@, order@[a] as int, order@[b] as int),
        decreases n - i,
    {
        // Insert position i after every position that stacks before it.
        let mut p: usize = order.len();
        while p > 0 && z[order[p - 1]] > z[i]
            invariant
                n == z@.len(),
                i < n,
                p <= order@.len(),
                forall|k: int| p <= k < order@.len() ==> z@[#[trigger] order@[k] as int] > z@[i as int],
                forall|k: int| 0 <= k < order@.len() ==> (#[trigger] order@[k] as int) < i,
            decreases p,
        {
            p = p - 1;
        }
        let ghost before = order@;
        order.insert(p, i);
        proof {
            assert(order@ =~= before.subrange(0, p as int).push(i) + before.subrange(p as int, before.len() as int));
            assert forall|k: int| 0 <= k < order@.len() implies (#[trigger] order@[k] as int) < i + 1 by {
                if k < p {
                    assert(order@[k] == before[k]);
                } else if k > p {
                    assert(order@[k] == before[k - 1]);
                }
            }
            assert forall|a: int, b: int| 0 <= a < b < order@.len() implies stacks_before(
                z@,
                order@[a] as int,
                order@[b] as int,
            ) by {
                if b < p {
                    assert(order@[a] == before[a] && order@[b] == before[b]);
                } else if b == p {
                    assert(order@[a] == before[a]);
                    if p > 0 {
                        assert(z@[before[p - 1] as int] <= z@[i as int]);
                        if a < p - 1 {
                            assert(stacks_before(z@, before[a] as int, before[p - 1] as int));
                        }
                    }
                } else if a == p {
                    assert(order@[b] == before[b - 1]);
                    assert(z@[before[b - 1] as int] > z@[i as int]);
                } else if a < p {
                    assert(order@[a] == before[a] && order@[b] == before[b - 1]);
                } else {
                    assert(order@[a] == before[a - 1] && order@[b] == before[b - 1]);
                }
            }
        }
        i = i + 1;
    }
    order
}

/// The frame rate the compositor targets for a requested rate: clamped to 30..=144.
pub open spec fn clamped_fps(fps: u32) -> u32 {
    if fps < 30 {
        30
    } else if fps > 144 {
        144
    } else {
        fps
    }
}

/// The frame rate the compositor targets for a requested rate: clamped to 30..=144.
pub fn target_fps(fps: u32) -> (r: u32)
    ensures
        r == clamped_fps(fps),
{
    if fps < 30 {
        30
    } else if fps > 144 {
        144
    } else {
        fps
    }
}

} // verus!
