//! Splitting a requested number of sleepers into per-process batches.

use vstd::prelude::*;

verus! {

/// Largest number of sleepers that one worker process hosts.
pub const WORKERS_PER_PROCESS: usize = 8192;

/// The batch sizes, in fork order, for `total` sleepers with at most
/// `capacity` of them per process: full batches first, then the remainder.
pub open spec fn batches(total: nat, capacity: nat) -> Seq<nat>
    decreases total,
{
    if total == 0 || capacity == 0 {
        seq![]
    } else {
        let size = if total < capacity { total } else { capacity };
        seq![size] + batches((total - size) as nat, capacity)
    }
}

/// Sum of a sequence of batch sizes.
pub open spec fn total_of(s: Seq<nat>) -> nat
    decreases s.len(),
{
    if s.len() == 0 {
        0
    } else {
        s[0] + total_of(s.drop_first())
    }
}

/// The exact batch sizes as naturals.
pub open spec fn sizes_of(v: Seq<usize>) -> Seq<nat> {
    v.map_values(|b: usize| b as nat)
}

/// Computes the batch sizes, in fork order, for `total` sleepers when each
/// worker process hosts at most `capacity` of them.
pub fn batch_sizes(total: usize, capacity: usize) -> (r: Vec<usize>)
    requires
        capacity > 0,
    ensures
        sizes_of(r@) == batches(total as nat, capacity as nat),
{
    let mut r: Vec<usize> = Vec::new();
    let mut remaining: usize = total;
    while remaining > 0
        invariant
            capacity > 0,
            sizes_of(r@) + batches(remaining as nat, capacity as nat) == batches(
                total as nat,
                capacity as nat,
            ),
        decreases remaining,
    {
        let size: usize = if remaining < capacity { remaining } else { capacity };
        let ghost before = r@;
        r.push(size);
        remaining = remaining - size;
        proof {
            assert(sizes_of(r@) =~= sizes_of(before).push(size as nat));
            assert(batches((remaining + size) as nat, capacity as nat) == seq![size as nat]
                + batches(remaining as nat, capacity as nat));
            assert(sizes_of(before) + (seq![size as nat] + batches(remaining as nat, capacity as nat))
                =~= sizes_of(r@) + batches(remaining as nat, capacity as nat));
        }
    }
    proof {
        assert(batches(0, capacity as nat) =~= seq![]);
        assert(sizes_of(r@) + seq![] =~= sizes_of(r@));
    }
    r
}

/// Every requested sleeper lands in exactly one batch: the batch sizes add up
/// to `total`, there are `ceil(total / capacity)` of them (none for zero),
/// each holds between one and `capacity` sleepers, and all but the last are full.
pub proof fn lemma_batches_cover(total: nat, capacity: nat)
    requires
        capacity > 0,
    ensures
        total_of(batches(total, capacity)) == total,
        batches(total, capacity).len() == (total + capacity - 1) as nat / capacity,
        forall|i: int|
            0 <= i < batches(total, capacity).len() ==> 0 < #[trigger] batches(total, capacity)[i]
                <= capacity,
        forall|i: int|
            0 <= i < batches(total, capacity).len() - 1 ==> #[trigger] batches(total, capacity)[i]
                == capacity,
    decreases total,
{
    let b = batches(total, capacity);
    if total == 0 {
        assert((capacity - 1) as nat / capacity == 0) by (nonlinear_arith)
            requires
                capacity > 0,
        ;
    } else {
        let size = if total < capacity { total } else { capacity };
        let rest = (total - size) as nat;
        lemma_batches_cover(rest, capacity);
        assert(b.drop_first() =~= batches(rest, capacity));
        if total < capacity {
            assert(rest == 0);
            assert((total + capacity - 1) as nat / capacity == 1) by (nonlinear_arith)
                requires
                    0 < total < capacity,
            ;
        } else {
            assert((total + capacity - 1) as nat / capacity == (rest + capacity - 1) as nat / capacity + 1)
                by (nonlinear_arith)
                requires
                    rest == total - capacity,
                    capacity > 0,
            ;
        }
        assert forall|i: int| 0 <= i < b.len() implies 0 < #[trigger] b[i] <= capacity by {
            if i > 0 {
                assert(b[i] == batches(rest, capacity)[i - 1]);
            }
        }
        assert forall|i: int| 0 <= i < b.len() - 1 implies #[trigger] b[i] == capacity by {
            if i > 0 {
                assert(b[i] == batches(rest, capacity)[i - 1]);
            }
        }
    }
}

} // verus!
