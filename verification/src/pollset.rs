//! Bookkeeping around a readiness poll over optional slots.
//!
//! A caller waits on up to `n` slots, some of which may be empty. The
//! populated slots are packed into a dense list for the system call, and
//! the per-descriptor results are scattered back so that every slot reports
//! in its original position, empty slots reporting not-ready.

use vstd::prelude::*;

verus! {

/// The positions of the populated slots, in order: slot `i` appears iff
/// `present[i]`, considering the first `n` slots.
pub open spec fn packed_indices(present: Seq<bool>, n: int) -> Seq<int>
    decreases n,
{
    if n <= 0 {
        Seq::empty()
    } else {
        packed_indices(present, n - 1) + if present[n - 1] {
            seq![n - 1]
        } else {
            Seq::empty()
        }
    }
}

/// Pack the populated slots into their dense positions.
pub fn gather_indices(present: &Vec<bool>) -> (r: Vec<usize>)
    ensures
        r@.map_values(|u: usize| u as int) == packed_indices(present@, present@.len() as int),
        forall|k: int| 0 <= k < r@.len() ==> #[trigger] r@[k] < present@.len(),
{
    let mut r: Vec<usize> = Vec::new();
    let mut i: usize = 0;
    proof {
        assert(r@.map_values(|u: usize| u as int) =~= packed_indices(present@, 0));
    }
    while i < present.len()
        invariant
            i <= present@.len(),
            r@.map_values(|u: usize| u as int) == packed_indices(present@, i as int),
            forall|k: int| 0 <= k < r@.len() ==> #[trigger] r@[k] < present@.len(),
        decreases present@.len() - i,
    {
        if present[i] {
            let ghost before = r@;
            r.push(i);
            proof {
                assert(r@.map_values(|u: usize| u as int) =~= before.map_values(
                    |u: usize| u as int,
                ) + seq![i as int]);
            }
        } else {
            proof {
                assert(r@.map_values(|u: usize| u as int) + Seq::<int>::empty() =~= r@.map_values(
                    |u: usize| u as int,
                ));
            }
        }
        i = i + 1;
    }
    r
}

/// The per-slot readiness, rebuilt from the packed results: all slots
/// not-ready, then each packed slot set to its result, in order.
pub open spec fn scattered(n: int, idx: Seq<usize>, rdy: Seq<bool>) -> Seq<bool>
    decreases idx.len(),
{
    if idx.len() == 0 || idx.len() != rdy.len() {
        Seq::new(n as nat, |j: int| false)
    } else {
        scattered(n, idx.drop_last(), rdy.drop_last()).update(idx.last() as int, rdy.last())
    }
}

/// Scatter the packed results back into per-slot positions.
pub fn scatter_results(n: usize, indices: &Vec<usize>, ready: &Vec<bool>) -> (r: Vec<bool>)
    requires
        indices@.len() == ready@.len(),
        forall|k: int| 0 <= k < indices@.len() ==> #[trigger] indices@[k] < n,
    ensures
        r@ == scattered(n as int, indices@, ready@),
{
    let mut r: Vec<bool> = Vec::new();
    let mut j: usize = 0;
    while j < n
        invariant
            r@.len() == j,
            j <= n,
            forall|p: int| 0 <= p < j ==> r@[p] == false,
        decreases n - j,
    {
        r.push(false);
        j = j + 1;
    }
    proof {
        assert(r@ =~= Seq::new(n as nat, |p: int| false));
    }
    let mut k: usize = 0;
    proof {
        assert(indices@.take(0) =~= Seq::<usize>::empty());
        assert(ready@.take(0) =~= Seq::<bool>::empty());
        assert(r@ =~= scattered(n as int, indices@.take(0), ready@.take(0)));
    }
    while k < indices.len()
        invariant
            k <= indices@.len(),
            indices@.len() == ready@.len(),
            forall|p: int| 0 <= p < indices@.len() ==> #[trigger] indices@[p] < n,
            r@.len() == n,
            r@ == scattered(n as int, indices@.take(k as int), ready@.take(k as int)),
        decreases indices@.len() - k,
    {
        let pos = indices[k];
        r.set(pos, ready[k]);
        proof {
            let ik = indices@.take(k + 1);
            let rk = ready@.take(k + 1);
            assert(ik.drop_last() =~= indices@.take(k as int));
            assert(rk.drop_last() =~= ready@.take(k as int));
            assert(ik.last() == indices@[k as int]);
            assert(rk.last() == ready@[k as int]);
            assert(r@ =~= scattered(n as int, ik, rk));
        }
        k = k + 1;
    }
    proof {
        assert(indices@.take(indices@.len() as int) =~= indices@);
        assert(ready@.take(ready@.len() as int) =~= ready@);
    }
    r
}

/// Clamp a millisecond timeout to the range a 32-bit poll accepts.
pub fn clamp_timeout_ms(ms: u64) -> (r: i32)
    ensures
        ms <= i32::MAX as u64 ==> r == ms as int,
        ms > i32::MAX as u64 ==> r == i32::MAX as int,
{
    if ms > i32::MAX as u64 {
        i32::MAX
    } else {
        ms as i32
    }
}

} // verus!
