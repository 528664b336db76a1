//! Fixed-capacity FIFO push, shared by every bounded history in the
//! controller: the oldest entry is evicted once the capacity is reached.

use vstd::prelude::*;

verus! {

/// Contents of a bounded FIFO of capacity `cap` after pushing `x`:
/// the oldest entry leaves first when the buffer is full.
pub open spec fn spec_fifo_push(s: Seq<u32>, x: u32, cap: int) -> Seq<u32> {
    if s.len() >= cap {
        s.drop_first().push(x)
    } else {
        s.push(x)
    }
}

/// Pushes `x` into `v`, evicting the oldest entry first when `v`
/// already holds `cap` or more entries.
pub fn fifo_push(v: &mut Vec<u32>, x: u32, cap: usize)
    requires
        cap >= 1,
    ensures
        final(v)@ == spec_fifo_push(old(v)@, x, cap as int),
        final(v)@.len() <= if old(v)@.len() <= cap { cap as int } else { old(v)@.len() as int },
{
    if v.len() >= cap {
        v.remove(0);
        proof {
            assert(v@ =~= old(v)@.drop_first());
        }
    }
    v.push(x);
}

/// After a bounded push the length never exceeds the capacity, provided
/// it did not before.
pub proof fn lemma_fifo_push_len(s: Seq<u32>, x: u32, cap: int)
    requires
        cap >= 1,
        s.len() <= cap,
    ensures
        spec_fifo_push(s, x, cap).len() <= cap,
        spec_fifo_push(s, x, cap).len() >= 1,
{
}

} // verus!
