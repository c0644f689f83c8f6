//! What the boot hart does for the others: it wakes each of them with an
//! inter-processor interrupt whose hart mask has that hart's bit alone.

use vstd::prelude::*;
use vstd::arithmetic::power2::pow2;
use vstd::bits::{lemma_usize_shl_is_mul, lemma_usize_pow2_no_overflow};

verus! {

/// The harts that boot hart 0 wakes when there are `cpu_num` harts, each with its
/// interrupt mask: harts `1..cpu_num` in order, hart `h` with mask `1 << h`.
pub open spec fn wake_list(cpu_num: int) -> Seq<(usize, usize)> {
    Seq::new(
        if cpu_num > 1 { (cpu_num - 1) as nat } else { 0 },
        |k: int| ((k + 1) as usize, 1usize << ((k + 1) as usize)),
    )
}

/// The harts to wake, with their masks, when there are `cpu_num` harts.
pub fn harts_to_wake(cpu_num: usize) -> (r: Vec<(usize, usize)>)
    requires
        cpu_num <= usize::BITS,
    ensures
        r@ == wake_list(cpu_num as int),
{
    let mut r: Vec<(usize, usize)> = Vec::new();
    let mut i: usize = 1;
    while i < cpu_num
        invariant
            1 <= i,
            cpu_num <= usize::BITS,
            i <= cpu_num || i == 1,
            r@ == wake_list(i as int),
        decreases cpu_num - i,
    {
        let mask: usize = 1 << i;
        r.push((i, mask));
        i = i + 1;
        proof {
            assert(r@ =~= wake_list(i as int));
        }
    }
    proof {
        assert(r@ =~= wake_list(cpu_num as int));
    }
    r
}

/// Each wake-up mask is the power of two of its hart: exactly that hart's bit.
pub proof fn lemma_wake_mask_is_pow2(cpu_num: int, k: int)
    requires
        cpu_num <= usize::BITS,
        0 <= k < wake_list(cpu_num).len(),
    ensures
        wake_list(cpu_num)[k].1 == pow2(wake_list(cpu_num)[k].0 as nat),
        1 <= wake_list(cpu_num)[k].0 < cpu_num,
{
    let h = (k + 1) as usize;
    lemma_usize_pow2_no_overflow(h as nat);
    lemma_usize_shl_is_mul(1, h);
}

/// Every hart but the boot hart is woken, once, in order, with its own bit: for
/// `n >= 1` harts there are `n - 1` entries, and entry `h - 1` is hart `h` with mask
/// `2^h`.
pub proof fn lemma_wakes_every_other_hart(n: int, h: int)
    requires
        1 <= n <= usize::BITS,
        1 <= h < n,
    ensures
        wake_list(n).len() == n - 1,
        wake_list(n)[h - 1].0 == h,
        wake_list(n)[h - 1].1 == pow2(h as nat),
{
    lemma_wake_mask_is_pow2(n, h - 1);
}

} // verus!
