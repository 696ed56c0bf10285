//! Two's-complement wrapping of exact integers into `i32`.

use vstd::prelude::*;
use vstd::wrapping::i32_specs;

verus! {

/// What 32-bit two's-complement arithmetic keeps of the exact integer `x`:
/// the one `i32` that is congruent to `x` modulo 2^32.
pub open spec fn wrap_i32(x: int) -> i32 {
    let r = x % 0x1_0000_0000;
    if r > i32::MAX {
        (r - 0x1_0000_0000) as i32
    } else {
        r as i32
    }
}

/// Wrapping leaves a value alone that already fits.
pub proof fn lemma_wrap_fits(x: int)
    requires
        i32::MIN <= x <= i32::MAX,
    ensures
        wrap_i32(x) == x,
{
}

/// Wrapping differs from the exact value by a multiple of 2^32.
pub proof fn lemma_wrap_congruent(x: int)
    ensures
        (wrap_i32(x) - x) % 0x1_0000_0000 == 0,
{
}

/// One step of a wrapping multiply-accumulate loop: adding the wrapped
/// product of `p` and `q` to a wrapped running sum gives the wrapped exact sum.
pub proof fn lemma_wrapping_step(sum: int, p: i32, q: i32)
    ensures
        i32_specs::wrapping_add(wrap_i32(sum), i32_specs::wrapping_mul(p, q)) == wrap_i32(
            sum + p * q,
        ),
{
    let t: int = p * q;
    assert(i32_specs::wrapping_mul(p, q) == wrap_i32(t));
    lemma_wrap_congruent(sum);
    lemma_wrap_congruent(t);
    lemma_wrap_congruent(sum + t);
}

} // verus!
