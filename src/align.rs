use vstd::prelude::*;

verus! {

/// The smallest multiple of `alignment` that is not below `value`.
pub open spec fn align_up(value: int, alignment: int) -> int {
    (value + alignment - 1) / alignment * alignment
}

/// What `align_up` guarantees: a multiple of the alignment, at least the
/// value, and less than one alignment unit above it.
pub proof fn lemma_align_up(value: int, alignment: int)
    requires
        value >= 0,
        alignment > 0,
    ensures
        align_up(value, alignment) % alignment == 0,
        value <= align_up(value, alignment) < value + alignment,
        align_up(value, alignment) == value + alignment - 1 - (value + alignment - 1) % alignment,
{
    let s = value + alignment - 1;
    let q = s / alignment;
    let r = s % alignment;
    assert(s == q * alignment + r && 0 <= r < alignment) by (nonlinear_arith)
        requires alignment > 0, q == s / alignment, r == s % alignment;
    assert((q * alignment) % alignment == 0) by (nonlinear_arith)
        requires alignment > 0;
}

/// Rounds `value` up to the next multiple of `alignment`.
pub fn aligned_size(value: u32, alignment: u32) -> (r: u32)
    requires
        alignment > 0,
        value + alignment - 1 <= u32::MAX,
    ensures
        r == align_up(value as int, alignment as int),
        r % alignment == 0,
        value <= r < value + alignment,
{
    proof {
        lemma_align_up(value as int, alignment as int);
    }
    let s: u32 = value + (alignment - 1);
    s - s % alignment
}

/// Rounds a 64-bit `value` up to the next multiple of `alignment`.
pub fn aligned_size_u64(value: u64, alignment: u64) -> (r: u64)
    requires
        alignment > 0,
        value + alignment - 1 <= u64::MAX,
    ensures
        r == align_up(value as int, alignment as int),
        r % alignment == 0,
        value <= r < value + alignment,
{
    proof {
        lemma_align_up(value as int, alignment as int);
    }
    let s: u64 = value + (alignment - 1);
    s - s % alignment
}

} // verus!
