use vstd::prelude::*;
use vstd::arithmetic::div_mod::lemma_mod_breakdown;

verus! {

/// A power of two: one bit set.
pub open spec fn is_pow2(a: usize) -> bool {
    a > 0 && a & ((a - 1) as usize) == 0
}

/// `value` rounded up with the mask of `align`.
pub open spec fn align_up_spec(value: usize, align: usize) -> usize {
    ((value + align - 1) as usize) & !((align - 1) as usize)
}

/// `value` rounded down with the mask of `align`.
pub open spec fn align_down_spec(value: usize, align: usize) -> usize {
    value & !((align - 1) as usize)
}

/// The low bits of `value` below `align` are clear.
pub open spec fn is_aligned_spec(value: usize, align: usize) -> bool {
    value & ((align - 1) as usize) == 0
}

/// For a power of two, the bits below the alignment are the remainder by it.
pub proof fn lemma_mask_is_mod(value: usize, align: usize)
    requires
        is_pow2(align),
    ensures
        value & ((align - 1) as usize) == value % align,
    decreases align,
{
    if align == 1 {
        assert(value & 0usize == 0) by (bit_vector);
    } else {
        let half: usize = align / 2;
        assert(half > 0 && half & ((half - 1) as usize) == 0 && align == 2 * half && value & ((align - 1)
            as usize) == ((value / 2) & ((half - 1) as usize)) * 2 + value % 2) by (bit_vector)
            requires
                align > 1,
                align & ((align - 1) as usize) == 0,
                half == align / 2,
        ;
        lemma_mask_is_mod(value / 2, half);
        lemma_mod_breakdown(value as int, 2, half as int);
    }
}

/// For a power of two, a value is aligned exactly when it is a multiple of the alignment.
pub proof fn lemma_aligned_is_multiple(value: usize, align: usize)
    requires
        is_pow2(align),
    ensures
        is_aligned_spec(value, align) <==> value % align == 0,
{
    lemma_mask_is_mod(value, align);
}

/// For a power of two, rounding up gives the least aligned value at or above `value`.
pub proof fn lemma_align_up(value: usize, align: usize)
    by (bit_vector)
    requires
        align > 0,
        align & ((align - 1) as usize) == 0,
        value <= ((value + align - 1) as usize),
    ensures
        value <= align_up_spec(value, align),
        align_up_spec(value, align) <= ((value + align - 1) as usize),
        is_aligned_spec(align_up_spec(value, align), align),
{
}

/// For a power of two, rounding down gives the greatest aligned value at or below `value`.
pub proof fn lemma_align_down(value: usize, align: usize)
    by (bit_vector)
    requires
        align > 0,
        align & ((align - 1) as usize) == 0,
    ensures
        align_down_spec(value, align) <= value,
        value < align_down_spec(value, align) + align,
        is_aligned_spec(align_down_spec(value, align), align),
{
}

/// Align value up to alignment boundary
pub fn align_up(value: usize, align: usize) -> (r: usize)
    requires
        align > 0,
        value + align - 1 <= usize::MAX,
    ensures
        r == align_up_spec(value, align),
        is_pow2(align) ==> value <= r <= value + align - 1 && is_aligned_spec(r, align),
{
    proof {
        if is_pow2(align) {
            lemma_align_up(value, align);
        }
    }
    (value + (align - 1)) & !(align - 1)
}

/// Align value down to alignment boundary
pub fn align_down(value: usize, align: usize) -> (r: usize)
    requires
        align > 0,
    ensures
        r == align_down_spec(value, align),
        is_pow2(align) ==> r <= value < r + align && is_aligned_spec(r, align),
{
    proof {
        if is_pow2(align) {
            lemma_align_down(value, align);
        }
    }
    value & !(align - 1)
}

/// Check if value is aligned
pub fn is_aligned(value: usize, align: usize) -> (r: bool)
    requires
        align > 0,
    ensures
        r == is_aligned_spec(value, align),
{
    value & (align - 1) == 0
}

/// Common alignment values
pub const BYTE: usize = 1;

pub const WORD: usize = 2;

pub const DWORD: usize = 4;

pub const QWORD: usize = 8;

pub const CACHE_LINE: usize = 64;

pub const PAGE: usize = 4096;

} // verus!
