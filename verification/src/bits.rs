use vstd::prelude::*;

verus! {

/// The `mask`-wide field of `x` that starts at bit `shift`.
pub open spec fn field32(x: u32, shift: u32, mask: u32) -> u32 {
    (x >> shift) & mask
}

/// `x` with the field at `shift`/`mask` replaced by the low bits of `v`.
pub open spec fn insert32(x: u32, shift: u32, mask: u32, v: u32) -> u32 {
    (x & !(mask << shift)) | ((v & mask) << shift)
}

/// A mask that keeps its bits when shifted left by `shift` within 32 bits.
pub open spec fn fits32(shift: u32, mask: u32) -> bool {
    shift < 32 && (mask << shift) >> shift == mask
}

/// Replacing a field stores the masked value there and leaves every other bit alone.
pub proof fn lemma_insert32(x: u32, shift: u32, mask: u32, v: u32)
    by (bit_vector)
    requires
        shift < 32,
        (mask << shift) >> shift == mask,
    ensures
        field32(insert32(x, shift, mask, v), shift, mask) == v & mask,
        insert32(x, shift, mask, v) & !(mask << shift) == x & !(mask << shift),
{
}

/// Masking never produces more than the mask, at every width used here.
pub proof fn lemma_and_bounds()
    by (bit_vector)
    ensures
        forall|x: u64, m: u64| #[trigger] (x & m) <= m,
        forall|x: u32, m: u32| #[trigger] (x & m) <= m,
        forall|x: u16, m: u16| #[trigger] (x & m) <= m,
        forall|x: u8, m: u8| #[trigger] (x & m) <= m,
        forall|v: u16| #[trigger] ((v as u32) & 0xffffu32) == v as u32,
        forall|v: u8| #[trigger] ((v as u32) & 0xffu32) == v as u32,
        forall|v: u8| #[trigger] ((v as u32) & 0x7u32) == (v & 0x7u8) as u32,
        forall|v: u8| #[trigger] ((v as u32) & 0x1fu32) == (v & 0x1fu8) as u32,
        forall|x: u32| #[trigger] (x >> 0u32) == x,
        forall|v: u8| #[trigger] (((v & 0x7u8) as u32) & 0x7u32) == (v & 0x7u8) as u32,
{
}

/// Every (shift, mask) pair that the register layouts of this crate use.
pub proof fn lemma_layouts()
    by (bit_vector)
    ensures
        fits32(0, 0xfffff),
        fits32(20, 0xf),
        fits32(27, 0x1f),
        fits32(0, 0xffff),
        fits32(16, 0xff),
        fits32(24, 0xff),
        fits32(0, 0x3),
        fits32(8, 0xff),
        fits32(0, 0xff),
        fits32(0, 0x7),
        fits32(3, 0x3),
        fits32(5, 0x1f),
        fits32(1, 0x3),
        fits32(3, 0x7),
        fits32(16, 0xffff),
        fits32(10, 0x3f),
        0u8 & 0x7u8 == 0u8,
        3u8 & 0x3u8 == 3u8,
        1u8 & 0x1fu8 == 1u8,
{
}

/// Replace the field of `x` at `shift`/`mask` with the low bits of `v`.
pub fn set_field32(x: u32, shift: u32, mask: u32, v: u32) -> (r: u32)
    requires
        fits32(shift, mask),
    ensures
        r == insert32(x, shift, mask, v),
        field32(r, shift, mask) == v & mask,
        r & !(mask << shift) == x & !(mask << shift),
{
    proof {
        lemma_insert32(x, shift, mask, v);
    }
    (x & !(mask << shift)) | ((v & mask) << shift)
}

/// Setting or clearing one flag bit.
pub open spec fn with_flag32(x: u32, bit: u32, on: bool) -> u32 {
    if on {
        x | bit
    } else {
        x & !bit
    }
}

/// Setting or clearing one flag bit changes that bit only.
pub proof fn lemma_flag32(x: u32, bit: u32, other: u32, on: bool)
    by (bit_vector)
    requires
        bit != 0,
        bit & ((bit - 1) as u32) == 0,
    ensures
        (with_flag32(x, bit, on) & bit != 0) == on,
        other & bit == 0 ==> with_flag32(x, bit, on) & other == x & other,
{
}

} // verus!
