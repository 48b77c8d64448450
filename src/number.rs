use vstd::prelude::*;

verus! {

/// Mask of every bit of a double but the sign.
pub const MAGNITUDE_MASK: u64 = 0x7fff_ffff_ffff_ffff;

/// Bit pattern of positive infinity; magnitudes above it are NaN.
pub const INFINITY_BITS: u64 = 0x7ff0_0000_0000_0000;

/// Bit pattern of negative infinity.
pub const NEG_INFINITY_BITS: u64 = 0xfff0_0000_0000_0000;

/// The magnitude bits of a double.
pub open spec fn magnitude(bits: u64) -> u64 {
    bits & MAGNITUDE_MASK
}

/// Whether the double with these bits is a NaN.
pub open spec fn is_nan(bits: u64) -> bool {
    magnitude(bits) > INFINITY_BITS
}

/// Whether the sign bit is set.
pub open spec fn is_negative(bits: u64) -> bool {
    bits >= 0x8000_0000_0000_0000
}

/// An integer that orders non-NaN doubles as IEEE-754 does: both zeros map
/// to 0, and `a <= b` holds of two non-NaN doubles iff their keys are so ordered.
pub open spec fn order_key(bits: u64) -> int {
    if is_negative(bits) {
        -(magnitude(bits) as int)
    } else {
        magnitude(bits) as int
    }
}

/// IEEE `lo <= v && v <= hi`: false whenever one of the three is NaN.
pub open spec fn in_range(v: u64, lo: u64, hi: u64) -> bool {
    !is_nan(v) && !is_nan(lo) && !is_nan(hi) && order_key(lo) <= order_key(v) && order_key(v)
        <= order_key(hi)
}

/// Computes the order key of a double's bit pattern.
pub fn key_of(bits: u64) -> (r: i64)
    ensures
        r as int == order_key(bits),
{
    let mag: u64 = bits & MAGNITUDE_MASK;
    assert(mag <= 0x7fff_ffff_ffff_ffffu64) by (bit_vector)
        requires
            mag == bits & 0x7fff_ffff_ffff_ffffu64,
    ;
    if bits >= 0x8000_0000_0000_0000 {
        -(mag as i64)
    } else {
        mag as i64
    }
}

/// Whether a double's bit pattern is a NaN.
pub fn nan(bits: u64) -> (r: bool)
    ensures
        r == is_nan(bits),
{
    (bits & MAGNITUDE_MASK) > INFINITY_BITS
}

/// Tests IEEE `lo <= v && v <= hi` on bit patterns.
pub fn within(v: u64, lo: u64, hi: u64) -> (r: bool)
    ensures
        r == in_range(v, lo, hi),
{
    if nan(v) || nan(lo) || nan(hi) {
        false
    } else {
        let k = key_of(v);
        key_of(lo) <= k && k <= key_of(hi)
    }
}

/// Order keys fit in an `i64`.
pub proof fn lemma_order_key_bounds(bits: u64)
    ensures
        -0x7fff_ffff_ffff_ffff <= order_key(bits) <= 0x7fff_ffff_ffff_ffff,
{
    let m = bits & MAGNITUDE_MASK;
    assert(m <= 0x7fff_ffff_ffff_ffffu64) by (bit_vector)
        requires
            m == bits & 0x7fff_ffff_ffff_ffffu64,
    ;
}

/// Every non-NaN double lies between the two infinities: a range from
/// negative to positive infinity admits every number.
pub proof fn lemma_infinite_range_admits_all(v: u64)
    requires
        !is_nan(v),
    ensures
        in_range(v, NEG_INFINITY_BITS, INFINITY_BITS),
{
    assert(NEG_INFINITY_BITS & MAGNITUDE_MASK == INFINITY_BITS) by (bit_vector);
    assert(INFINITY_BITS & MAGNITUDE_MASK == INFINITY_BITS) by (bit_vector);
}

} // verus!
