//! Humidity values as they are stored: the 64 bits of an IEEE-754 double.

use vstd::arithmetic::div_mod::lemma_fundamental_div_mod;
use vstd::prelude::*;

verus! {

/// A humidity reading, held as the bit pattern of the double-precision
/// number that the sensor reported (`f64::to_bits` at the edge).
pub type Humidity = u64;

/// The number 2^52: the weight of the lowest exponent bit.
pub open spec fn fraction_span() -> nat {
    0x10_0000_0000_0000
}

/// The biased exponent field (bits 52 to 62) of a double's bit pattern.
pub open spec fn exponent_field(bits: u64) -> nat {
    ((bits as nat) / fraction_span()) % 0x800
}

/// The fraction field (bits 0 to 51) of a double's bit pattern.
pub open spec fn fraction_field(bits: u64) -> nat {
    (bits as nat) % fraction_span()
}

/// A double is NaN exactly when its exponent field is all ones and its
/// fraction field is not zero (IEEE 754, binary64).
pub open spec fn spec_is_nan(bits: u64) -> bool {
    exponent_field(bits) == 0x7ff && fraction_field(bits) != 0
}

/// The NaN bit patterns are exactly those strictly above the pattern of
/// positive infinity (`0x7ff0_0000_0000_0000`) up to `0x7fff_ffff_ffff_ffff`,
/// and those strictly above the pattern of negative infinity
/// (`0xfff0_0000_0000_0000`): every finite number and both infinities are
/// not NaN.
pub proof fn lemma_nan_patterns(bits: u64)
    ensures
        spec_is_nan(bits) <==> {
            ||| 0x7ff0_0000_0000_0000 < bits && bits <= 0x7fff_ffff_ffff_ffff
            ||| 0xfff0_0000_0000_0000 < bits
        },
{
    let x = bits as int;
    let span = fraction_span() as int;
    let q = x / span;
    let r = x % span;
    lemma_fundamental_div_mod(x, span);
    assert(0 <= r < span);
    assert(0 <= q < 4096) by (nonlinear_arith)
        requires
            x == span * q + r,
            0 <= r < span,
            0 <= x < 0x1_0000_0000_0000_0000,
            span == 0x10_0000_0000_0000,
    ;
    let e = q % 2048;
    lemma_fundamental_div_mod(q, 2048);
    assert(exponent_field(bits) == e);
    assert(fraction_field(bits) == r);
    if q < 2048 {
        assert(q / 2048 == 0);
    } else {
        assert(q / 2048 == 1);
    }
}

/// Whether the reading is "not a number".
pub fn is_nan(h: Humidity) -> (nan: bool)
    ensures
        nan == spec_is_nan(h),
{
    let exponent: u64 = (h >> 52u64) & 0x7ffu64;
    let fraction: u64 = h & 0xf_ffff_ffff_ffffu64;
    assert(exponent == (h / 0x10_0000_0000_0000u64) % 0x800u64) by (bit_vector)
        requires
            exponent == (h >> 52u64) & 0x7ffu64,
    ;
    assert(fraction == h % 0x10_0000_0000_0000u64) by (bit_vector)
        requires
            fraction == h & 0xf_ffff_ffff_ffffu64,
    ;
    exponent == 0x7ffu64 && fraction != 0u64
}

} // verus!
