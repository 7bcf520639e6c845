//! Single-precision numbers, read from their bit patterns.
//!
//! Numbers reach the library from numerical code as IEEE 754 binary32 bit
//! patterns: one sign bit, eight exponent bits, twenty-three fraction bits.
//! A pattern stands for `(-1)^sign * significand * 2^exponent`, unless its
//! exponent field is all ones, where it is an infinity or a NaN. Here the
//! patterns are classified and turned into fixed-point values.

use vstd::prelude::*;
use vstd::arithmetic::power2::pow2;
use vstd::arithmetic::power2::lemma2_to64;
use vstd::arithmetic::power2::lemma_pow2_strictly_increases;
use vstd::arithmetic::power2::lemma_pow2_pos;
use vstd::arithmetic::power2::lemma_pow2_unfold;
use crate::fixed::Fixed;
use crate::fixed::fx;
use crate::fixed::clamp;

verus! {

/// The sign bit is set.
pub open spec fn is_negative_bits(bits: u32) -> bool {
    bits >= 0x8000_0000
}

/// The exponent field: bits 23 to 30.
pub open spec fn exponent_field(bits: u32) -> int {
    (bits as int / 0x80_0000) % 0x100
}

/// The fraction field: the low 23 bits.
pub open spec fn fraction_field(bits: u32) -> int {
    bits as int % 0x80_0000
}

/// The pattern is a NaN: the exponent field is all ones and the fraction is
/// not zero.
pub open spec fn is_nan_bits(bits: u32) -> bool {
    exponent_field(bits) == 0xff && fraction_field(bits) != 0
}

/// The pattern is an infinity: the exponent field is all ones and the
/// fraction is zero.
pub open spec fn is_infinite_bits(bits: u32) -> bool {
    exponent_field(bits) == 0xff && fraction_field(bits) == 0
}

/// The significand as a whole number: the fraction, with the implicit
/// leading one unless the number is subnormal.
pub open spec fn significand(bits: u32) -> int {
    if exponent_field(bits) == 0 {
        fraction_field(bits)
    } else {
        0x80_0000 + fraction_field(bits)
    }
}

/// The power of two that the significand is multiplied by.
pub open spec fn binary_exponent(bits: u32) -> int {
    if exponent_field(bits) == 0 {
        -149
    } else {
        exponent_field(bits) - 150
    }
}

/// The size of the number in units of which `scale` make one, rounded down
/// (for a pattern that is neither NaN nor infinite).
pub open spec fn scaled_size(bits: u32, scale: int) -> int {
    let scaled = significand(bits) * scale;
    let e = binary_exponent(bits);
    if e >= 0 {
        scaled * pow2(e as nat)
    } else {
        scaled / (pow2((-e) as nat) as int)
    }
}

/// The number in units of which `scale` make one, rounded toward zero.
pub open spec fn scaled_value(bits: u32, scale: int) -> int {
    if is_negative_bits(bits) {
        -scaled_size(bits, scale)
    } else {
        scaled_size(bits, scale)
    }
}

/// The number in millionths, rounded toward zero.
pub open spec fn in_millionths(bits: u32) -> int {
    scaled_value(bits, 1_000_000)
}

/// What a pattern is read as in units of which `scale` make one: nothing for
/// a NaN, the end of the 64-bit range on its side for an infinity, and the
/// number rounded toward zero and limited to the range otherwise.
pub open spec fn reading(bits: u32, scale: int) -> Option<int> {
    if is_nan_bits(bits) {
        None
    } else if is_infinite_bits(bits) {
        Some(
            if is_negative_bits(bits) {
                i64::MIN as int
            } else {
                i64::MAX as int
            },
        )
    } else {
        Some(clamp(scaled_value(bits, scale)))
    }
}

/// Whether the pattern is a NaN or an infinity.
pub fn is_not_finite(bits: u32) -> (not_finite: bool)
    ensures
        not_finite == (is_nan_bits(bits) || is_infinite_bits(bits)),
{
    (bits / 0x80_0000) % 0x100 == 0xff
}

/// Two to the power `k`.
fn power_of_two(k: u32) -> (p: u128)
    requires
        k <= 64,
    ensures
        p == pow2(k as nat),
        p <= 0x1_0000_0000_0000_0000,
{
    let mut p: u128 = 1;
    let mut i: u32 = 0;
    proof {
        lemma2_to64();
    }
    while i < k
        invariant
            i <= k <= 64,
            p == pow2(i as nat),
            p <= pow2(64),
            pow2(64) == 0x1_0000_0000_0000_0000,
        decreases k - i,
    {
        proof {
            lemma_pow2_unfold((i + 1) as nat);
            if i + 1 < 64 {
                lemma_pow2_strictly_increases((i + 1) as nat, 64);
            }
        }
        p = p * 2;
        i += 1;
    }
    p
}

/// Reads a bit pattern in units of which `scale` make one.
pub(crate) fn read_scaled(bits: u32, scale: u32) -> (value: Option<i64>)
    requires
        scale <= 0x4000_0000,
    ensures
        value matches Some(v) ==> reading(bits, scale as int) == Some(v as int),
        value.is_none() ==> reading(bits, scale as int).is_none(),
{
    let negative = bits >= 0x8000_0000;
    let exponent: u32 = (bits / 0x80_0000) % 0x100;
    let fraction: u32 = bits % 0x80_0000;
    if exponent == 0xff {
        if fraction != 0 {
            return None;
        }
        return Some(
            if negative {
                i64::MIN
            } else {
                i64::MAX
            },
        );
    }
    let whole: u128 = if exponent == 0 {
        fraction as u128
    } else {
        0x80_0000u128 + fraction as u128
    };
    assert(whole * scale <= 0x100_0000 * 0x4000_0000) by (nonlinear_arith)
        requires
            whole <= 0x100_0000u128,
            scale <= 0x4000_0000u32,
    ;
    let scaled: u128 = whole * (scale as u128);
    assert(scaled == significand(bits) * scale);
    let size: u128 = if exponent >= 150 {
        // The significand is multiplied by two to the power of (exponent - 150).
        let up: u32 = exponent - 150;
        if scaled == 0 {
            assert(scaled_size(bits, scale as int) == 0) by (nonlinear_arith)
                requires
                    scaled_size(bits, scale as int) == scaled * pow2(up as nat),
                    scaled == 0,
            ;
            0
        } else if up >= 64 {
            proof {
                lemma2_to64();
                if up > 64 {
                    lemma_pow2_strictly_increases(64, up as nat);
                }
                assert(scaled * pow2(up as nat) >= 0x1_0000_0000_0000_0000) by (nonlinear_arith)
                    requires
                        scaled >= 1,
                        pow2(up as nat) >= 0x1_0000_0000_0000_0000,
                ;
            }
            0x1_0000_0000_0000_0000u128
        } else {
            let factor = power_of_two(up);
            assert(scaled * factor <= 0x40_0000_0000_0000 * 0x1_0000_0000_0000_0000)
                by (nonlinear_arith)
                requires
                    scaled <= 0x40_0000_0000_0000u128,
                    factor <= 0x1_0000_0000_0000_0000u128,
            ;
            scaled * factor
        }
    } else {
        // The significand is divided by two to the power of (150 - exponent),
        // or of 149 for a subnormal number.
        let down: u32 = if exponent == 0 {
            149
        } else {
            150 - exponent
        };
        if down >= 64 {
            proof {
                lemma2_to64();
                if down > 64 {
                    lemma_pow2_strictly_increases(64, down as nat);
                }
                vstd::arithmetic::div_mod::lemma_basic_div(scaled as int, pow2(down as nat) as int);
            }
            0
        } else {
            let divisor = power_of_two(down);
            proof {
                lemma_pow2_pos(down as nat);
            }
            scaled / divisor
        }
    };
    assert(size >= 0x1_0000_0000_0000_0000 ==> scaled_size(bits, scale as int)
        >= 0x1_0000_0000_0000_0000);
    assert(size < 0x1_0000_0000_0000_0000 ==> scaled_size(bits, scale as int) == size);
    if size > 0x7fff_ffff_ffff_ffff {
        Some(
            if negative {
                i64::MIN
            } else {
                i64::MAX
            },
        )
    } else if negative {
        Some(-(size as i64))
    } else {
        Some(size as i64)
    }
}

impl Fixed {
    /// The fixed-point value of a single-precision number given by its bit
    /// pattern: the number in millionths, rounded toward zero, saturating.
    /// An infinity gives the end of the range on its side; a NaN gives
    /// nothing.
    pub fn from_single_bits(bits: u32) -> (value: Option<Fixed>)
        ensures
            is_nan_bits(bits) ==> value.is_none(),
            is_infinite_bits(bits) ==> value == Some(
                if is_negative_bits(bits) {
                    fx(i64::MIN as int)
                } else {
                    fx(i64::MAX as int)
                },
            ),
            !is_nan_bits(bits) && !is_infinite_bits(bits) ==> value == Some(fx(in_millionths(bits))),
    {
        match read_scaled(bits, 1_000_000) {
            Some(raw) => Some(Fixed { raw }),
            None => None,
        }
    }
}

} // verus!
