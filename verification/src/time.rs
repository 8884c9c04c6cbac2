//! The frame time: from seconds, as the bits of a 64-bit float, to nanoseconds.
//!
//! The conversion is that of multiplying the float by 10^9 and cutting the
//! product down to an unsigned 64-bit integer, done in integer arithmetic.

use vstd::prelude::*;
use vstd::arithmetic::power2::{lemma2_to64, lemma2_to64_rest, lemma_pow2_strictly_increases, lemma_pow2_unfold, pow2};

verus! {

/// 2^52: the weight of the hidden bit of a 64-bit float's mantissa.
pub const HIDDEN_BIT: u64 = 0x10_0000_0000_0000;

/// The nanoseconds in a second.
pub const NANOS_PER_SECOND: u64 = 1_000_000_000;

/// Whether the sign bit of a 64-bit float is set.
pub open spec fn is_negative(bits: u64) -> bool {
    bits >= 0x8000_0000_0000_0000
}

/// The exponent field of a 64-bit float.
pub open spec fn exponent_of(bits: u64) -> nat {
    ((bits / HIDDEN_BIT) % 0x800) as nat
}

/// The fraction field of a 64-bit float.
pub open spec fn fraction_of(bits: u64) -> nat {
    (bits % HIDDEN_BIT) as nat
}

/// `n / unit`, rounded to the nearest integer and, halfway between two, to the even one.
pub open spec fn round_half_even(n: nat, unit: nat) -> nat {
    let q = n / unit;
    let r = n % unit;
    if 2 * r > unit || (2 * r == unit && q % 2 == 1) {
        q + 1
    } else {
        q
    }
}

/// The nanoseconds in a number of seconds that is given as the bits of a 64-bit float.
///
/// A float with mantissa `m` (hidden bit included) and exponent field `e` is
/// `m * 2^(e - 1075)`. Its product with 10^9 is rounded to the 53 bits of a
/// float, nearest and ties to even, and the fraction of that is dropped. What
/// is negative or no number gives 0; what is too large gives the largest value.
pub open spec fn nanos_of_seconds(bits: u64) -> u64 {
    let e = exponent_of(bits);
    let product = (HIDDEN_BIT + fraction_of(bits)) * NANOS_PER_SECOND;
    let shift: nat = if product >= pow2(82) {
        30
    } else {
        29
    };
    let mantissa = round_half_even(product as nat, pow2(shift));
    if is_negative(bits) {
        0
    } else if e == 2047 {
        if fraction_of(bits) == 0 {
            u64::MAX
        } else {
            0
        }
    } else if e == 0 {
        0
    } else if shift + e >= 1075 {
        if shift + e - 1075 >= 12 || mantissa * pow2((shift + e - 1075) as nat) > u64::MAX {
            u64::MAX
        } else {
            (mantissa * pow2((shift + e - 1075) as nat)) as u64
        }
    } else if 1075 - (shift + e) >= 64 {
        0
    } else {
        (mantissa / pow2((1075 - (shift + e)) as nat)) as u64
    }
}

/// 2 to the power `k`.
pub fn power_of_two(k: u64) -> (p: u128)
    requires
        k < 64,
    ensures
        p == pow2(k as nat),
        p < 0x1_0000_0000_0000_0000,
{
    let mut p: u128 = 1;
    let mut i: u64 = 0;
    proof {
        lemma2_to64();
    }
    while i < k
        invariant
            i <= k < 64,
            p == pow2(i as nat),
            p < 0x1_0000_0000_0000_0000,
        decreases k - i,
    {
        proof {
            lemma_pow2_unfold((i + 1) as nat);
            lemma2_to64();
            if i + 1 < 64 {
                lemma_pow2_strictly_increases((i + 1) as nat, 64);
            }
        }
        p = p * 2;
        i += 1;
    }
    p
}

/// Converts seconds, given as the bits of a 64-bit float, to nanoseconds.
pub fn fraction_seconds_to_nanos(bits: u64) -> (nanos: u64)
    ensures
        nanos == nanos_of_seconds(bits),
{
    let e: u64 = (bits / HIDDEN_BIT) % 0x800;
    let f: u64 = bits % HIDDEN_BIT;
    if bits >= 0x8000_0000_0000_0000 {
        return 0;
    }
    if e == 2047 {
        return if f == 0 {
            u64::MAX
        } else {
            0
        };
    }
    if e == 0 {
        return 0;
    }
    let product: u128 = (HIDDEN_BIT as u128 + f as u128) * (NANOS_PER_SECOND as u128);
    proof {
        lemma2_to64();
        lemma2_to64_rest();
        lemma_pow2_unfold(82);
        lemma_pow2_unfold(81);
        lemma_pow2_unfold(80);
        lemma_pow2_unfold(79);
        lemma_pow2_unfold(78);
        lemma_pow2_unfold(77);
        lemma_pow2_unfold(76);
        lemma_pow2_unfold(75);
        lemma_pow2_unfold(74);
        lemma_pow2_unfold(73);
        lemma_pow2_unfold(72);
        lemma_pow2_unfold(71);
        lemma_pow2_unfold(70);
        lemma_pow2_unfold(69);
        lemma_pow2_unfold(68);
        lemma_pow2_unfold(67);
        lemma_pow2_unfold(66);
        lemma_pow2_unfold(65);
        assert(pow2(82) == 0x4_0000_0000_0000_0000_0000);
    }
    let large: bool = product >= 0x4_0000_0000_0000_0000_0000;
    let unit: u128 = if large {
        0x4000_0000
    } else {
        0x2000_0000
    };
    let shift: u64 = if large {
        30
    } else {
        29
    };
    let q: u128 = product / unit;
    let r: u128 = product % unit;
    let mantissa: u128 = if 2 * r > unit || (2 * r == unit && q % 2 == 1) {
        q + 1
    } else {
        q
    };
    assert(mantissa == round_half_even(product as nat, pow2(shift as nat)));
    assert(mantissa <= 0x20_0000_0000_0000);
    if shift + e >= 1075 {
        let up: u64 = shift + e - 1075;
        if up >= 12 {
            u64::MAX
        } else {
            let scale = power_of_two(up);
            proof {
                lemma_pow2_strictly_increases(up as nat, 12);
                assert(mantissa * scale <= 0x20_0000_0000_0000 * 0x1000) by (nonlinear_arith)
                    requires
                        mantissa <= 0x20_0000_0000_0000,
                        scale < 0x1000,
                ;
            }
            let value: u128 = mantissa * scale;
            if value > u64::MAX as u128 {
                u64::MAX
            } else {
                value as u64
            }
        }
    } else {
        let down: u64 = 1075 - (shift + e);
        if down >= 64 {
            0
        } else {
            let scale = power_of_two(down);
            proof {
                vstd::arithmetic::power2::lemma_pow2_pos(down as nat);
            }
            (mantissa / scale) as u64
        }
    }
}

} // verus!
