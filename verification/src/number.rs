//! JSON numbers and the order in which filters compare them.
//!
//! Filters compare numbers by their 64-bit binary floating-point form. That
//! form is held here as an integer: the bit pattern of the float, and from it
//! a signed key whose integer order is the numeric order of the floats.

use vstd::prelude::*;

verus! {

/// A JSON number.
#[derive(Clone, Copy, Debug)]
pub enum Number {
    /// A whole number from zero up.
    Unsigned(u64),
    /// A whole number below zero.
    Negative(i64),
    /// A finite binary floating-point value, held as its 64-bit pattern
    /// (sign, 11 bits of exponent, 52 bits of fraction).
    Real(u64),
}

/// What a [`Number`] stands for.
pub enum NumberValue {
    /// A whole number.
    Whole(int),
    /// A floating-point value, by its order key: two patterns with the same
    /// key are the same value (both zeros have key 0).
    Real(int),
}

/// The sign bit of a 64-bit float pattern.
pub const SIGN_BIT: u64 = 0x8000_0000_0000_0000;

/// The 52 fraction bits of a 64-bit float pattern.
pub const FRACTION_MASK: u64 = 0x000F_FFFF_FFFF_FFFF;

/// The position of the highest set bit of `n` (0 for `n < 2`).
pub open spec fn top_bit(n: u64) -> u64
    decreases n,
{
    if n < 2 {
        0
    } else {
        (1 + top_bit(n / 2)) as u64
    }
}

/// The bit pattern of the 64-bit float nearest to the whole number `n`, ties
/// going to the even fraction.
///
/// Up to 53 significant bits the number is held exactly. Beyond that the low
/// bits are cut off and the rest is rounded; a carry out of the fraction
/// runs into the exponent, which is what adding the rounding bit to the
/// pattern does.
pub open spec fn binary64_bits(n: u64) -> u64 {
    if n == 0 {
        0
    } else {
        let p = top_bit(n);
        let exponent: u64 = ((1023 + p) as u64) << 52;
        if p <= 52 {
            exponent | ((n << ((52 - p) as u64)) & FRACTION_MASK)
        } else {
            let cut = (p - 52) as u64;
            let kept = n >> cut;
            let lost = n & (((1u64 << cut) - 1) as u64);
            let half = 1u64 << ((cut - 1) as u64);
            let up: u64 = if lost > half || (lost == half && kept & 1 == 1) {
                1
            } else {
                0
            };
            ((exponent | (kept & FRACTION_MASK)) + up) as u64
        }
    }
}

/// The order key of a float pattern: its magnitude bits, negated where the
/// sign bit is set. For finite floats `a < b` holds of the values exactly when
/// it holds of the keys, and the two zeros share key 0.
pub open spec fn key_of_bits(bits: u64) -> int {
    if bits >= SIGN_BIT {
        -(bits - SIGN_BIT)
    } else {
        bits as int
    }
}

impl NumberValue {
    /// The key by which filters order this number: that of the float it is
    /// coerced to.
    pub open spec fn order_key(self) -> int {
        match self {
            NumberValue::Whole(n) => if n >= 0 {
                binary64_bits(n as u64) as int
            } else {
                -(binary64_bits((-n) as u64) as int)
            },
            NumberValue::Real(k) => k,
        }
    }
}

impl View for Number {
    type V = NumberValue;

    open spec fn view(&self) -> NumberValue {
        match *self {
            Number::Unsigned(n) => NumberValue::Whole(n as int),
            Number::Negative(n) => NumberValue::Whole(n as int),
            Number::Real(bits) => NumberValue::Real(key_of_bits(bits)),
        }
    }
}

/// A number below `2^k` has its highest set bit below position `k`.
proof fn lemma_top_bit_bound(n: u64, k: nat)
    requires
        1 <= k <= 64,
        n < vstd::arithmetic::power2::pow2(k),
    ensures
        top_bit(n) < k,
    decreases k,
{
    vstd::arithmetic::power2::lemma2_to64();
    if n >= 2 {
        assert(k >= 2) by {
            if k == 1 {
                assert(vstd::arithmetic::power2::pow2(1) == 2);
            }
        }
        vstd::arithmetic::power2::lemma_pow2_unfold(k);
        lemma_top_bit_bound(n / 2, (k - 1) as nat);
    }
}

/// Finds the highest set bit of `n`.
fn highest_bit(n: u64) -> (p: u64)
    ensures
        p == top_bit(n),
        p <= 63,
{
    proof {
        vstd::arithmetic::power2::lemma2_to64();
        lemma_top_bit_bound(n, 64);
    }
    let mut m: u64 = n;
    let mut p: u64 = 0;
    while m >= 2
        invariant
            top_bit(n) == p + top_bit(m),
            top_bit(n) <= 63,
        decreases m,
    {
        proof {
            vstd::arithmetic::power2::lemma2_to64();
            lemma_top_bit_bound(m / 2, 64);
        }
        m = m / 2;
        p = p + 1;
    }
    p
}

/// The bit pattern of the 64-bit float nearest to `n`.
pub fn float_bits(n: u64) -> (bits: u64)
    ensures
        bits == binary64_bits(n),
        bits < SIGN_BIT,
{
    if n == 0 {
        return 0;
    }
    let p: u64 = highest_bit(n);
    let biased: u64 = 1023 + p;
    let exponent: u64 = biased << 52;
    if p <= 52 {
        let shift: u64 = 52 - p;
        let fraction: u64 = (n << shift) & FRACTION_MASK;
        assert((exponent | fraction) < SIGN_BIT) by (bit_vector)
            requires
                biased <= 1075,
                exponent == biased << 52,
                fraction == (n << shift) & FRACTION_MASK,
        ;
        exponent | fraction
    } else {
        let cut: u64 = p - 52;
        let kept: u64 = n >> cut;
        assert((1u64 << cut) >= 1) by (bit_vector)
            requires
                1 <= cut <= 11,
        ;
        let lost: u64 = n & ((1u64 << cut) - 1);
        let half: u64 = 1u64 << (cut - 1);
        let up: u64 = if lost > half || (lost == half && kept & 1 == 1) {
            1
        } else {
            0
        };
        let fraction: u64 = kept & FRACTION_MASK;
        assert((exponent | fraction) < SIGN_BIT - 1) by (bit_vector)
            requires
                biased <= 1086,
                exponent == biased << 52,
                fraction == kept & FRACTION_MASK,
        ;
        (exponent | fraction) + up
    }
}

impl Number {
    /// The key by which filters order this number.
    pub fn order_key(&self) -> (key: i64)
        ensures
            key == self@.order_key(),
    {
        match *self {
            Number::Unsigned(n) => {
                let bits: u64 = float_bits(n);
                bits as i64
            },
            Number::Negative(n) => {
                if n >= 0 {
                    let bits: u64 = float_bits(n as u64);
                    bits as i64
                } else {
                    let magnitude: u64 = if n == i64::MIN {
                        SIGN_BIT
                    } else {
                        (-n) as u64
                    };
                    let bits: u64 = float_bits(magnitude);
                    -(bits as i64)
                }
            },
            Number::Real(bits) => {
                if bits >= SIGN_BIT {
                    let magnitude: u64 = bits - SIGN_BIT;
                    -(magnitude as i64)
                } else {
                    bits as i64
                }
            },
        }
    }

    /// Whether the two numbers are the same JSON number: whole numbers by
    /// value, floats by value, and a whole number never equals a float.
    pub fn same_as(&self, other: &Number) -> (same: bool)
        ensures
            same == (self@ == other@),
    {
        match (*self, *other) {
            (Number::Real(a), Number::Real(b)) => {
                Number::Real(a).order_key() == Number::Real(b).order_key()
            },
            (Number::Real(_), _) => false,
            (_, Number::Real(_)) => false,
            (Number::Unsigned(a), Number::Unsigned(b)) => a == b,
            (Number::Negative(a), Number::Negative(b)) => a == b,
            (Number::Unsigned(a), Number::Negative(b)) => b >= 0 && a == b as u64,
            (Number::Negative(a), Number::Unsigned(b)) => a >= 0 && a as u64 == b,
        }
    }
}

} // verus!
