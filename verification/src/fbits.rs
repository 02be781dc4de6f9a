//! IEEE 754 bit-pattern arithmetic.
//!
//! The bridge never holds a floating-point value: every float travels as
//! its bit pattern (`u16` for half, `u32` for single, `u64` for double
//! precision), and the width conversions the codec needs are performed
//! here by verified integer arithmetic: classification, round-to-nearest
//! (ties to even) narrowing, exact widening, and truncating saturating
//! conversion to integers.
use vstd::arithmetic::power2::pow2;
use vstd::prelude::*;

verus! {

/// The sign field of a double-precision pattern (0 or 1).
pub open spec fn f64_sign(b: u64) -> int {
    b as int / 0x8000_0000_0000_0000
}

/// The biased exponent field of a double-precision pattern (11 bits).
pub open spec fn f64_exp(b: u64) -> int {
    (b as int / 0x10_0000_0000_0000) % 0x800
}

/// The fraction field of a double-precision pattern (52 bits).
pub open spec fn f64_frac(b: u64) -> int {
    b as int % 0x10_0000_0000_0000
}

/// The sign field of a single-precision pattern (0 or 1).
pub open spec fn f32_sign(b: u32) -> int {
    b as int / 0x8000_0000
}

/// The biased exponent field of a single-precision pattern (8 bits).
pub open spec fn f32_exp(b: u32) -> int {
    (b as int / 0x80_0000) % 0x100
}

/// The fraction field of a single-precision pattern (23 bits).
pub open spec fn f32_frac(b: u32) -> int {
    b as int % 0x80_0000
}

/// The sign field of a half-precision pattern (0 or 1).
pub open spec fn f16_sign(b: u16) -> int {
    b as int / 0x8000
}

/// The biased exponent field of a half-precision pattern (5 bits).
pub open spec fn f16_exp(b: u16) -> int {
    (b as int / 0x400) % 0x20
}

/// The fraction field of a half-precision pattern (10 bits).
pub open spec fn f16_frac(b: u16) -> int {
    b as int % 0x400
}

/// Whether a double-precision pattern is a NaN.
pub open spec fn f64_is_nan(b: u64) -> bool {
    f64_exp(b) == 0x7FF && f64_frac(b) != 0
}

/// Whether a double-precision pattern is an infinity (of either sign).
pub open spec fn f64_is_inf(b: u64) -> bool {
    f64_exp(b) == 0x7FF && f64_frac(b) == 0
}

/// Whether a double-precision pattern has its sign bit set.
pub open spec fn f64_is_neg(b: u64) -> bool {
    f64_sign(b) == 1
}

/// Whether a single-precision pattern is a NaN.
pub open spec fn f32_is_nan(b: u32) -> bool {
    f32_exp(b) == 0xFF && f32_frac(b) != 0
}

/// Whether a single-precision pattern is an infinity (of either sign).
pub open spec fn f32_is_inf(b: u32) -> bool {
    f32_exp(b) == 0xFF && f32_frac(b) == 0
}

/// Whether a half-precision pattern is a NaN.
pub open spec fn f16_is_nan(b: u16) -> bool {
    f16_exp(b) == 0x1F && f16_frac(b) != 0
}

/// Whether a half-precision pattern is an infinity (of either sign).
pub open spec fn f16_is_inf(b: u16) -> bool {
    f16_exp(b) == 0x1F && f16_frac(b) == 0
}

/// Tests whether a double-precision pattern is a NaN.
pub fn is_nan_f64(b: u64) -> (r: bool)
    ensures
        r == f64_is_nan(b),
{
    let e = (b / 0x10_0000_0000_0000) % 0x800;
    let f = b % 0x10_0000_0000_0000;
    e == 0x7FF && f != 0
}

/// Tests whether a double-precision pattern is an infinity.
pub fn is_inf_f64(b: u64) -> (r: bool)
    ensures
        r == f64_is_inf(b),
{
    let e = (b / 0x10_0000_0000_0000) % 0x800;
    let f = b % 0x10_0000_0000_0000;
    e == 0x7FF && f == 0
}

/// Tests whether a double-precision pattern has its sign bit set.
pub fn is_neg_f64(b: u64) -> (r: bool)
    ensures
        r == f64_is_neg(b),
{
    b / 0x8000_0000_0000_0000 == 1
}

/// Reduction of an integer to the unsigned 8-bit range, two's-complement
/// style (the low 8 bits, read unsigned).
pub open spec fn wrap_u8(x: int) -> int {
    ((x % 0x100) + 0x100) % 0x100
}

/// Reduction of an integer to the signed 8-bit range, two's-complement
/// style (the low 8 bits, read signed).
pub open spec fn wrap_i8(x: int) -> int {
    let m = wrap_u8(x);
    if m >= 0x80 {
        m - 0x100
    } else {
        m
    }
}

/// Reduction of an integer to the unsigned 32-bit range.
pub open spec fn wrap_u32(x: int) -> int {
    ((x % 0x1_0000_0000) + 0x1_0000_0000) % 0x1_0000_0000
}

/// Reduction of an integer to the signed 32-bit range.
pub open spec fn wrap_i32(x: int) -> int {
    let m = wrap_u32(x);
    if m >= 0x8000_0000 {
        m - 0x1_0000_0000
    } else {
        m
    }
}

/// Wraps a signed 64-bit value to 8 bits, as storing its low byte does.
pub fn wrap_i8_of_i64(x: i64) -> (r: i8)
    ensures
        r as int == wrap_i8(x as int),
{
    let m0 = x % 0x100;
    let m = if m0 < 0 {
        m0 + 0x100
    } else {
        m0
    };
    if m >= 0x80 {
        (m - 0x100) as i8
    } else {
        m as i8
    }
}

/// Wraps a signed 64-bit value to 32 bits.
pub fn wrap_i32_of_i64(x: i64) -> (r: i32)
    ensures
        r as int == wrap_i32(x as int),
{
    let m0 = x % 0x1_0000_0000;
    let m = if m0 < 0 {
        m0 + 0x1_0000_0000
    } else {
        m0
    };
    if m >= 0x8000_0000 {
        (m - 0x1_0000_0000) as i32
    } else {
        m as i32
    }
}

/// Wraps an unsigned 64-bit value to 8 bits.
pub fn wrap_u8_of_u64(x: u64) -> (r: u8)
    ensures
        r as int == wrap_u8(x as int),
{
    (x % 0x100) as u8
}

/// Wraps an unsigned 64-bit value to 32 bits.
pub fn wrap_u32_of_u64(x: u64) -> (r: u32)
    ensures
        r as int == wrap_u32(x as int),
{
    (x % 0x1_0000_0000) as u32
}

/// Two to the power `k`, as a machine word.
pub fn pow2_u64(k: u64) -> (r: u64)
    requires
        k <= 63,
    ensures
        r as int == pow2(k as nat),
{
    proof {
        vstd::arithmetic::power2::lemma2_to64();
        vstd::arithmetic::power2::lemma2_to64_rest();
    }
    let mut r: u64 = 1;
    let mut i: u64 = 0;
    while i < k
        invariant
            i <= k <= 63,
            r as int == pow2(i as nat),
        decreases k - i,
    {
        proof {
            vstd::arithmetic::power2::lemma_pow2_unfold((i + 1) as nat);
            vstd::arithmetic::power2::lemma_pow2_strictly_increases((i + 1) as nat, 64);
            vstd::arithmetic::power2::lemma2_to64_rest();
        }
        r = r * 2;
        i = i + 1;
    }
    r
}

/// Round-to-nearest, ties to even: the significand `s` with its low `k`
/// bits dropped, rounded.
pub open spec fn rne_shift(s: int, k: nat) -> int
    recommends
        k >= 1,
        s >= 0,
{
    let p = pow2(k) as int;
    let q = s / p;
    let low = s % p;
    let half = pow2((k - 1) as nat) as int;
    if low > half || (low == half && q % 2 == 1) {
        q + 1
    } else {
        q
    }
}

/// The single-precision pattern nearest a double-precision one: IEEE
/// round-to-nearest, ties to even, with overflow to infinity, underflow
/// to subnormals or zero, and NaN carried to the canonical quiet NaN of
/// the same sign.
pub open spec fn spec_f64_to_f32(b: u64) -> int {
    let s = f64_sign(b);
    let e = f64_exp(b);
    let f = f64_frac(b);
    if e == 0x7FF {
        if f != 0 {
            s * 0x8000_0000 + 0x7FC0_0000
        } else {
            s * 0x8000_0000 + 0x7F80_0000
        }
    } else if e == 0 {
        s * 0x8000_0000
    } else if e > 1150 {
        s * 0x8000_0000 + 0x7F80_0000
    } else if e <= 872 {
        s * 0x8000_0000
    } else {
        let sig = f + 0x10_0000_0000_0000;
        let drop = if e >= 897 {
            29
        } else {
            29 + (897 - e)
        };
        let q = rne_shift(sig, drop as nat);
        if e >= 897 {
            let q2 = if q == 0x100_0000 {
                0x80_0000
            } else {
                q
            };
            let e2 = if q == 0x100_0000 {
                e + 1
            } else {
                e
            };
            if e2 > 1150 {
                s * 0x8000_0000 + 0x7F80_0000
            } else {
                s * 0x8000_0000 + (e2 - 896) * 0x80_0000 + (q2 - 0x80_0000)
            }
        } else {
            s * 0x8000_0000 + q
        }
    }
}

/// Narrows a double-precision pattern to the nearest single-precision
/// one (round to nearest, ties to even).
pub fn f64_to_f32(b: u64) -> (r: u32)
    ensures
        r as int == spec_f64_to_f32(b),
{
    let s: u64 = b / 0x8000_0000_0000_0000;
    let e: u64 = (b / 0x10_0000_0000_0000) % 0x800;
    let f: u64 = b % 0x10_0000_0000_0000;
    let sbit: u32 = if s == 1 {
        0x8000_0000
    } else {
        0
    };
    if e == 0x7FF {
        if f != 0 {
            return sbit + 0x7FC0_0000;
        } else {
            return sbit + 0x7F80_0000;
        }
    }
    if e == 0 {
        return sbit;
    }
    if e > 1150 {
        return sbit + 0x7F80_0000;
    }
    if e <= 872 {
        return sbit;
    }
    let sig: u64 = f + 0x10_0000_0000_0000;
    let drop: u64 = if e >= 897 {
        29
    } else {
        29 + (897 - e)
    };
    let p: u64 = pow2_u64(drop);
    proof {
        vstd::arithmetic::power2::lemma_pow2_pos(drop as nat);
    }
    let q0: u64 = sig / p;
    let low: u64 = sig % p;
    let half: u64 = p / 2;
    proof {
        vstd::arithmetic::power2::lemma_pow2_unfold(drop as nat);
        vstd::arithmetic::power2::lemma2_to64();
        vstd::arithmetic::power2::lemma2_to64_rest();
        assert(p >= 0x2000_0000);
        vstd::arithmetic::div_mod::lemma_div_is_ordered_by_denominator(
            sig as int,
            0x2000_0000,
            p as int,
        );
        vstd::arithmetic::div_mod::lemma_div_is_ordered(
            sig as int,
            0x1F_FFFF_FFFF_FFFF,
            0x2000_0000,
        );
        assert(q0 < 0x100_0000);
    }
    let q: u64 = if low > half || (low == half && q0 % 2 == 1) {
        q0 + 1
    } else {
        q0
    };
    if e >= 897 {
        let q2: u64 = if q == 0x100_0000 {
            0x80_0000
        } else {
            q
        };
        let e2: u64 = if q == 0x100_0000 {
            e + 1
        } else {
            e
        };
        if e2 > 1150 {
            return sbit + 0x7F80_0000;
        }
        proof {
            assert(sig >= 0x10_0000_0000_0000);
            vstd::arithmetic::div_mod::lemma_div_is_ordered(
                0x10_0000_0000_0000,
                sig as int,
                p as int,
            );
            vstd::arithmetic::div_mod::lemma_div_is_ordered_by_denominator(
                0x10_0000_0000_0000,
                p as int,
                0x2000_0000,
            );
            assert(q0 >= 0x80_0000);
        }
        return sbit + ((e2 - 896) as u32) * 0x80_0000 + (q2 - 0x80_0000) as u32;
    } else {
        proof {
            // In the subnormal range at least 30 bits are dropped, so the
            // rounded significand stays within the fraction field.
            assert(drop >= 30);
            assert(p >= 0x4000_0000);
            vstd::arithmetic::div_mod::lemma_div_is_ordered_by_denominator(
                sig as int,
                0x4000_0000,
                p as int,
            );
            vstd::arithmetic::div_mod::lemma_div_is_ordered(
                sig as int,
                0x1F_FFFF_FFFF_FFFF,
                0x4000_0000,
            );
            assert(q0 < 0x80_0000);
        }
        return sbit + q as u32;
    }
}

/// The half-precision pattern nearest a single-precision one: IEEE
/// round-to-nearest, ties to even, with overflow to infinity, underflow
/// to subnormals or zero, and NaN carried to the canonical quiet NaN of
/// the same sign.
pub open spec fn spec_f32_to_f16(b: u32) -> int {
    let s = f32_sign(b);
    let e = f32_exp(b);
    let f = f32_frac(b);
    if e == 0xFF {
        if f != 0 {
            s * 0x8000 + 0x7E00
        } else {
            s * 0x8000 + 0x7C00
        }
    } else if e == 0 {
        s * 0x8000
    } else if e > 142 {
        s * 0x8000 + 0x7C00
    } else if e <= 101 {
        s * 0x8000
    } else {
        let sig = f + 0x80_0000;
        let drop = if e >= 113 {
            13
        } else {
            13 + (113 - e)
        };
        let q = rne_shift(sig, drop as nat);
        if e >= 113 {
            let q2 = if q == 0x800 {
                0x400
            } else {
                q
            };
            let e2 = if q == 0x800 {
                e + 1
            } else {
                e
            };
            if e2 > 142 {
                s * 0x8000 + 0x7C00
            } else {
                s * 0x8000 + (e2 - 112) * 0x400 + (q2 - 0x400)
            }
        } else {
            s * 0x8000 + q
        }
    }
}

/// Narrows a single-precision pattern to the nearest half-precision one
/// (round to nearest, ties to even).
pub fn f32_to_f16(b: u32) -> (r: u16)
    ensures
        r as int == spec_f32_to_f16(b),
{
    let s: u32 = b / 0x8000_0000;
    let e: u32 = (b / 0x80_0000) % 0x100;
    let f: u32 = b % 0x80_0000;
    let sbit: u16 = if s == 1 {
        0x8000
    } else {
        0
    };
    if e == 0xFF {
        if f != 0 {
            return sbit + 0x7E00;
        } else {
            return sbit + 0x7C00;
        }
    }
    if e == 0 {
        return sbit;
    }
    if e > 142 {
        return sbit + 0x7C00;
    }
    if e <= 101 {
        return sbit;
    }
    let sig: u64 = (f + 0x80_0000) as u64;
    let drop: u64 = if e >= 113 {
        13
    } else {
        13 + (113 - e) as u64
    };
    let p: u64 = pow2_u64(drop);
    proof {
        vstd::arithmetic::power2::lemma_pow2_pos(drop as nat);
        vstd::arithmetic::power2::lemma_pow2_unfold(drop as nat);
        vstd::arithmetic::power2::lemma2_to64();
    }
    let q0: u64 = sig / p;
    let low: u64 = sig % p;
    let half: u64 = p / 2;
    proof {
        assert(p >= 0x2000);
        vstd::arithmetic::div_mod::lemma_div_is_ordered_by_denominator(sig as int, 0x2000, p as int);
        vstd::arithmetic::div_mod::lemma_div_is_ordered(sig as int, 0xFF_FFFF, 0x2000);
        assert(q0 < 0x800);
    }
    let q: u64 = if low > half || (low == half && q0 % 2 == 1) {
        q0 + 1
    } else {
        q0
    };
    if e >= 113 {
        let q2: u64 = if q == 0x800 {
            0x400
        } else {
            q
        };
        let e2: u32 = if q == 0x800 {
            e + 1
        } else {
            e
        };
        if e2 > 142 {
            return sbit + 0x7C00;
        }
        proof {
            assert(sig >= 0x80_0000);
            vstd::arithmetic::div_mod::lemma_div_is_ordered(0x80_0000, sig as int, p as int);
            vstd::arithmetic::div_mod::lemma_div_is_ordered_by_denominator(0x80_0000, p as int, 0x2000);
            assert(q0 >= 0x400);
        }
        return sbit + ((e2 - 112) as u16) * 0x400 + (q2 - 0x400) as u16;
    } else {
        proof {
            assert(drop >= 14);
            assert(p >= 0x4000);
            vstd::arithmetic::div_mod::lemma_div_is_ordered_by_denominator(sig as int, 0x4000, p as int);
            vstd::arithmetic::div_mod::lemma_div_is_ordered(sig as int, 0xFF_FFFF, 0x4000);
            assert(q0 < 0x400);
        }
        return sbit + q as u16;
    }
}

/// Repeated doubling of `m` (with matching exponent decrements) until it
/// reaches the given binade; used to normalize subnormal significands
/// when widening.
/// Termination measure for the normalization recursion.
pub open spec fn norm_measure(m: int, top: int) -> int {
    if 0 < m && m < top {
        top - m
    } else {
        0
    }
}

pub open spec fn spec_norm(m: int, e: int, top: int) -> (int, int)
    decreases norm_measure(m, top),
{
    if m <= 0 || m >= top {
        (m, e)
    } else {
        spec_norm(2 * m, e - 1, top)
    }
}

/// The single-precision pattern of the exact value of a half-precision
/// one.  Every half-precision value is exactly representable in single
/// precision; NaN is carried to the canonical quiet NaN of the same sign.
pub open spec fn spec_f16_to_f32(b: u16) -> int {
    let s = f16_sign(b);
    let e = f16_exp(b);
    let f = f16_frac(b);
    if e == 0x1F {
        if f != 0 {
            s * 0x8000_0000 + 0x7FC0_0000
        } else {
            s * 0x8000_0000 + 0x7F80_0000
        }
    } else if e == 0 && f == 0 {
        s * 0x8000_0000
    } else if e == 0 {
        let me = spec_norm(f, -14, 0x400);
        s * 0x8000_0000 + (me.1 + 127) * 0x80_0000 + (me.0 - 0x400) * 0x2000
    } else {
        s * 0x8000_0000 + (e + 112) * 0x80_0000 + f * 0x2000
    }
}

/// Widens a half-precision pattern to single precision (exactly).
pub fn f16_to_f32(b: u16) -> (r: u32)
    ensures
        r as int == spec_f16_to_f32(b),
{
    let s: u16 = b / 0x8000;
    let e: u16 = (b / 0x400) % 0x20;
    let f: u16 = b % 0x400;
    let sbit: u32 = if s == 1 {
        0x8000_0000
    } else {
        0
    };
    if e == 0x1F {
        if f != 0 {
            return sbit + 0x7FC0_0000;
        } else {
            return sbit + 0x7F80_0000;
        }
    }
    if e == 0 && f == 0 {
        return sbit;
    }
    if e == 0 {
        let mut m: u32 = f as u32;
        let mut e2: i64 = -14;
        proof {
            vstd::arithmetic::power2::lemma2_to64();
        }
        while m < 0x400
            invariant
                1 <= m < 0x800,
                -24 <= e2 <= -14,
                m as int >= pow2((-14 - e2) as nat),
                spec_norm(f as int, -14, 0x400) == spec_norm(m as int, e2 as int, 0x400),
            decreases norm_measure(m as int, 0x400),
        {
            proof {
                vstd::arithmetic::power2::lemma_pow2_unfold((-14 - (e2 - 1)) as nat);
                vstd::arithmetic::power2::lemma2_to64();
                if -14 - (e2 - 1) >= 11 {
                    vstd::arithmetic::power2::lemma_pow2_strictly_increases(
                        11,
                        (-14 - (e2 - 1)) as nat,
                    );
                }
            }
            m = m * 2;
            e2 = e2 - 1;
        }
        proof {
            assert(spec_norm(m as int, e2 as int, 0x400) == (m as int, e2 as int));
        }
        let ef: u32 = (e2 + 127) as u32;
        return sbit + ef * 0x80_0000 + (m - 0x400) * 0x2000;
    }
    sbit + ((e + 112) as u32) * 0x80_0000 + (f as u32) * 0x2000
}

/// The double-precision pattern of the exact value of a single-precision
/// one.  Every single-precision value is exactly representable in double
/// precision; NaN is carried to the canonical quiet NaN of the same sign.
pub open spec fn spec_f32_to_f64(b: u32) -> int {
    let s = f32_sign(b);
    let e = f32_exp(b);
    let f = f32_frac(b);
    if e == 0xFF {
        if f != 0 {
            s * 0x8000_0000_0000_0000 + 0x7FF8_0000_0000_0000
        } else {
            s * 0x8000_0000_0000_0000 + 0x7FF0_0000_0000_0000
        }
    } else if e == 0 && f == 0 {
        s * 0x8000_0000_0000_0000
    } else if e == 0 {
        let me = spec_norm(f, -126, 0x80_0000);
        s * 0x8000_0000_0000_0000 + (me.1 + 1023) * 0x10_0000_0000_0000 + (me.0 - 0x80_0000)
            * 0x2000_0000
    } else {
        s * 0x8000_0000_0000_0000 + (e + 896) * 0x10_0000_0000_0000 + f * 0x2000_0000
    }
}

/// Widens a single-precision pattern to double precision (exactly).
pub fn f32_to_f64(b: u32) -> (r: u64)
    ensures
        r as int == spec_f32_to_f64(b),
{
    let s: u32 = b / 0x8000_0000;
    let e: u32 = (b / 0x80_0000) % 0x100;
    let f: u32 = b % 0x80_0000;
    let sbit: u64 = if s == 1 {
        0x8000_0000_0000_0000
    } else {
        0
    };
    if e == 0xFF {
        if f != 0 {
            return sbit + 0x7FF8_0000_0000_0000;
        } else {
            return sbit + 0x7FF0_0000_0000_0000;
        }
    }
    if e == 0 && f == 0 {
        return sbit;
    }
    if e == 0 {
        let mut m: u32 = f;
        let mut e2: i64 = -126;
        proof {
            vstd::arithmetic::power2::lemma2_to64();
        }
        while m < 0x80_0000
            invariant
                1 <= m < 0x100_0000,
                -149 <= e2 <= -126,
                m as int >= pow2((-126 - e2) as nat),
                spec_norm(f as int, -126, 0x80_0000) == spec_norm(m as int, e2 as int, 0x80_0000),
            decreases norm_measure(m as int, 0x80_0000),
        {
            proof {
                vstd::arithmetic::power2::lemma_pow2_unfold((-126 - (e2 - 1)) as nat);
                vstd::arithmetic::power2::lemma2_to64();
                if -126 - (e2 - 1) >= 24 {
                    vstd::arithmetic::power2::lemma_pow2_strictly_increases(
                        24,
                        (-126 - (e2 - 1)) as nat,
                    );
                }
            }
            m = m * 2;
            e2 = e2 - 1;
        }
        proof {
            assert(spec_norm(m as int, e2 as int, 0x80_0000) == (m as int, e2 as int));
        }
        let ef: u64 = (e2 + 1023) as u64;
        return sbit + ef * 0x10_0000_0000_0000 + ((m - 0x80_0000) as u64) * 0x2000_0000;
    }
    sbit + ((e + 896) as u64) * 0x10_0000_0000_0000 + (f as u64) * 0x2000_0000
}

/// The value a double-precision pattern converts to as a signed 64-bit
/// integer: truncation toward zero, saturation at the range ends, zero
/// for NaN.
pub open spec fn spec_f64_trunc_i64(b: u64) -> int {
    let s = f64_sign(b);
    let e = f64_exp(b);
    let f = f64_frac(b);
    if e == 0x7FF {
        if f != 0 {
            0
        } else if s == 1 {
            -0x8000_0000_0000_0000
        } else {
            0x7FFF_FFFF_FFFF_FFFF
        }
    } else if e < 1023 {
        0
    } else {
        let m = f + 0x10_0000_0000_0000;
        let mag = if e >= 1075 {
            m * pow2((e - 1075) as nat)
        } else {
            m / pow2((1075 - e) as nat) as int
        };
        if s == 1 {
            if mag > 0x8000_0000_0000_0000 {
                -0x8000_0000_0000_0000
            } else {
                -mag
            }
        } else {
            if mag > 0x7FFF_FFFF_FFFF_FFFF {
                0x7FFF_FFFF_FFFF_FFFF
            } else {
                mag
            }
        }
    }
}

/// The value a double-precision pattern converts to as an unsigned
/// 64-bit integer: truncation toward zero, saturation at the range ends
/// (every negative value truncates or saturates to zero), zero for NaN.
pub open spec fn spec_f64_trunc_u64(b: u64) -> int {
    let s = f64_sign(b);
    let e = f64_exp(b);
    let f = f64_frac(b);
    if e == 0x7FF {
        if f != 0 {
            0
        } else if s == 1 {
            0
        } else {
            0xFFFF_FFFF_FFFF_FFFF
        }
    } else if s == 1 {
        0
    } else if e < 1023 {
        0
    } else {
        let m = f + 0x10_0000_0000_0000;
        let mag = if e >= 1075 {
            m * pow2((e - 1075) as nat)
        } else {
            m / pow2((1075 - e) as nat) as int
        };
        if mag > 0xFFFF_FFFF_FFFF_FFFF {
            0xFFFF_FFFF_FFFF_FFFF
        } else {
            mag
        }
    }
}

/// Converts a double-precision pattern to a signed 64-bit integer,
/// truncating toward zero and saturating.
pub fn f64_trunc_i64(b: u64) -> (r: i64)
    ensures
        r as int == spec_f64_trunc_i64(b),
{
    let s: u64 = b / 0x8000_0000_0000_0000;
    let e: u64 = (b / 0x10_0000_0000_0000) % 0x800;
    let f: u64 = b % 0x10_0000_0000_0000;
    if e == 0x7FF {
        if f != 0 {
            return 0;
        } else if s == 1 {
            return i64::MIN;
        } else {
            return i64::MAX;
        }
    }
    if e < 1023 {
        return 0;
    }
    let m: u64 = f + 0x10_0000_0000_0000;
    if e >= 1087 {
        // The magnitude is at least two to the sixty-fourth power.
        proof {
            vstd::arithmetic::power2::lemma2_to64();
            vstd::arithmetic::power2::lemma2_to64_rest();
            if (e - 1075) as nat >= 13 {
                vstd::arithmetic::power2::lemma_pow2_strictly_increases(12, (e - 1075) as nat);
            }
            vstd::arithmetic::mul::lemma_mul_inequality(
                0x10_0000_0000_0000,
                m as int,
                pow2((e - 1075) as nat) as int,
            );
            vstd::arithmetic::mul::lemma_mul_left_inequality(
                0x10_0000_0000_0000,
                0x1000,
                pow2((e - 1075) as nat) as int,
            );
        }
        if s == 1 {
            return i64::MIN;
        } else {
            return i64::MAX;
        }
    }
    let mag: u64 = if e >= 1075 {
        let k: u64 = e - 1075;
        let p: u64 = pow2_u64(k);
        proof {
            vstd::arithmetic::power2::lemma2_to64();
            vstd::arithmetic::power2::lemma2_to64_rest();
            if k as nat + 1 <= 12 {
                vstd::arithmetic::power2::lemma_pow2_strictly_increases(k as nat, 12);
            }
            vstd::arithmetic::mul::lemma_mul_inequality(
                m as int,
                0x1F_FFFF_FFFF_FFFF,
                p as int,
            );
            vstd::arithmetic::mul::lemma_mul_left_inequality(
                0x1F_FFFF_FFFF_FFFF,
                p as int,
                0x800,
            );
        }
        m * p
    } else {
        let k: u64 = 1075 - e;
        let p: u64 = pow2_u64(k);
        proof {
            vstd::arithmetic::power2::lemma_pow2_pos(k as nat);
        }
        m / p
    };
    if s == 1 {
        if mag >= 0x8000_0000_0000_0000 {
            // covers both saturation and the one exactly-representable case
            return i64::MIN;
        } else {
            return -(mag as i64);
        }
    } else {
        if mag > 0x7FFF_FFFF_FFFF_FFFF {
            return i64::MAX;
        } else {
            return mag as i64;
        }
    }
}

/// Converts a double-precision pattern to an unsigned 64-bit integer,
/// truncating toward zero and saturating.
pub fn f64_trunc_u64(b: u64) -> (r: u64)
    ensures
        r as int == spec_f64_trunc_u64(b),
{
    let s: u64 = b / 0x8000_0000_0000_0000;
    let e: u64 = (b / 0x10_0000_0000_0000) % 0x800;
    let f: u64 = b % 0x10_0000_0000_0000;
    if e == 0x7FF {
        if f != 0 {
            return 0;
        } else if s == 1 {
            return 0;
        } else {
            return u64::MAX;
        }
    }
    if s == 1 {
        return 0;
    }
    if e < 1023 {
        return 0;
    }
    let m: u64 = f + 0x10_0000_0000_0000;
    if e >= 1087 {
        proof {
            vstd::arithmetic::power2::lemma2_to64();
            vstd::arithmetic::power2::lemma2_to64_rest();
            if (e - 1075) as nat >= 13 {
                vstd::arithmetic::power2::lemma_pow2_strictly_increases(12, (e - 1075) as nat);
            }
            vstd::arithmetic::mul::lemma_mul_inequality(
                0x10_0000_0000_0000,
                m as int,
                pow2((e - 1075) as nat) as int,
            );
            vstd::arithmetic::mul::lemma_mul_left_inequality(
                0x10_0000_0000_0000,
                0x1000,
                pow2((e - 1075) as nat) as int,
            );
        }
        return u64::MAX;
    }
    if e >= 1075 {
        let k: u64 = e - 1075;
        let p: u64 = pow2_u64(k);
        proof {
            vstd::arithmetic::power2::lemma2_to64();
            vstd::arithmetic::power2::lemma2_to64_rest();
            if k as nat + 1 <= 12 {
                vstd::arithmetic::power2::lemma_pow2_strictly_increases(k as nat, 12);
            }
            vstd::arithmetic::mul::lemma_mul_inequality(
                m as int,
                0x1F_FFFF_FFFF_FFFF,
                p as int,
            );
            vstd::arithmetic::mul::lemma_mul_left_inequality(
                0x1F_FFFF_FFFF_FFFF,
                p as int,
                0x800,
            );
        }
        m * p
    } else {
        let k: u64 = 1075 - e;
        let p: u64 = pow2_u64(k);
        proof {
            vstd::arithmetic::power2::lemma_pow2_pos(k as nat);
        }
        m / p
    }
}

} // verus!
