//! The codec's cross-cutting guarantees, each stated and proved over
//! the contracts of the functions it concerns.
use crate::decode::OutValue;
use crate::decode::cast_post;
use crate::decode::compact_cast_post;
use crate::decode::decode_elem_matches;
use crate::decode::spec_decode_f16_bits;
use crate::encode::TypedBuffer;
use crate::encode::buffer_elems;
use crate::encode::to_tensor_post;
use crate::errors::RunnerError;
use crate::fbits::f64_is_nan;
use crate::fbits::f64_is_inf;
use crate::fbits::f64_is_neg;
use crate::wire::DType;
use crate::wire::TensorDescriptor;
use crate::wire::WireScalar;
use crate::wire::spec_shape_count;
use vstd::arithmetic::power2::pow2;
use vstd::prelude::*;

verus! {

/// Broadcasting: when a shape demands more than one element and a
/// single value is supplied, the encoded buffer holds exactly the
/// demanded count and every element is the same.
pub proof fn lemma_broadcast_fills(
    descriptor: TensorDescriptor,
    data: Seq<WireScalar>,
    buf: TypedBuffer,
    n: int,
)
    requires
        to_tensor_post(descriptor, data, Ok::<TypedBuffer, RunnerError>(buf)),
        spec_shape_count(descriptor.shape@) == Some(n),
        n > 1,
        data.len() == 1,
    ensures
        buffer_elems(buf).len() == n,
        forall|i: int, j: int|
            0 <= i < n && 0 <= j < n ==> buffer_elems(buf)[i] == buffer_elems(buf)[j],
{
}

/// Length reconciliation: when the supplied value count is neither one
/// nor exactly the demanded count, encoding fails, and as a client
/// error.
pub proof fn lemma_length_mismatch_rejected(
    descriptor: TensorDescriptor,
    data: Seq<WireScalar>,
    r: Result<TypedBuffer, RunnerError>,
    n: int,
)
    requires
        to_tensor_post(descriptor, data, r),
        spec_shape_count(descriptor.shape@) == Some(n),
        data.len() != n,
        data.len() != 1,
    ensures
        r matches Err(e) && e is BadRequest,
{
}

/// Four-bit signed decoding is clamped: whatever the wide value was,
/// the decoded element lies in the four-bit signed range.
pub proof fn lemma_int4_clamped(b: u64, o: OutValue)
    requires
        decode_elem_matches(DType::Int4, b, o),
    ensures
        o matches OutValue::Int(v) && -8 <= v <= 7,
{
}

/// A NaN survives the half-precision round trip as a NaN.
pub proof fn lemma_decode_f16_nan(b: u64)
    requires
        f64_is_nan(b),
    ensures
        f64_is_nan(spec_decode_f16_bits(b) as u64),
{
}

/// An infinity survives the half-precision round trip as an infinity
/// of the same sign.
pub proof fn lemma_decode_f16_inf(b: u64)
    requires
        f64_is_inf(b),
    ensures
        f64_is_inf(spec_decode_f16_bits(b) as u64),
        f64_is_neg(spec_decode_f16_bits(b) as u64) == f64_is_neg(b),
{
}

/// Non-finite sentinels: for every float-typed decode (single or half
/// precision, or the default used for unknown types), a NaN source
/// yields the exact wire string `NaN`, never a number.
pub proof fn lemma_nan_sentinel(d: DType, b: u64, o: OutValue)
    requires
        d is Float32 || d is Float16 || d is Other,
        decode_elem_matches(d, b, o),
        f64_is_nan(b),
    ensures
        o matches OutValue::Text(s) && s@ == "NaN"@,
{
    if d is Float16 {
        lemma_decode_f16_nan(b);
    }
}

/// Non-finite sentinels: an infinite source yields the exact wire
/// string `Infinity` or `-Infinity` per its sign, never a number.
pub proof fn lemma_inf_sentinel(d: DType, b: u64, o: OutValue)
    requires
        d is Float32 || d is Float16 || d is Other,
        decode_elem_matches(d, b, o),
        f64_is_inf(b),
    ensures
        !f64_is_neg(b) ==> (o matches OutValue::Text(s) && s@ == "Infinity"@),
        f64_is_neg(b) ==> (o matches OutValue::Text(s) && s@ == "-Infinity"@),
{
    if d is Float16 {
        lemma_decode_f16_inf(b);
    }
}

/// Sixty-four-bit integers always reach the wire as decimal strings,
/// with or without an exact parallel sequence, never as numbers.
pub proof fn lemma_int64_strings(
    signed: bool,
    data: Seq<u64>,
    i64d: Option<Seq<i64>>,
    u64d: Option<Seq<u64>>,
    r: Seq<OutValue>,
)
    requires
        cast_post(
            if signed {
                DType::Int64
            } else {
                DType::Uint64
            },
            data,
            i64d,
            u64d,
            r,
        ),
    ensures
        forall|i: int| 0 <= i < r.len() ==> (#[trigger] r[i]) is Text,
{
}

/// Compact mode: a one-value expectation decodes exactly one element,
/// whatever the buffer's true length.
pub proof fn lemma_compact_single(
    d: DType,
    data: Seq<u64>,
    i64d: Option<Seq<i64>>,
    u64d: Option<Seq<u64>>,
    r: Seq<OutValue>,
)
    requires
        compact_cast_post(d, data, i64d, u64d, 1, r),
        data.len() > 0,
        i64d matches Some(v) ==> v.len() == data.len(),
        u64d matches Some(v) ==> v.len() == data.len(),
    ensures
        r.len() == 1,
{
}

/// The bit pattern assembled from given fields has those fields.
proof fn lemma_f64_fields(s: int, e: int, f: int)
    requires
        0 <= s <= 1,
        0 <= e < 0x800,
        0 <= f < 0x10_0000_0000_0000,
    ensures
        ({
            let v = s * 0x8000_0000_0000_0000 + e * 0x10_0000_0000_0000 + f;
            &&& 0 <= v < 0x1_0000_0000_0000_0000
            &&& crate::fbits::f64_sign(v as u64) == s
            &&& crate::fbits::f64_exp(v as u64) == e
            &&& crate::fbits::f64_frac(v as u64) == f
        }),
{
    let v = s * 0x8000_0000_0000_0000 + e * 0x10_0000_0000_0000 + f;
    assert(v == (s * 0x800 + e) * 0x10_0000_0000_0000 + f) by (nonlinear_arith)
        requires
            v == s * 0x8000_0000_0000_0000 + e * 0x10_0000_0000_0000 + f,
    ;
    vstd::arithmetic::div_mod::lemma_fundamental_div_mod_converse_div(
        v,
        0x10_0000_0000_0000,
        s * 0x800 + e,
        f,
    );
    vstd::arithmetic::div_mod::lemma_fundamental_div_mod_converse_mod(
        v,
        0x10_0000_0000_0000,
        s * 0x800 + e,
        f,
    );
    vstd::arithmetic::div_mod::lemma_mod_multiples_vanish(s, e, 0x800);
    vstd::arithmetic::div_mod::lemma_small_mod(e as nat, 0x800);
    vstd::arithmetic::div_mod::lemma_fundamental_div_mod_converse_div(
        v,
        0x8000_0000_0000_0000,
        s,
        e * 0x10_0000_0000_0000 + f,
    );
}

/// The single-precision pattern assembled from given fields has those
/// fields.
proof fn lemma_f32_fields(s: int, e: int, f: int)
    requires
        0 <= s <= 1,
        0 <= e < 0x100,
        0 <= f < 0x80_0000,
    ensures
        ({
            let v = s * 0x8000_0000 + e * 0x80_0000 + f;
            &&& 0 <= v < 0x1_0000_0000
            &&& crate::fbits::f32_sign(v as u32) == s
            &&& crate::fbits::f32_exp(v as u32) == e
            &&& crate::fbits::f32_frac(v as u32) == f
        }),
{
    let v = s * 0x8000_0000 + e * 0x80_0000 + f;
    assert(v == (s * 0x100 + e) * 0x80_0000 + f) by (nonlinear_arith)
        requires
            v == s * 0x8000_0000 + e * 0x80_0000 + f,
    ;
    vstd::arithmetic::div_mod::lemma_fundamental_div_mod_converse_div(
        v,
        0x80_0000,
        s * 0x100 + e,
        f,
    );
    vstd::arithmetic::div_mod::lemma_fundamental_div_mod_converse_mod(
        v,
        0x80_0000,
        s * 0x100 + e,
        f,
    );
    vstd::arithmetic::div_mod::lemma_mod_multiples_vanish(s, e, 0x100);
    vstd::arithmetic::div_mod::lemma_small_mod(e as nat, 0x100);
    vstd::arithmetic::div_mod::lemma_fundamental_div_mod_converse_div(
        v,
        0x8000_0000,
        s,
        e * 0x80_0000 + f,
    );
}

/// The normalization recursion doubles its argument into the binade
/// `[top, 2 top)`, recording the doublings in the exponent.
proof fn lemma_norm_props(m: int, e: int, top: int)
    requires
        0 < m < top,
    ensures
        ({
            let r = crate::fbits::spec_norm(m, e, top);
            &&& r.1 <= e - 1
            &&& top <= r.0 < 2 * top
            &&& r.0 == m * pow2((e - r.1) as nat)
        }),
    decreases crate::fbits::norm_measure(m, top),
{
    vstd::arithmetic::power2::lemma2_to64();
    if 2 * m >= top {
        assert(crate::fbits::spec_norm(2 * m, e - 1, top) == (2 * m, e - 1));
        assert(2 * m == m * pow2(1));
    } else {
        lemma_norm_props(2 * m, e - 1, top);
        let r = crate::fbits::spec_norm(2 * m, e - 1, top);
        vstd::arithmetic::power2::lemma_pow2_adds(1, (e - 1 - r.1) as nat);
        assert(m * (2 * pow2((e - 1 - r.1) as nat)) == (2 * m) * pow2((e - 1 - r.1) as nat))
            by (nonlinear_arith);
    }
}

/// Round trip through precisions: every single-precision value other
/// than a NaN widens to double precision and narrows back to exactly
/// itself.  This is the substance of the float round trip: the encoder
/// narrows the wire's double-precision value, the engine computes in
/// double precision, and the decoder passes the bits through.
pub proof fn lemma_round_trip_float32(c: u32)
    requires
        !crate::fbits::f32_is_nan(c),
    ensures
        0 <= crate::fbits::spec_f32_to_f64(c) < 0x1_0000_0000_0000_0000,
        crate::fbits::spec_f64_to_f32(crate::fbits::spec_f32_to_f64(c) as u64) == c as int,
{
    let s = crate::fbits::f32_sign(c);
    let e = crate::fbits::f32_exp(c);
    let f = crate::fbits::f32_frac(c);
    assert(c as int == (c as int / 0x80_0000) * 0x80_0000 + f) by {
        vstd::arithmetic::div_mod::lemma_fundamental_div_mod(c as int, 0x80_0000);
    }
    assert(c as int / 0x80_0000 == s * 0x100 + e) by {
        vstd::arithmetic::div_mod::lemma_fundamental_div_mod(c as int / 0x80_0000, 0x100);
        vstd::arithmetic::div_mod::lemma_div_denominator(c as int, 0x80_0000, 0x100);
    }
    assert(c as int == s * 0x8000_0000 + e * 0x80_0000 + f) by (nonlinear_arith)
        requires
            c as int == (c as int / 0x80_0000) * 0x80_0000 + f,
            c as int / 0x80_0000 == s * 0x100 + e,
    ;
    vstd::arithmetic::power2::lemma2_to64();
    vstd::arithmetic::power2::lemma2_to64_rest();
    if e == 0xFF {
        // infinity (NaN is excluded)
        lemma_f64_fields(s, 0x7FF, 0);
    } else if e == 0 && f == 0 {
        lemma_f64_fields(s, 0, 0);
    } else if e == 0 {
        // subnormal: widening normalizes, narrowing shifts exactly back
        lemma_norm_props(f, -126, 0x80_0000);
        let me = crate::fbits::spec_norm(f, -126, 0x80_0000);
        let t = -126 - me.1;
        assert(1 <= t);
        assert(pow2(t as nat) <= me.0) by {
            assert(me.0 == f * pow2(t as nat));
            vstd::arithmetic::mul::lemma_mul_inequality(1, f, pow2(t as nat) as int);
        }
        assert(t < 24) by {
            if t >= 24 {
                vstd::arithmetic::power2::lemma_pow2_strictly_increases(24, t as nat);
                assert(pow2(24) <= pow2(t as nat));
            }
        }
        let e64 = me.1 + 1023;
        assert(874 <= e64 <= 896);
        lemma_f64_fields(s, e64, (me.0 - 0x80_0000) * 0x2000_0000);
        let v = s * 0x8000_0000_0000_0000 + e64 * 0x10_0000_0000_0000 + (me.0 - 0x80_0000)
            * 0x2000_0000;
        assert(crate::fbits::spec_f32_to_f64(c) == v);
        // narrowing drops exactly the bits the widening introduced
        let drop = (29 + (897 - e64)) as nat;
        assert(drop == (29 + t) as nat);
        let sig = (me.0 - 0x80_0000) * 0x2000_0000 + 0x10_0000_0000_0000;
        assert(sig == me.0 * 0x2000_0000) by (nonlinear_arith)
            requires
                sig == (me.0 - 0x80_0000) * 0x2000_0000 + 0x10_0000_0000_0000,
        ;
        assert(sig == f * pow2(drop)) by {
            assert(me.0 == f * pow2(t as nat));
            vstd::arithmetic::power2::lemma_pow2_adds(t as nat, 29);
            assert(f * pow2(t as nat) * 0x2000_0000 == f * (pow2(t as nat) * 0x2000_0000))
                by (nonlinear_arith);
        }
        vstd::arithmetic::power2::lemma_pow2_pos(drop);
        vstd::arithmetic::power2::lemma_pow2_pos((drop - 1) as nat);
        vstd::arithmetic::div_mod::lemma_mod_multiples_basic(f, pow2(drop) as int);
        vstd::arithmetic::div_mod::lemma_div_by_multiple(f, pow2(drop) as int);
        assert(crate::fbits::rne_shift(sig, drop) == f);
        assert(crate::fbits::spec_f64_to_f32(v as u64) == s * 0x8000_0000 + f);
    } else {
        // normal: the widened fraction is exact, so rounding returns it
        let e64 = e + 896;
        lemma_f64_fields(s, e64, f * 0x2000_0000);
        let v = s * 0x8000_0000_0000_0000 + e64 * 0x10_0000_0000_0000 + f * 0x2000_0000;
        assert(crate::fbits::spec_f32_to_f64(c) == v);
        let sig = f * 0x2000_0000 + 0x10_0000_0000_0000;
        assert(sig == (f + 0x80_0000) * 0x2000_0000) by (nonlinear_arith)
            requires
                sig == f * 0x2000_0000 + 0x10_0000_0000_0000,
        ;
        vstd::arithmetic::div_mod::lemma_mod_multiples_basic(f + 0x80_0000, 0x2000_0000);
        vstd::arithmetic::div_mod::lemma_div_by_multiple(f + 0x80_0000, 0x2000_0000);
        assert(crate::fbits::rne_shift(sig, 29) == f + 0x80_0000);
        assert(crate::fbits::spec_f64_to_f32(v as u64) == s * 0x8000_0000 + (e64 - 896) * 0x80_0000
            + (f + 0x80_0000 - 0x80_0000));
    }
}

/// A finite double-precision pattern whose value is exactly an
/// integer: zero, or a normal value whose fraction bits below the
/// binary point are all clear.
pub open spec fn f64_exact_int(b: u64) -> bool {
    &&& crate::fbits::f64_exp(b) < 0x7FF
    &&& (crate::fbits::f64_exp(b) == 0 ==> crate::fbits::f64_frac(b) == 0)
    &&& (0 < crate::fbits::f64_exp(b) ==> crate::fbits::f64_exp(b) >= 1023)
    &&& (1023 <= crate::fbits::f64_exp(b) < 1075 ==> (crate::fbits::f64_frac(b)
        + 0x10_0000_0000_0000) % (pow2((1075 - crate::fbits::f64_exp(b)) as nat) as int) == 0)
}

/// The integer value of such a pattern.
pub open spec fn f64_int_value(b: u64) -> int {
    if crate::fbits::f64_exp(b) == 0 {
        0
    } else {
        let m = crate::fbits::f64_frac(b) + 0x10_0000_0000_0000;
        let mag = if crate::fbits::f64_exp(b) >= 1075 {
            m * pow2((crate::fbits::f64_exp(b) - 1075) as nat)
        } else {
            m / (pow2((1075 - crate::fbits::f64_exp(b)) as nat) as int)
        };
        if crate::fbits::f64_sign(b) == 1 {
            -mag
        } else {
            mag
        }
    }
}

/// Truncation of an exactly-integral pattern in the signed 64-bit
/// range is that integer.
proof fn lemma_trunc_exact_i64(b: u64)
    requires
        f64_exact_int(b),
        -0x8000_0000_0000_0000 <= f64_int_value(b) <= 0x7FFF_FFFF_FFFF_FFFF,
    ensures
        crate::fbits::spec_f64_trunc_i64(b) == f64_int_value(b),
{
    let e = crate::fbits::f64_exp(b);
    if e > 0 {
        let m = crate::fbits::f64_frac(b) + 0x10_0000_0000_0000;
        if e >= 1075 {
            vstd::arithmetic::power2::lemma_pow2_pos((e - 1075) as nat);
            vstd::arithmetic::mul::lemma_mul_strictly_positive(m, pow2((e - 1075) as nat) as int);
        } else {
            vstd::arithmetic::power2::lemma_pow2_pos((1075 - e) as nat);
            vstd::arithmetic::div_mod::lemma_div_pos_is_pos(m, pow2((1075 - e) as nat) as int);
        }
    }
}

/// Truncation of an exactly-integral pattern in the unsigned 64-bit
/// range is that integer.
proof fn lemma_trunc_exact_u64(b: u64)
    requires
        f64_exact_int(b),
        0 <= f64_int_value(b) <= 0xFFFF_FFFF_FFFF_FFFF,
    ensures
        crate::fbits::spec_f64_trunc_u64(b) == f64_int_value(b),
{
    let e = crate::fbits::f64_exp(b);
    if e > 0 {
        let m = crate::fbits::f64_frac(b) + 0x10_0000_0000_0000;
        if e >= 1075 {
            vstd::arithmetic::power2::lemma_pow2_pos((e - 1075) as nat);
            vstd::arithmetic::mul::lemma_mul_strictly_positive(m, pow2((e - 1075) as nat) as int);
        } else {
            vstd::arithmetic::power2::lemma_pow2_pos((1075 - e) as nat);
            vstd::arithmetic::power2::lemma_pow2_subtracts((1075 - e) as nat, 52);
            vstd::arithmetic::div_mod::lemma_div_is_ordered(
                0x10_0000_0000_0000,
                m,
                pow2((1075 - e) as nat) as int,
            );
        }
    }
}

/// Round trip for signed 8-bit values: an in-range value is stored
/// unchanged by the encoder's wrapping, and an exactly-integral engine
/// result decodes back to it unchanged.
pub proof fn lemma_round_trip_int8(x: int, b: u64, o: OutValue)
    requires
        -128 <= x <= 127,
        f64_exact_int(b),
        f64_int_value(b) == x,
        decode_elem_matches(DType::Int8, b, o),
    ensures
        crate::fbits::wrap_i8(x) == x,
        o matches OutValue::Int(n) && n as int == x,
{
    lemma_trunc_exact_i64(b);
}

/// Round trip for signed 32-bit values.
pub proof fn lemma_round_trip_int32(x: int, b: u64, o: OutValue)
    requires
        -0x8000_0000 <= x <= 0x7FFF_FFFF,
        f64_exact_int(b),
        f64_int_value(b) == x,
        decode_elem_matches(DType::Int32, b, o),
    ensures
        crate::fbits::wrap_i32(x) == x,
        o matches OutValue::Int(n) && n as int == x,
{
    lemma_trunc_exact_i64(b);
}

/// Round trip for unsigned 8-bit values.
pub proof fn lemma_round_trip_uint8(x: int, b: u64, o: OutValue)
    requires
        0 <= x <= 255,
        f64_exact_int(b),
        f64_int_value(b) == x,
        decode_elem_matches(DType::Uint8, b, o),
    ensures
        crate::fbits::wrap_u8(x) == x,
        o matches OutValue::UInt(n) && n as int == x,
{
    lemma_trunc_exact_u64(b);
}

/// Round trip for unsigned 32-bit values.
pub proof fn lemma_round_trip_uint32(x: int, b: u64, o: OutValue)
    requires
        0 <= x <= 0xFFFF_FFFF,
        f64_exact_int(b),
        f64_int_value(b) == x,
        decode_elem_matches(DType::Uint32, b, o),
    ensures
        crate::fbits::wrap_u32(x) == x,
        o matches OutValue::UInt(n) && n as int == x,
{
    lemma_trunc_exact_u64(b);
}

} // verus!
