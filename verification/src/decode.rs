//! Decoding: raw engine output (wide-float bit patterns, with optional
//! exact 64-bit parallel sequences) becomes wire-safe scalars for the
//! requested element type.
use crate::errors::RunnerError;
use crate::fbits::spec_f64_to_f32;
use crate::fbits::spec_f32_to_f16;
use crate::fbits::spec_f16_to_f32;
use crate::fbits::spec_f32_to_f64;
use crate::fbits::spec_f64_trunc_i64;
use crate::fbits::spec_f64_trunc_u64;
use crate::fbits::f64_to_f32;
use crate::fbits::f32_to_f16;
use crate::fbits::f16_to_f32;
use crate::fbits::f32_to_f64;
use crate::fbits::f64_trunc_i64;
use crate::fbits::f64_trunc_u64;
use crate::fbits::f64_is_nan;
use crate::fbits::f64_is_inf;
use crate::fbits::f64_is_neg;
use crate::fbits::is_nan_f64;
use crate::fbits::is_inf_f64;
use crate::fbits::is_neg_f64;
use crate::text::spec_dec_int;
use crate::text::spec_dec_nat;
use crate::text::i64_to_string;
use crate::text::u64_to_string;
use crate::wire::DType;
use crate::wire::parse_dtype;
use crate::wire::spec_dtype;
use vstd::prelude::*;

verus! {

/// One decoded scalar, ready for the wire: a finite double-precision
/// number (as its bit pattern), an integer, or a literal string (used
/// for non-finite floats and for 64-bit integers, which exceed the
/// safe range of wire numbers).
#[derive(Debug)]
pub enum OutValue {
    Num(u64),
    Int(i64),
    UInt(u64),
    Text(String),
}

impl Clone for OutValue {
    fn clone(&self) -> (res: Self)
        ensures
            res == *self,
    {
        match self {
            OutValue::Num(b) => OutValue::Num(*b),
            OutValue::Int(n) => OutValue::Int(*n),
            OutValue::UInt(n) => OutValue::UInt(*n),
            OutValue::Text(s) => OutValue::Text(s.clone()),
        }
    }
}

/// How a float-typed element reaches the wire: a finite value goes out
/// as a number (its own bit pattern, unchanged), and the three
/// non-finite classes go out as the literal strings `NaN`, `Infinity`
/// and `-Infinity`, since the wire format has no numbers for them.
pub open spec fn float_out_matches(o: OutValue, b: u64) -> bool {
    if f64_is_nan(b) {
        o matches OutValue::Text(s) && s@ == "NaN"@
    } else if f64_is_inf(b) && !f64_is_neg(b) {
        o matches OutValue::Text(s) && s@ == "Infinity"@
    } else if f64_is_inf(b) && f64_is_neg(b) {
        o matches OutValue::Text(s) && s@ == "-Infinity"@
    } else {
        o == OutValue::Num(b)
    }
}

/// The double-precision pattern a half-precision round trip yields:
/// narrow to single then half precision, then widen back.
pub open spec fn spec_decode_f16_bits(b: u64) -> int {
    spec_f32_to_f64(
        spec_f16_to_f32(spec_f32_to_f16(spec_f64_to_f32(b) as u32) as u16) as u32,
    )
}

/// `x` forced into `[lo, hi]`.
pub open spec fn clamp_int(x: int, lo: int, hi: int) -> int {
    if x < lo {
        lo
    } else if x > hi {
        hi
    } else {
        x
    }
}

/// What decoding one wide-float element yields for each element type
/// (the 64-bit integer cases here are the fallbacks used when no exact
/// parallel sequence is present).
pub open spec fn decode_elem_matches(d: DType, b: u64, o: OutValue) -> bool {
    match d {
        DType::Float32 => float_out_matches(o, b),
        DType::Float16 => float_out_matches(o, spec_decode_f16_bits(b) as u64),
        DType::Int8 => o matches OutValue::Int(n) && n as int == clamp_int(
            spec_f64_trunc_i64(b),
            -128,
            127,
        ),
        DType::Int4 => o matches OutValue::Int(n) && n as int == clamp_int(
            clamp_int(spec_f64_trunc_i64(b), -128, 127),
            -8,
            7,
        ),
        DType::Uint8 => o matches OutValue::UInt(n) && n as int == clamp_int(
            spec_f64_trunc_u64(b),
            0,
            255,
        ),
        DType::Uint4 => o matches OutValue::UInt(n) && n as int == clamp_int(
            spec_f64_trunc_u64(b),
            0,
            255,
        ),
        DType::Int32 => o matches OutValue::Int(n) && n as int == clamp_int(
            spec_f64_trunc_i64(b),
            -0x8000_0000,
            0x7FFF_FFFF,
        ),
        DType::Uint32 => o matches OutValue::UInt(n) && n as int == clamp_int(
            spec_f64_trunc_u64(b),
            0,
            0xFFFF_FFFF,
        ),
        DType::Int64 => o matches OutValue::Text(s) && s@ == spec_dec_int(spec_f64_trunc_i64(b)),
        DType::Uint64 => o matches OutValue::Text(s) && s@ == spec_dec_nat(
            spec_f64_trunc_u64(b) as nat,
        ),
        DType::Other => float_out_matches(o, b),
    }
}

/// The view of an optional borrowed vector.
pub open spec fn opt_vec_view<T>(o: Option<&Vec<T>>) -> Option<Seq<T>> {
    match o {
        Some(v) => Some(v@),
        None => None,
    }
}

/// What the whole decoded sequence looks like: 64-bit integer types
/// with an exact parallel sequence render that sequence as decimal
/// strings; every other case decodes the wide-float sequence element
/// by element.
pub open spec fn cast_post(
    d: DType,
    data: Seq<u64>,
    i64d: Option<Seq<i64>>,
    u64d: Option<Seq<u64>>,
    r: Seq<OutValue>,
) -> bool {
    if d is Int64 && i64d is Some {
        let v = i64d->Some_0;
        r.len() == v.len() && (forall|i: int|
            0 <= i < v.len() ==> (#[trigger] r[i] matches OutValue::Text(s) && s@ == spec_dec_int(
                v[i] as int,
            )))
    } else if d is Uint64 && u64d is Some {
        let v = u64d->Some_0;
        r.len() == v.len() && (forall|i: int|
            0 <= i < v.len() ==> (#[trigger] r[i] matches OutValue::Text(s) && s@ == spec_dec_nat(
                v[i] as nat,
            )))
    } else {
        r.len() == data.len() && (forall|i: int|
            0 <= i < data.len() ==> decode_elem_matches(d, data[i], #[trigger] r[i]))
    }
}

/// Encodes one wide-float element for the wire, with the non-finite
/// sentinels.
fn float_value(b: u64) -> (o: OutValue)
    ensures
        float_out_matches(o, b),
{
    if is_nan_f64(b) {
        OutValue::Text("NaN".to_owned())
    } else if is_inf_f64(b) {
        if !is_neg_f64(b) {
            OutValue::Text("Infinity".to_owned())
        } else {
            OutValue::Text("-Infinity".to_owned())
        }
    } else {
        OutValue::Num(b)
    }
}

fn clamp_i64(x: i64, lo: i64, hi: i64) -> (r: i64)
    requires
        lo <= hi,
    ensures
        r as int == clamp_int(x as int, lo as int, hi as int),
{
    if x < lo {
        lo
    } else if x > hi {
        hi
    } else {
        x
    }
}

fn clamp_u64(x: u64, hi: u64) -> (r: u64)
    ensures
        r as int == clamp_int(x as int, 0, hi as int),
{
    if x > hi {
        hi
    } else {
        x
    }
}

/// Decodes a raw output buffer into wire scalars for the requested
/// element type.  An unrecognized type decodes as `float32` does, so a
/// missing output contract never fails the response.
pub fn cast_output_data(
    data: &Vec<u64>,
    int64_data: Option<&Vec<i64>>,
    uint64_data: Option<&Vec<u64>>,
    dtype: &str,
) -> (r: Vec<OutValue>)
    ensures
        cast_post(spec_dtype(dtype@), data@, opt_vec_view(int64_data), opt_vec_view(uint64_data), r@),
{
    let dt = parse_dtype(dtype);
    if let DType::Int64 = dt {
        if let Some(v) = int64_data {
            let mut out: Vec<OutValue> = Vec::new();
            let mut i: usize = 0;
            while i < v.len()
                invariant
                    i <= v@.len(),
                    out@.len() == i,
                    forall|k: int|
                        0 <= k < i ==> (#[trigger] out@[k] matches OutValue::Text(s) && s@
                            == spec_dec_int(v@[k] as int)),
                decreases v@.len() - i,
            {
                out.push(OutValue::Text(i64_to_string(v[i])));
                i += 1;
            }
            return out;
        }
    }
    if let DType::Uint64 = dt {
        if let Some(v) = uint64_data {
            let mut out: Vec<OutValue> = Vec::new();
            let mut i: usize = 0;
            while i < v.len()
                invariant
                    i <= v@.len(),
                    out@.len() == i,
                    forall|k: int|
                        0 <= k < i ==> (#[trigger] out@[k] matches OutValue::Text(s) && s@
                            == spec_dec_nat(v@[k] as nat)),
                decreases v@.len() - i,
            {
                out.push(OutValue::Text(u64_to_string(v[i])));
                i += 1;
            }
            return out;
        }
    }
    let mut out: Vec<OutValue> = Vec::new();
    let mut i: usize = 0;
    while i < data.len()
        invariant
            i <= data@.len(),
            out@.len() == i,
            forall|k: int| 0 <= k < i ==> decode_elem_matches(dt, data@[k], #[trigger] out@[k]),
        decreases data@.len() - i,
    {
        let b = data[i];
        let o = match dt {
            DType::Float32 => float_value(b),
            DType::Float16 => float_value(f32_to_f64(f16_to_f32(f32_to_f16(f64_to_f32(b))))),
            DType::Int8 => OutValue::Int(clamp_i64(f64_trunc_i64(b), -128, 127)),
            DType::Int4 => OutValue::Int(
                clamp_i64(clamp_i64(f64_trunc_i64(b), -128, 127), -8, 7),
            ),
            DType::Uint8 => OutValue::UInt(clamp_u64(f64_trunc_u64(b), 255)),
            DType::Uint4 => OutValue::UInt(clamp_u64(f64_trunc_u64(b), 255)),
            DType::Int32 => OutValue::Int(clamp_i64(f64_trunc_i64(b), -0x8000_0000, 0x7FFF_FFFF)),
            DType::Uint32 => OutValue::UInt(clamp_u64(f64_trunc_u64(b), 0xFFFF_FFFF)),
            DType::Int64 => OutValue::Text(i64_to_string(f64_trunc_i64(b))),
            DType::Uint64 => OutValue::Text(u64_to_string(f64_trunc_u64(b))),
            DType::Other => float_value(b),
        };
        out.push(o);
        i += 1;
    }
    out
}

/// The contract of compact-mode decoding: with a one-value expectation
/// and a non-empty buffer, only the first element of each sequence is
/// decoded; otherwise the whole buffer is.
pub open spec fn compact_cast_post(
    d: DType,
    data: Seq<u64>,
    i64d: Option<Seq<i64>>,
    u64d: Option<Seq<u64>>,
    expected_len: int,
    r: Seq<OutValue>,
) -> bool {
    if expected_len == 1 && data.len() > 0 {
        cast_post(
            d,
            data.subrange(0, 1),
            match i64d {
                Some(v) => Some(v.subrange(0, 1)),
                None => None,
            },
            match u64d {
                Some(v) => Some(v.subrange(0, 1)),
                None => None,
            },
            r,
        )
    } else {
        cast_post(d, data, i64d, u64d, r)
    }
}

/// Decodes a raw output buffer, in compact mode when the caller
/// expects exactly one value: only the first element is decoded then,
/// whatever the buffer's true length.
pub fn cast_output_data_compact(
    data: &Vec<u64>,
    int64_data: Option<&Vec<i64>>,
    uint64_data: Option<&Vec<u64>>,
    dtype: &str,
    expected_len: usize,
) -> (r: Vec<OutValue>)
    requires
        expected_len == 1 && data@.len() > 0 ==> (int64_data matches Some(v) ==> v@.len() > 0)
            && (uint64_data matches Some(v) ==> v@.len() > 0),
    ensures
        compact_cast_post(
            spec_dtype(dtype@),
            data@,
            opt_vec_view(int64_data),
            opt_vec_view(uint64_data),
            expected_len as int,
            r@,
        ),
{
    if expected_len == 1 && data.len() > 0 {
        let d1: Vec<u64> = vec![data[0]];
        let i1: Option<Vec<i64>> = match int64_data {
            Some(v) => Some(vec![v[0]]),
            None => None,
        };
        let u1: Option<Vec<u64>> = match uint64_data {
            Some(v) => Some(vec![v[0]]),
            None => None,
        };
        let r = cast_output_data(
            &d1,
            match &i1 {
                Some(v) => Some(v),
                None => None,
            },
            match &u1 {
                Some(v) => Some(v),
                None => None,
            },
            dtype,
        );
        proof {
            assert(d1@ =~= data@.subrange(0, 1));
            if int64_data is Some {
                assert(i1->Some_0@ =~= int64_data->Some_0@.subrange(0, 1));
            }
            if uint64_data is Some {
                assert(u1->Some_0@ =~= uint64_data->Some_0@.subrange(0, 1));
            }
        }
        return r;
    }
    cast_output_data(data, int64_data, uint64_data, dtype)
}

} // verus!
