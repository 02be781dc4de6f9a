//! Encoding: a reconciled sequence of wire scalars becomes a tagged,
//! fixed-width tensor buffer of the declared element type.
use crate::errors::RunnerError;
use crate::fbits::spec_f32_to_f16;
use crate::fbits::f32_to_f16;
use crate::fbits::wrap_i8;
use crate::fbits::wrap_i32;
use crate::fbits::wrap_u8;
use crate::fbits::wrap_u32;
use crate::fbits::wrap_i8_of_i64;
use crate::fbits::wrap_i32_of_i64;
use crate::fbits::wrap_u8_of_u64;
use crate::fbits::wrap_u32_of_u64;
use crate::wire::DType;
use crate::wire::TensorDescriptor;
use crate::wire::WireScalar;
use crate::wire::norm_elem;
use crate::wire::norm_seq;
use crate::wire::normalize_input_values;
use crate::wire::parse_dtype;
use crate::wire::parse_f32;
use crate::wire::parse_i64;
use crate::wire::parse_u64;
use crate::wire::spec_coerce_f32;
use crate::wire::spec_coerce_i64;
use crate::wire::spec_coerce_u64;
use crate::wire::spec_dtype;
use crate::wire::spec_shape_count;
use crate::wire::spec_shape_str;
use crate::wire::wire_text;
use crate::text::spec_dec_nat;
use vstd::prelude::*;
use vstd::string::StringExecFns;

verus! {

/// A dense, fixed-width tensor buffer, tagged with its storage kind.
/// Half-precision elements are stored as their raw bit patterns, as are
/// single-precision ones.
#[derive(Debug)]
pub enum TypedBuffer {
    Float32(Vec<u32>),
    Float16(Vec<u16>),
    Int8(Vec<i8>),
    Uint8(Vec<u8>),
    Int32(Vec<i32>),
    Uint32(Vec<u32>),
    Int64(Vec<i64>),
    Uint64(Vec<u64>),
}

/// The value of the coerced signed integer, where coercion succeeds.
pub open spec fn coerce_i64_val(v: WireScalar) -> int {
    match spec_coerce_i64(v) {
        Some(n) => n as int,
        None => 0,
    }
}

/// The value of the coerced unsigned integer, where coercion succeeds.
pub open spec fn coerce_u64_val(v: WireScalar) -> int {
    match spec_coerce_u64(v) {
        Some(n) => n as int,
        None => 0,
    }
}

/// The single-precision bit pattern of the coerced float, where
/// coercion succeeds.
pub open spec fn coerce_f32_val(v: WireScalar) -> int {
    match spec_coerce_f32(v) {
        Some(b) => b,
        None => 0,
    }
}

/// Whether coercing one wire scalar for the given element type
/// succeeds.
pub open spec fn spec_encode_ok(d: DType, v: WireScalar) -> bool {
    match d {
        DType::Float32 => spec_coerce_f32(v) is Some,
        DType::Float16 => spec_coerce_f32(v) is Some,
        DType::Int8 => spec_coerce_i64(v) is Some,
        DType::Uint8 => spec_coerce_u64(v) is Some,
        DType::Uint4 => spec_coerce_u64(v) is Some,
        DType::Int32 => spec_coerce_i64(v) is Some,
        DType::Int4 => spec_coerce_i64(v) is Some,
        DType::Uint32 => spec_coerce_u64(v) is Some,
        DType::Int64 => spec_coerce_i64(v) is Some,
        DType::Uint64 => spec_coerce_u64(v) is Some,
        DType::Other => false,
    }
}

/// The stored element (as a plain integer: a bit pattern for the float
/// kinds) that encoding one wire scalar yields for the given element
/// type, where coercion succeeds.
pub open spec fn spec_encode_val(d: DType, v: WireScalar) -> int {
    match d {
        DType::Float32 => coerce_f32_val(v),
        DType::Float16 => spec_f32_to_f16(coerce_f32_val(v) as u32),
        DType::Int8 => wrap_i8(coerce_i64_val(v)),
        DType::Uint8 => wrap_u8(coerce_u64_val(v)),
        DType::Uint4 => wrap_u8(coerce_u64_val(v)),
        DType::Int32 => wrap_i32(coerce_i64_val(v)),
        DType::Int4 => wrap_i32(coerce_i64_val(v)),
        DType::Uint32 => wrap_u32(coerce_u64_val(v)),
        DType::Int64 => coerce_i64_val(v),
        DType::Uint64 => coerce_u64_val(v),
        DType::Other => 0,
    }
}

/// The error text prefix a failed coercion carries for the given
/// element type.
pub open spec fn spec_encode_err_prefix(d: DType) -> Seq<char> {
    match d {
        DType::Float32 => "invalid float value: "@,
        DType::Float16 => "invalid float value: "@,
        DType::Int8 => "invalid int64 value: "@,
        DType::Uint8 => "invalid uint64 value: "@,
        DType::Uint4 => "invalid uint64 value: "@,
        DType::Int32 => "invalid int64 value: "@,
        DType::Int4 => "invalid int64 value: "@,
        DType::Uint32 => "invalid uint64 value: "@,
        DType::Int64 => "invalid int64 value: "@,
        DType::Uint64 => "invalid uint64 value: "@,
        DType::Other => Seq::empty(),
    }
}

/// Whether a buffer's storage kind is the one the element type calls
/// for (the two four-bit types are stored at eight- or thirty-two-bit
/// granularity).
pub open spec fn buffer_kind_matches(d: DType, b: TypedBuffer) -> bool {
    match d {
        DType::Float32 => b is Float32,
        DType::Float16 => b is Float16,
        DType::Int8 => b is Int8,
        DType::Uint8 => b is Uint8,
        DType::Uint4 => b is Uint8,
        DType::Int32 => b is Int32,
        DType::Int4 => b is Int32,
        DType::Uint32 => b is Uint32,
        DType::Int64 => b is Int64,
        DType::Uint64 => b is Uint64,
        DType::Other => false,
    }
}

/// The elements a buffer holds, as plain integers.
pub open spec fn buffer_elems(b: TypedBuffer) -> Seq<int> {
    match b {
        TypedBuffer::Float32(v) => v@.map_values(|x: u32| x as int),
        TypedBuffer::Float16(v) => v@.map_values(|x: u16| x as int),
        TypedBuffer::Int8(v) => v@.map_values(|x: i8| x as int),
        TypedBuffer::Uint8(v) => v@.map_values(|x: u8| x as int),
        TypedBuffer::Int32(v) => v@.map_values(|x: i32| x as int),
        TypedBuffer::Uint32(v) => v@.map_values(|x: u32| x as int),
        TypedBuffer::Int64(v) => v@.map_values(|x: i64| x as int),
        TypedBuffer::Uint64(v) => v@.map_values(|x: u64| x as int),
    }
}

/// The first index whose element does not coerce for the given element
/// type (the sequence length where every element coerces).
pub open spec fn first_bad(d: DType, norm: Seq<WireScalar>) -> int
    decreases norm.len(),
{
    if norm.len() == 0 {
        0
    } else if !spec_encode_ok(d, norm[0]) {
        0
    } else {
        1 + first_bad(d, norm.drop_first())
    }
}

proof fn lemma_first_bad(d: DType, norm: Seq<WireScalar>, i: int)
    requires
        0 <= i < norm.len(),
        !spec_encode_ok(d, norm[i]),
        forall|k: int| 0 <= k < i ==> spec_encode_ok(d, #[trigger] norm[k]),
    ensures
        first_bad(d, norm) == i,
    decreases i,
{
    if i > 0 {
        assert(forall|k: int|
            0 <= k < norm.drop_first().len() ==> #[trigger] norm.drop_first()[k] == norm[k + 1]);
        lemma_first_bad(d, norm.drop_first(), i - 1);
    }
}

/// The contract every per-kind encoding loop meets, stated over the
/// already-reconciled sequence: success coerces every element in
/// order; failure reports the first element that does not coerce.
pub open spec fn encode_loop_post<T>(
    d: DType,
    norm: Seq<WireScalar>,
    r: Result<Vec<T>, RunnerError>,
    elems: Seq<int>,
) -> bool {
    match r {
        Ok(_) => elems.len() == norm.len() && (forall|i: int|
            0 <= i < norm.len() ==> spec_encode_ok(d, #[trigger] norm[i]))
            && (forall|i: int|
            0 <= i < norm.len() ==> #[trigger] elems[i] == spec_encode_val(d, norm[i])),
        Err(e) => ({
            let j = first_bad(d, norm);
            0 <= j < norm.len() && !spec_encode_ok(d, norm[j]) && (e matches
                RunnerError::BadRequest(m) && m@ == spec_encode_err_prefix(d) + wire_text(norm[j]))
        }),
    }
}

fn encode_f32(norm: &Vec<WireScalar>) -> (r: Result<Vec<u32>, RunnerError>)
    ensures
        encode_loop_post(
            DType::Float32,
            norm@,
            r,
            match r {
                Ok(v) => buffer_elems(TypedBuffer::Float32(v)),
                Err(_) => Seq::empty(),
            },
        ),
{
    let mut out: Vec<u32> = Vec::new();
    let mut i: usize = 0;
    while i < norm.len()
        invariant
            i <= norm@.len(),
            out@.len() == i,
            forall|k: int| 0 <= k < i ==> spec_encode_ok(DType::Float32, #[trigger] norm@[k]),
            forall|k: int|
                0 <= k < i ==> #[trigger] out@[k] as int == spec_encode_val(
                    DType::Float32,
                    norm@[k],
                ),
        decreases norm@.len() - i,
    {
        match parse_f32(&norm[i]) {
            Ok(b) => out.push(b),
            Err(e) => {
                proof {
                    lemma_first_bad(DType::Float32, norm@, i as int);
                }
                return Err(e);
            },
        }
        i += 1;
    }
    Ok(out)
}

fn encode_f16(norm: &Vec<WireScalar>) -> (r: Result<Vec<u16>, RunnerError>)
    ensures
        encode_loop_post(
            DType::Float16,
            norm@,
            r,
            match r {
                Ok(v) => buffer_elems(TypedBuffer::Float16(v)),
                Err(_) => Seq::empty(),
            },
        ),
{
    let mut out: Vec<u16> = Vec::new();
    let mut i: usize = 0;
    while i < norm.len()
        invariant
            i <= norm@.len(),
            out@.len() == i,
            forall|k: int| 0 <= k < i ==> spec_encode_ok(DType::Float16, #[trigger] norm@[k]),
            forall|k: int|
                0 <= k < i ==> #[trigger] out@[k] as int == spec_encode_val(
                    DType::Float16,
                    norm@[k],
                ),
        decreases norm@.len() - i,
    {
        match parse_f32(&norm[i]) {
            Ok(b) => out.push(f32_to_f16(b)),
            Err(e) => {
                proof {
                    lemma_first_bad(DType::Float16, norm@, i as int);
                }
                return Err(e);
            },
        }
        i += 1;
    }
    Ok(out)
}

fn encode_i8(norm: &Vec<WireScalar>) -> (r: Result<Vec<i8>, RunnerError>)
    ensures
        encode_loop_post(
            DType::Int8,
            norm@,
            r,
            match r {
                Ok(v) => buffer_elems(TypedBuffer::Int8(v)),
                Err(_) => Seq::empty(),
            },
        ),
{
    let mut out: Vec<i8> = Vec::new();
    let mut i: usize = 0;
    while i < norm.len()
        invariant
            i <= norm@.len(),
            out@.len() == i,
            forall|k: int| 0 <= k < i ==> spec_encode_ok(DType::Int8, #[trigger] norm@[k]),
            forall|k: int|
                0 <= k < i ==> #[trigger] out@[k] as int == spec_encode_val(DType::Int8, norm@[k]),
        decreases norm@.len() - i,
    {
        match parse_i64(&norm[i]) {
            Ok(n) => out.push(wrap_i8_of_i64(n)),
            Err(e) => {
                proof {
                    lemma_first_bad(DType::Int8, norm@, i as int);
                }
                return Err(e);
            },
        }
        i += 1;
    }
    Ok(out)
}

fn encode_i32(norm: &Vec<WireScalar>, d: DType) -> (r: Result<Vec<i32>, RunnerError>)
    requires
        d == DType::Int32 || d == DType::Int4,
    ensures
        encode_loop_post(
            d,
            norm@,
            r,
            match r {
                Ok(v) => buffer_elems(TypedBuffer::Int32(v)),
                Err(_) => Seq::empty(),
            },
        ),
{
    let mut out: Vec<i32> = Vec::new();
    let mut i: usize = 0;
    while i < norm.len()
        invariant
            d == DType::Int32 || d == DType::Int4,
            i <= norm@.len(),
            out@.len() == i,
            forall|k: int| 0 <= k < i ==> spec_encode_ok(d, #[trigger] norm@[k]),
            forall|k: int|
                0 <= k < i ==> #[trigger] out@[k] as int == spec_encode_val(d, norm@[k]),
        decreases norm@.len() - i,
    {
        match parse_i64(&norm[i]) {
            Ok(n) => out.push(wrap_i32_of_i64(n)),
            Err(e) => {
                proof {
                    lemma_first_bad(d, norm@, i as int);
                }
                return Err(e);
            },
        }
        i += 1;
    }
    Ok(out)
}

fn encode_i64(norm: &Vec<WireScalar>) -> (r: Result<Vec<i64>, RunnerError>)
    ensures
        encode_loop_post(
            DType::Int64,
            norm@,
            r,
            match r {
                Ok(v) => buffer_elems(TypedBuffer::Int64(v)),
                Err(_) => Seq::empty(),
            },
        ),
{
    let mut out: Vec<i64> = Vec::new();
    let mut i: usize = 0;
    while i < norm.len()
        invariant
            i <= norm@.len(),
            out@.len() == i,
            forall|k: int| 0 <= k < i ==> spec_encode_ok(DType::Int64, #[trigger] norm@[k]),
            forall|k: int|
                0 <= k < i ==> #[trigger] out@[k] as int == spec_encode_val(DType::Int64, norm@[k]),
        decreases norm@.len() - i,
    {
        match parse_i64(&norm[i]) {
            Ok(n) => out.push(n),
            Err(e) => {
                proof {
                    lemma_first_bad(DType::Int64, norm@, i as int);
                }
                return Err(e);
            },
        }
        i += 1;
    }
    Ok(out)
}

fn encode_u8(norm: &Vec<WireScalar>, d: DType) -> (r: Result<Vec<u8>, RunnerError>)
    requires
        d == DType::Uint8 || d == DType::Uint4,
    ensures
        encode_loop_post(
            d,
            norm@,
            r,
            match r {
                Ok(v) => buffer_elems(TypedBuffer::Uint8(v)),
                Err(_) => Seq::empty(),
            },
        ),
{
    let mut out: Vec<u8> = Vec::new();
    let mut i: usize = 0;
    while i < norm.len()
        invariant
            d == DType::Uint8 || d == DType::Uint4,
            i <= norm@.len(),
            out@.len() == i,
            forall|k: int| 0 <= k < i ==> spec_encode_ok(d, #[trigger] norm@[k]),
            forall|k: int|
                0 <= k < i ==> #[trigger] out@[k] as int == spec_encode_val(d, norm@[k]),
        decreases norm@.len() - i,
    {
        match parse_u64(&norm[i]) {
            Ok(n) => out.push(wrap_u8_of_u64(n)),
            Err(e) => {
                proof {
                    lemma_first_bad(d, norm@, i as int);
                }
                return Err(e);
            },
        }
        i += 1;
    }
    Ok(out)
}

fn encode_u32(norm: &Vec<WireScalar>) -> (r: Result<Vec<u32>, RunnerError>)
    ensures
        encode_loop_post(
            DType::Uint32,
            norm@,
            r,
            match r {
                Ok(v) => buffer_elems(TypedBuffer::Uint32(v)),
                Err(_) => Seq::empty(),
            },
        ),
{
    let mut out: Vec<u32> = Vec::new();
    let mut i: usize = 0;
    while i < norm.len()
        invariant
            i <= norm@.len(),
            out@.len() == i,
            forall|k: int| 0 <= k < i ==> spec_encode_ok(DType::Uint32, #[trigger] norm@[k]),
            forall|k: int|
                0 <= k < i ==> #[trigger] out@[k] as int == spec_encode_val(
                    DType::Uint32,
                    norm@[k],
                ),
        decreases norm@.len() - i,
    {
        match parse_u64(&norm[i]) {
            Ok(n) => out.push(wrap_u32_of_u64(n)),
            Err(e) => {
                proof {
                    lemma_first_bad(DType::Uint32, norm@, i as int);
                }
                return Err(e);
            },
        }
        i += 1;
    }
    Ok(out)
}

fn encode_u64(norm: &Vec<WireScalar>) -> (r: Result<Vec<u64>, RunnerError>)
    ensures
        encode_loop_post(
            DType::Uint64,
            norm@,
            r,
            match r {
                Ok(v) => buffer_elems(TypedBuffer::Uint64(v)),
                Err(_) => Seq::empty(),
            },
        ),
{
    let mut out: Vec<u64> = Vec::new();
    let mut i: usize = 0;
    while i < norm.len()
        invariant
            i <= norm@.len(),
            out@.len() == i,
            forall|k: int| 0 <= k < i ==> spec_encode_ok(DType::Uint64, #[trigger] norm@[k]),
            forall|k: int|
                0 <= k < i ==> #[trigger] out@[k] as int == spec_encode_val(DType::Uint64, norm@[k]),
        decreases norm@.len() - i,
    {
        match parse_u64(&norm[i]) {
            Ok(n) => out.push(n),
            Err(e) => {
                proof {
                    lemma_first_bad(DType::Uint64, norm@, i as int);
                }
                return Err(e);
            },
        }
        i += 1;
    }
    Ok(out)
}

/// Whether a named input would encode without error: its shape product
/// is in range, its value count reconciles, its element type is
/// recognized, and every (reconciled) scalar coerces.
pub open spec fn input_encodable(descriptor: TensorDescriptor, data: Seq<WireScalar>) -> bool {
    match spec_shape_count(descriptor.shape@) {
        None => false,
        Some(expected) => (data.len() == expected || (data.len() == 1 && expected > 1))
            && !(spec_dtype(descriptor.data_type@) is Other) && (forall|i: int|
            0 <= i < expected ==> spec_encode_ok(
                spec_dtype(descriptor.data_type@),
                #[trigger] norm_elem(data, expected, i),
            )),
    }
}

/// The full contract of encoding one input, as a predicate over the
/// result.
pub open spec fn to_tensor_post(
    descriptor: TensorDescriptor,
    data: Seq<WireScalar>,
    r: Result<TypedBuffer, RunnerError>,
) -> bool {
    ({
        let dt = spec_dtype(descriptor.data_type@);
        match spec_shape_count(descriptor.shape@) {
            None => r matches Err(RunnerError::BadRequest(m)) && m@
                == "shape element count overflow for shape "@ + spec_shape_str(descriptor.shape@),
            Some(expected) => {
                if data.len() != expected && !(data.len() == 1 && expected > 1) {
                    r matches Err(RunnerError::BadRequest(m)) && m@
                        == "input data length mismatch: expected "@ + spec_dec_nat(expected as nat)
                        + " values for shape "@ + spec_shape_str(descriptor.shape@) + ", got "@
                        + spec_dec_nat(data.len())
                } else if dt is Other {
                    r matches Err(RunnerError::BadRequest(m)) && m@
                        == "unsupported input dataType: "@ + descriptor.data_type@
                } else if forall|i: int|
                    0 <= i < expected ==> spec_encode_ok(
                        dt,
                        #[trigger] norm_elem(data, expected, i),
                    ) {
                    r matches Ok(buf) && buffer_kind_matches(dt, buf) && buffer_elems(buf).len()
                        == expected && (forall|i: int|
                        0 <= i < expected ==> #[trigger] buffer_elems(buf)[i] == spec_encode_val(
                            dt,
                            norm_elem(data, expected, i),
                        ))
                } else {
                    let j = first_bad(dt, norm_seq(data, expected));
                    r matches Err(RunnerError::BadRequest(m)) && 0 <= j < expected
                        && !spec_encode_ok(dt, norm_elem(data, expected, j)) && m@
                        == spec_encode_err_prefix(dt) + wire_text(norm_elem(data, expected, j))
                }
            },
        }
    })
}

/// Encodes a supplied value sequence into a typed buffer: the sequence
/// is first reconciled with the shape (exact length, or one value
/// broadcast), then every scalar is coerced into the declared element
/// type's storage width.  Success guarantees the buffer holds exactly
/// the element count the shape demands.
pub fn to_tensor_data(descriptor: &TensorDescriptor, data: &Vec<WireScalar>) -> (r: Result<
    TypedBuffer,
    RunnerError,
>)
    ensures
        to_tensor_post(*descriptor, data@, r),
        r is Ok <==> input_encodable(*descriptor, data@),
{
    let norm = match normalize_input_values(descriptor, data) {
        Ok(v) => v,
        Err(e) => {
            return Err(e);
        },
    };
    let ghost expected = spec_shape_count(descriptor.shape@)->Some_0;
    proof {
        assert(norm@.len() == expected);
        assert(forall|i: int|
            0 <= i < expected ==> #[trigger] norm@[i] == norm_elem(data@, expected, i));
        assert(norm@ =~= norm_seq(data@, expected));
    }
    let dt = parse_dtype(descriptor.data_type.as_str());
    match dt {
        DType::Float32 => match encode_f32(&norm) {
            Ok(v) => Ok(TypedBuffer::Float32(v)),
            Err(e) => Err(e),
        },
        DType::Float16 => match encode_f16(&norm) {
            Ok(v) => Ok(TypedBuffer::Float16(v)),
            Err(e) => Err(e),
        },
        DType::Int8 => match encode_i8(&norm) {
            Ok(v) => Ok(TypedBuffer::Int8(v)),
            Err(e) => Err(e),
        },
        DType::Uint8 => match encode_u8(&norm, DType::Uint8) {
            Ok(v) => Ok(TypedBuffer::Uint8(v)),
            Err(e) => Err(e),
        },
        DType::Uint4 => match encode_u8(&norm, DType::Uint4) {
            Ok(v) => Ok(TypedBuffer::Uint8(v)),
            Err(e) => Err(e),
        },
        DType::Int32 => match encode_i32(&norm, DType::Int32) {
            Ok(v) => Ok(TypedBuffer::Int32(v)),
            Err(e) => Err(e),
        },
        DType::Int4 => match encode_i32(&norm, DType::Int4) {
            Ok(v) => Ok(TypedBuffer::Int32(v)),
            Err(e) => Err(e),
        },
        DType::Uint32 => match encode_u32(&norm) {
            Ok(v) => Ok(TypedBuffer::Uint32(v)),
            Err(e) => Err(e),
        },
        DType::Int64 => match encode_i64(&norm) {
            Ok(v) => Ok(TypedBuffer::Int64(v)),
            Err(e) => Err(e),
        },
        DType::Uint64 => match encode_u64(&norm) {
            Ok(v) => Ok(TypedBuffer::Uint64(v)),
            Err(e) => Err(e),
        },
        DType::Other => {
            let mut m = "unsupported input dataType: ".to_owned();
            m.append(descriptor.data_type.as_str());
            Err(RunnerError::BadRequest(m))
        },
    }
}

} // verus!
