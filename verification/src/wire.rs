//! The wire-side data model.
//!
//! A wire scalar models what a JSON value answers to the probes the
//! coercion rules use: its value as a signed or unsigned 64-bit integer
//! (when it is a number of that range), its value as a double-precision
//! float (every JSON number answers this), its text (for strings, the
//! string itself; otherwise its JSON rendering, used in error
//! messages), and — for strings — what the host's float parser made of
//! the text, since this crate holds no float values of its own.
use crate::errors::RunnerError;
use crate::fbits::spec_f64_to_f32;
use crate::fbits::f64_to_f32;
use crate::text::spec_dec_nat;
use crate::text::spec_parse_i64;
use crate::text::spec_parse_u64;
use crate::text::parse_i64_str;
use crate::text::parse_u64_str;
use crate::text::str_eq;
use crate::text::u64_to_string;
use vstd::prelude::*;
use vstd::string::StringExecFns;

verus! {

/// One scalar as received on the wire.
#[derive(Debug)]
pub enum WireScalar {
    /// A JSON number.  `int_val` and `uint_val` are its exact value when
    /// it is an integer of the respective range, `float_bits` the bit
    /// pattern of its double-precision value (every JSON number has
    /// one), and `text` its rendering.
    Num { int_val: Option<i64>, uint_val: Option<u64>, float_bits: u64, text: String },
    /// A JSON string.  `float_parse` is the single-precision bit
    /// pattern the host's float parser produced from the text, if it
    /// accepted it.
    Str { text: String, float_parse: Option<u32> },
    /// Any other JSON value; `text` is its rendering.
    Other { text: String },
}

impl Clone for WireScalar {
    fn clone(&self) -> (res: Self)
        ensures
            res == *self,
    {
        match self {
            WireScalar::Num { int_val, uint_val, float_bits, text } => WireScalar::Num {
                int_val: *int_val,
                uint_val: *uint_val,
                float_bits: *float_bits,
                text: text.clone(),
            },
            WireScalar::Str { text, float_parse } => WireScalar::Str {
                text: text.clone(),
                float_parse: *float_parse,
            },
            WireScalar::Other { text } => WireScalar::Other { text: text.clone() },
        }
    }
}

/// The text of a wire scalar, as used in error messages.
pub open spec fn wire_text(v: WireScalar) -> Seq<char> {
    match v {
        WireScalar::Num { text, .. } => text@,
        WireScalar::Str { text, .. } => text@,
        WireScalar::Other { text } => text@,
    }
}

/// What coercing a wire scalar to a signed 64-bit integer yields: the
/// exact value of an integer number, the parsed value of a decimal
/// string, nothing otherwise.
pub open spec fn spec_coerce_i64(v: WireScalar) -> Option<i64> {
    match v {
        WireScalar::Num { int_val, .. } => int_val,
        WireScalar::Str { text, .. } => spec_parse_i64(text@),
        WireScalar::Other { .. } => None,
    }
}

/// What coercing a wire scalar to an unsigned 64-bit integer yields.
pub open spec fn spec_coerce_u64(v: WireScalar) -> Option<u64> {
    match v {
        WireScalar::Num { uint_val, .. } => uint_val,
        WireScalar::Str { text, .. } => spec_parse_u64(text@),
        WireScalar::Other { .. } => None,
    }
}

/// What coercing a wire scalar to a single-precision float yields, as a
/// bit pattern: every number narrows from its double-precision value;
/// a string yields what the host's float parser accepted.
pub open spec fn spec_coerce_f32(v: WireScalar) -> Option<int> {
    match v {
        WireScalar::Num { float_bits, .. } => Some(spec_f64_to_f32(float_bits)),
        WireScalar::Str { float_parse, .. } => match float_parse {
            Some(b) => Some(b as int),
            None => None,
        },
        WireScalar::Other { .. } => None,
    }
}

/// Builds the "bad request" error whose detail is `prefix` followed by
/// `text`.
fn bad_value(prefix: &str, text: &str) -> (r: RunnerError)
    ensures
        r matches RunnerError::BadRequest(m) && m@ == prefix@ + text@,
{
    let mut s = prefix.to_owned();
    s.append(text);
    RunnerError::BadRequest(s)
}

/// Coerces a wire scalar to a signed 64-bit integer.
pub fn parse_i64(v: &WireScalar) -> (r: Result<i64, RunnerError>)
    ensures
        match spec_coerce_i64(*v) {
            Some(n) => r == Ok::<i64, RunnerError>(n),
            None => r matches Err(RunnerError::BadRequest(m)) && m@ == "invalid int64 value: "@
                + wire_text(*v),
        },
{
    match v {
        WireScalar::Num { int_val: Some(n), .. } => Ok(*n),
        WireScalar::Num { int_val: None, text, .. } => Err(
            bad_value("invalid int64 value: ", text.as_str()),
        ),
        WireScalar::Str { text, .. } => match parse_i64_str(text.as_str()) {
            Some(n) => Ok(n),
            None => Err(bad_value("invalid int64 value: ", text.as_str())),
        },
        WireScalar::Other { text } => Err(bad_value("invalid int64 value: ", text.as_str())),
    }
}

/// Coerces a wire scalar to an unsigned 64-bit integer.
pub fn parse_u64(v: &WireScalar) -> (r: Result<u64, RunnerError>)
    ensures
        match spec_coerce_u64(*v) {
            Some(n) => r == Ok::<u64, RunnerError>(n),
            None => r matches Err(RunnerError::BadRequest(m)) && m@ == "invalid uint64 value: "@
                + wire_text(*v),
        },
{
    match v {
        WireScalar::Num { uint_val: Some(n), .. } => Ok(*n),
        WireScalar::Num { uint_val: None, text, .. } => Err(
            bad_value("invalid uint64 value: ", text.as_str()),
        ),
        WireScalar::Str { text, .. } => match parse_u64_str(text.as_str()) {
            Some(n) => Ok(n),
            None => Err(bad_value("invalid uint64 value: ", text.as_str())),
        },
        WireScalar::Other { text } => Err(bad_value("invalid uint64 value: ", text.as_str())),
    }
}

/// Coerces a wire scalar to a single-precision float bit pattern.
pub fn parse_f32(v: &WireScalar) -> (r: Result<u32, RunnerError>)
    ensures
        match spec_coerce_f32(*v) {
            Some(b) => r matches Ok(x) && x as int == b,
            None => r matches Err(RunnerError::BadRequest(m)) && m@ == "invalid float value: "@
                + wire_text(*v),
        },
{
    match v {
        WireScalar::Num { float_bits, .. } => Ok(f64_to_f32(*float_bits)),
        WireScalar::Str { text: _, float_parse: Some(b) } => Ok(*b),
        WireScalar::Str { text, float_parse: None } => Err(
            bad_value("invalid float value: ", text.as_str()),
        ),
        WireScalar::Other { text } => Err(bad_value("invalid float value: ", text.as_str())),
    }
}

/// A declared element type on the wire.
#[derive(PartialEq, Eq, Structural, Clone, Copy, Debug)]
pub enum DType {
    Float32,
    Float16,
    Int8,
    Uint8,
    Uint4,
    Int32,
    Int4,
    Uint32,
    Int64,
    Uint64,
    Other,
}

/// The element type a wire name denotes; every unrecognized name maps
/// to `Other`.
pub open spec fn spec_dtype(s: Seq<char>) -> DType {
    if s == "float32"@ {
        DType::Float32
    } else if s == "float16"@ {
        DType::Float16
    } else if s == "int8"@ {
        DType::Int8
    } else if s == "uint8"@ {
        DType::Uint8
    } else if s == "uint4"@ {
        DType::Uint4
    } else if s == "int32"@ {
        DType::Int32
    } else if s == "int4"@ {
        DType::Int4
    } else if s == "uint32"@ {
        DType::Uint32
    } else if s == "int64"@ {
        DType::Int64
    } else if s == "uint64"@ {
        DType::Uint64
    } else {
        DType::Other
    }
}

/// Recognizes an element type name.
pub fn parse_dtype(s: &str) -> (d: DType)
    ensures
        d == spec_dtype(s@),
{
    proof {
        reveal_strlit("float32");
        reveal_strlit("float16");
        reveal_strlit("int8");
        reveal_strlit("uint8");
        reveal_strlit("uint4");
        reveal_strlit("int32");
        reveal_strlit("int4");
        reveal_strlit("uint32");
        reveal_strlit("int64");
        reveal_strlit("uint64");
    }
    if str_eq(s, "float32") {
        DType::Float32
    } else if str_eq(s, "float16") {
        DType::Float16
    } else if str_eq(s, "int8") {
        DType::Int8
    } else if str_eq(s, "uint8") {
        DType::Uint8
    } else if str_eq(s, "uint4") {
        DType::Uint4
    } else if str_eq(s, "int32") {
        DType::Int32
    } else if str_eq(s, "int4") {
        DType::Int4
    } else if str_eq(s, "uint32") {
        DType::Uint32
    } else if str_eq(s, "int64") {
        DType::Int64
    } else if str_eq(s, "uint64") {
        DType::Uint64
    } else {
        DType::Other
    }
}

/// A declared tensor layout: an element type name and a shape.
#[derive(Debug)]
pub struct TensorDescriptor {
    pub data_type: String,
    pub shape: Vec<usize>,
}

impl Clone for TensorDescriptor {
    fn clone(&self) -> (res: Self)
        ensures
            res.data_type == self.data_type,
            res.shape@ == self.shape@,
    {
        TensorDescriptor { data_type: self.data_type.clone(), shape: self.shape.clone() }
    }
}

/// The product of the dimensions, or nothing where it exceeds the
/// machine word range (computed left to right, failing at the first
/// overflowing prefix, as the checked multiplication chain does).
pub open spec fn spec_checked_prod(shape: Seq<usize>) -> Option<int>
    decreases shape.len(),
{
    if shape.len() == 0 {
        Some(1)
    } else {
        match spec_checked_prod(shape.drop_last()) {
            Some(p) => if p * (shape.last() as int) > usize::MAX as int {
                None
            } else {
                Some(p * (shape.last() as int))
            },
            None => None,
        }
    }
}

/// The element count a shape demands: the product of its dimensions
/// with a floor of one, or nothing on overflow.
pub open spec fn spec_shape_count(shape: Seq<usize>) -> Option<int> {
    match spec_checked_prod(shape) {
        Some(p) => Some(
            if p < 1 {
                1
            } else {
                p
            },
        ),
        None => None,
    }
}

proof fn lemma_checked_prod_none(s: Seq<usize>, i: int)
    requires
        0 <= i <= s.len(),
        spec_checked_prod(s.subrange(0, i)) is None,
    ensures
        spec_checked_prod(s) is None,
    decreases s.len() - i,
{
    if i == s.len() {
        assert(s.subrange(0, i) =~= s);
    } else {
        let p = s.subrange(0, i + 1);
        assert(p.drop_last() =~= s.subrange(0, i));
        lemma_checked_prod_none(s, i + 1);
    }
}

/// The rendering of the dimension list, digits joined by comma-space.
pub open spec fn spec_shape_items(s: Seq<usize>) -> Seq<char>
    decreases s.len(),
{
    if s.len() == 0 {
        Seq::empty()
    } else if s.len() == 1 {
        spec_dec_nat(s[0] as nat)
    } else {
        spec_shape_items(s.drop_last()) + ", "@ + spec_dec_nat(s.last() as nat)
    }
}

/// The rendering of a shape, as it appears in error messages.
pub open spec fn spec_shape_str(s: Seq<usize>) -> Seq<char> {
    "["@ + spec_shape_items(s) + "]"@
}

/// Renders a shape as text.
pub fn shape_to_string(shape: &[usize]) -> (r: String)
    ensures
        r@ == spec_shape_str(shape@),
{
    let mut out = "[".to_owned();
    let mut i: usize = 0;
    while i < shape.len()
        invariant
            i <= shape@.len(),
            out@ == "["@ + spec_shape_items(shape@.subrange(0, i as int)),
        decreases shape@.len() - i,
    {
        if i > 0 {
            out.append(", ");
        }
        out.append(u64_to_string(shape[i] as u64).as_str());
        proof {
            let pre = shape@.subrange(0, i as int);
            let ext = shape@.subrange(0, i as int + 1);
            assert(ext.drop_last() =~= pre);
            assert(ext.last() == shape@[i as int]);
        }
        i += 1;
    }
    proof {
        assert(shape@.subrange(0, shape@.len() as int) =~= shape@);
    }
    out.append("]");
    out
}

/// Computes the element count a shape demands: the product of its
/// dimensions with a floor of one.  A product beyond the machine word
/// range is a malformed request.
pub fn shape_element_count(shape: &[usize]) -> (r: Result<usize, RunnerError>)
    ensures
        match spec_shape_count(shape@) {
            Some(n) => r == Ok::<usize, RunnerError>(n as usize),
            None => r matches Err(RunnerError::BadRequest(m)) && m@
                == "shape element count overflow for shape "@ + spec_shape_str(shape@),
        },
{
    let mut count: usize = 1;
    let mut i: usize = 0;
    while i < shape.len()
        invariant
            i <= shape@.len(),
            spec_checked_prod(shape@.subrange(0, i as int)) == Some(count as int),
        decreases shape@.len() - i,
    {
        let ghost pre = shape@.subrange(0, i as int);
        let ghost ext = shape@.subrange(0, i as int + 1);
        proof {
            assert(ext.drop_last() =~= pre);
            assert(ext.last() == shape@[i as int]);
        }
        match count.checked_mul(shape[i]) {
            Some(c) => {
                count = c;
            },
            None => {
                proof {
                    lemma_checked_prod_none(shape@, i as int + 1);
                }
                let mut m = "shape element count overflow for shape ".to_owned();
                m.append(shape_to_string(shape).as_str());
                return Err(RunnerError::BadRequest(m));
            },
        }
        i += 1;
    }
    proof {
        assert(shape@.subrange(0, shape@.len() as int) =~= shape@);
    }
    if count < 1 {
        Ok(1)
    } else {
        Ok(count)
    }
}

/// The element at slot `i` after reconciliation: the single supplied
/// value when broadcasting, the supplied value at `i` otherwise.
pub open spec fn norm_elem(data: Seq<WireScalar>, expected: int, i: int) -> WireScalar {
    if data.len() == 1 && expected > 1 {
        data[0]
    } else {
        data[i]
    }
}

/// The whole reconciled sequence, as a sequence.
pub open spec fn norm_seq(data: Seq<WireScalar>, expected: int) -> Seq<WireScalar> {
    Seq::new(expected as nat, |i: int| norm_elem(data, expected, i))
}

/// Reconciles a supplied value sequence with the element count its
/// shape demands: an exact-length sequence is kept as it is, a single
/// value is broadcast to every slot of a larger shape, and anything
/// else is a malformed request.
pub fn normalize_input_values(descriptor: &TensorDescriptor, data: &Vec<WireScalar>) -> (r: Result<
    Vec<WireScalar>,
    RunnerError,
>)
    ensures
        match spec_shape_count(descriptor.shape@) {
            None => r matches Err(RunnerError::BadRequest(m)) && m@
                == "shape element count overflow for shape "@ + spec_shape_str(descriptor.shape@),
            Some(expected) => {
                if data@.len() == expected {
                    r matches Ok(v) && v@ == data@
                } else if data@.len() == 1 && expected > 1 {
                    r matches Ok(v) && v@.len() == expected && (forall|i: int|
                        0 <= i < expected ==> v@[i] == data@[0])
                } else {
                    r matches Err(RunnerError::BadRequest(m)) && m@
                        == "input data length mismatch: expected "@ + spec_dec_nat(expected as nat)
                        + " values for shape "@ + spec_shape_str(descriptor.shape@) + ", got "@
                        + spec_dec_nat(data@.len())
                }
            },
        },
{
    let expected = match shape_element_count(self_shape(descriptor)) {
        Ok(n) => n,
        Err(e) => {
            return Err(e);
        },
    };
    let actual = data.len();
    if actual == expected {
        let mut out: Vec<WireScalar> = Vec::new();
        let mut i: usize = 0;
        while i < data.len()
            invariant
                i <= data@.len(),
                out@ =~= data@.subrange(0, i as int),
            decreases data@.len() - i,
        {
            out.push(data[i].clone());
            i += 1;
        }
        proof {
            assert(data@.subrange(0, data@.len() as int) =~= data@);
        }
        return Ok(out);
    }
    if actual == 1 && expected > 1 {
        let mut out: Vec<WireScalar> = Vec::new();
        let mut i: usize = 0;
        while i < expected
            invariant
                i <= expected,
                data@.len() == 1,
                out@.len() == i,
                forall|k: int| 0 <= k < i ==> out@[k] == data@[0],
            decreases expected - i,
        {
            out.push(data[0].clone());
            i += 1;
        }
        return Ok(out);
    }
    let mut m = "input data length mismatch: expected ".to_owned();
    m.append(u64_to_string(expected as u64).as_str());
    m.append(" values for shape ");
    m.append(shape_to_string(self_shape(descriptor)).as_str());
    m.append(", got ");
    m.append(u64_to_string(actual as u64).as_str());
    Err(RunnerError::BadRequest(m))
}

/// The shape of a descriptor as a slice.
fn self_shape(descriptor: &TensorDescriptor) -> (r: &[usize])
    ensures
        r@ == descriptor.shape@,
{
    descriptor.shape.as_slice()
}

} // verus!
