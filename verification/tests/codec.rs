use graph_bridge::decode::OutValue;
use graph_bridge::decode::cast_output_data;
use graph_bridge::decode::cast_output_data_compact;
use graph_bridge::encode::TypedBuffer;
use graph_bridge::encode::to_tensor_data;
use graph_bridge::errors::RunnerError;
use graph_bridge::wire::TensorDescriptor;
use graph_bridge::wire::WireScalar;
use graph_bridge::wire::normalize_input_values;
use graph_bridge::wire::shape_element_count;

fn num_i(n: i64) -> WireScalar {
    WireScalar::Num {
        int_val: Some(n),
        uint_val: if n >= 0 { Some(n as u64) } else { None },
        float_bits: (n as f64).to_bits(),
        text: format!("{n}"),
    }
}

fn num_u(n: u64) -> WireScalar {
    WireScalar::Num {
        int_val: if n <= i64::MAX as u64 { Some(n as i64) } else { None },
        uint_val: Some(n),
        float_bits: (n as f64).to_bits(),
        text: format!("{n}"),
    }
}

fn num_f(x: f64) -> WireScalar {
    WireScalar::Num { int_val: None, uint_val: None, float_bits: x.to_bits(), text: format!("{x}") }
}

fn wire_str(s: &str) -> WireScalar {
    WireScalar::Str {
        text: s.to_string(),
        float_parse: s.parse::<f32>().ok().map(|v| v.to_bits()),
    }
}

fn desc(dtype: &str, shape: &[usize]) -> TensorDescriptor {
    TensorDescriptor { data_type: dtype.to_string(), shape: shape.to_vec() }
}

fn bad_request_message(e: &RunnerError) -> String {
    match e {
        RunnerError::BadRequest(_) => e.message(),
        other => panic!("expected a bad request, got {}", other.message()),
    }
}

#[test]
fn element_count_has_a_floor_of_one() {
    assert_eq!(shape_element_count(&[]).unwrap(), 1);
    assert_eq!(shape_element_count(&[0]).unwrap(), 1);
    assert_eq!(shape_element_count(&[2, 0, 3]).unwrap(), 1);
    assert_eq!(shape_element_count(&[2, 3]).unwrap(), 6);
    assert_eq!(shape_element_count(&[7]).unwrap(), 7);
}

#[test]
fn element_count_overflow_is_a_bad_request() {
    let e = shape_element_count(&[usize::MAX, 2]).unwrap_err();
    assert_eq!(
        bad_request_message(&e),
        format!("bad request: shape element count overflow for shape [{}, 2]", usize::MAX)
    );
}

#[test]
fn broadcast_fills_every_slot() {
    let d = desc("int32", &[2, 3]);
    let out = to_tensor_data(&d, &vec![num_i(7)]).unwrap();
    match out {
        TypedBuffer::Int32(v) => assert_eq!(v, vec![7; 6]),
        _ => panic!("wrong buffer kind"),
    }
}

#[test]
fn broadcast_keeps_normalized_length() {
    let d = desc("int32", &[4]);
    let out = normalize_input_values(&d, &vec![num_i(5)]).unwrap();
    assert_eq!(out.len(), 4);
}

#[test]
fn wrong_length_is_a_bad_request() {
    let d = desc("float32", &[3]);
    let e = to_tensor_data(&d, &vec![num_i(1), num_i(2)]).unwrap_err();
    assert_eq!(
        bad_request_message(&e),
        "bad request: input data length mismatch: expected 3 values for shape [3], got 2"
    );
    let e2 = to_tensor_data(&d, &vec![num_i(1), num_i(2), num_i(3), num_i(4)]).unwrap_err();
    assert!(matches!(e2, RunnerError::BadRequest(_)));
}

#[test]
fn unsupported_data_type_is_a_bad_request() {
    let d = desc("complex64", &[1]);
    let e = to_tensor_data(&d, &vec![num_i(1)]).unwrap_err();
    assert_eq!(bad_request_message(&e), "bad request: unsupported input dataType: complex64");
}

#[test]
fn encode_float32_stores_narrowed_bits() {
    let d = desc("float32", &[2]);
    let out = to_tensor_data(&d, &vec![num_f(1.5), num_f(0.1)]).unwrap();
    match out {
        TypedBuffer::Float32(v) => {
            assert_eq!(v, vec![1.5f32.to_bits(), 0.1f32.to_bits()]);
        },
        _ => panic!("wrong buffer kind"),
    }
}

#[test]
fn encode_float16_stores_half_bits() {
    let d = desc("float16", &[2]);
    let out = to_tensor_data(&d, &vec![num_f(1.5), num_i(1)]).unwrap();
    match out {
        TypedBuffer::Float16(v) => assert_eq!(v, vec![0x3E00, 0x3C00]),
        _ => panic!("wrong buffer kind"),
    }
}

#[test]
fn encode_integers_wrap_not_saturate() {
    let d8 = desc("int8", &[2]);
    match to_tensor_data(&d8, &vec![num_i(300), num_i(-1)]).unwrap() {
        TypedBuffer::Int8(v) => assert_eq!(v, vec![300i64 as i8, -1]),
        _ => panic!("wrong buffer kind"),
    }
    let du8 = desc("uint8", &[1]);
    match to_tensor_data(&du8, &vec![num_u(300)]).unwrap() {
        TypedBuffer::Uint8(v) => assert_eq!(v, vec![300u64 as u8]),
        _ => panic!("wrong buffer kind"),
    }
    let d32 = desc("int32", &[1]);
    match to_tensor_data(&d32, &vec![num_i(1) , ]).unwrap() {
        TypedBuffer::Int32(v) => assert_eq!(v, vec![1]),
        _ => panic!("wrong buffer kind"),
    }
    let d32b = desc("int32", &[1]);
    match to_tensor_data(&d32b, &vec![num_i(0x1_0000_0005)]).unwrap() {
        TypedBuffer::Int32(v) => assert_eq!(v, vec![0x1_0000_0005i64 as i32]),
        _ => panic!("wrong buffer kind"),
    }
}

#[test]
fn four_bit_types_share_wider_storage() {
    let d = desc("uint4", &[1]);
    match to_tensor_data(&d, &vec![num_u(20)]).unwrap() {
        TypedBuffer::Uint8(v) => assert_eq!(v, vec![20]),
        _ => panic!("wrong buffer kind"),
    }
    let d4 = desc("int4", &[1]);
    match to_tensor_data(&d4, &vec![num_i(-3)]).unwrap() {
        TypedBuffer::Int32(v) => assert_eq!(v, vec![-3]),
        _ => panic!("wrong buffer kind"),
    }
}

#[test]
fn encode_sixty_four_bit_exactly() {
    let d = desc("int64", &[2]);
    match to_tensor_data(&d, &vec![num_i(i64::MIN), wire_str("9007199254740993")]).unwrap() {
        TypedBuffer::Int64(v) => assert_eq!(v, vec![i64::MIN, 9007199254740993]),
        _ => panic!("wrong buffer kind"),
    }
    let du = desc("uint64", &[1]);
    match to_tensor_data(&du, &vec![num_u(u64::MAX)]).unwrap() {
        TypedBuffer::Uint64(v) => assert_eq!(v, vec![u64::MAX]),
        _ => panic!("wrong buffer kind"),
    }
}

#[test]
fn string_scalars_parse_per_type() {
    let d = desc("int32", &[1]);
    match to_tensor_data(&d, &vec![wire_str("-42")]).unwrap() {
        TypedBuffer::Int32(v) => assert_eq!(v, vec![-42]),
        _ => panic!("wrong buffer kind"),
    }
    let df = desc("float32", &[1]);
    match to_tensor_data(&df, &vec![wire_str("2.5")]).unwrap() {
        TypedBuffer::Float32(v) => assert_eq!(v, vec![2.5f32.to_bits()]),
        _ => panic!("wrong buffer kind"),
    }
}

#[test]
fn invalid_scalars_name_the_value() {
    let d = desc("int64", &[1]);
    let e = to_tensor_data(&d, &vec![wire_str("abc")]).unwrap_err();
    assert_eq!(bad_request_message(&e), "bad request: invalid int64 value: abc");
    let d2 = desc("int64", &[1]);
    let e2 = to_tensor_data(&d2, &vec![num_f(1.5)]).unwrap_err();
    assert_eq!(bad_request_message(&e2), "bad request: invalid int64 value: 1.5");
    let d3 = desc("uint64", &[1]);
    let e3 = to_tensor_data(&d3, &vec![num_i(-1)]).unwrap_err();
    assert_eq!(bad_request_message(&e3), "bad request: invalid uint64 value: -1");
    let d4 = desc("float32", &[1]);
    let e4 = to_tensor_data(&d4, &vec![wire_str("not-a-number")]).unwrap_err();
    assert_eq!(bad_request_message(&e4), "bad request: invalid float value: not-a-number");
}

fn bits(values: &[f64]) -> Vec<u64> {
    values.iter().map(|x| x.to_bits()).collect()
}

fn expect_num(o: &OutValue, x: f64) {
    match o {
        OutValue::Num(b) => assert_eq!(*b, x.to_bits(), "expected {x}"),
        _ => panic!("expected a number"),
    }
}

fn expect_text(o: &OutValue, s: &str) {
    match o {
        OutValue::Text(t) => assert_eq!(t, s),
        _ => panic!("expected the string {s:?}"),
    }
}

fn expect_int(o: &OutValue, n: i64) {
    match o {
        OutValue::Int(v) => assert_eq!(*v, n),
        _ => panic!("expected the integer {n}"),
    }
}

fn expect_uint(o: &OutValue, n: u64) {
    match o {
        OutValue::UInt(v) => assert_eq!(*v, n),
        _ => panic!("expected the integer {n}"),
    }
}

#[test]
fn decode_float32_passes_finite_values_through() {
    let out = cast_output_data(&bits(&[4.0, 6.5]), None, None, "float32");
    assert_eq!(out.len(), 2);
    expect_num(&out[0], 4.0);
    expect_num(&out[1], 6.5);
}

#[test]
fn decode_nonfinite_floats_as_sentinel_strings() {
    let out = cast_output_data(
        &bits(&[f64::NAN, f64::INFINITY, f64::NEG_INFINITY]),
        None,
        None,
        "float32",
    );
    expect_text(&out[0], "NaN");
    expect_text(&out[1], "Infinity");
    expect_text(&out[2], "-Infinity");
    let out16 = cast_output_data(
        &bits(&[f64::NAN, f64::INFINITY, f64::NEG_INFINITY]),
        None,
        None,
        "float16",
    );
    expect_text(&out16[0], "NaN");
    expect_text(&out16[1], "Infinity");
    expect_text(&out16[2], "-Infinity");
}

#[test]
fn decode_float16_rounds_through_half_precision() {
    let out = cast_output_data(&bits(&[1.5, 0.1, 65520.0]), None, None, "float16");
    expect_num(&out[0], 1.5);
    let half_tenth = f32::from_bits(graph_bridge::fbits::f16_to_f32(0x2E66)) as f64;
    expect_num(&out[1], half_tenth);
    // overflows half precision into infinity
    expect_text(&out[2], "Infinity");
}

#[test]
fn decode_int4_is_clamped() {
    let out = cast_output_data(&bits(&[100.0, -100.0, 5.0, -8.9]), None, None, "int4");
    expect_int(&out[0], 7);
    expect_int(&out[1], -8);
    expect_int(&out[2], 5);
    expect_int(&out[3], -8);
}

#[test]
fn decode_narrow_integers_saturate_like_casts() {
    let out = cast_output_data(&bits(&[300.0, -300.0, 7.9, f64::NAN]), None, None, "int8");
    expect_int(&out[0], 127);
    expect_int(&out[1], -128);
    expect_int(&out[2], 7);
    expect_int(&out[3], 0);
    let out_u = cast_output_data(&bits(&[300.0, -1.0, 7.9]), None, None, "uint8");
    expect_uint(&out_u[0], 255);
    expect_uint(&out_u[1], 0);
    expect_uint(&out_u[2], 7);
    let out32 = cast_output_data(&bits(&[3e9, -3e9]), None, None, "int32");
    expect_int(&out32[0], i32::MAX as i64);
    expect_int(&out32[1], i32::MIN as i64);
    let out_u32 = cast_output_data(&bits(&[5e9, -2.0]), None, None, "uint32");
    expect_uint(&out_u32[0], 4294967295);
    expect_uint(&out_u32[1], 0);
}

#[test]
fn decode_sixty_four_bit_as_strings() {
    let exact: Vec<i64> = vec![i64::MIN, 9007199254740993];
    let out = cast_output_data(&bits(&[0.0, 0.0]), Some(&exact), None, "int64");
    expect_text(&out[0], "-9223372036854775808");
    expect_text(&out[1], "9007199254740993");
    // fallback without the exact sequence: truncated wide value, still a string
    let out_fb = cast_output_data(&bits(&[42.9, -7.2]), None, None, "int64");
    expect_text(&out_fb[0], "42");
    expect_text(&out_fb[1], "-7");
    let exact_u: Vec<u64> = vec![u64::MAX];
    let out_u = cast_output_data(&bits(&[0.0]), None, Some(&exact_u), "uint64");
    expect_text(&out_u[0], "18446744073709551615");
    let out_ufb = cast_output_data(&bits(&[1e19]), None, None, "uint64");
    expect_text(&out_ufb[0], format!("{}", 1e19 as u64).as_str());
}

#[test]
fn decode_unknown_type_defaults_to_float_encoding() {
    let out = cast_output_data(&bits(&[2.5, f64::NAN]), None, None, "mystery");
    expect_num(&out[0], 2.5);
    expect_text(&out[1], "NaN");
}

#[test]
fn compact_mode_returns_one_element() {
    let exact: Vec<i64> = vec![11, 22, 33, 44];
    let out = cast_output_data_compact(
        &bits(&[1.0, 2.0, 3.0, 4.0]),
        Some(&exact),
        None,
        "int64",
        1,
    );
    assert_eq!(out.len(), 1);
    expect_text(&out[0], "11");
    let out_full = cast_output_data_compact(&bits(&[1.0, 2.0, 3.0, 4.0]), None, None, "float32", 4);
    assert_eq!(out_full.len(), 4);
    let out_f = cast_output_data_compact(&bits(&[1.5, 2.0]), None, None, "float32", 1);
    assert_eq!(out_f.len(), 1);
    expect_num(&out_f[0], 1.5);
}

#[test]
fn encode_then_decode_round_trips_in_range_values() {
    // float32: the engine would widen the stored bits back to doubles
    let d = desc("float32", &[3]);
    let values = [1.5f64, -0.125, 3.0];
    match to_tensor_data(&d, &values.iter().map(|x| num_f(*x)).collect()).unwrap() {
        TypedBuffer::Float32(v) => {
            let widened: Vec<u64> = v.iter().map(|b| (f32::from_bits(*b) as f64).to_bits()).collect();
            let out = cast_output_data(&widened, None, None, "float32");
            for (o, x) in out.iter().zip(values.iter()) {
                expect_num(o, *x);
            }
        },
        _ => panic!("wrong buffer kind"),
    }
    // int32 / uint32 / int8 / uint8: exact through the wide-float channel
    let cases: [(&str, i64); 4] = [("int32", -123456), ("uint32", 123456), ("int8", -12), ("uint8", 200)];
    for (dtype, x) in cases {
        let d = desc(dtype, &[1]);
        let scalar = if x >= 0 { num_u(x as u64) } else { num_i(x) };
        let buf = to_tensor_data(&d, &vec![scalar]).unwrap();
        let widened: Vec<u64> = match &buf {
            TypedBuffer::Int32(v) => v.iter().map(|n| (*n as f64).to_bits()).collect(),
            TypedBuffer::Uint32(v) => v.iter().map(|n| (*n as f64).to_bits()).collect(),
            TypedBuffer::Int8(v) => v.iter().map(|n| (*n as f64).to_bits()).collect(),
            TypedBuffer::Uint8(v) => v.iter().map(|n| (*n as f64).to_bits()).collect(),
            _ => panic!("wrong buffer kind"),
        };
        let out = cast_output_data(&widened, None, None, dtype);
        assert_eq!(out.len(), 1);
        match &out[0] {
            OutValue::Int(n) => assert_eq!(*n, x),
            OutValue::UInt(n) => assert_eq!(*n as i64, x),
            _ => panic!("expected an integer back"),
        }
    }
}
