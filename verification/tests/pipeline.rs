use graph_bridge::decode::OutValue;
use graph_bridge::encode::TypedBuffer;
use graph_bridge::errors::RunnerError;
use graph_bridge::errors::classify_graph_error;
use graph_bridge::errors::error_kind;
use graph_bridge::orchestrate::Action;
use graph_bridge::orchestrate::EngineEvent;
use graph_bridge::orchestrate::EngineOutput;
use graph_bridge::orchestrate::Execution;
use graph_bridge::orchestrate::ExpectedOutput;
use graph_bridge::orchestrate::NamedInput;
use graph_bridge::orchestrate::NamedOutput;
use graph_bridge::orchestrate::start;
use graph_bridge::orchestrate::step;
use graph_bridge::protocol::failure_response;
use graph_bridge::protocol::invalid_request_response;
use graph_bridge::protocol::read_error_response;
use graph_bridge::protocol::success_response;
use graph_bridge::wire::TensorDescriptor;
use graph_bridge::wire::WireScalar;

fn num_f(x: f64) -> WireScalar {
    WireScalar::Num { int_val: None, uint_val: None, float_bits: x.to_bits(), text: format!("{x}") }
}

fn num_i(n: i64) -> WireScalar {
    WireScalar::Num {
        int_val: Some(n),
        uint_val: if n >= 0 { Some(n as u64) } else { None },
        float_bits: (n as f64).to_bits(),
        text: format!("{n}"),
    }
}

fn input(name: &str, dtype: &str, shape: &[usize], data: Vec<WireScalar>) -> NamedInput {
    NamedInput {
        name: name.to_string(),
        descriptor: TensorDescriptor { data_type: dtype.to_string(), shape: shape.to_vec() },
        data,
    }
}

fn float_output(name: &str, shape: &[usize], values: &[f64]) -> EngineOutput {
    EngineOutput {
        name: name.to_string(),
        shape: shape.to_vec(),
        data: values.iter().map(|x| x.to_bits()).collect(),
        int64_data: None,
        uint64_data: None,
    }
}

fn advance(state: Execution, ev: EngineEvent) -> (Execution, Action) {
    step(state, ev)
}

fn expect_num(o: &OutValue, x: f64) {
    match o {
        OutValue::Num(b) => assert_eq!(*b, x.to_bits(), "expected {x}"),
        _ => panic!("expected a number"),
    }
}

fn run_add_pipeline(expected: Vec<ExpectedOutput>) -> Result<Vec<NamedOutput>, RunnerError> {
    let inputs = vec![
        input("A", "float32", &[2], vec![num_i(1), num_i(2)]),
        input("B", "float32", &[2], vec![num_i(3), num_i(4)]),
    ];
    let (state, action) = start(inputs, expected);
    assert!(matches!(action, Action::DoParse));
    let (state, action) = advance(state, EngineEvent::ParseOk);
    assert!(matches!(action, Action::DoValidate));
    let (state, action) = advance(state, EngineEvent::ValidateOk);
    assert!(matches!(action, Action::DoConvert));
    let (state, action) = advance(state, EngineEvent::ConvertOk);
    let encoded = match action {
        Action::DoRun(enc) => enc,
        _ => panic!("expected a run request"),
    };
    assert_eq!(encoded.len(), 2);
    assert_eq!(encoded[0].name, "A");
    assert_eq!(encoded[0].shape, vec![2]);
    match &encoded[0].data {
        TypedBuffer::Float32(v) => assert_eq!(v, &vec![1.0f32.to_bits(), 2.0f32.to_bits()]),
        _ => panic!("wrong buffer kind"),
    }
    // the engine computes A + B
    let outs = vec![float_output("C", &[2], &[4.0, 6.0])];
    let (_state, action) = advance(state, EngineEvent::RunOk(outs));
    match action {
        Action::Finish(res) => res,
        _ => panic!("expected the pipeline to finish"),
    }
}

#[test]
fn add_graph_end_to_end_without_hints() {
    let outputs = run_add_pipeline(vec![]).unwrap();
    assert_eq!(outputs.len(), 1);
    assert_eq!(outputs[0].name, "C");
    assert_eq!(outputs[0].tensor.data_type, "float32");
    assert_eq!(outputs[0].tensor.shape, vec![2]);
    expect_num(&outputs[0].tensor.data[0], 4.0);
    expect_num(&outputs[0].tensor.data[1], 6.0);
    let resp = success_response("t1".to_string(), outputs);
    assert_eq!(resp.id, "t1");
    assert!(resp.ok);
    assert!(resp.outputs.is_some());
    assert!(resp.error.is_none());
}

#[test]
fn add_graph_end_to_end_with_hint() {
    let hint = ExpectedOutput {
        name: "C".to_string(),
        data_type: "float32".to_string(),
        value_count: 2,
    };
    let outputs = run_add_pipeline(vec![hint]).unwrap();
    assert_eq!(outputs.len(), 1);
    assert_eq!(outputs[0].name, "C");
    expect_num(&outputs[0].tensor.data[0], 4.0);
    expect_num(&outputs[0].tensor.data[1], 6.0);
}

#[test]
fn unsupported_data_type_fails_as_bad_request() {
    let inputs = vec![input("A", "complex64", &[1], vec![num_i(1)])];
    let (state, _) = start(inputs, vec![]);
    let (state, _) = advance(state, EngineEvent::ParseOk);
    let (state, _) = advance(state, EngineEvent::ValidateOk);
    let (_state, action) = advance(state, EngineEvent::ConvertOk);
    let err = match action {
        Action::Finish(Err(e)) => e,
        _ => panic!("expected a failure before the engine runs"),
    };
    assert!(matches!(err, RunnerError::BadRequest(_)));
    let resp = failure_response("t2".to_string(), &err);
    assert!(!resp.ok);
    let payload = resp.error.unwrap();
    assert_eq!(payload.kind, "BadRequestError");
    assert_eq!(payload.message, "bad request: unsupported input dataType: complex64");
}

#[test]
fn invalid_line_yields_unknown_id_bad_request() {
    let resp = invalid_request_response("expected value at line 1 column 1");
    assert_eq!(resp.id, "unknown");
    assert!(!resp.ok);
    assert!(resp.outputs.is_none());
    let payload = resp.error.unwrap();
    assert_eq!(payload.kind, "BadRequestError");
    assert_eq!(payload.message, "invalid json request: expected value at line 1 column 1");
}

#[test]
fn read_error_yields_unknown_id() {
    let resp = read_error_response("stream closed".to_string());
    assert_eq!(resp.id, "unknown");
    assert!(!resp.ok);
    let payload = resp.error.unwrap();
    assert_eq!(payload.kind, "BadRequestError");
    assert_eq!(payload.message, "stream closed");
}

#[test]
fn missing_expected_output_is_a_runtime_error() {
    let hint = ExpectedOutput {
        name: "D".to_string(),
        data_type: "float32".to_string(),
        value_count: 2,
    };
    let err = run_add_pipeline(vec![hint]).unwrap_err();
    match &err {
        RunnerError::RuntimeExecution(m) => assert_eq!(m, "missing output from runtime: D"),
        _ => panic!("expected a runtime error"),
    }
    assert_eq!(error_kind(&err), "RuntimeExecutionError");
}

#[test]
fn stage_failures_keep_their_kinds() {
    let inputs = vec![input("A", "float32", &[1], vec![num_f(1.0)])];
    let (state, _) = start(inputs, vec![]);
    let (_, action) = advance(state, EngineEvent::ParseFailed("bad graph json".to_string()));
    match action {
        Action::Finish(Err(RunnerError::GraphValidation(m))) => assert_eq!(m, "bad graph json"),
        _ => panic!("expected a validation failure"),
    }

    let inputs = vec![input("A", "float32", &[1], vec![num_f(1.0)])];
    let (state, _) = start(inputs, vec![]);
    let (state, _) = advance(state, EngineEvent::ParseOk);
    let (_, action) = advance(state, EngineEvent::ValidateFailed("op not allowed".to_string()));
    match action {
        Action::Finish(Err(RunnerError::GraphValidation(m))) => assert_eq!(m, "op not allowed"),
        _ => panic!("expected a validation failure"),
    }

    let inputs = vec![input("A", "float32", &[1], vec![num_f(1.0)])];
    let (state, _) = start(inputs, vec![]);
    let (state, _) = advance(state, EngineEvent::ParseOk);
    let (state, _) = advance(state, EngineEvent::ValidateOk);
    let (_, action) = advance(state, EngineEvent::ConvertFailed("no backend".to_string()));
    match action {
        Action::Finish(Err(RunnerError::GraphConversion(m))) => assert_eq!(m, "no backend"),
        _ => panic!("expected a conversion failure"),
    }
}

#[test]
fn run_failures_are_classified_by_text() {
    match classify_graph_error("input tensor mismatch".to_string()) {
        RunnerError::GraphValidation(m) => assert_eq!(m, "input tensor mismatch"),
        _ => panic!("expected a validation classification"),
    }
    match classify_graph_error("onnx runtime rejected the model".to_string()) {
        RunnerError::GraphConversion(_) => {},
        _ => panic!("expected a conversion classification"),
    }
    match classify_graph_error("kernel crashed".to_string()) {
        RunnerError::RuntimeExecution(m) => assert_eq!(m, "kernel crashed"),
        _ => panic!("expected an execution classification"),
    }
}

#[test]
fn error_kinds_and_messages_are_stable() {
    let cases: [(RunnerError, &str, &str); 4] = [
        (
            RunnerError::BadRequest("x".to_string()),
            "BadRequestError",
            "bad request: x",
        ),
        (
            RunnerError::GraphValidation("x".to_string()),
            "GraphValidationError",
            "graph validation failed: x",
        ),
        (
            RunnerError::GraphConversion("x".to_string()),
            "GraphConversionError",
            "graph conversion failed: x",
        ),
        (
            RunnerError::RuntimeExecution("x".to_string()),
            "RuntimeExecutionError",
            "runtime execution failed: x",
        ),
    ];
    for (e, kind, message) in cases {
        assert_eq!(error_kind(&e), kind);
        assert_eq!(e.message(), message);
    }
}

#[test]
fn mismatched_events_end_the_request() {
    let inputs = vec![input("A", "float32", &[1], vec![num_f(1.0)])];
    let (state, _) = start(inputs, vec![]);
    let (state, action) = advance(state, EngineEvent::RunOk(vec![]));
    match action {
        Action::Finish(Err(RunnerError::RuntimeExecution(m))) => {
            assert_eq!(m, "unexpected engine event")
        },
        _ => panic!("expected the unexpected-event error"),
    }
    // and the state stays finished
    let (_, action) = advance(state, EngineEvent::ParseOk);
    assert!(matches!(action, Action::Finish(Err(RunnerError::RuntimeExecution(_)))));
}

#[test]
fn compact_hint_returns_single_element_through_pipeline() {
    let hint = ExpectedOutput {
        name: "C".to_string(),
        data_type: "float32".to_string(),
        value_count: 1,
    };
    let outputs = run_add_pipeline(vec![hint]).unwrap();
    assert_eq!(outputs.len(), 1);
    assert_eq!(outputs[0].tensor.data.len(), 1);
    expect_num(&outputs[0].tensor.data[0], 4.0);
}

#[test]
fn sixty_four_bit_outputs_use_exact_sequences() {
    let inputs = vec![input("A", "int64", &[1], vec![num_i(5)])];
    let hint = ExpectedOutput {
        name: "C".to_string(),
        data_type: "int64".to_string(),
        value_count: 1,
    };
    let (state, _) = start(inputs, vec![hint]);
    let (state, _) = advance(state, EngineEvent::ParseOk);
    let (state, _) = advance(state, EngineEvent::ValidateOk);
    let (state, action) = advance(state, EngineEvent::ConvertOk);
    assert!(matches!(action, Action::DoRun(_)));
    let out = EngineOutput {
        name: "C".to_string(),
        shape: vec![1],
        data: vec![(9007199254740993i64 as f64).to_bits()],
        int64_data: Some(vec![9007199254740993]),
        uint64_data: None,
    };
    let (_, action) = advance(state, EngineEvent::RunOk(vec![out]));
    let outputs = match action {
        Action::Finish(Ok(v)) => v,
        _ => panic!("expected success"),
    };
    match &outputs[0].tensor.data[0] {
        OutValue::Text(s) => assert_eq!(s, "9007199254740993"),
        _ => panic!("expected a decimal string"),
    }
}
