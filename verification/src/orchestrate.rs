//! The per-request execution pipeline, as an explicit state machine.
//!
//! The host owns the engine (graph parsing, validation, backend
//! conversion, and the run itself) and cannot be verified; the
//! decisions between those calls can.  The host asks `start` for the
//! first action, performs it, and reports what happened; `step` then
//! decides the next action.  Encoding the inputs, classifying stage
//! failures, and marshalling the outputs all happen here, in verified
//! code, on plain values.
use crate::decode::OutValue;
use crate::decode::cast_output_data;
use crate::decode::cast_output_data_compact;
use crate::decode::cast_post;
use crate::decode::compact_cast_post;
use crate::encode::TypedBuffer;
use crate::encode::input_encodable;
use crate::encode::to_tensor_post;
use crate::encode::to_tensor_data;
use crate::errors::RunnerError;
use crate::errors::classify_graph_error;
use crate::errors::classify_post;
use crate::text::str_eq;
use crate::wire::DType;
use crate::wire::TensorDescriptor;
use crate::wire::WireScalar;
use vstd::prelude::*;
use vstd::string::StringExecFns;

verus! {

/// One named input tensor of a request.
pub struct NamedInput {
    pub name: String,
    pub descriptor: TensorDescriptor,
    pub data: Vec<WireScalar>,
}

/// One expected-output hint of a request: it selects the output's wire
/// element type and, through its value count, compact or full
/// encoding.  It never filters the engine's output contents.
pub struct ExpectedOutput {
    pub name: String,
    pub data_type: String,
    pub value_count: usize,
}

/// One named raw output of the engine: a shape, the wide-float values
/// (as bit patterns), and optional exact 64-bit parallel sequences.
pub struct EngineOutput {
    pub name: String,
    pub shape: Vec<usize>,
    pub data: Vec<u64>,
    pub int64_data: Option<Vec<i64>>,
    pub uint64_data: Option<Vec<u64>>,
}

/// A well-formed engine output carries exact sequences of the same
/// length as its wide-float sequence, when it carries them at all.
pub open spec fn engine_output_wf(o: EngineOutput) -> bool {
    (o.int64_data matches Some(v) ==> v@.len() == o.data@.len()) && (o.uint64_data matches Some(v)
        ==> v@.len() == o.data@.len())
}

/// One encoded input, ready for the engine.
pub struct EncodedInput {
    pub name: String,
    pub shape: Vec<usize>,
    pub data: TypedBuffer,
}

/// One decoded output tensor of a response.
#[derive(Debug)]
pub struct OutputTensor {
    pub data_type: String,
    pub shape: Vec<usize>,
    pub data: Vec<OutValue>,
}

/// A decoded output tensor with the name it is keyed by.
#[derive(Debug)]
pub struct NamedOutput {
    pub name: String,
    pub tensor: OutputTensor,
}

/// The view of an optional owned vector.
pub open spec fn opt_owned_view<T>(o: Option<Vec<T>>) -> Option<Seq<T>> {
    match o {
        Some(v) => Some(v@),
        None => None,
    }
}

/// What the host reports back after performing an action.
pub enum EngineEvent {
    ParseOk,
    ParseFailed(String),
    ValidateOk,
    ValidateFailed(String),
    ConvertOk,
    ConvertFailed(String),
    RunOk(Vec<EngineOutput>),
    RunFailed(String),
}

/// What the host is asked to do next.
pub enum Action {
    DoParse,
    DoValidate,
    DoConvert,
    DoRun(Vec<EncodedInput>),
    Finish(Result<Vec<NamedOutput>, RunnerError>),
}

/// Where the pipeline stands.
pub enum Phase {
    Parsing,
    Validating,
    Converting,
    Running,
    Finished,
}

/// The contract of encoding every input of a request, in order:
/// success yields one encoded input per supplied input; failure
/// carries the error of the first input that does not encode.
pub open spec fn encode_all_post(
    inputs: Seq<NamedInput>,
    r: Result<Vec<EncodedInput>, RunnerError>,
) -> bool {
    match r {
        Ok(v) => v@.len() == inputs.len() && (forall|i: int|
            0 <= i < inputs.len() ==> {
                &&& (#[trigger] v@[i]).name@ == inputs[i].name@
                &&& v@[i].shape@ == inputs[i].descriptor.shape@
                &&& to_tensor_post(
                    inputs[i].descriptor,
                    inputs[i].data@,
                    Ok::<TypedBuffer, RunnerError>(v@[i].data),
                )
            }),
        Err(e) => e is BadRequest && exists|j: int|
            #![auto]
            0 <= j < inputs.len() && !input_encodable(inputs[j].descriptor, inputs[j].data@) && (
            forall|k: int|
                0 <= k < j ==> input_encodable(
                    (#[trigger] inputs[k]).descriptor,
                    inputs[k].data@,
                )) && to_tensor_post(
                inputs[j].descriptor,
                inputs[j].data@,
                Err::<TypedBuffer, RunnerError>(e),
            ),
    }
}

/// Encodes every input of a request, in request order, stopping at the
/// first failure.
pub fn encode_all(inputs: &Vec<NamedInput>) -> (r: Result<Vec<EncodedInput>, RunnerError>)
    ensures
        encode_all_post(inputs@, r),
        r is Ok <==> (forall|i: int|
            0 <= i < inputs@.len() ==> input_encodable(
                (#[trigger] inputs@[i]).descriptor,
                inputs@[i].data@,
            )),
{
    let mut out: Vec<EncodedInput> = Vec::new();
    let mut i: usize = 0;
    while i < inputs.len()
        invariant
            i <= inputs@.len(),
            out@.len() == i,
            forall|k: int|
                0 <= k < i ==> {
                    &&& (#[trigger] out@[k]).name@ == inputs@[k].name@
                    &&& out@[k].shape@ == inputs@[k].descriptor.shape@
                    &&& to_tensor_post(
                        inputs@[k].descriptor,
                        inputs@[k].data@,
                        Ok::<TypedBuffer, RunnerError>(out@[k].data),
                    )
                },
            forall|k: int|
                0 <= k < i ==> input_encodable((#[trigger] inputs@[k]).descriptor, inputs@[k].data@),
        decreases inputs@.len() - i,
    {
        let inp = &inputs[i];
        match to_tensor_data(&inp.descriptor, &inp.data) {
            Ok(buf) => {
                out.push(
                    EncodedInput {
                        name: inp.name.clone(),
                        shape: inp.descriptor.shape.clone(),
                        data: buf,
                    },
                );
            },
            Err(e) => {
                proof {
                    assert(!input_encodable(inputs@[i as int].descriptor, inputs@[i as int].data@));
                }
                return Err(e);
            },
        }
        i += 1;
    }
    Ok(out)
}

/// The position of the first engine output bearing `name`, or a
/// negative value where none does.
pub open spec fn find_idx(outputs: Seq<EngineOutput>, name: Seq<char>) -> int
    decreases outputs.len(),
{
    if outputs.len() == 0 {
        -1
    } else if outputs[0].name@ == name {
        0
    } else {
        let t = find_idx(outputs.drop_first(), name);
        if t < 0 {
            -1
        } else {
            1 + t
        }
    }
}

proof fn lemma_find_idx_hit(outputs: Seq<EngineOutput>, name: Seq<char>, t: int)
    requires
        0 <= t < outputs.len(),
        outputs[t].name@ == name,
        forall|k: int| 0 <= k < t ==> (#[trigger] outputs[k]).name@ != name,
    ensures
        find_idx(outputs, name) == t,
    decreases t,
{
    if t > 0 {
        assert(forall|k: int|
            0 <= k < outputs.drop_first().len() ==> #[trigger] outputs.drop_first()[k] == outputs[k
                + 1]);
        lemma_find_idx_hit(outputs.drop_first(), name, t - 1);
    }
}

proof fn lemma_find_idx_miss(outputs: Seq<EngineOutput>, name: Seq<char>)
    requires
        forall|k: int| 0 <= k < outputs.len() ==> (#[trigger] outputs[k]).name@ != name,
    ensures
        find_idx(outputs, name) < 0,
    decreases outputs.len(),
{
    if outputs.len() > 0 {
        assert(forall|k: int|
            0 <= k < outputs.drop_first().len() ==> #[trigger] outputs.drop_first()[k] == outputs[k
                + 1]);
        lemma_find_idx_miss(outputs.drop_first(), name);
    }
}

/// The position of the first hint whose name no engine output bears
/// (the hint count where every hint is matched).
pub open spec fn first_missing(expected: Seq<ExpectedOutput>, outputs: Seq<EngineOutput>) -> int
    decreases expected.len(),
{
    if expected.len() == 0 {
        0
    } else if find_idx(outputs, expected[0].name@) < 0 {
        0
    } else {
        1 + first_missing(expected.drop_first(), outputs)
    }
}

proof fn lemma_first_missing(expected: Seq<ExpectedOutput>, outputs: Seq<EngineOutput>, i: int)
    requires
        0 <= i < expected.len(),
        find_idx(outputs, expected[i].name@) < 0,
        forall|k: int| 0 <= k < i ==> find_idx(outputs, (#[trigger] expected[k]).name@) >= 0,
    ensures
        first_missing(expected, outputs) == i,
    decreases i,
{
    if i > 0 {
        assert(forall|k: int|
            0 <= k < expected.drop_first().len() ==> #[trigger] expected.drop_first()[k]
                == expected[k + 1]);
        lemma_first_missing(expected.drop_first(), outputs, i - 1);
    }
}

/// The contract of output selection and decoding: with no hints, every
/// engine output is decoded as `float32`, in the order given; with
/// hints, each hint selects and decodes the engine output of its name
/// (the engine's shape, the hint's element type), and the first
/// unmatched hint name fails the request.
pub open spec fn collect_post(
    expected: Seq<ExpectedOutput>,
    outputs: Seq<EngineOutput>,
    r: Result<Vec<NamedOutput>, RunnerError>,
) -> bool {
    if expected.len() == 0 {
        r matches Ok(v) && v@.len() == outputs.len() && (forall|i: int|
            0 <= i < outputs.len() ==> {
                &&& (#[trigger] v@[i]).name@ == outputs[i].name@
                &&& v@[i].tensor.data_type@ == "float32"@
                &&& v@[i].tensor.shape@ == outputs[i].shape@
                &&& cast_post(
                    DType::Float32,
                    outputs[i].data@,
                    opt_owned_view(outputs[i].int64_data),
                    opt_owned_view(outputs[i].uint64_data),
                    v@[i].tensor.data@,
                )
            })
    } else if forall|i: int|
        0 <= i < expected.len() ==> find_idx(outputs, (#[trigger] expected[i]).name@) >= 0 {
        r matches Ok(v) && v@.len() == expected.len() && (forall|i: int|
            0 <= i < expected.len() ==> {
                let oi = find_idx(outputs, (#[trigger] expected[i]).name@);
                &&& (#[trigger] v@[i]).name@ == expected[i].name@
                &&& v@[i].tensor.data_type@ == expected[i].data_type@
                &&& v@[i].tensor.shape@ == outputs[oi].shape@
                &&& compact_cast_post(
                    crate::wire::spec_dtype(expected[i].data_type@),
                    outputs[oi].data@,
                    opt_owned_view(outputs[oi].int64_data),
                    opt_owned_view(outputs[oi].uint64_data),
                    expected[i].value_count as int,
                    v@[i].tensor.data@,
                )
            })
    } else {
        let j = first_missing(expected, outputs);
        r matches Err(RunnerError::RuntimeExecution(m)) && 0 <= j < expected.len() && find_idx(
            outputs,
            expected[j].name@,
        ) < 0 && m@ == "missing output from runtime: "@ + expected[j].name@
    }
}

/// Selects and decodes the engine's outputs per the request's hints.
pub fn collect_outputs(expected: &Vec<ExpectedOutput>, outputs: &Vec<EngineOutput>) -> (r: Result<
    Vec<NamedOutput>,
    RunnerError,
>)
    requires
        forall|i: int| 0 <= i < outputs@.len() ==> engine_output_wf(#[trigger] outputs@[i]),
    ensures
        collect_post(expected@, outputs@, r),
{
    if expected.len() == 0 {
        let mut out: Vec<NamedOutput> = Vec::new();
        let mut i: usize = 0;
        while i < outputs.len()
            invariant
                i <= outputs@.len(),
                out@.len() == i,
                forall|k: int|
                    0 <= k < i ==> {
                        &&& (#[trigger] out@[k]).name@ == outputs@[k].name@
                        &&& out@[k].tensor.data_type@ == "float32"@
                        &&& out@[k].tensor.shape@ == outputs@[k].shape@
                        &&& cast_post(
                            DType::Float32,
                            outputs@[k].data@,
                            opt_owned_view(outputs@[k].int64_data),
                            opt_owned_view(outputs@[k].uint64_data),
                            out@[k].tensor.data@,
                        )
                    },
            decreases outputs@.len() - i,
        {
            let o = &outputs[i];
            let decoded = cast_output_data(
                &o.data,
                match &o.int64_data {
                    Some(v) => Some(v),
                    None => None,
                },
                match &o.uint64_data {
                    Some(v) => Some(v),
                    None => None,
                },
                "float32",
            );
            out.push(
                NamedOutput {
                    name: o.name.clone(),
                    tensor: OutputTensor {
                        data_type: "float32".to_owned(),
                        shape: o.shape.clone(),
                        data: decoded,
                    },
                },
            );
            i += 1;
        }
        return Ok(out);
    }
    let mut out: Vec<NamedOutput> = Vec::new();
    let mut i: usize = 0;
    while i < expected.len()
        invariant
            i <= expected@.len(),
            out@.len() == i,
            forall|k: int| 0 <= k < outputs@.len() ==> engine_output_wf(#[trigger] outputs@[k]),
            forall|k: int|
                0 <= k < i ==> find_idx(outputs@, (#[trigger] expected@[k]).name@) >= 0,
            forall|k: int|
                0 <= k < i ==> {
                    let oi = find_idx(outputs@, (#[trigger] expected@[k]).name@);
                    &&& (#[trigger] out@[k]).name@ == expected@[k].name@
                    &&& out@[k].tensor.data_type@ == expected@[k].data_type@
                    &&& out@[k].tensor.shape@ == outputs@[oi].shape@
                    &&& compact_cast_post(
                        crate::wire::spec_dtype(expected@[k].data_type@),
                        outputs@[oi].data@,
                        opt_owned_view(outputs@[oi].int64_data),
                        opt_owned_view(outputs@[oi].uint64_data),
                        expected@[k].value_count as int,
                        out@[k].tensor.data@,
                    )
                },
        decreases expected@.len() - i,
    {
        let hint = &expected[i];
        let mut t: usize = 0;
        let mut found: bool = false;
        while t < outputs.len() && !found
            invariant
                t <= outputs@.len(),
                !found ==> forall|k: int|
                    0 <= k < t ==> (#[trigger] outputs@[k]).name@ != hint.name@,
                found ==> t < outputs@.len() && outputs@[t as int].name@ == hint.name@ && (forall|
                    k: int,
                |
                    0 <= k < t ==> (#[trigger] outputs@[k]).name@ != hint.name@),
            decreases outputs@.len() - t, (if found { 0int } else { 1int }),
        {
            if str_eq(outputs[t].name.as_str(), hint.name.as_str()) {
                found = true;
            } else {
                t += 1;
            }
        }
        if !found {
            proof {
                lemma_find_idx_miss(outputs@, hint.name@);
                lemma_first_missing(expected@, outputs@, i as int);
            }
            let mut m = "missing output from runtime: ".to_owned();
            m.append(hint.name.as_str());
            return Err(RunnerError::RuntimeExecution(m));
        }
        proof {
            lemma_find_idx_hit(outputs@, hint.name@, t as int);
        }
        let o = &outputs[t];
        let decoded = cast_output_data_compact(
            &o.data,
            match &o.int64_data {
                Some(v) => Some(v),
                None => None,
            },
            match &o.uint64_data {
                Some(v) => Some(v),
                None => None,
            },
            hint.data_type.as_str(),
            hint.value_count,
        );
        out.push(
            NamedOutput {
                name: hint.name.clone(),
                tensor: OutputTensor {
                    data_type: hint.data_type.clone(),
                    shape: o.shape.clone(),
                    data: decoded,
                },
            },
        );
        i += 1;
    }
    proof {
        assert(forall|k: int|
            0 <= k < expected@.len() ==> find_idx(outputs@, (#[trigger] expected@[k]).name@) >= 0);
    }
    Ok(out)
}

/// One request's pipeline state: the phase reached, and the request
/// data not yet consumed.
pub struct Execution {
    pub phase: Phase,
    pub inputs: Vec<NamedInput>,
    pub expected: Vec<ExpectedOutput>,
}

/// The request data is carried unchanged from one phase to the next.
pub open spec fn same_request(a: Execution, b: Execution) -> bool {
    a.inputs@ == b.inputs@ && a.expected@ == b.expected@
}

/// An event that does not belong to the current phase ends the request
/// with an execution error.
pub open spec fn unexpected_event(r: (Execution, Action)) -> bool {
    &&& r.0.phase is Finished
    &&& r.1 matches Action::Finish(res) && (res matches Err(RunnerError::RuntimeExecution(m)) && m@
        == "unexpected engine event"@)
}

/// Begins a request: the graph description must be parsed first.
pub fn start(inputs: Vec<NamedInput>, expected: Vec<ExpectedOutput>) -> (r: (Execution, Action))
    ensures
        r.0.phase is Parsing,
        r.0.inputs@ == inputs@,
        r.0.expected@ == expected@,
        r.1 is DoParse,
{
    (Execution { phase: Phase::Parsing, inputs, expected }, Action::DoParse)
}

/// Advances the pipeline by one reported event.
///
/// Each stage short-circuits on failure: parse and validation failures
/// are validation errors, conversion failures conversion errors, run
/// failures are classified by their text.  After a successful
/// conversion the inputs are encoded (a failure there is the client's,
/// and the engine is never run); after a successful run the outputs
/// are selected and decoded per the request's hints.
pub fn step(self_: Execution, ev: EngineEvent) -> (r: (Execution, Action))
    requires
        ev matches EngineEvent::RunOk(outs) ==> forall|i: int|
            0 <= i < outs@.len() ==> engine_output_wf(#[trigger] outs@[i]),
    ensures
        match ev {
            EngineEvent::ParseOk => if self_.phase is Parsing {
                r.0.phase is Validating && same_request(self_, r.0) && r.1 is DoValidate
            } else {
                unexpected_event(r)
            },
            EngineEvent::ParseFailed(m) => if self_.phase is Parsing {
                &&& r.0.phase is Finished
                &&& r.1 matches Action::Finish(res) && (res matches Err(
                    RunnerError::GraphValidation(d),
                ) && d@ == m@)
            } else {
                unexpected_event(r)
            },
            EngineEvent::ValidateOk => if self_.phase is Validating {
                r.0.phase is Converting && same_request(self_, r.0) && r.1 is DoConvert
            } else {
                unexpected_event(r)
            },
            EngineEvent::ValidateFailed(m) => if self_.phase is Validating {
                &&& r.0.phase is Finished
                &&& r.1 matches Action::Finish(res) && (res matches Err(
                    RunnerError::GraphValidation(d),
                ) && d@ == m@)
            } else {
                unexpected_event(r)
            },
            EngineEvent::ConvertOk => if self_.phase is Converting {
                if forall|i: int|
                    0 <= i < self_.inputs@.len() ==> input_encodable(
                        (#[trigger] self_.inputs@[i]).descriptor,
                        self_.inputs@[i].data@,
                    ) {
                    &&& r.0.phase is Running
                    &&& same_request(self_, r.0)
                    &&& r.1 matches Action::DoRun(enc) && encode_all_post(
                        self_.inputs@,
                        Ok::<Vec<EncodedInput>, RunnerError>(enc),
                    )
                } else {
                    &&& r.0.phase is Finished
                    &&& r.1 matches Action::Finish(res) && (res matches Err(e) && encode_all_post(
                        self_.inputs@,
                        Err::<Vec<EncodedInput>, RunnerError>(e),
                    ))
                }
            } else {
                unexpected_event(r)
            },
            EngineEvent::ConvertFailed(m) => if self_.phase is Converting {
                &&& r.0.phase is Finished
                &&& r.1 matches Action::Finish(res) && (res matches Err(
                    RunnerError::GraphConversion(d),
                ) && d@ == m@)
            } else {
                unexpected_event(r)
            },
            EngineEvent::RunOk(outs) => if self_.phase is Running {
                &&& r.0.phase is Finished
                &&& r.1 matches Action::Finish(res) && collect_post(self_.expected@, outs@, res)
            } else {
                unexpected_event(r)
            },
            EngineEvent::RunFailed(m) => if self_.phase is Running {
                &&& r.0.phase is Finished
                &&& r.1 matches Action::Finish(res) && (res matches Err(e) && classify_post(m@, e))
            } else {
                unexpected_event(r)
            },
        },
{
    let Execution { phase, inputs, expected } = self_;
    match (phase, ev) {
        (Phase::Parsing, EngineEvent::ParseOk) => (
            Execution { phase: Phase::Validating, inputs, expected },
            Action::DoValidate,
        ),
        (Phase::Parsing, EngineEvent::ParseFailed(m)) => (
            Execution { phase: Phase::Finished, inputs, expected },
            Action::Finish(Err(RunnerError::GraphValidation(m))),
        ),
        (Phase::Validating, EngineEvent::ValidateOk) => (
            Execution { phase: Phase::Converting, inputs, expected },
            Action::DoConvert,
        ),
        (Phase::Validating, EngineEvent::ValidateFailed(m)) => (
            Execution { phase: Phase::Finished, inputs, expected },
            Action::Finish(Err(RunnerError::GraphValidation(m))),
        ),
        (Phase::Converting, EngineEvent::ConvertOk) => {
            match encode_all(&inputs) {
                Ok(enc) => (
                    Execution { phase: Phase::Running, inputs, expected },
                    Action::DoRun(enc),
                ),
                Err(e) => (
                    Execution { phase: Phase::Finished, inputs, expected },
                    Action::Finish(Err(e)),
                ),
            }
        },
        (Phase::Converting, EngineEvent::ConvertFailed(m)) => (
            Execution { phase: Phase::Finished, inputs, expected },
            Action::Finish(Err(RunnerError::GraphConversion(m))),
        ),
        (Phase::Running, EngineEvent::RunOk(outs)) => {
            let res = collect_outputs(&expected, &outs);
            (Execution { phase: Phase::Finished, inputs, expected }, Action::Finish(res))
        },
        (Phase::Running, EngineEvent::RunFailed(m)) => (
            Execution { phase: Phase::Finished, inputs, expected },
            Action::Finish(Err(classify_graph_error(m))),
        ),
        (_, _) => (
            Execution { phase: Phase::Finished, inputs, expected },
            Action::Finish(
                Err(RunnerError::RuntimeExecution("unexpected engine event".to_owned())),
            ),
        ),
    }
}

} // verus!
