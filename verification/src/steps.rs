//! The loop, simulated call and custom operators, and the dispatch of a
//! step to its operator.

use crate::clock::{rfc3339, rfc3339_text};
use crate::condition::{condition, condition_output};
use crate::data_transform::{data_transform, data_transform_output};
use crate::json::{push_member, Json, JsonValue};
use crate::model::{PipelineStep, StepKind, StepSpec, StepType, Timestamp};
use crate::number::{as_u64_of, Number};
use crate::outcome::{
    conclude, count_value, entry, no_members, outcome_of, text_or, text_value, Outcome,
    StepOutcome,
};
use crate::text::{followed_by, decimal_digits, decimal_text};
use crate::text_processing::{text_processing, text_processing_output};
use vstd::prelude::*;

verus! {

broadcast use crate::outcome::group_member_sequences;

/// The number of rounds that a loop step is configured for; three where
/// `iterations` is missing or no unsigned 64-bit integer.
pub open spec fn configured_iterations(config: JsonValue) -> u64 {
    match config.member("iterations"@) {
        Some(v) => match v.number() {
            Some(n) => match as_u64_of(n) {
                Some(k) => k,
                None => 3,
            },
            None => 3,
        },
        None => 3,
    }
}

/// The placeholder result of round `i`, counted from zero.
pub open spec fn iteration_report(input: JsonValue, i: int) -> JsonValue {
    JsonValue::Object(
        seq![
            entry("input", input),
            entry("iteration", count_value(i)),
            entry(
                "output",
                text_value("Iteration "@ + decimal_digits((i + 1) as nat) + " result"@),
            ),
        ],
    )
}

/// The document that a loop step makes of its input: one placeholder
/// result for each configured round.
pub open spec fn loop_output(config: JsonValue, input: JsonValue) -> JsonValue {
    let iterations = configured_iterations(config);
    JsonValue::Object(
        seq![
            entry(
                "loop_execution",
                JsonValue::Object(
                    seq![
                        entry("input", input),
                        entry("iterations", count_value(iterations as int)),
                        entry(
                            "results",
                            JsonValue::Array(
                                Seq::new(iterations as nat, |i: int| iteration_report(input, i)),
                            ),
                        ),
                    ],
                ),
            ),
        ],
    )
}

/// Runs the configured number of placeholder rounds.
pub fn run_loop(config: &Json, input: &Json) -> (r: Json)
    ensures
        r@ == loop_output(config@, input@),
{
    let iterations: u64 = match config.get("iterations") {
        Some(v) => match v.as_number() {
            Some(n) => match n.as_u64() {
                Some(k) => k,
                None => 3,
            },
            None => 3,
        },
        None => 3,
    };
    let mut results: Vec<Json> = Vec::new();
    let mut i: u64 = 0;
    while i < iterations
        invariant
            0 <= i <= iterations,
            results@.len() == i,
            forall|j: int| 0 <= j < i ==> results@[j]@ == iteration_report(input@, j),
        decreases iterations - i,
    {
        let number = decimal_text(i + 1);
        let opened = followed_by("Iteration ", number.as_str());
        let output = followed_by(opened.as_str(), " result");
        let mut members = no_members();
        push_member(&mut members, "input", input.clone());
        push_member(&mut members, "iteration", Json::Number(Number::from_u64(i)));
        push_member(&mut members, "output", Json::String(output));
        results.push(Json::object(members));
        i = i + 1;
    }
    assert(results.deep_view() =~= Seq::new(
        iterations as nat,
        |i: int| iteration_report(input@, i),
    ));
    let mut inner = no_members();
    push_member(&mut inner, "input", input.clone());
    push_member(&mut inner, "iterations", Json::Number(Number::from_u64(iterations)));
    push_member(&mut inner, "results", Json::array(results));
    let mut members = no_members();
    push_member(&mut members, "loop_execution", Json::object(inner));
    Json::object(members)
}

/// What `Debug` writes for a text: the text between double quotes, with
/// the characters escaped that Rust escapes.
pub uninterp spec fn debug_quoted(text: Seq<char>) -> Seq<char>;

/// `format!("{:?}", text)`: the `Debug` form of a string slice, which
/// depends on the text alone.
#[verifier::external_body]
fn quote(text: &str) -> (r: String)
    ensures
        r@ == debug_quoted(text@),
{
    format!("{:?}", text)
}

/// The name under which a kind of step is reported.
pub open spec fn kind_text(kind: StepKind) -> Seq<char> {
    match kind {
        StepKind::TextProcessing => "TextProcessing"@,
        StepKind::DataTransform => "DataTransform"@,
        StepKind::ApiCall => "ApiCall"@,
        StepKind::Condition => "Condition"@,
        StepKind::Loop => "Loop"@,
        StepKind::Custom(name) => "Custom("@ + debug_quoted(name) + ")"@,
    }
}

/// The name under which a kind of step is reported.
pub fn kind_name(kind: &StepType) -> (r: String)
    ensures
        r@ == kind_text(kind@),
{
    match kind {
        StepType::TextProcessing => "TextProcessing".to_owned(),
        StepType::DataTransform => "DataTransform".to_owned(),
        StepType::ApiCall => "ApiCall".to_owned(),
        StepType::Condition => "Condition".to_owned(),
        StepType::Loop => "Loop".to_owned(),
        StepType::Custom(name) => {
            let quoted = quote(name.as_str());
            let opened = followed_by("Custom(", quoted.as_str());
            followed_by(opened.as_str(), ")")
        },
    }
}

/// The document that a custom step makes of its input: an echo of the
/// step's kind and configuration.
pub open spec fn custom_output(step: StepSpec, input: JsonValue) -> JsonValue {
    JsonValue::Object(
        seq![
            entry(
                "custom_step",
                JsonValue::Object(
                    seq![
                        entry("config", step.config),
                        entry("input", input),
                        entry("output", text_value("Custom step execution completed"@)),
                        entry("step_type", text_value(kind_text(step.step_type))),
                    ],
                ),
            ),
        ],
    )
}

/// Echoes the step's kind and configuration.
pub fn run_custom(step: &PipelineStep, input: &Json) -> (r: Json)
    ensures
        r@ == custom_output(step@, input@),
{
    let mut inner = no_members();
    push_member(&mut inner, "config", step.config.clone());
    push_member(&mut inner, "input", input.clone());
    push_member(&mut inner, "output", Json::string("Custom step execution completed"));
    push_member(&mut inner, "step_type", Json::String(kind_name(&step.step_type)));
    let mut members = no_members();
    push_member(&mut members, "custom_step", Json::object(inner));
    Json::object(members)
}

/// The document that a simulated call makes of its input at the time `at`:
/// a canned success for the configured `url` and `method`.
pub open spec fn api_call_output(config: JsonValue, input: JsonValue, at: Timestamp) -> JsonValue {
    JsonValue::Object(
        seq![
            entry(
                "api_call",
                JsonValue::Object(
                    seq![
                        entry("method", text_value(text_or(config.text_member("method"@), "POST"@))),
                        entry("response_code", count_value(200)),
                        entry("status", text_value("success"@)),
                        entry(
                            "url",
                            text_value(
                                text_or(
                                    config.text_member("url"@),
                                    "https://api.example.com/mock"@,
                                ),
                            ),
                        ),
                    ],
                ),
            ),
            entry("input_data", input),
            entry(
                "mock_response",
                JsonValue::Object(
                    seq![
                        entry("message", text_value("API call completed successfully"@)),
                        entry(
                            "timestamp",
                            text_value(text_or(rfc3339_text(at.seconds, at.nanos), Seq::empty())),
                        ),
                    ],
                ),
            ),
        ],
    )
}

/// Answers with a canned success; no request leaves the machine.
pub fn run_api_call(config: &Json, input: &Json, at: &Timestamp) -> (r: Json)
    ensures
        r@ == api_call_output(config@, input@, *at),
{
    let url: &str = match config.text_member("url") {
        Some(s) => s,
        None => "https://api.example.com/mock",
    };
    let method: &str = match config.text_member("method") {
        Some(s) => s,
        None => "POST",
    };
    let stamp: String = match rfc3339(at) {
        Some(s) => s,
        None => String::new(),
    };
    let mut call = no_members();
    push_member(&mut call, "method", Json::string(method));
    push_member(&mut call, "response_code", Json::Number(Number::from_u64(200)));
    push_member(&mut call, "status", Json::string("success"));
    push_member(&mut call, "url", Json::string(url));
    let mut response = no_members();
    push_member(&mut response, "message", Json::string("API call completed successfully"));
    push_member(&mut response, "timestamp", Json::String(stamp));
    let mut members = no_members();
    push_member(&mut members, "api_call", Json::object(call));
    push_member(&mut members, "input_data", input.clone());
    push_member(&mut members, "mock_response", Json::object(response));
    Json::object(members)
}

/// The document that a step makes of its input when it starts at `at`.
pub open spec fn step_output(step: StepSpec, input: JsonValue, at: Timestamp) -> JsonValue {
    match step.step_type {
        StepKind::TextProcessing => text_processing_output(step.config, input),
        StepKind::DataTransform => data_transform_output(step.config, input),
        StepKind::ApiCall => api_call_output(step.config, input, at),
        StepKind::Condition => condition_output(step.config, input),
        StepKind::Loop => loop_output(step.config, input),
        StepKind::Custom(_) => custom_output(step, input),
    }
}

/// How a step ends on an input when it starts at `at`.
pub open spec fn step_outcome(step: StepSpec, input: JsonValue, at: Timestamp) -> Outcome {
    outcome_of(step_output(step, input, at))
}

/// Runs a text step.
pub fn execute_text_processing_step(step: &PipelineStep, input: &Json) -> (r: StepOutcome)
    ensures
        r@ == outcome_of(text_processing_output(step@.config, input@)),
{
    conclude(text_processing(&step.config, input))
}

/// Runs a data step.
pub fn execute_data_transform_step(step: &PipelineStep, input: &Json) -> (r: StepOutcome)
    ensures
        r@ == outcome_of(data_transform_output(step@.config, input@)),
{
    conclude(data_transform(&step.config, input))
}

/// Runs a simulated call that starts at `at`.
pub fn execute_api_call_step(step: &PipelineStep, input: &Json, at: &Timestamp) -> (r:
    StepOutcome)
    ensures
        r@ == outcome_of(api_call_output(step@.config, input@, *at)),
{
    conclude(run_api_call(&step.config, input, at))
}

/// Runs a condition step.
pub fn execute_condition_step(step: &PipelineStep, input: &Json) -> (r: StepOutcome)
    ensures
        r@ == outcome_of(condition_output(step@.config, input@)),
{
    conclude(condition(&step.config, input))
}

/// Runs a loop step.
pub fn execute_loop_step(step: &PipelineStep, input: &Json) -> (r: StepOutcome)
    ensures
        r@ == outcome_of(loop_output(step@.config, input@)),
{
    conclude(run_loop(&step.config, input))
}

/// Runs a custom step.
pub fn execute_custom_step(step: &PipelineStep, input: &Json) -> (r: StepOutcome)
    ensures
        r@ == outcome_of(custom_output(step@, input@)),
{
    conclude(run_custom(step, input))
}

/// Runs the operator of a step's kind on an input.
pub fn execute_step(step: &PipelineStep, input: &Json, at: &Timestamp) -> (r: StepOutcome)
    ensures
        r@ == step_outcome(step@, input@, *at),
{
    match &step.step_type {
        StepType::TextProcessing => execute_text_processing_step(step, input),
        StepType::DataTransform => execute_data_transform_step(step, input),
        StepType::ApiCall => execute_api_call_step(step, input, at),
        StepType::Condition => execute_condition_step(step, input),
        StepType::Loop => execute_loop_step(step, input),
        StepType::Custom(_) => execute_custom_step(step, input),
    }
}

/// The pause, in milliseconds, that stands for the work of a step: a
/// tenth of its time limit and no more than a second, and half a second
/// more for a simulated call.
pub open spec fn simulated_delay(step: StepSpec) -> int {
    let base = if step.timeout_seconds >= 10 {
        1000
    } else {
        step.timeout_seconds * 100
    };
    if step.step_type is ApiCall {
        base + 500
    } else {
        base
    }
}

/// The pause, in milliseconds, that stands for the work of a step.
pub fn simulated_delay_ms(step: &PipelineStep) -> (r: u64)
    ensures
        r == simulated_delay(step@),
{
    let base: u64 = if step.timeout_seconds >= 10 {
        1000
    } else {
        step.timeout_seconds * 100
    };
    match &step.step_type {
        StepType::ApiCall => base + 500,
        _ => base,
    }
}

} // verus!
