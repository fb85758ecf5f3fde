//! The two pipelines that a registry starts out with.

use crate::json::{members_view, push_member, Json, JsonValue, Member};
use crate::model::{
    Pipeline, PipelineSpec, PipelineStatus, PipelineStep, StepKind, StepSpec, StepType, Timestamp,
};
use crate::number::Number;
use crate::outcome::{count_value, entry, no_members, text_value};
use vstd::prelude::*;

verus! {

broadcast use crate::outcome::group_member_sequences;

/// A step with the given particulars.
pub open spec fn step_spec(
    id: &str,
    name: &str,
    step_type: StepKind,
    config: JsonValue,
    timeout_seconds: u64,
) -> StepSpec {
    StepSpec { id: id@, name: name@, step_type, config, timeout_seconds }
}

/// The text processor: it validates, cleans up and formats a text.
pub open spec fn text_processor(at: Timestamp) -> PipelineSpec {
    PipelineSpec {
        id: "pipeline-text-processor"@,
        name: "Text Processor"@,
        description: "Processes text input and applies various transformations"@,
        steps: seq![
            step_spec(
                "step-1",
                "Input Validation",
                StepKind::TextProcessing,
                JsonValue::Object(
                    seq![
                        entry("operation", text_value("validate"@)),
                        entry("required_fields", JsonValue::Array(seq![text_value("content"@)])),
                    ],
                ),
                30,
            ),
            step_spec(
                "step-2",
                "Text Cleanup",
                StepKind::TextProcessing,
                JsonValue::Object(
                    seq![
                        entry("normalize_line_endings", JsonValue::Bool(true)),
                        entry("operation", text_value("cleanup"@)),
                        entry("remove_extra_whitespace", JsonValue::Bool(true)),
                    ],
                ),
                60,
            ),
            step_spec(
                "step-3",
                "Format Output",
                StepKind::TextProcessing,
                JsonValue::Object(
                    seq![
                        entry("operation", text_value("format"@)),
                        entry("output_type", text_value("formatted_text"@)),
                    ],
                ),
                30,
            ),
        ],
        status: PipelineStatus::Ready,
        created_at: at,
        updated_at: at,
        metadata: seq![
            entry("category", text_value("text-processing"@)),
            entry("version", text_value("1.0"@)),
        ],
    }
}

/// The data transformer: it parses, maps and serializes a document.
pub open spec fn data_transformer(at: Timestamp) -> PipelineSpec {
    PipelineSpec {
        id: "pipeline-data-transform"@,
        name: "Data Transformer"@,
        description: "Transforms data between different formats"@,
        steps: seq![
            step_spec(
                "step-1",
                "Parse Input",
                StepKind::DataTransform,
                JsonValue::Object(
                    seq![
                        entry("input_format", text_value("json"@)),
                        entry("operation", text_value("parse"@)),
                    ],
                ),
                30,
            ),
            step_spec(
                "step-2",
                "Transform Data",
                StepKind::DataTransform,
                JsonValue::Object(
                    seq![
                        entry("operation", text_value("map"@)),
                        entry(
                            "transformations",
                            JsonValue::Array(
                                seq![
                                    JsonValue::Object(
                                        seq![
                                            entry("factor", count_value(2)),
                                            entry("field", text_value("value"@)),
                                            entry("operation", text_value("multiply"@)),
                                        ],
                                    ),
                                    JsonValue::Object(
                                        seq![
                                            entry("field", text_value("status"@)),
                                            entry("operation", text_value("uppercase"@)),
                                        ],
                                    ),
                                ],
                            ),
                        ),
                    ],
                ),
                60,
            ),
            step_spec(
                "step-3",
                "Serialize Output",
                StepKind::DataTransform,
                JsonValue::Object(
                    seq![
                        entry("operation", text_value("serialize"@)),
                        entry("output_format", text_value("json"@)),
                    ],
                ),
                30,
            ),
        ],
        status: PipelineStatus::Ready,
        created_at: at,
        updated_at: at,
        metadata: seq![
            entry("category", text_value("data-transformation"@)),
            entry("version", text_value("1.0"@)),
        ],
    }
}

/// A step with the given particulars.
fn step(id: &str, name: &str, step_type: StepType, config: Json, timeout_seconds: u64) -> (r:
    PipelineStep)
    ensures
        r@ == step_spec(id, name, step_type@, config@, timeout_seconds),
{
    PipelineStep { id: id.to_owned(), name: name.to_owned(), step_type, config, timeout_seconds }
}

/// The object with two members.
fn pair(first: &str, a: Json, second: &str, b: Json) -> (r: Json)
    ensures
        r@ == JsonValue::Object(seq![entry(first, a@), entry(second, b@)]),
{
    let mut members = no_members();
    push_member(&mut members, first, a);
    push_member(&mut members, second, b);
    Json::object(members)
}

/// The three steps, in order.
fn three_steps(a: PipelineStep, b: PipelineStep, c: PipelineStep) -> (r: Vec<PipelineStep>)
    ensures
        r.deep_view() == seq![a@, b@, c@],
{
    let mut steps: Vec<PipelineStep> = Vec::new();
    steps.push(a);
    steps.push(b);
    steps.push(c);
    assert(steps.deep_view() =~= seq![a@, b@, c@]);
    steps
}

/// The annotations of a sample pipeline.
fn annotations(category: &str) -> (r: Vec<(String, Json)>)
    ensures
        members_view(r@) == seq![
            entry("category", text_value(category@)),
            entry("version", text_value("1.0"@)),
        ],
{
    let mut members = no_members();
    push_member(&mut members, "category", Json::string(category));
    push_member(&mut members, "version", Json::string("1.0"));
    members
}

/// The text processor, created at `at`.
pub fn sample_text_processor(at: Timestamp) -> (r: Pipeline)
    ensures
        r@ == text_processor(at),
{
    let mut fields: Vec<Json> = Vec::new();
    fields.push(Json::string("content"));
    assert(fields.deep_view() =~= seq![text_value("content"@)]);
    let validate = pair(
        "operation",
        Json::string("validate"),
        "required_fields",
        Json::array(fields),
    );
    let mut cleanup = no_members();
    push_member(&mut cleanup, "normalize_line_endings", Json::Bool(true));
    push_member(&mut cleanup, "operation", Json::string("cleanup"));
    push_member(&mut cleanup, "remove_extra_whitespace", Json::Bool(true));
    let format = pair(
        "operation",
        Json::string("format"),
        "output_type",
        Json::string("formatted_text"),
    );
    Pipeline {
        id: "pipeline-text-processor".to_owned(),
        name: "Text Processor".to_owned(),
        description: "Processes text input and applies various transformations".to_owned(),
        steps: three_steps(
            step("step-1", "Input Validation", StepType::TextProcessing, validate, 30),
            step("step-2", "Text Cleanup", StepType::TextProcessing, Json::object(cleanup), 60),
            step("step-3", "Format Output", StepType::TextProcessing, format, 30),
        ),
        status: PipelineStatus::Ready,
        created_at: at,
        updated_at: at,
        metadata: annotations("text-processing"),
    }
}

/// The data transformer, created at `at`.
pub fn sample_data_transformer(at: Timestamp) -> (r: Pipeline)
    ensures
        r@ == data_transformer(at),
{
    let parse = pair("input_format", Json::string("json"), "operation", Json::string("parse"));
    let mut multiply = no_members();
    push_member(&mut multiply, "factor", Json::Number(Number::from_u64(2)));
    push_member(&mut multiply, "field", Json::string("value"));
    push_member(&mut multiply, "operation", Json::string("multiply"));
    let uppercase = pair("field", Json::string("status"), "operation", Json::string("uppercase"));
    let mut transformations: Vec<Json> = Vec::new();
    transformations.push(Json::object(multiply));
    transformations.push(uppercase);
    assert(transformations.deep_view() =~= seq![
        JsonValue::Object(
            seq![
                entry("factor", count_value(2)),
                entry("field", text_value("value"@)),
                entry("operation", text_value("multiply"@)),
            ],
        ),
        JsonValue::Object(
            seq![
                entry("field", text_value("status"@)),
                entry("operation", text_value("uppercase"@)),
            ],
        ),
    ]);
    let map = pair(
        "operation",
        Json::string("map"),
        "transformations",
        Json::array(transformations),
    );
    let serialize = pair(
        "operation",
        Json::string("serialize"),
        "output_format",
        Json::string("json"),
    );
    Pipeline {
        id: "pipeline-data-transform".to_owned(),
        name: "Data Transformer".to_owned(),
        description: "Transforms data between different formats".to_owned(),
        steps: three_steps(
            step("step-1", "Parse Input", StepType::DataTransform, parse, 30),
            step("step-2", "Transform Data", StepType::DataTransform, map, 60),
            step("step-3", "Serialize Output", StepType::DataTransform, serialize, 30),
        ),
        status: PipelineStatus::Ready,
        created_at: at,
        updated_at: at,
        metadata: annotations("data-transformation"),
    }
}

} // verus!
