//! What holds of every run and of every pipeline.

use crate::data_transform::transform_applied;
use crate::executor::{
    distinct, first_index, lemma_first_index, pipeline_at, pipeline_fault, pipeline_ids, with_pipeline,
    without_pipeline,
};
use crate::json::{
    lemma_object_view, lemma_position, lookup, path_tokens, position, same, Json, JsonValue,
    Member,
};
use crate::model::{ExecutionRecord, PipelineSpec, PipelineStatus, StepSpec};
use crate::number::{every_number_is_in_lowest_form, fits, is_lowest, Decimal};
use crate::condition::condition_output;
use crate::data_transform::data_transform_output;
use crate::model::{is_terminal, StepKind, Timestamp};
use crate::outcome::{entry, failure, outcome_of, text_or, text_value, Outcome};
use crate::run::{data_after, step_record, timed_out};
use crate::steps::{step_outcome, step_output};
use crate::text_processing::text_processing_output;
use crate::run::{has_failed, is_finished, is_run};
use crate::text::{array_index, uppercase_is_idempotent_on_ascii, uppercased};
use vstd::prelude::*;
use vstd::utf8::is_ascii_chars;

verus! {

/// A run that goes to its end without a failing step has run every step
/// of its pipeline, and has completed.
pub proof fn every_step_runs_when_none_fails(
    e: ExecutionRecord,
    steps: Seq<StepSpec>,
    input: JsonValue,
)
    requires
        is_run(e, steps, input),
        is_finished(steps, e.step_results),
        steps.len() >= 1,
        forall|i: int|
            0 <= i < e.step_results.len() ==> (#[trigger] e.step_results[i]).status
                != PipelineStatus::Failed,
    ensures
        e.step_results.len() == steps.len(),
        e.status == PipelineStatus::Completed,
{
    if has_failed(e.step_results) {
        assert(e.step_results[e.step_results.len() - 1].status != PipelineStatus::Failed);
    }
}

/// The step that fails is the last that runs: where the `k`-th step fails,
/// counted from one, the run holds `k` records and has failed.
pub proof fn a_failing_step_ends_the_run(
    e: ExecutionRecord,
    steps: Seq<StepSpec>,
    input: JsonValue,
    k: int,
)
    requires
        is_run(e, steps, input),
        1 <= k <= e.step_results.len(),
        e.step_results[k - 1].status == PipelineStatus::Failed,
    ensures
        e.step_results.len() == k,
        e.status == PipelineStatus::Failed,
        e.error_message == e.step_results[k - 1].error_message,
        e.error_message is Some,
        e.error_message->0.len() > 0,
{
    if k < e.step_results.len() {
        assert(e.step_results[k - 1].status != PipelineStatus::Failed);
    }
    a_failed_run_says_why(e, steps, input);
}

/// Each step receives what the step before it made; the first step
/// receives the input of the run.
pub proof fn each_step_receives_the_output_before_it(
    e: ExecutionRecord,
    steps: Seq<StepSpec>,
    input: JsonValue,
    i: int,
)
    requires
        is_run(e, steps, input),
        0 <= i < e.step_results.len(),
    ensures
        e.step_results[i].input == if i == 0 {
            input
        } else {
            e.step_results[i - 1].output
        },
{
    let results = e.step_results;
    assert(results[i].completed_at is Some);
    if i > 0 {
        assert(results.take(i).last() == results[i - 1]);
    }
}

/// A pipeline without a name or without a step is malformed, so the
/// registry refuses it and stores nothing of it.
pub proof fn nameless_and_empty_pipelines_are_malformed(pipeline: PipelineSpec)
    requires
        pipeline.name.len() == 0 || pipeline.steps.len() == 0,
    ensures
        pipeline_fault(pipeline) is Some,
{
}

/// Putting back what a path leads to changes nothing.
pub proof fn lemma_replace_same(doc: JsonValue, tokens: Seq<Seq<char>>, value: JsonValue)
    requires
        doc.descend(tokens) == Some(value),
    ensures
        doc.replaced(tokens, value) == doc,
    decreases tokens.len(),
{
    if tokens.len() > 0 {
        let child = doc.child(tokens[0])->0;
        lemma_replace_same(child, tokens.drop_first(), value);
        match doc {
            JsonValue::Object(members) => {
                lemma_position(members, tokens[0]);
                let i = position(members, tokens[0])->0;
                assert(members.update(i, Member { key: tokens[0], value: child }) =~= members);
            },
            JsonValue::Array(items) => {
                let i = array_index(tokens[0])->0;
                assert(items.update(i as int, child) =~= items);
            },
            _ => {},
        }
    }
}

/// A replaced member is found under its key.
proof fn lemma_lookup_updated(members: Seq<Member>, key: Seq<char>, value: JsonValue)
    requires
        position(members, key) is Some,
    ensures
        lookup(members.update(position(members, key)->0, Member { key, value }), key) == Some(
            value,
        ),
    decreases members.len(),
{
    lemma_position(members, key);
    let i = position(members, key)->0;
    let after = members.update(i, Member { key, value });
    if members[0].key != key {
        lemma_lookup_updated(members.drop_first(), key, value);
        assert(after.drop_first() =~= members.drop_first().update(
            i - 1,
            Member { key, value },
        ));
    }
}

/// What was put at the end of a path is what the path then leads to.
pub proof fn lemma_descend_replaced(doc: JsonValue, tokens: Seq<Seq<char>>, value: JsonValue)
    requires
        doc.descend(tokens) is Some,
    ensures
        doc.replaced(tokens, value).descend(tokens) == Some(value),
    decreases tokens.len(),
{
    if tokens.len() > 0 {
        let child = doc.child(tokens[0])->0;
        lemma_descend_replaced(child, tokens.drop_first(), value);
        let renewed = child.replaced(tokens.drop_first(), value);
        match doc {
            JsonValue::Object(members) => {
                lemma_position(members, tokens[0]);
                lemma_lookup_updated(members, tokens[0], renewed);
            },
            JsonValue::Array(items) => {},
            _ => {},
        }
    }
}

/// The decimal one.
pub open spec fn decimal_one() -> Decimal {
    Decimal { coefficient: 1, exponent: 0 }
}

/// The field that a transformation names.
pub open spec fn field_of(transform: JsonValue) -> Seq<char> {
    text_or(transform.text_member("field"@), Seq::empty())
}

/// Whether every number of a document is in lowest form and fits the
/// machine representation.
pub open spec fn proper(v: JsonValue) -> bool
    decreases v,
{
    match v {
        JsonValue::Number(d) => is_lowest(d) && fits(d),
        JsonValue::Array(items) => forall|i: int|
            0 <= i < items.len() ==> proper(#[trigger] items[i]),
        JsonValue::Object(members) => forall|i: int|
            0 <= i < members.len() ==> proper((#[trigger] members[i]).value),
        _ => true,
    }
}

/// Every document reads as one whose numbers are all in lowest form and
/// fit the machine representation.
pub proof fn every_document_is_proper(doc: Json)
    ensures
        proper(doc@),
    decreases doc,
{
    match doc {
        Json::Number(n) => {
            every_number_is_in_lowest_form(n);
        },
        Json::Array(items) => {
            assert forall|i: int| 0 <= i < doc@->Array_0.len() implies proper(
                #[trigger] doc@->Array_0[i],
            ) by {
                vstd::std_specs::vec::axiom_vec_index_decreases(items, i);
                every_document_is_proper(items@[i]);
            }
        },
        Json::Object(members) => {
            lemma_object_view(doc);
            assert forall|i: int| 0 <= i < doc@->Object_0.len() implies proper(
                (#[trigger] doc@->Object_0[i]).value,
            ) by {
                vstd::std_specs::vec::axiom_vec_index_decreases(members, i);
                every_document_is_proper(members@[i].1);
            }
        },
        _ => {},
    }
}

/// What a path leads to in a proper document is proper.
pub proof fn lemma_proper_descend(doc: JsonValue, tokens: Seq<Seq<char>>)
    requires
        proper(doc),
        doc.descend(tokens) is Some,
    ensures
        proper(doc.descend(tokens)->0),
    decreases tokens.len(),
{
    if tokens.len() > 0 {
        let child = doc.child(tokens[0])->0;
        match doc {
            JsonValue::Object(members) => {
                lemma_position(members, tokens[0]);
                let i = position(members, tokens[0])->0;
                assert(proper(members[i].value));
            },
            JsonValue::Array(items) => {
                let i = array_index(tokens[0])->0;
                assert(proper(items[i as int]));
            },
            _ => {},
        }
        lemma_proper_descend(child, tokens.drop_first());
    }
}

/// Multiplying a field by one changes nothing, so doing it again changes
/// nothing either. The numbers of the document are taken to be in lowest
/// form and within the machine's range, as those of every document are.
pub proof fn multiplying_by_one_changes_nothing(doc: JsonValue, transform: JsonValue)
    requires
        transform.text_member("operation"@) == Some("multiply"@),
        transform.member("factor"@) == Some(JsonValue::Number(decimal_one())),
        proper(doc),
    ensures
        transform_applied(doc, transform) == doc,
        transform_applied(transform_applied(doc, transform), transform) == transform_applied(
            doc,
            transform,
        ),
{
    let field = field_of(transform);
    if field.len() > 0 {
        match doc.at_path(field) {
            Some(JsonValue::Number(c)) => {
                lemma_proper_descend(doc, path_tokens(field));
                assert(c.coefficient * 1 == c.coefficient);
                lemma_replace_same(doc, path_tokens(field), JsonValue::Number(c));
            },
            _ => {},
        }
    }
}

/// Multiplying a field of any document by one changes nothing.
pub proof fn multiplying_any_document_by_one_changes_nothing(doc: Json, transform: JsonValue)
    requires
        transform.text_member("operation"@) == Some("multiply"@),
        transform.member("factor"@) == Some(JsonValue::Number(decimal_one())),
    ensures
        transform_applied(doc@, transform) == doc@,
{
    every_document_is_proper(doc);
    multiplying_by_one_changes_nothing(doc@, transform);
}

/// Putting a field of ASCII text in capitals twice gives what doing so
/// once gives.
pub proof fn uppercasing_twice_is_uppercasing_once(doc: JsonValue, transform: JsonValue)
    requires
        transform.text_member("operation"@) == Some("uppercase"@),
        match doc.at_path(field_of(transform)) {
            Some(JsonValue::String(s)) => is_ascii_chars(s),
            _ => true,
        },
    ensures
        transform_applied(transform_applied(doc, transform), transform) == transform_applied(
            doc,
            transform,
        ),
{
    let field = field_of(transform);
    reveal_strlit("uppercase");
    reveal_strlit("multiply");
    reveal_strlit("add");
    assert("uppercase"@.len() == 9 && "multiply"@.len() == 8 && "add"@.len() == 3);
    if field.len() > 0 {
        match doc.at_path(field) {
            Some(JsonValue::String(s)) => {
                let once = JsonValue::String(uppercased(s));
                let after = doc.replaced_at(field, once);
                assert(transform_applied(doc, transform) == after);
                lemma_descend_replaced(doc, path_tokens(field), once);
                uppercase_is_idempotent_on_ascii(s);
                lemma_replace_same(after, path_tokens(field), once);
            },
            _ => {},
        }
    }
}

/// Whether an outcome, where it is a failure, says why in so many words.
pub open spec fn says_why(outcome: Outcome) -> bool {
    outcome.status == PipelineStatus::Failed ==> outcome.error_message is Some
        && outcome.error_message->0.len() > 0
}

/// A key that no member bears is not found.
proof fn lemma_lookup_absent(members: Seq<Member>, key: Seq<char>)
    requires
        forall|i: int| 0 <= i < members.len() ==> (#[trigger] members[i]).key != key,
    ensures
        lookup(members, key) is None,
    decreases members.len(),
{
    if members.len() > 0 {
        assert(members[0].key != key);
        assert forall|i: int| 0 <= i < members.drop_first().len() implies (
        #[trigger] members.drop_first()[i]).key != key by {
            assert(members.drop_first()[i] == members[i + 1]);
        }
        lemma_lookup_absent(members.drop_first(), key);
    }
}

/// A document whose members bear other names than `error` is a success.
proof fn lemma_success(members: Seq<Member>)
    requires
        forall|i: int| 0 <= i < members.len() ==> (#[trigger] members[i]).key != "error"@,
    ensures
        outcome_of(JsonValue::Object(members)).status == PipelineStatus::Completed,
{
    lemma_lookup_absent(members, "error"@);
}

/// A document whose first member is `error` with a text that is not empty
/// is a failure that says why.
proof fn lemma_failure(members: Seq<Member>, message: Seq<char>)
    requires
        members.len() > 0,
        members[0] == entry("error", text_value(message)),
        message.len() > 0,
    ensures
        says_why(outcome_of(JsonValue::Object(members))),
{
}

/// The names under which the operators report differ from `error`.
proof fn lemma_names()
    ensures
        "content"@ != "error"@,
        "length"@ != "error"@,
        "valid"@ != "error"@,
        "word_count"@ != "error"@,
        "cleaned_length"@ != "error"@,
        "original_length"@ != "error"@,
        "removed_chars"@ != "error"@,
        "format_type"@ != "error"@,
        "wrapped"@ != "error"@,
        "format"@ != "error"@,
        "parsed_data"@ != "error"@,
        "validation"@ != "error"@,
        "serialized_data"@ != "error"@,
        "csv_content"@ != "error"@,
        "headers"@ != "error"@,
        "row_count"@ != "error"@,
        "original_data"@ != "error"@,
        "transformations_applied"@ != "error"@,
        "transformed_data"@ != "error"@,
        "condition"@ != "error"@,
        "exists"@ != "error"@,
        "field"@ != "error"@,
        "result"@ != "error"@,
        "current"@ != "error"@,
        "expected"@ != "error"@,
        "api_call"@ != "error"@,
        "input_data"@ != "error"@,
        "mock_response"@ != "error"@,
        "loop_execution"@ != "error"@,
        "custom_step"@ != "error"@,
{
    reveal_strlit("error");
    reveal_strlit("content");
    reveal_strlit("length");
    reveal_strlit("valid");
    reveal_strlit("word_count");
    reveal_strlit("cleaned_length");
    reveal_strlit("original_length");
    reveal_strlit("removed_chars");
    reveal_strlit("format_type");
    reveal_strlit("wrapped");
    reveal_strlit("format");
    reveal_strlit("parsed_data");
    reveal_strlit("validation");
    reveal_strlit("serialized_data");
    reveal_strlit("csv_content");
    reveal_strlit("headers");
    reveal_strlit("row_count");
    reveal_strlit("original_data");
    reveal_strlit("transformations_applied");
    reveal_strlit("transformed_data");
    reveal_strlit("condition");
    reveal_strlit("exists");
    reveal_strlit("field");
    reveal_strlit("result");
    reveal_strlit("current");
    reveal_strlit("expected");
    reveal_strlit("api_call");
    reveal_strlit("input_data");
    reveal_strlit("mock_response");
    reveal_strlit("loop_execution");
    reveal_strlit("custom_step");
    assert("error"@.len() == 5);
    assert("error"@[0] == 'e');
    assert("valid"@[0] == 'v');
    assert("field"@[0] == 'f');
    assert("content"@.len() == 7);
    assert("length"@.len() == 6);
    assert("word_count"@.len() == 10);
    assert("cleaned_length"@.len() == 14);
    assert("original_length"@.len() == 15);
    assert("removed_chars"@.len() == 13);
    assert("format_type"@.len() == 11);
    assert("wrapped"@.len() == 7);
    assert("format"@.len() == 6);
    assert("parsed_data"@.len() == 11);
    assert("validation"@.len() == 10);
    assert("serialized_data"@.len() == 15);
    assert("csv_content"@.len() == 11);
    assert("headers"@.len() == 7);
    assert("row_count"@.len() == 9);
    assert("original_data"@.len() == 13);
    assert("transformations_applied"@.len() == 23);
    assert("transformed_data"@.len() == 16);
    assert("condition"@.len() == 9);
    assert("exists"@.len() == 6);
    assert("result"@.len() == 6);
    assert("current"@.len() == 7);
    assert("expected"@.len() == 8);
    assert("api_call"@.len() == 8);
    assert("input_data"@.len() == 10);
    assert("mock_response"@.len() == 13);
    assert("loop_execution"@.len() == 14);
    assert("custom_step"@.len() == 11);
}

/// A text step that fails says why.
pub proof fn a_failed_text_step_says_why(config: JsonValue, input: JsonValue)
    ensures
        says_why(outcome_of(text_processing_output(config, input))),
{
    lemma_names();
    reveal_strlit("Content cannot be empty");
    reveal_strlit("Missing 'content' field");
    reveal_strlit("Unknown text processing operation: ");
    assert("Content cannot be empty"@.len() > 0);
    assert("Missing 'content' field"@.len() > 0);
    assert("Unknown text processing operation: "@.len() > 0);
    let output = text_processing_output(config, input);
    let members = output->Object_0;
    assert(output is Object);
    if members[0].key == "error"@ {
        let message = members[0].value->String_0;
        assert(members[0] == entry("error", text_value(message)));
        lemma_failure(members, message);
    } else {
        lemma_success(members);
    }
}

/// A data step that fails says why.
pub proof fn a_failed_data_step_says_why(config: JsonValue, input: JsonValue)
    ensures
        says_why(outcome_of(data_transform_output(config, input))),
{
    lemma_names();
    reveal_strlit("Invalid JSON input");
    reveal_strlit("Unsupported input format: ");
    reveal_strlit("Unsupported output format: ");
    reveal_strlit("Unknown data transformation operation: ");
    assert("Invalid JSON input"@.len() > 0);
    assert("Unsupported input format: "@.len() > 0);
    assert("Unsupported output format: "@.len() > 0);
    assert("Unknown data transformation operation: "@.len() > 0);
    let output = data_transform_output(config, input);
    let members = output->Object_0;
    assert(output is Object);
    if members[0].key == "error"@ {
        let message = members[0].value->String_0;
        assert(members[0] == entry("error", text_value(message)));
        lemma_failure(members, message);
    } else {
        lemma_success(members);
    }
}

/// A condition step that fails says why.
pub proof fn a_failed_condition_step_says_why(config: JsonValue, input: JsonValue)
    ensures
        says_why(outcome_of(condition_output(config, input))),
{
    lemma_names();
    reveal_strlit("Unknown condition: ");
    assert("Unknown condition: "@.len() > 0);
    let output = condition_output(config, input);
    let members = output->Object_0;
    assert(output is Object);
    if members[0].key == "error"@ {
        let message = members[0].value->String_0;
        assert(members[0] == entry("error", text_value(message)));
        lemma_failure(members, message);
    } else {
        lemma_success(members);
    }
}

/// A loop step, a custom step and a simulated call always complete.
pub proof fn loops_calls_and_custom_steps_complete(step: StepSpec, input: JsonValue, at: Timestamp)
    requires
        step.step_type is Loop || step.step_type is ApiCall || step.step_type is Custom,
    ensures
        step_outcome(step, input, at).status == PipelineStatus::Completed,
{
    lemma_names();
    let output = step_output(step, input, at);
    assert(output is Object);
    lemma_success(output->Object_0);
}

/// A step that fails says why: its record carries an error message that is
/// not empty.
pub proof fn a_failed_step_says_why(
    step: StepSpec,
    input: JsonValue,
    start: Timestamp,
    end: Timestamp,
)
    ensures
        step_record(step, input, start, end).status == PipelineStatus::Failed ==> step_record(
            step,
            input,
            start,
            end,
        ).error_message is Some && step_record(step, input, start, end).error_message->0.len()
            > 0,
{
    if timed_out(step, start, end) {
        reveal_strlit("Timeout");
        assert("Timeout"@.len() > 0);
        lemma_failure(failure("Timeout"@)->Object_0, "Timeout"@);
    } else {
        match step.step_type {
            StepKind::TextProcessing => a_failed_text_step_says_why(step.config, input),
            StepKind::DataTransform => a_failed_data_step_says_why(step.config, input),
            StepKind::Condition => a_failed_condition_step_says_why(step.config, input),
            _ => loops_calls_and_custom_steps_complete(step, input, start),
        }
    }
}

/// A run that has failed carries the error message of its failing step,
/// and that message is not empty.
pub proof fn a_failed_run_says_why(e: ExecutionRecord, steps: Seq<StepSpec>, input: JsonValue)
    requires
        is_run(e, steps, input),
        e.status == PipelineStatus::Failed,
    ensures
        e.error_message is Some,
        e.error_message->0.len() > 0,
{
    let results = e.step_results;
    let last = results.len() - 1;
    assert(results[last].completed_at is Some);
    a_failed_step_says_why(
        steps[last],
        data_after(input, results.take(last)),
        results[last].started_at,
        results[last].completed_at->0,
    );
}

/// A run ends in exactly one of the three states that end it, and in
/// `Cancelled` only where it was ended with steps left to run.
pub proof fn a_run_ends_in_a_terminal_state(
    e: ExecutionRecord,
    steps: Seq<StepSpec>,
    input: JsonValue,
)
    requires
        is_run(e, steps, input),
    ensures
        is_terminal(e.status),
        e.status == PipelineStatus::Cancelled <==> !is_finished(steps, e.step_results),
{
}

/// The records of a run follow the steps of its pipeline, one for one
/// from the first step on: no step is skipped and none runs twice.
pub proof fn the_records_follow_the_steps(
    e: ExecutionRecord,
    steps: Seq<StepSpec>,
    input: JsonValue,
    i: int,
)
    requires
        is_run(e, steps, input),
        0 <= i < e.step_results.len(),
    ensures
        e.step_results.len() <= steps.len(),
        e.step_results[i].step_id == steps[i].id,
        e.step_results[i].step_name == steps[i].name,
{
    assert(e.step_results[i].completed_at is Some);
}

/// A pipeline that was stored is found under its identifier.
pub proof fn a_stored_pipeline_is_found(all: Seq<PipelineSpec>, pipeline: PipelineSpec)
    ensures
        pipeline_at(with_pipeline(all, pipeline), pipeline.id) == Some(pipeline),
{
    let after = with_pipeline(all, pipeline);
    lemma_first_index(pipeline_ids(all), pipeline.id);
    lemma_first_index(pipeline_ids(after), pipeline.id);
    match first_index(pipeline_ids(all), pipeline.id) {
        Some(i) => {
            assert(pipeline_ids(after)[i] == pipeline.id);
            assert forall|j: int| 0 <= j < i implies pipeline_ids(after)[j] != pipeline.id by {
                assert(pipeline_ids(all)[j] != pipeline.id);
            }
        },
        None => {
            let last = all.len() as int;
            assert(pipeline_ids(after)[last] == pipeline.id);
            assert forall|j: int| 0 <= j < last implies pipeline_ids(after)[j] != pipeline.id by {
                assert(pipeline_ids(all)[j] != pipeline.id);
            }
        },
    }
}

/// Storing a pipeline leaves what is stored under other identifiers.
pub proof fn storing_leaves_the_other_pipelines(
    all: Seq<PipelineSpec>,
    pipeline: PipelineSpec,
    id: Seq<char>,
)
    requires
        id != pipeline.id,
    ensures
        pipeline_at(with_pipeline(all, pipeline), id) == pipeline_at(all, id),
{
    let after = with_pipeline(all, pipeline);
    lemma_first_index(pipeline_ids(all), pipeline.id);
    lemma_first_index(pipeline_ids(all), id);
    lemma_first_index(pipeline_ids(after), id);
    assert forall|j: int| 0 <= j < all.len() implies (pipeline_ids(after)[j] == id) == (
    pipeline_ids(all)[j] == id) by {}
    match first_index(pipeline_ids(all), id) {
        Some(i) => {
            assert(pipeline_ids(after)[i] == id);
            assert(after[i] == all[i]);
        },
        None => {
            assert forall|j: int| 0 <= j < after.len() implies pipeline_ids(after)[j] != id by {
                if j < all.len() {
                    assert(pipeline_ids(all)[j] != id);
                }
            }
        },
    }
}

/// Storing a pipeline keeps the identifiers of the registry distinct.
pub proof fn storing_keeps_the_identifiers_distinct(all: Seq<PipelineSpec>, pipeline: PipelineSpec)
    requires
        distinct(pipeline_ids(all)),
    ensures
        distinct(pipeline_ids(with_pipeline(all, pipeline))),
{
    let after = with_pipeline(all, pipeline);
    lemma_first_index(pipeline_ids(all), pipeline.id);
    assert forall|i: int, j: int| 0 <= i < j < after.len() implies pipeline_ids(after)[i]
        != pipeline_ids(after)[j] by {
        if j < all.len() {
            assert(pipeline_ids(all)[i] != pipeline_ids(all)[j]);
        } else {
            assert(pipeline_ids(all)[i] != pipeline.id);
        }
    }
}

/// A pipeline that was deleted is no longer found, and deleting keeps the
/// identifiers of the registry distinct.
pub proof fn a_deleted_pipeline_is_gone(all: Seq<PipelineSpec>, id: Seq<char>)
    requires
        distinct(pipeline_ids(all)),
    ensures
        pipeline_at(without_pipeline(all, id), id) is None,
        distinct(pipeline_ids(without_pipeline(all, id))),
{
    let after = without_pipeline(all, id);
    lemma_first_index(pipeline_ids(all), id);
    lemma_first_index(pipeline_ids(after), id);
    match first_index(pipeline_ids(all), id) {
        Some(k) => {
            assert forall|j: int| 0 <= j < after.len() implies pipeline_ids(after)[j] != id by {
                if j < k {
                    assert(pipeline_ids(all)[j] != pipeline_ids(all)[k]);
                } else {
                    assert(after[j] == all[j + 1]);
                    assert(pipeline_ids(all)[k] != pipeline_ids(all)[j + 1]);
                }
            }
            assert forall|i: int, j: int| 0 <= i < j < after.len() implies pipeline_ids(after)[i]
                != pipeline_ids(after)[j] by {
                let a = if i < k {
                    i
                } else {
                    i + 1
                };
                let b = if j < k {
                    j
                } else {
                    j + 1
                };
                assert(after[i] == all[a]);
                assert(after[j] == all[b]);
                assert(pipeline_ids(all)[a] != pipeline_ids(all)[b]);
            }
        },
        None => {},
    }
}

/// A name that a member bears is found, at or before that member.
proof fn lemma_present(members: Seq<Member>, j: int)
    requires
        0 <= j < members.len(),
    ensures
        lookup(members, members[j].key) is Some,
        position(members, members[j].key) is Some,
    decreases members.len(),
{
    if members[0].key != members[j].key {
        assert(members.drop_first()[j - 1] == members[j]);
        lemma_present(members.drop_first(), j - 1);
    }
}

/// Every document says the same as itself.
pub proof fn a_document_says_the_same_as_itself(a: JsonValue)
    ensures
        same(a, a),
    decreases a,
{
    match a {
        JsonValue::Array(items) => {
            assert forall|i: int| 0 <= i < items.len() implies same(
                #[trigger] items[i],
                items[i],
            ) by {
                a_document_says_the_same_as_itself(items[i]);
            }
        },
        JsonValue::Object(members) => {
            assert forall|i: int|
                0 <= i < members.len() && position(members, (#[trigger] members[i]).key) == Some(
                    i,
                ) implies lookup(members, members[i].key) is Some && same(
                members[i].value,
                lookup(members, members[i].key)->0,
            ) by {
                lemma_position(members, members[i].key);
                a_document_says_the_same_as_itself(members[i].value);
            }
            assert forall|j: int| 0 <= j < members.len() implies lookup(
                members,
                (#[trigger] members[j]).key,
            ) is Some by {
                lemma_present(members, j);
            }
        },
        _ => {},
    }
}

/// Where one document says the same as another, the other says the same
/// as the one.
pub proof fn saying_the_same_goes_both_ways(a: JsonValue, b: JsonValue)
    requires
        same(a, b),
    ensures
        same(b, a),
    decreases a,
{
    match a {
        JsonValue::Array(ours) => {
            let theirs = b->Array_0;
            assert forall|i: int| 0 <= i < theirs.len() implies same(
                #[trigger] theirs[i],
                ours[i],
            ) by {
                assert(same(ours[i], theirs[i]));
                saying_the_same_goes_both_ways(ours[i], theirs[i]);
            }
        },
        JsonValue::Object(ours) => {
            let theirs = b->Object_0;
            assert forall|j: int|
                0 <= j < theirs.len() && position(theirs, (#[trigger] theirs[j]).key) == Some(
                    j,
                ) implies lookup(ours, theirs[j].key) is Some && same(
                theirs[j].value,
                lookup(ours, theirs[j].key)->0,
            ) by {
                let key = theirs[j].key;
                assert(lookup(ours, key) is Some);
                lemma_position(ours, key);
                lemma_position(theirs, key);
                let i = position(ours, key)->0;
                assert(ours[i].key == key);
                assert(same(ours[i].value, lookup(theirs, ours[i].key)->0));
                saying_the_same_goes_both_ways(ours[i].value, theirs[j].value);
            }
            assert forall|i: int| 0 <= i < ours.len() implies lookup(
                theirs,
                (#[trigger] ours[i]).key,
            ) is Some by {
                lemma_present(ours, i);
                lemma_position(ours, ours[i].key);
                let first = position(ours, ours[i].key)->0;
                assert(ours[first].key == ours[i].key);
                assert(lookup(theirs, ours[first].key) is Some);
            }
        },
        _ => {},
    }
}

/// Where one document says the same as a second, and the second as a
/// third, the first says the same as the third.
pub proof fn saying_the_same_carries_over(a: JsonValue, b: JsonValue, c: JsonValue)
    requires
        same(a, b),
        same(b, c),
    ensures
        same(a, c),
    decreases a,
{
    match a {
        JsonValue::Array(ours) => {
            let middle = b->Array_0;
            let theirs = c->Array_0;
            assert forall|i: int| 0 <= i < ours.len() implies same(
                #[trigger] ours[i],
                theirs[i],
            ) by {
                assert(same(ours[i], middle[i]));
                assert(same(middle[i], theirs[i]));
                saying_the_same_carries_over(ours[i], middle[i], theirs[i]);
            }
        },
        JsonValue::Object(ours) => {
            let middle = b->Object_0;
            let theirs = c->Object_0;
            assert forall|i: int|
                0 <= i < ours.len() && position(ours, (#[trigger] ours[i]).key) == Some(
                    i,
                ) implies lookup(theirs, ours[i].key) is Some && same(
                ours[i].value,
                lookup(theirs, ours[i].key)->0,
            ) by {
                let key = ours[i].key;
                lemma_position(middle, key);
                let j = position(middle, key)->0;
                assert(middle[j].key == key);
                assert(same(middle[j].value, lookup(theirs, middle[j].key)->0));
                saying_the_same_carries_over(
                    ours[i].value,
                    middle[j].value,
                    lookup(theirs, key)->0,
                );
            }
            assert forall|k: int| 0 <= k < theirs.len() implies lookup(
                ours,
                (#[trigger] theirs[k]).key,
            ) is Some by {
                let key = theirs[k].key;
                assert(lookup(middle, key) is Some);
                lemma_position(middle, key);
                let j = position(middle, key)->0;
                assert(middle[j].key == key);
                assert(lookup(ours, middle[j].key) is Some);
            }
        },
        _ => {},
    }
}

/// The order of the members of an object does not count: two members
/// with different names, put either way round, say the same.
pub proof fn the_order_of_members_does_not_count(first: Member, second: Member)
    requires
        first.key != second.key,
    ensures
        same(JsonValue::Object(seq![first, second]), JsonValue::Object(seq![second, first])),
{
    a_document_says_the_same_as_itself(first.value);
    a_document_says_the_same_as_itself(second.value);
    let ours = seq![first, second];
    let theirs = seq![second, first];
    reveal_with_fuel(lookup, 3);
    reveal_with_fuel(position, 3);
    assert(ours.drop_first() =~= seq![second]);
    assert(theirs.drop_first() =~= seq![first]);
    assert(seq![second].drop_first() =~= Seq::<Member>::empty());
    assert(seq![first].drop_first() =~= Seq::<Member>::empty());
    assert(lookup(theirs, first.key) == Some(first.value));
    assert(lookup(theirs, second.key) == Some(second.value));
    assert(lookup(ours, first.key) == Some(first.value));
    assert(lookup(ours, second.key) == Some(second.value));
}

} // verus!
