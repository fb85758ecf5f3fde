//! The text operators: `validate`, `cleanup` and `format`.
//!
//! Each reads the string member `content` of its input. The member
//! `operation` of the step's configuration picks the operator; without it,
//! `validate` runs.

use crate::json::{push_member, Json, JsonValue};
use crate::outcome::{
    count, count_value, entry, fail, failure, no_members, text_or, text_value,
};
use crate::text::{
    byte_length, collapse_whitespace, collapsed, followed_by, lemma_collapsing_adds_no_bytes,
    lemma_normalizing_adds_no_bytes, line_endings_normalized,
    normalize_line_endings, same_text, utf8_length, word_count, words,
};
use vstd::prelude::*;

verus! {

broadcast use crate::outcome::group_member_sequences;

/// The report on a text that is not acceptable.
pub open spec fn invalid(message: Seq<char>) -> JsonValue {
    JsonValue::Object(
        seq![entry("error", text_value(message)), entry("valid", JsonValue::Bool(false))],
    )
}

/// What `validate` makes of the content: a report with its length in bytes
/// and its number of words, or a failure where it is missing or empty.
pub open spec fn validate_output(content: Option<Seq<char>>) -> JsonValue {
    match content {
        Some(text) => if text.len() > 0 {
            JsonValue::Object(
                seq![
                    entry("content", text_value(text)),
                    entry("length", count_value(byte_length(text) as int)),
                    entry("valid", JsonValue::Bool(true)),
                    entry("word_count", count_value(words(text).len() as int)),
                ],
            )
        } else {
            invalid("Content cannot be empty"@)
        },
        None => invalid("Missing 'content' field"@),
    }
}

/// The flag `key` of a configuration; `true` where it is not a boolean.
pub open spec fn flag(config: JsonValue, key: Seq<char>) -> bool {
    match config.member(key) {
        Some(v) => match v.boolean() {
            Some(b) => b,
            None => true,
        },
        None => true,
    }
}

/// The text after the cleaning steps that are switched on: first the white
/// space, then the line endings.
pub open spec fn cleaned_text(text: Seq<char>, collapse: bool, normalize: bool) -> Seq<char> {
    let first = if collapse {
        collapsed(text)
    } else {
        text
    };
    if normalize {
        line_endings_normalized(first)
    } else {
        first
    }
}

/// Cleaning never adds bytes to a text.
pub proof fn cleaning_adds_no_bytes(text: Seq<char>, collapse: bool, normalize: bool)
    ensures
        byte_length(cleaned_text(text, collapse, normalize)) <= byte_length(text),
{
    let first = if collapse {
        collapsed(text)
    } else {
        text
    };
    if collapse {
        lemma_collapsing_adds_no_bytes(text);
    }
    if normalize {
        lemma_normalizing_adds_no_bytes(first);
    }
}

/// What `cleanup` makes of the content.
pub open spec fn cleanup_output(config: JsonValue, content: Option<Seq<char>>) -> JsonValue {
    match content {
        Some(text) => {
            let cleaned = cleaned_text(
                text,
                flag(config, "remove_extra_whitespace"@),
                flag(config, "normalize_line_endings"@),
            );
            JsonValue::Object(
                seq![
                    entry("cleaned_length", count_value(byte_length(cleaned) as int)),
                    entry("content", text_value(cleaned)),
                    entry("original_length", count_value(byte_length(text) as int)),
                    entry(
                        "removed_chars",
                        count_value(byte_length(text) - byte_length(cleaned)),
                    ),
                ],
            )
        },
        None => failure("Missing 'content' field"@),
    }
}

/// What `format` makes of the content, by the configured `output_type`.
pub open spec fn format_output(config: JsonValue, content: Option<Seq<char>>) -> JsonValue {
    let output_type = text_or(config.text_member("output_type"@), "plain"@);
    match content {
        Some(text) => if output_type == "formatted_text"@ {
            JsonValue::Object(
                seq![
                    entry("content", text_value("=== Formatted Text ===\n\n"@ + text)),
                    entry("format_type", text_value("formatted_text"@)),
                ],
            )
        } else if output_type == "json"@ {
            JsonValue::Object(
                seq![
                    entry("content", text_value(text)),
                    entry("format_type", text_value("json"@)),
                    entry("wrapped", text_value("{\"text\": \""@ + text + "\"}"@)),
                ],
            )
        } else {
            JsonValue::Object(
                seq![
                    entry("content", text_value(text)),
                    entry("format_type", text_value(output_type)),
                ],
            )
        },
        None => failure("Missing 'content' field"@),
    }
}

/// The document that a text step makes of its input.
pub open spec fn text_processing_output(config: JsonValue, input: JsonValue) -> JsonValue {
    let operation = text_or(config.text_member("operation"@), "validate"@);
    let content = input.text_member("content"@);
    if operation == "validate"@ {
        validate_output(content)
    } else if operation == "cleanup"@ {
        cleanup_output(config, content)
    } else if operation == "format"@ {
        format_output(config, content)
    } else {
        failure("Unknown text processing operation: "@ + operation)
    }
}

/// The report on a text that is not acceptable.
fn reject(message: &str) -> (r: Json)
    ensures
        r@ == invalid(message@),
{
    let mut members = no_members();
    push_member(&mut members, "error", Json::string(message));
    push_member(&mut members, "valid", Json::Bool(false));
    Json::object(members)
}

/// Checks that the content is a string that is not empty.
pub fn validate(input: &Json) -> (r: Json)
    ensures
        r@ == validate_output(input@.text_member("content"@)),
{
    match input.text_member("content") {
        Some(text) => if !text.is_empty() {
            let mut members = no_members();
            push_member(&mut members, "content", Json::string(text));
            push_member(&mut members, "length", count(utf8_length(text)));
            push_member(&mut members, "valid", Json::Bool(true));
            push_member(&mut members, "word_count", count(word_count(text)));
            Json::object(members)
        } else {
            reject("Content cannot be empty")
        },
        None => reject("Missing 'content' field"),
    }
}

/// The flag `key` of a configuration; `true` where it is not a boolean.
fn read_flag(config: &Json, key: &str) -> (r: bool)
    ensures
        r == flag(config@, key@),
{
    match config.get(key) {
        Some(v) => match v.as_bool() {
            Some(b) => b,
            None => true,
        },
        None => true,
    }
}

/// Collapses white space and normalizes line endings, as configured.
pub fn cleanup(config: &Json, input: &Json) -> (r: Json)
    ensures
        r@ == cleanup_output(config@, input@.text_member("content"@)),
{
    match input.text_member("content") {
        Some(text) => {
            let collapse = read_flag(config, "remove_extra_whitespace");
            let normalize = read_flag(config, "normalize_line_endings");
            let first: String = if collapse {
                collapse_whitespace(text)
            } else {
                text.to_owned()
            };
            let cleaned: String = if normalize {
                normalize_line_endings(first.as_str())
            } else {
                first
            };
            let original_length = utf8_length(text);
            let cleaned_length = utf8_length(cleaned.as_str());
            proof {
                cleaning_adds_no_bytes(text@, collapse, normalize);
            }
            let removed: usize = original_length - cleaned_length;
            let mut members = no_members();
            push_member(&mut members, "cleaned_length", count(cleaned_length));
            push_member(&mut members, "content", Json::String(cleaned));
            push_member(&mut members, "original_length", count(original_length));
            push_member(&mut members, "removed_chars", count(removed));
            Json::object(members)
        },
        None => fail("Missing 'content' field"),
    }
}

/// Wraps the content by the configured `output_type`.
pub fn format_content(config: &Json, input: &Json) -> (r: Json)
    ensures
        r@ == format_output(config@, input@.text_member("content"@)),
{
    let output_type: &str = match config.text_member("output_type") {
        Some(s) => s,
        None => "plain",
    };
    match input.text_member("content") {
        Some(text) => {
            let mut members = no_members();
            if same_text(output_type, "formatted_text") {
                push_member(
                    &mut members,
                    "content",
                    Json::String(followed_by("=== Formatted Text ===\n\n", text)),
                );
                push_member(&mut members, "format_type", Json::string("formatted_text"));
            } else if same_text(output_type, "json") {
                let opened = followed_by("{\"text\": \"", text);
                let wrapped = followed_by(opened.as_str(), "\"}");
                push_member(&mut members, "content", Json::string(text));
                push_member(&mut members, "format_type", Json::string("json"));
                push_member(&mut members, "wrapped", Json::String(wrapped));
            } else {
                push_member(&mut members, "content", Json::string(text));
                push_member(&mut members, "format_type", Json::string(output_type));
            }
            Json::object(members)
        },
        None => fail("Missing 'content' field"),
    }
}

/// Runs the text operator that the configuration names.
pub fn text_processing(config: &Json, input: &Json) -> (r: Json)
    ensures
        r@ == text_processing_output(config@, input@),
{
    let operation: &str = match config.text_member("operation") {
        Some(s) => s,
        None => "validate",
    };
    if same_text(operation, "validate") {
        validate(input)
    } else if same_text(operation, "cleanup") {
        cleanup(config, input)
    } else if same_text(operation, "format") {
        format_content(config, input)
    } else {
        let message = followed_by("Unknown text processing operation: ", operation);
        fail(message.as_str())
    }
}

} // verus!
