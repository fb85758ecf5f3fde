//! The condition operators: `exists` and `equals`.
//!
//! Both look at what lies in the input at the slash-delimited path that the
//! configuration gives as `field`. The member `condition` of the
//! configuration picks the operator; without it, `exists` runs.

use crate::json::{push_member, same_optional, Json, JsonValue};
use crate::outcome::{entry, fail, failure, no_members, text_or, text_value};
use crate::text::{followed_by, same_text};
use vstd::prelude::*;

verus! {

broadcast use crate::outcome::group_member_sequences;

/// The document where there is one, else null.
pub open spec fn or_null(value: Option<JsonValue>) -> JsonValue {
    match value {
        Some(v) => v,
        None => JsonValue::Null,
    }
}

/// Whether the input holds anything at `field`. The empty path names the
/// input itself, so it always does.
pub open spec fn field_exists(input: JsonValue, field: Seq<char>) -> bool {
    field.len() == 0 || input.at_path(field) is Some
}

/// What `exists` reports.
pub open spec fn exists_output(condition: Seq<char>, field: Seq<char>, input: JsonValue)
    -> JsonValue {
    JsonValue::Object(
        seq![
            entry("condition", text_value(condition)),
            entry("exists", JsonValue::Bool(field_exists(input, field))),
            entry("field", text_value(field)),
            entry("result", JsonValue::Bool(field_exists(input, field))),
        ],
    )
}

/// What `equals` reports: the two sides are equal where both are absent,
/// or both are present and say the same.
pub open spec fn equals_output(
    condition: Seq<char>,
    field: Seq<char>,
    expected: Option<JsonValue>,
    input: JsonValue,
) -> JsonValue {
    JsonValue::Object(
        seq![
            entry("condition", text_value(condition)),
            entry("current", or_null(input.at_path(field))),
            entry("expected", or_null(expected)),
            entry("field", text_value(field)),
            entry("result", JsonValue::Bool(same_optional(input.at_path(field), expected))),
        ],
    )
}

/// The document that a condition step makes of its input.
pub open spec fn condition_output(config: JsonValue, input: JsonValue) -> JsonValue {
    let condition = text_or(config.text_member("condition"@), "exists"@);
    let field = text_or(config.text_member("field"@), Seq::empty());
    if condition == "exists"@ {
        exists_output(condition, field, input)
    } else if condition == "equals"@ {
        equals_output(condition, field, config.member("value"@), input)
    } else {
        failure("Unknown condition: "@ + condition)
    }
}

/// The document where there is one, else null.
fn cloned_or_null(value: Option<&Json>) -> (r: Json)
    ensures
        r@ == or_null(
            match value {
                Some(v) => Some(v@),
                None => None,
            },
        ),
{
    match value {
        Some(v) => v.clone(),
        None => Json::Null,
    }
}

/// Runs the condition that the configuration names.
pub fn condition(config: &Json, input: &Json) -> (r: Json)
    ensures
        r@ == condition_output(config@, input@),
{
    let name: &str = match config.text_member("condition") {
        Some(s) => s,
        None => "exists",
    };
    proof {
        reveal_strlit("");
        assert(""@ =~= Seq::<char>::empty());
    }
    let field: &str = match config.text_member("field") {
        Some(s) => s,
        None => "",
    };
    if same_text(name, "exists") {
        let found = field.is_empty() || input.pointer(field).is_some();
        let mut members = no_members();
        push_member(&mut members, "condition", Json::string(name));
        push_member(&mut members, "exists", Json::Bool(found));
        push_member(&mut members, "field", Json::string(field));
        push_member(&mut members, "result", Json::Bool(found));
        Json::object(members)
    } else if same_text(name, "equals") {
        let expected = config.get("value");
        let current = input.pointer(field);
        let matches = match (current, expected) {
            (Some(c), Some(e)) => c.equals(e),
            (None, None) => true,
            _ => false,
        };
        let mut members = no_members();
        push_member(&mut members, "condition", Json::string(name));
        push_member(&mut members, "current", cloned_or_null(current));
        push_member(&mut members, "expected", cloned_or_null(expected));
        push_member(&mut members, "field", Json::string(field));
        push_member(&mut members, "result", Json::Bool(matches));
        Json::object(members)
    } else {
        let message = followed_by("Unknown condition: ", name);
        fail(message.as_str())
    }
}

} // verus!
