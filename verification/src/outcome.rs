//! What a step hands back: a document, and whether it stands for failure.
//!
//! A step fails exactly when its output carries a member named `error`; the
//! text of that member is the step's error message.

use crate::json::{members_view, push_member, Json, JsonValue, Member};
use crate::model::{clone_text, text_view, PipelineStatus};
use crate::number::{reduced, Number};
use vstd::prelude::*;

verus! {

/// The result of running one step's operator.
#[derive(Debug, PartialEq, Eq)]
pub struct StepOutcome {
    pub status: PipelineStatus,
    pub output: Json,
    pub error_message: Option<String>,
}

/// The mathematical reading of an operator's result.
pub struct Outcome {
    pub status: PipelineStatus,
    pub output: JsonValue,
    pub error_message: Option<Seq<char>>,
}

impl View for StepOutcome {
    type V = Outcome;

    open spec fn view(&self) -> Outcome {
        Outcome {
            status: self.status,
            output: self.output@,
            error_message: text_view(self.error_message),
        }
    }
}

/// The member `key` with the given value.
pub open spec fn entry(key: &str, value: JsonValue) -> Member {
    Member { key: key@, value }
}

/// The string document with the given text.
pub open spec fn text_value(text: Seq<char>) -> JsonValue {
    JsonValue::String(text)
}

/// The number document that counts `n`.
pub open spec fn count_value(n: int) -> JsonValue {
    JsonValue::Number(reduced(n, 0))
}

/// The document that reports failure with `message`.
pub open spec fn failure(message: Seq<char>) -> JsonValue {
    JsonValue::Object(seq![entry("error", text_value(message))])
}

/// `value` where there is one, else `default`.
pub open spec fn text_or(value: Option<Seq<char>>, default: Seq<char>) -> Seq<char> {
    match value {
        Some(s) => s,
        None => default,
    }
}

/// How a step ends, given the document it made.
pub open spec fn outcome_of(output: JsonValue) -> Outcome {
    Outcome {
        status: if output.member("error"@) is Some {
            PipelineStatus::Failed
        } else {
            PipelineStatus::Completed
        },
        output,
        error_message: output.text_member("error"@),
    }
}

/// Two members pushed in turn are the sequence of the two.
pub broadcast proof fn lemma_two_members(a: Member, b: Member)
    ensures
        #[trigger] Seq::<Member>::empty().push(a).push(b) == seq![a, b],
{
    assert(Seq::<Member>::empty().push(a).push(b) =~= seq![a, b]);
}

/// Three members pushed in turn are the sequence of the three.
pub broadcast proof fn lemma_three_members(a: Member, b: Member, c: Member)
    ensures
        #[trigger] Seq::<Member>::empty().push(a).push(b).push(c) == seq![a, b, c],
{
    assert(Seq::<Member>::empty().push(a).push(b).push(c) =~= seq![a, b, c]);
}

/// Four members pushed in turn are the sequence of the four.
pub broadcast proof fn lemma_four_members(a: Member, b: Member, c: Member, d: Member)
    ensures
        #[trigger] Seq::<Member>::empty().push(a).push(b).push(c).push(d) == seq![a, b, c, d],
{
    assert(Seq::<Member>::empty().push(a).push(b).push(c).push(d) =~= seq![a, b, c, d]);
}

/// Five members pushed in turn are the sequence of the five.
pub broadcast proof fn lemma_five_members(a: Member, b: Member, c: Member, d: Member, e: Member)
    ensures
        #[trigger] Seq::<Member>::empty().push(a).push(b).push(c).push(d).push(e) == seq![
            a,
            b,
            c,
            d,
            e,
        ],
{
    assert(Seq::<Member>::empty().push(a).push(b).push(c).push(d).push(e) =~= seq![a, b, c, d, e]);
}

pub broadcast group group_member_sequences {
    lemma_two_members,
    lemma_three_members,
    lemma_four_members,
    lemma_five_members,
}

/// No members yet.
pub fn no_members() -> (r: Vec<(String, Json)>)
    ensures
        members_view(r@) == Seq::<Member>::empty(),
{
    let r: Vec<(String, Json)> = Vec::new();
    assert(members_view(r@) =~= Seq::<Member>::empty());
    r
}

/// The number document that counts `n`.
pub fn count(n: usize) -> (r: Json)
    ensures
        r@ == count_value(n as int),
{
    Json::Number(Number::from_usize(n))
}

/// The document that reports failure with `message`.
pub fn fail(message: &str) -> (r: Json)
    ensures
        r@ == failure(message@),
{
    let mut members = no_members();
    push_member(&mut members, "error", Json::string(message));
    Json::object(members)
}

/// Settles how a step ends from the document it made.
pub fn conclude(output: Json) -> (r: StepOutcome)
    ensures
        r@ == outcome_of(output@),
{
    let failed = output.get("error").is_some();
    let message: Option<String> = match output.text_member("error") {
        Some(s) => Some(s.to_owned()),
        None => None,
    };
    StepOutcome {
        status: if failed {
            PipelineStatus::Failed
        } else {
            PipelineStatus::Completed
        },
        output,
        error_message: message,
    }
}

} // verus!
