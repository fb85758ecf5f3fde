//! The data operators: `parse`, `serialize` and `map`.
//!
//! The member `operation` of the step's configuration picks the operator;
//! without it, `parse` runs.

use crate::json::{lemma_object_view, members_view, push_member, Json, JsonValue};
use crate::number::{product_of, sum_of};
use crate::outcome::{count, count_value, entry, fail, failure, no_members, text_or, text_value};
use crate::serialize::json_text;
use crate::text::{
    followed_by, join, joined, lowercase, lowercased, same_text, uppercase, uppercased,
};
use vstd::prelude::*;

verus! {

broadcast use crate::outcome::group_member_sequences;

/// What `parse` makes of its input: the input itself, marked as checked,
/// where it is an object or an array and the declared format is `json`.
pub open spec fn parse_output(config: JsonValue, input: JsonValue) -> JsonValue {
    let input_format = text_or(config.text_member("input_format"@), "json"@);
    if input_format == "json"@ {
        if input is Object || input is Array {
            JsonValue::Object(
                seq![
                    entry("format", text_value("json"@)),
                    entry("parsed_data", input),
                    entry("validation", text_value("passed"@)),
                ],
            )
        } else {
            JsonValue::Object(
                seq![
                    entry("error", text_value("Invalid JSON input"@)),
                    entry("input_type", text_value("not_object_or_array"@)),
                ],
            )
        }
    } else {
        failure("Unsupported input format: "@ + input_format)
    }
}

/// The column headers of a table: the keys of its first row, in order,
/// where that row is an object.
pub open spec fn csv_headers(rows: Seq<JsonValue>) -> Seq<Seq<char>> {
    if rows.len() > 0 {
        match rows[0] {
            JsonValue::Object(members) => Seq::new(members.len(), |i: int| members[i].key),
            _ => Seq::empty(),
        }
    } else {
        Seq::empty()
    }
}

/// One cell: the text of the member `header` where it is a string, else
/// nothing.
pub open spec fn csv_cell(row: JsonValue, header: Seq<char>) -> Seq<char> {
    text_or(row.text_member(header), Seq::empty())
}

/// One line of a table: the cells under the headers, with commas between
/// them; an empty line for a row that is no object.
pub open spec fn csv_line(headers: Seq<Seq<char>>, row: JsonValue) -> Seq<char> {
    if row is Object {
        joined(Seq::new(headers.len(), |i: int| csv_cell(row, headers[i])), seq![','])
    } else {
        Seq::empty()
    }
}

/// The lines of a table, with line feeds between them.
pub open spec fn csv_text(rows: Seq<JsonValue>) -> Seq<char> {
    joined(Seq::new(rows.len(), |i: int| csv_line(csv_headers(rows), rows[i])), seq!['\n'])
}

/// What is written as a table: the member `data` of the input, or the input
/// itself where it has none.
pub open spec fn csv_source(input: JsonValue) -> JsonValue {
    match input.member("data"@) {
        Some(data) => data,
        None => input,
    }
}

/// What `serialize` makes of its input for the format `csv`: a table where
/// the source is an array, else the source as JSON text.
pub open spec fn csv_output(input: JsonValue) -> JsonValue {
    let source = csv_source(input);
    match source.items() {
        Some(rows) => JsonValue::Object(
            seq![
                entry("csv_content", text_value(csv_text(rows))),
                entry(
                    "headers",
                    JsonValue::Array(
                        Seq::new(
                            csv_headers(rows).len(),
                            |i: int| text_value(csv_headers(rows)[i]),
                        ),
                    ),
                ),
                entry("row_count", count_value(rows.len() as int)),
            ],
        ),
        None => JsonValue::Object(
            seq![
                entry("csv_content", text_value(json_text(source))),
                entry("format", text_value("csv"@)),
            ],
        ),
    }
}

/// What `serialize` makes of its input.
pub open spec fn serialize_output(config: JsonValue, input: JsonValue) -> JsonValue {
    let output_format = text_or(config.text_member("output_format"@), "json"@);
    if output_format == "json"@ {
        JsonValue::Object(
            seq![entry("format", text_value("json"@)), entry("serialized_data", input)],
        )
    } else if output_format == "csv"@ {
        csv_output(input)
    } else {
        failure("Unsupported output format: "@ + output_format)
    }
}

/// What a transformation makes of the value that it finds in its field:
/// the new value, or nothing where the operation is unknown or the operands
/// are not of the kinds that it takes.
pub open spec fn transformed_value(current: JsonValue, transform: JsonValue) -> Option<JsonValue> {
    let operation = text_or(transform.text_member("operation"@), Seq::empty());
    if operation == "multiply"@ {
        match (current, transform.member("factor"@)) {
            (JsonValue::Number(c), Some(JsonValue::Number(f))) => Some(
                JsonValue::Number(product_of(c, f)),
            ),
            _ => None,
        }
    } else if operation == "add"@ {
        match (current, transform.member("value"@)) {
            (JsonValue::Number(c), Some(JsonValue::Number(a))) => Some(
                JsonValue::Number(sum_of(c, a)),
            ),
            (JsonValue::String(c), Some(JsonValue::String(a))) => Some(JsonValue::String(c + a)),
            _ => None,
        }
    } else if operation == "uppercase"@ {
        match current {
            JsonValue::String(c) => Some(JsonValue::String(uppercased(c))),
            _ => None,
        }
    } else if operation == "lowercase"@ {
        match current {
            JsonValue::String(c) => Some(JsonValue::String(lowercased(c))),
            _ => None,
        }
    } else {
        None
    }
}

/// A document after one transformation.
///
/// A transformation names a `field` by its slash-delimited path and an
/// `operation`. It reads the value that the document holds in that field
/// and puts the new value in its place. Nothing changes where the field is
/// empty or missing from the document, or where the transformation makes
/// nothing of the value.
pub open spec fn transform_applied(document: JsonValue, transform: JsonValue) -> JsonValue {
    let field = text_or(transform.text_member("field"@), Seq::empty());
    if field.len() == 0 {
        document
    } else {
        match document.at_path(field) {
            None => document,
            Some(current) => match transformed_value(current, transform) {
                Some(value) => document.replaced_at(field, value),
                None => document,
            },
        }
    }
}

/// The input after the first `n` transformations, applied in order, each
/// to what the one before it made.
pub open spec fn transformed(input: JsonValue, transforms: Seq<JsonValue>, n: nat) -> JsonValue
    decreases n,
{
    if n == 0 || n > transforms.len() {
        input
    } else {
        transform_applied(transformed(input, transforms, (n - 1) as nat), transforms[n - 1])
    }
}

/// The transformations that a configuration lists.
pub open spec fn configured_transforms(config: JsonValue) -> Seq<JsonValue> {
    match config.member("transformations"@) {
        Some(v) => match v.items() {
            Some(t) => t,
            None => Seq::empty(),
        },
        None => Seq::empty(),
    }
}

/// What `map` makes of its input: a copy with every transformation
/// applied, beside the input as it was.
pub open spec fn map_output(config: JsonValue, input: JsonValue) -> JsonValue {
    let transforms = configured_transforms(config);
    JsonValue::Object(
        seq![
            entry("original_data", input),
            entry("transformations_applied", count_value(transforms.len() as int)),
            entry("transformed_data", transformed(input, transforms, transforms.len())),
        ],
    )
}

/// The document that a data step makes of its input.
pub open spec fn data_transform_output(config: JsonValue, input: JsonValue) -> JsonValue {
    let operation = text_or(config.text_member("operation"@), "parse"@);
    if operation == "parse"@ {
        parse_output(config, input)
    } else if operation == "serialize"@ {
        serialize_output(config, input)
    } else if operation == "map"@ {
        map_output(config, input)
    } else {
        failure("Unknown data transformation operation: "@ + operation)
    }
}

/// Checks that the input is an object or an array.
pub fn parse(config: &Json, input: &Json) -> (r: Json)
    ensures
        r@ == parse_output(config@, input@),
{
    let input_format: &str = match config.text_member("input_format") {
        Some(s) => s,
        None => "json",
    };
    if same_text(input_format, "json") {
        let mut members = no_members();
        if input.is_object() || input.is_array() {
            push_member(&mut members, "format", Json::string("json"));
            push_member(&mut members, "parsed_data", input.clone());
            push_member(&mut members, "validation", Json::string("passed"));
        } else {
            push_member(&mut members, "error", Json::string("Invalid JSON input"));
            push_member(&mut members, "input_type", Json::string("not_object_or_array"));
        }
        Json::object(members)
    } else {
        let message = followed_by("Unsupported input format: ", input_format);
        fail(message.as_str())
    }
}

/// The column headers of a table.
fn headers_of(rows: &Vec<Json>) -> (r: Vec<String>)
    ensures
        r.deep_view() == csv_headers(rows.deep_view()),
{
    let mut out: Vec<String> = Vec::new();
    if rows.len() > 0 {
        match &rows[0] {
            Json::Object(members) => {
                proof {
                    lemma_object_view(rows[0]);
                }
                let ghost keys = members_view(members@);
                let mut i: usize = 0;
                while i < members.len()
                    invariant
                        0 <= i <= members.len(),
                        keys == members_view(members@),
                        out@.len() == i,
                        forall|j: int| 0 <= j < i ==> out@[j]@ == keys[j].key,
                    decreases members.len() - i,
                {
                    out.push(members[i].0.clone());
                    i = i + 1;
                }
                assert(out.deep_view() =~= csv_headers(rows.deep_view()));
            },
            _ => {
                assert(out.deep_view() =~= csv_headers(rows.deep_view()));
            },
        }
    } else {
        assert(out.deep_view() =~= csv_headers(rows.deep_view()));
    }
    out
}

/// One line of a table.
fn line_of(headers: &Vec<String>, row: &Json) -> (r: String)
    ensures
        r@ == csv_line(headers.deep_view(), row@),
{
    if row.is_object() {
        let mut cells: Vec<String> = Vec::new();
        let mut i: usize = 0;
        while i < headers.len()
            invariant
                0 <= i <= headers.len(),
                cells@.len() == i,
                forall|j: int|
                    0 <= j < i ==> cells@[j]@ == csv_cell(row@, #[trigger] headers@[j]@),
            decreases headers.len() - i,
        {
            let cell: String = match row.text_member(headers[i].as_str()) {
                Some(s) => s.to_owned(),
                None => String::new(),
            };
            cells.push(cell);
            i = i + 1;
        }
        assert(cells.deep_view() =~= Seq::new(
            headers.deep_view().len(),
            |i: int| csv_cell(row@, headers.deep_view()[i]),
        ));
        proof {
            reveal_strlit(",");
            assert(","@ =~= seq![',']);
        }
        join(&cells, ",")
    } else {
        String::new()
    }
}

/// Writes the source as a table, or as JSON text where it is no array.
pub fn serialize_csv(input: &Json) -> (r: Json)
    ensures
        r@ == csv_output(input@),
{
    let source: &Json = match input.get("data") {
        Some(data) => data,
        None => input,
    };
    let mut members = no_members();
    match source.as_array() {
        Some(rows) => {
            let headers = headers_of(rows);
            let mut lines: Vec<String> = Vec::new();
            let mut i: usize = 0;
            while i < rows.len()
                invariant
                    0 <= i <= rows.len(),
                    lines@.len() == i,
                    forall|j: int|
                        0 <= j < i ==> lines@[j]@ == csv_line(
                            headers.deep_view(),
                            #[trigger] rows@[j]@,
                        ),
                decreases rows.len() - i,
            {
                lines.push(line_of(&headers, &rows[i]));
                i = i + 1;
            }
            assert(lines.deep_view() =~= Seq::new(
                rows.deep_view().len(),
                |i: int| csv_line(csv_headers(rows.deep_view()), rows.deep_view()[i]),
            ));
            proof {
                reveal_strlit("\n");
                assert("\n"@ =~= seq!['\n']);
            }
            let content = join(&lines, "\n");
            let mut names: Vec<Json> = Vec::new();
            let mut k: usize = 0;
            while k < headers.len()
                invariant
                    0 <= k <= headers.len(),
                    names@.len() == k,
                    forall|j: int| 0 <= j < k ==> names@[j]@ == text_value(headers@[j]@),
                decreases headers.len() - k,
            {
                names.push(Json::String(headers[k].clone()));
                k = k + 1;
            }
            assert(names.deep_view() =~= Seq::new(
                csv_headers(rows.deep_view()).len(),
                |i: int| text_value(csv_headers(rows.deep_view())[i]),
            ));
            push_member(&mut members, "csv_content", Json::String(content));
            push_member(&mut members, "headers", Json::array(names));
            push_member(&mut members, "row_count", count(rows.len()));
        },
        None => {
            push_member(&mut members, "csv_content", Json::String(source.to_text()));
            push_member(&mut members, "format", Json::string("csv"));
        },
    }
    Json::object(members)
}

/// Writes the input out in the configured format.
pub fn serialize(config: &Json, input: &Json) -> (r: Json)
    ensures
        r@ == serialize_output(config@, input@),
{
    let output_format: &str = match config.text_member("output_format") {
        Some(s) => s,
        None => "json",
    };
    if same_text(output_format, "json") {
        let mut members = no_members();
        push_member(&mut members, "format", Json::string("json"));
        push_member(&mut members, "serialized_data", input.clone());
        Json::object(members)
    } else if same_text(output_format, "csv") {
        serialize_csv(input)
    } else {
        let message = followed_by("Unsupported output format: ", output_format);
        fail(message.as_str())
    }
}

/// What a transformation makes of the value that it finds in its field.
pub fn transform_value(current: &Json, transform: &Json) -> (r: Option<Json>)
    ensures
        match r {
            Some(value) => transformed_value(current@, transform@) == Some(value@),
            None => transformed_value(current@, transform@) is None,
        },
{
    proof {
        reveal_strlit("");
        assert(""@ =~= Seq::<char>::empty());
    }
    let operation: &str = match transform.text_member("operation") {
        Some(s) => s,
        None => "",
    };
    if same_text(operation, "multiply") {
        match (current, transform.get("factor")) {
            (Json::Number(c), Some(Json::Number(f))) => Some(Json::Number(c.product(f))),
            _ => None,
        }
    } else if same_text(operation, "add") {
        match (current, transform.get("value")) {
            (Json::Number(c), Some(Json::Number(a))) => Some(Json::Number(c.sum(a))),
            (Json::String(c), Some(Json::String(a))) => Some(
                Json::String(followed_by(c.as_str(), a.as_str())),
            ),
            _ => None,
        }
    } else if same_text(operation, "uppercase") {
        match current {
            Json::String(c) => Some(Json::String(uppercase(c.as_str()))),
            _ => None,
        }
    } else if same_text(operation, "lowercase") {
        match current {
            Json::String(c) => Some(Json::String(lowercase(c.as_str()))),
            _ => None,
        }
    } else {
        None
    }
}

/// Applies one transformation to a document.
pub fn apply_transform(document: Json, transform: &Json) -> (r: Json)
    ensures
        r@ == transform_applied(document@, transform@),
{
    proof {
        reveal_strlit("");
        assert(""@ =~= Seq::<char>::empty());
    }
    let field: &str = match transform.text_member("field") {
        Some(s) => s,
        None => "",
    };
    if field.is_empty() {
        return document;
    }
    let replacement: Option<Json> = match document.pointer(field) {
        Some(current) => transform_value(current, transform),
        None => None,
    };
    match replacement {
        Some(value) => document.with_value_at(field, value),
        None => document,
    }
}

/// Applies the configured transformations, in order, to a copy of the
/// input.
pub fn map_fields(config: &Json, input: &Json) -> (r: Json)
    ensures
        r@ == map_output(config@, input@),
{
    let none: Vec<Json> = Vec::new();
    let transforms: &Vec<Json> = match config.get("transformations") {
        Some(v) => match v.as_array() {
            Some(t) => t,
            None => &none,
        },
        None => &none,
    };
    assert(none.deep_view() =~= Seq::<JsonValue>::empty());
    let mut result = input.clone();
    let mut i: usize = 0;
    while i < transforms.len()
        invariant
            0 <= i <= transforms.len(),
            result@ == transformed(input@, transforms.deep_view(), i as nat),
        decreases transforms.len() - i,
    {
        result = apply_transform(result, &transforms[i]);
        i = i + 1;
    }
    let mut members = no_members();
    push_member(&mut members, "original_data", input.clone());
    push_member(&mut members, "transformations_applied", count(transforms.len()));
    push_member(&mut members, "transformed_data", result);
    Json::object(members)
}

/// Runs the data operator that the configuration names.
pub fn data_transform(config: &Json, input: &Json) -> (r: Json)
    ensures
        r@ == data_transform_output(config@, input@),
{
    let operation: &str = match config.text_member("operation") {
        Some(s) => s,
        None => "parse",
    };
    if same_text(operation, "parse") {
        parse(config, input)
    } else if same_text(operation, "serialize") {
        serialize(config, input)
    } else if same_text(operation, "map") {
        map_fields(config, input)
    } else {
        let message = followed_by("Unknown data transformation operation: ", operation);
        fail(message.as_str())
    }
}

} // verus!
