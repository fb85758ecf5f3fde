use pipeline_engine::json::{find_member, path_of, push_member, Json};
use pipeline_engine::number::Number;

fn text(s: &str) -> Json {
    Json::String(s.to_string())
}

fn whole(n: u64) -> Json {
    Json::Number(Number::from_u64(n))
}

fn object(members: Vec<(&str, Json)>) -> Json {
    Json::Object(members.into_iter().map(|(k, v)| (k.to_string(), v)).collect())
}

fn sample() -> Json {
    object(vec![
        ("name", text("x")),
        ("a/b", whole(1)),
        ("m~n", whole(2)),
        ("", whole(3)),
        (
            "list",
            Json::Array(vec![whole(10), object(vec![("deep", Json::Bool(true))]), Json::Null]),
        ),
        ("name", text("second")),
    ])
}

#[test]
fn members_are_found_by_name() {
    let doc = sample();
    assert_eq!(doc.get("name"), Some(&text("x")));
    assert_eq!(doc.get(""), Some(&whole(3)));
    assert_eq!(doc.get("missing"), None);
    assert_eq!(Json::Null.get("name"), None);
    assert_eq!(Json::Array(vec![whole(1)]).get("0"), None);
    assert_eq!(doc.text_member("name"), Some("x"));
    assert_eq!(doc.text_member("list"), None);
    assert_eq!(doc.text_member("missing"), None);
}

#[test]
fn documents_tell_their_kind() {
    assert_eq!(text("a").as_str(), Some("a"));
    assert_eq!(whole(1).as_str(), None);
    assert_eq!(Json::Bool(false).as_bool(), Some(false));
    assert_eq!(Json::Null.as_bool(), None);
    assert_eq!(whole(4).as_number(), Some(Number::from_u64(4)));
    assert_eq!(text("4").as_number(), None);
    assert_eq!(Json::Array(vec![whole(1)]).as_array(), Some(&vec![whole(1)]));
    assert_eq!(sample().as_array(), None);
    assert!(sample().is_object());
    assert!(!sample().is_array());
    assert!(Json::Array(Vec::new()).is_array());
    assert!(!Json::Null.is_object());
}

#[test]
fn paths_lead_into_objects_and_arrays() {
    let doc = sample();
    assert_eq!(doc.pointer("name"), Some(&text("x")));
    assert_eq!(doc.pointer("list/0"), Some(&whole(10)));
    assert_eq!(doc.pointer("list/1/deep"), Some(&Json::Bool(true)));
    assert_eq!(doc.pointer("list/2"), Some(&Json::Null));
    assert_eq!(doc.pointer("list/3"), None);
    assert_eq!(doc.pointer("list/01"), None);
    assert_eq!(doc.pointer("list/+1"), None);
    assert_eq!(doc.pointer("list/x"), None);
    assert_eq!(doc.pointer("name/x"), None);
    assert_eq!(doc.pointer("missing"), None);
    assert_eq!(doc.pointer(""), Some(&whole(3)));
    assert_eq!(doc.pointer("a~1b"), Some(&whole(1)));
    assert_eq!(doc.pointer("m~0n"), Some(&whole(2)));
    assert_eq!(doc.pointer("a/b"), None);
}

#[test]
fn paths_agree_with_json_pointers() {
    let value: serde_json::Value = serde_json::from_str(
        "{\"name\":\"x\",\"a/b\":1,\"m~n\":2,\"\":3,\"list\":[10,{\"deep\":true},null],\"~1\":4}",
    )
    .unwrap();
    let mut doc = sample();
    if let Json::Object(members) = &mut doc {
        members.pop();
        members.push(("~1".to_string(), whole(4)));
    }
    for field in [
        "name", "list/0", "list/1/deep", "list/2", "list/3", "list/01", "list/-", "", "a~1b",
        "m~0n", "a/b", "~01", "~1", "~", "list/", "list//", "/", "list/1/deep/x",
    ] {
        let expected = value.pointer(&format!("/{}", field)).map(|v| v.to_string());
        let found = doc.pointer(field).map(|v| v.to_text());
        assert_eq!(found, expected, "field {:?}", field);
    }
}

#[test]
fn path_tokens_are_unescaped() {
    assert_eq!(path_of("a/b"), vec!["a", "b"]);
    assert_eq!(path_of(""), vec![""]);
    assert_eq!(path_of("a~1b/c~0d"), vec!["a/b", "c~d"]);
    assert_eq!(path_of("~01"), vec!["~1"]);
    assert_eq!(path_of("x/"), vec!["x", ""]);
}

#[test]
fn replacing_changes_one_place_only() {
    let doc = sample();
    let changed = doc.clone().with_value_at("list/1/deep", whole(7));
    assert_eq!(changed.pointer("list/1/deep"), Some(&whole(7)));
    assert_eq!(changed.pointer("list/0"), Some(&whole(10)));
    assert_eq!(changed.pointer("name"), Some(&text("x")));
    let restored = changed.with_value_at("list/1/deep", Json::Bool(true));
    assert_eq!(restored, doc);
    let first_only = doc.clone().with_value_at("name", text("y"));
    assert_eq!(first_only.get("name"), Some(&text("y")));
    if let Json::Object(members) = &first_only {
        assert_eq!(members[5], ("name".to_string(), text("second")));
        assert_eq!(members.len(), 6);
    } else {
        panic!("an object stays an object");
    }
}

#[test]
fn replacing_where_nothing_lies_changes_nothing() {
    let doc = sample();
    assert_eq!(doc.clone().with_value_at("missing", whole(1)), doc);
    assert_eq!(doc.clone().with_value_at("list/9", whole(1)), doc);
    assert_eq!(doc.clone().with_value_at("list/1/deep/more", whole(1)), doc);
    assert_eq!(doc.clone().with_value_at("name/x", whole(1)), doc);
    assert_eq!(whole(5).with_value_at("a", whole(1)), whole(5));
}

#[test]
fn equality_is_by_content() {
    let doc = sample();
    assert!(doc.equals(&doc.clone()));
    assert!(doc.equals(&sample()));
    assert!(!doc.equals(&doc.clone().with_value_at("list/0", whole(11))));
    assert!(!whole(1).equals(&text("1")));
    assert!(!Json::Null.equals(&Json::Bool(false)));
    assert!(Json::Null.equals(&Json::Null));
    assert!(!Json::Array(vec![whole(1)]).equals(&Json::Array(vec![whole(1), whole(1)])));
    assert!(!object(vec![("a", whole(1))]).equals(&object(vec![("b", whole(1))])));
    let one_point_zero = Json::Number(Number::from_parts(false, 10, -1).unwrap());
    assert!(whole(1).equals(&one_point_zero));
}

#[test]
fn objects_say_the_same_whatever_the_order_of_their_members() {
    let ab = object(vec![("a", whole(1)), ("b", text("t"))]);
    let ba = object(vec![("b", text("t")), ("a", whole(1))]);
    assert!(ab.equals(&ba));
    assert!(ba.equals(&ab));
    assert!(!ab.equals(&object(vec![("a", whole(1))])));
    assert!(!object(vec![("a", whole(1))]).equals(&ab));
    assert!(!ab.equals(&object(vec![("b", text("t")), ("a", whole(2))])));
    assert!(!ab.equals(&object(vec![("b", text("t")), ("c", whole(1))])));
    assert!(object(vec![]).equals(&object(vec![])));
    assert!(!object(vec![]).equals(&Json::Array(vec![])));
    let nested = |inner: Json| Json::Array(vec![object(vec![("k", inner), ("n", Json::Null)])]);
    let other = |inner: Json| Json::Array(vec![object(vec![("n", Json::Null), ("k", inner)])]);
    assert!(nested(ab.clone()).equals(&other(ba.clone())));
    assert!(!nested(ab.clone()).equals(&other(whole(1))));
    assert!(!Json::Array(vec![whole(1), whole(2)]).equals(&Json::Array(vec![whole(2), whole(1)])));
}

#[test]
fn of_a_name_that_stands_twice_the_first_member_counts() {
    let twice = object(vec![("a", whole(1)), ("a", whole(2))]);
    let once = object(vec![("a", whole(1))]);
    assert!(twice.equals(&once));
    assert!(once.equals(&twice));
    assert!(!twice.equals(&object(vec![("a", whole(2))])));
}

#[test]
fn saying_the_same_agrees_with_serde_json() {
    for (left, right) in [
        ("{\"a\":1,\"b\":[{\"c\":null,\"d\":\"e\"}]}", "{\"b\":[{\"d\":\"e\",\"c\":null}],\"a\":1}"),
        ("{\"a\":1}", "{\"a\":2}"),
        ("{\"a\":1}", "{\"a\":1,\"b\":1}"),
        ("[1,2]", "[2,1]"),
        ("{}", "[]"),
        ("{\"a\":{}}", "{\"a\":{}}"),
    ] {
        let a: serde_json::Value = serde_json::from_str(left).unwrap();
        let b: serde_json::Value = serde_json::from_str(right).unwrap();
        let ours = in_written_order(left);
        let theirs = in_written_order(right);
        assert_eq!(ours.equals(&theirs), a == b, "{} and {}", left, right);
        assert_eq!(theirs.equals(&ours), a == b, "{} and {}", right, left);
    }
}

fn in_written_order(source: &str) -> Json {
    let value: serde_json::Value = serde_json::from_str(source).unwrap();
    let sorted = from_serde(&value);
    reversed(&sorted)
}

fn reversed(doc: &Json) -> Json {
    match doc {
        Json::Array(items) => Json::Array(items.iter().map(reversed).collect()),
        Json::Object(members) => {
            Json::Object(members.iter().rev().map(|(k, v)| (k.clone(), reversed(v))).collect())
        }
        other => other.clone(),
    }
}

#[test]
fn builders_keep_their_arguments() {
    let mut members = Vec::new();
    push_member(&mut members, "a", whole(1));
    push_member(&mut members, "b", text("t"));
    assert_eq!(find_member(&members, &"b".to_string()), Some(1));
    assert_eq!(find_member(&members, &"c".to_string()), None);
    assert_eq!(Json::object(members), object(vec![("a", whole(1)), ("b", text("t"))]));
    assert_eq!(Json::array(vec![whole(1)]), Json::Array(vec![whole(1)]));
    assert_eq!(Json::string("s"), text("s"));
    let doc = sample();
    assert_eq!(doc.child(&"name".to_string()), Some(&text("x")));
    assert_eq!(
        doc.descend(&vec!["list".to_string(), "0".to_string()]),
        Some(&whole(10))
    );
    assert_eq!(doc.descend(&Vec::new()), Some(&doc));
}

#[test]
fn compact_text_agrees_with_serde_json() {
    for source in [
        "null",
        "true",
        "false",
        "0",
        "5",
        "-17",
        "18446744073709551615",
        "\"\"",
        "\"plain\"",
        "\"quote \\\" backslash \\\\ slash /\"",
        "\"\\b\\f\\n\\r\\t\\u0000\\u001f\\u007f\"",
        "\"héllo 😀\"",
        "[]",
        "{}",
        "[1,[2,[3]],{\"a\":{\"b\":[]}}]",
        "{\"a\":1,\"b\":\"two\",\"c\":[true,null]}",
    ] {
        let value: serde_json::Value = serde_json::from_str(source).unwrap();
        let doc = from_serde(&value);
        assert_eq!(doc.to_text(), serde_json::to_string(&value).unwrap());
    }
}

fn from_serde(value: &serde_json::Value) -> Json {
    match value {
        serde_json::Value::Null => Json::Null,
        serde_json::Value::Bool(b) => Json::Bool(*b),
        serde_json::Value::Number(n) => {
            if let Some(u) = n.as_u64() {
                whole(u)
            } else {
                Json::Number(Number::from_i64(n.as_i64().unwrap()))
            }
        }
        serde_json::Value::String(s) => text(s),
        serde_json::Value::Array(items) => Json::Array(items.iter().map(from_serde).collect()),
        serde_json::Value::Object(map) => {
            Json::Object(map.iter().map(|(k, v)| (k.clone(), from_serde(v))).collect())
        }
    }
}

#[test]
fn numbers_are_written_in_full_or_with_an_exponent() {
    let written = |negative: bool, magnitude: u128, exponent: i64| {
        Json::Number(Number::from_parts(negative, magnitude, exponent).unwrap()).to_text()
    };
    assert_eq!(written(false, 0, 0), "0");
    assert_eq!(written(false, 15, -1), "1.5");
    assert_eq!(written(true, 15, -1), "-1.5");
    assert_eq!(written(false, 5, -3), "0.005");
    assert_eq!(written(false, 5, -1), "0.5");
    assert_eq!(written(false, 12345, -2), "123.45");
    assert_eq!(written(false, 12, 2), "1200");
    assert_eq!(written(false, 1, 20), "100000000000000000000");
    assert_eq!(written(false, 1, 21), "1e21");
    assert_eq!(written(true, 25, 300), "-25e300");
    assert_eq!(written(false, 1, -20), "0.00000000000000000001");
    assert_eq!(written(false, 1, -21), "1e-21");
    assert_eq!(written(false, 123, -324), "123e-324");
    for (negative, magnitude, exponent) in
        [(false, 15u128, -1i64), (false, 5, -3), (true, 12345, -2), (false, 1, 21), (false, 7, -30)]
    {
        let parsed: f64 = written(negative, magnitude, exponent).parse().unwrap();
        let sign = if negative { -1.0 } else { 1.0 };
        let expected = sign * (magnitude as f64) * 10f64.powi(exponent as i32);
        assert!((parsed - expected).abs() <= expected.abs() * 1e-12);
    }
}

#[test]
fn writing_appends() {
    let mut out: Vec<char> = vec!['>'];
    object(vec![("k", Json::Array(vec![whole(1), Json::Null]))]).write_text(&mut out);
    assert_eq!(out.into_iter().collect::<String>(), ">{\"k\":[1,null]}");
}

#[test]
fn every_character_is_written_as_serde_json_writes_it() {
    let mut code: u32 = 0;
    while code <= 0x2100 {
        if let Some(c) = char::from_u32(code) {
            let s = format!("a{}b", c);
            assert_eq!(text(&s).to_text(), serde_json::to_string(&s).unwrap(), "U+{:04X}", code);
        }
        code += 1;
    }
    for c in ['\u{d7ff}', '\u{e000}', '\u{ffff}', '\u{10000}', '\u{10ffff}'] {
        let s = c.to_string();
        assert_eq!(text(&s).to_text(), serde_json::to_string(&s).unwrap());
    }
}
