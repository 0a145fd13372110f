use json_ser::ser::escape;
use json_ser::Json;
use json_ser::JsonVal;

#[test]
fn escape_test() {
    let empty = String::from("");
    let simple = String::from("string");
    let qm_inside = String::from("so i said \"do it\" and he did it");
    let qm_outside = String::from("\"i have a bad feeling about this\"");
    assert_eq!(escape(&empty), empty);
    assert_eq!(escape(&simple), simple);
    assert_eq!(
        escape(&qm_inside),
        String::from("so i said \\\"do it\\\" and he did it")
    );
    assert_eq!(
        escape(&qm_outside),
        String::from("\\\"i have a bad feeling about this\\\"")
    );
}

fn test_json() -> Json {
    Json::Obj(vec![
        (
            String::from("name"),
            JsonVal::Str(String::from("Stefano")),
        ),
        (String::from("age"), JsonVal::Num(String::from("31"))),
        (
            String::from("fav_pls"),
            JsonVal::Composite(Json::Arr(vec![
                JsonVal::Str(String::from("scala")),
                JsonVal::Str(String::from("rust")),
            ])),
        ),
        (String::from("clue"), JsonVal::Null),
    ])
}

#[test]
fn basic_test() {
    let actual_json = test_json().serialize();
    let expected_json = r#"{"name":"Stefano","age":31,"fav_pls":["scala","rust"],"clue":null}"#;
    assert_eq!(actual_json, expected_json);
}

#[test]
fn empty_array_and_object() {
    assert_eq!(Json::Arr(vec![]).serialize(), "[]");
    assert_eq!(Json::Obj(vec![]).serialize(), "{}");
}

#[test]
fn string_value_escaping() {
    let v = JsonVal::Str(String::from("so i said \"do it\""));
    assert_eq!(v.to_text(), "\"so i said \\\"do it\\\"\"");
}

#[test]
fn delimiter_pair() {
    let obj = Json::Obj(vec![(String::from("k"), JsonVal::Bool(true))]).serialize();
    assert!(obj.starts_with('{') && obj.ends_with('}'));
    let arr = Json::Arr(vec![JsonVal::Null]).serialize();
    assert!(arr.starts_with('[') && arr.ends_with(']'));
}

#[test]
fn object_comma_count() {
    let obj = Json::Obj(vec![
        (String::from("a"), JsonVal::Null),
        (String::from("b"), JsonVal::Bool(false)),
        (String::from("c"), JsonVal::Num(String::from("7"))),
    ]);
    assert_eq!(obj.serialize().matches(',').count(), 2);
    assert_eq!(Json::Obj(vec![]).serialize().matches(',').count(), 0);
}

#[test]
fn nested_container_is_flush() {
    let inner = Json::Obj(vec![]);
    let outer = Json::Arr(vec![JsonVal::Composite(inner)]);
    assert_eq!(outer.serialize(), "[{}]");
}

#[test]
fn repeated_serialization_is_identical() {
    let tree = Json::Arr(vec![
        JsonVal::Str(String::from("x")),
        JsonVal::Num(String::from("2.5")),
    ]);
    assert_eq!(tree.serialize(), tree.serialize());
}

#[test]
fn number_text_passes_through() {
    assert_eq!(JsonVal::Num(String::from("2.5")).to_text(), "2.5");
    assert_eq!(JsonVal::Num(String::from("31")).to_text(), "31");
}

#[test]
fn literals_render() {
    assert_eq!(JsonVal::Bool(true).to_text(), "true");
    assert_eq!(JsonVal::Bool(false).to_text(), "false");
    assert_eq!(JsonVal::Null.to_text(), "null");
}

#[test]
fn escaped_quotes_follow_backslashes() {
    let e = escape(&String::from("a\"b\"c"));
    assert_eq!(e, "a\\\"b\\\"c");
    let chars: Vec<char> = e.chars().collect();
    for k in 0..chars.len() {
        if chars[k] == '"' {
            assert!(k >= 1 && chars[k - 1] == '\\');
        }
    }
}

#[test]
fn object_key_is_escaped() {
    let obj = Json::Obj(vec![(String::from("sa\"id"), JsonVal::Null)]);
    assert_eq!(obj.serialize(), "{\"sa\\\"id\":null}");
}
