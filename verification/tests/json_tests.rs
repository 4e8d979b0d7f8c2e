use space_snapshots::json::{json_to_text, JsonField, JsonValue};
use space_snapshots::parse::parse_json_text;

fn text_of(v: &JsonValue) -> String {
    json_to_text(v)
}

#[test]
fn scalars_serialize_to_canonical_text() {
    assert_eq!(text_of(&JsonValue::Null), "null");
    assert_eq!(text_of(&JsonValue::Bool(true)), "true");
    assert_eq!(text_of(&JsonValue::Bool(false)), "false");
    assert_eq!(text_of(&JsonValue::Num(String::from("-12.5e+3"))), "-12.5e+3");
    assert_eq!(text_of(&JsonValue::Str(String::from("a\"b\\c\n"))), r#""a\"b\\c\n""#);
}

#[test]
fn containers_serialize_in_order() {
    let v = JsonValue::Obj(vec![
        JsonField {
            key: String::from("a"),
            value: JsonValue::Arr(vec![
                JsonValue::Num(String::from("1")),
                JsonValue::Null,
                JsonValue::Str(String::from("x")),
            ]),
        },
        JsonField { key: String::from("b"), value: JsonValue::Obj(vec![]) },
    ]);
    assert_eq!(text_of(&v), r#"{"a":[1,null,"x"],"b":{}}"#);
}

#[test]
fn parser_accepts_whitespace_and_escapes() {
    let v = parse_json_text(" { \"k\" :\t[ 1 , \"\\u0041\\t\" , true ]\n} ").unwrap();
    match v {
        JsonValue::Obj(fields) => {
            assert_eq!(fields.len(), 1);
            assert_eq!(fields[0].key, "k");
            match &fields[0].value {
                JsonValue::Arr(items) => {
                    assert_eq!(items.len(), 3);
                    assert!(matches!(&items[0], JsonValue::Num(t) if t == "1"));
                    assert!(matches!(&items[1], JsonValue::Str(s) if s == "A\t"));
                    assert!(matches!(&items[2], JsonValue::Bool(true)));
                },
                _ => panic!("expected an array"),
            }
        },
        _ => panic!("expected an object"),
    }
}

#[test]
fn parser_rejects_malformed_documents() {
    assert!(parse_json_text("").is_none());
    assert!(parse_json_text("tru").is_none());
    assert!(parse_json_text("01").is_none());
    assert!(parse_json_text("1.").is_none());
    assert!(parse_json_text("[1,]").is_none());
    assert!(parse_json_text("{\"a\":}").is_none());
    assert!(parse_json_text("{").is_none());
    assert!(parse_json_text("\"unterminated").is_none());
    assert!(parse_json_text("null x").is_none());
    assert!(parse_json_text("\"bad \\q escape\"").is_none());
}

#[test]
fn parser_keeps_number_text_verbatim() {
    let v = parse_json_text("[54627816.857,0,-0,1e10]").unwrap();
    match v {
        JsonValue::Arr(items) => {
            assert!(matches!(&items[0], JsonValue::Num(t) if t == "54627816.857"));
            assert!(matches!(&items[1], JsonValue::Num(t) if t == "0"));
            assert!(matches!(&items[2], JsonValue::Num(t) if t == "-0"));
            assert!(matches!(&items[3], JsonValue::Num(t) if t == "1e10"));
        },
        _ => panic!("expected an array"),
    }
}

#[test]
fn non_ascii_text_passes_through() {
    let v = parse_json_text("[\"caf\u{e9} \u{1F680}\"]").unwrap();
    let text = text_of(&v);
    assert_eq!(text, "[\"caf\u{e9} \u{1F680}\"]");
    let back = parse_json_text(text.as_str()).unwrap();
    match back {
        JsonValue::Arr(items) => {
            assert!(matches!(&items[0], JsonValue::Str(s) if s == "caf\u{e9} \u{1F680}"));
        },
        _ => panic!("expected an array"),
    }
}

#[test]
fn serializer_output_agrees_with_a_reference_parser() {
    let v = JsonValue::Obj(vec![
        JsonField { key: String::from("text"), value: JsonValue::Str(String::from("a\"\\\n\té")) },
        JsonField { key: String::from("n"), value: JsonValue::Num(String::from("-3.25e2")) },
        JsonField { key: String::from("flag"), value: JsonValue::Bool(false) },
    ]);
    let text = text_of(&v);
    let reference: serde_json::Value = serde_json::from_str(text.as_str()).unwrap();
    assert_eq!(reference["text"], "a\"\\\n\té");
    assert_eq!(reference["n"].as_f64().unwrap(), -325.0);
    assert_eq!(reference["flag"], false);
}

#[test]
fn plane_zero_escapes_decode_to_their_characters() {
    let v = parse_json_text(r#""caf\u00E9 \u2603""#).unwrap();
    assert!(matches!(&v, JsonValue::Str(s) if s == "caf\u{e9} \u{2603}"));
}

#[test]
fn surrogate_pairs_decode_to_one_character() {
    let v = parse_json_text(r#""\uD83D\uDE80""#).unwrap();
    assert!(matches!(&v, JsonValue::Str(s) if s == "\u{1F680}"));
}

#[test]
fn lone_surrogates_are_rejected() {
    assert!(parse_json_text(r#""\uD83D""#).is_none());
    assert!(parse_json_text(r#""\uDE80""#).is_none());
    assert!(parse_json_text(r#""\uD83D\u0041""#).is_none());
}

#[test]
fn control_characters_use_unicode_escapes() {
    let v = JsonValue::Str(String::from("\u{1}\u{1f}"));
    let text = text_of(&v);
    assert_eq!(text, r#""\u0001\u001f""#);
    let back = parse_json_text(text.as_str()).unwrap();
    assert!(matches!(&back, JsonValue::Str(s) if s == "\u{1}\u{1f}"));
}
