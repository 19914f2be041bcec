use jsonic::cache::DocumentCache;
use jsonic::commands::{
    cmd_parse_json_with_comments, cmd_stringify_json_with_comments, open_document, save_document,
};
use jsonic::error::DocError;
use jsonic::service::{parse_jsonc_document, stringify_jsonc_document};
use jsonic::value::{Member, PlainValue};

fn num(text: &str) -> PlainValue {
    PlainValue::Number(text.to_string())
}

fn text(value: &str) -> PlainValue {
    PlainValue::String(value.to_string())
}

fn object(members: Vec<(&str, PlainValue)>) -> PlainValue {
    PlainValue::Object(members.into_iter().map(|(k, v)| Member { key: k.to_string(), value: v }).collect())
}

fn member_of<'a>(value: &'a PlainValue, key: &str) -> &'a PlainValue {
    match value {
        PlainValue::Object(members) => &members.iter().find(|m| m.key == key).expect("key").value,
        _ => panic!("not an object"),
    }
}

fn open_then_save(source: &str, new: &PlainValue) -> String {
    let mut cache = DocumentCache::new();
    parse_jsonc_document(&mut cache, source, Some("doc.jsonc")).expect("open");
    stringify_jsonc_document(&mut cache, new, Some("doc.jsonc")).expect("save")
}

#[test]
fn parse_and_stringify_preserves_comments_when_cached() {
    let jsonc = r#"{
  // leading comment
  "a": 1, // inline
  /* block */
  "b": [2, 3]
}"#;
    let mut cache = DocumentCache::new();
    let parsed = open_document(&mut cache, Some("settings.jsonc"), jsonc).expect("parse jsonc");
    assert!(member_of(&parsed, "a").same(&num("1")));

    let stringified = save_document(&mut cache, Some("settings.jsonc"), &parsed).expect("stringify jsonc");
    assert!(stringified.contains("leading comment"));
    assert!(stringified.contains("inline"));
    assert!(stringified.contains("block"));
}

#[test]
fn open_then_save_unchanged_gives_the_text_back() {
    let sources = [
        "{\n// comment\n\"x\": 5\n}",
        "  /* a */ [1, 2.50, \"x\\u0041\", ] // b\r\n",
        "{\"a\":1,\"a\":2}",
        "1.50",
        "\t{\"k\" : [ ] , }\n\n",
    ];
    for source in sources {
        let mut cache = DocumentCache::new();
        let value = parse_jsonc_document(&mut cache, source, Some("doc.jsonc")).expect("open");
        let saved = stringify_jsonc_document(&mut cache, &value, Some("doc.jsonc")).expect("save");
        assert_eq!(saved, source);
    }
}

#[test]
fn open_and_save_under_one_identity_keeps_the_comment() {
    let mut cache = DocumentCache::new();
    let opened = open_document(&mut cache, Some("data.jsonc"), "{\n// comment\n\"x\": 5\n}").expect("open file");
    assert!(member_of(&opened, "x").same(&num("5")));
    let saved = save_document(&mut cache, Some("data.jsonc"), &opened).expect("save file");
    assert!(saved.contains("comment"));
}

#[test]
fn save_under_an_identity_never_opened_writes_a_new_document() {
    let mut cache = DocumentCache::new();
    let opened = open_document(&mut cache, Some("data.jsonc"), "{\n// comment\n\"x\": 5\n}").expect("open file");
    let saved = save_document(&mut cache, Some("out.jsonc"), &opened).expect("save file");
    assert_eq!(saved, "{\"x\":5}");
    assert_eq!(cache.len(), 1);
    assert!(cache.get("out.jsonc").is_none());
    assert_eq!(cache.get("data.jsonc").expect("cached").text, "{\n// comment\n\"x\": 5\n}");
}

#[test]
fn comment_survives_a_scalar_edit() {
    let new = object(vec![("a", num("5")), ("b", num("2"))]);
    let saved = open_then_save("{\"a\":1 /* keep */, \"b\":2}", &new);
    assert!(saved.contains("/* keep */"));
    assert_eq!(saved, "{\"a\":5 /* keep */, \"b\":2}");
}

#[test]
fn removed_key_takes_its_comment_along() {
    let new = object(vec![("b", num("2"))]);
    let saved = open_then_save("{ \"a\": 1, // note\n \"b\": 2 }", &new);
    assert!(!saved.contains("// note"));
    assert_eq!(saved, "{\n \"b\": 2 }");
}

#[test]
fn number_keeps_its_spelling_when_unchanged() {
    let mut cache = DocumentCache::new();
    let value = parse_jsonc_document(&mut cache, "1.50", Some("n.json")).expect("open");
    assert!(value.same(&num("1.5")));
    assert_eq!(stringify_jsonc_document(&mut cache, &value, Some("n.json")).expect("save"), "1.50");
    assert_eq!(open_then_save("[1.0, 7]", &PlainValue::Array(vec![num("1.0"), num("8")])), "[1.0, 8]");
}

#[test]
fn stateless_stringify_gives_strict_json_without_comments() {
    let value = object(vec![
        ("a", PlainValue::Array(vec![num("1"), text("x\ny"), PlainValue::Bool(true)])),
        ("b", PlainValue::Null),
        ("c // not a comment", object(vec![])),
    ]);
    let written = cmd_stringify_json_with_comments(&value).expect("stringify");
    assert_eq!(written, "{\"a\":[1,\"x\\ny\",true],\"b\":null,\"c // not a comment\":{}}");
    let strict: serde_json::Value = serde_json::from_str(&written).expect("strict json");
    assert_eq!(strict["a"][1], serde_json::Value::String("x\ny".to_string()));
    assert!(strict["b"].is_null());
}

#[test]
fn stateless_stringify_forgets_the_comments_of_the_source() {
    let parsed = cmd_parse_json_with_comments("{ \"a\": 1 /* gone */ }").expect("parse");
    let written = cmd_stringify_json_with_comments(&parsed).expect("stringify");
    assert_eq!(written, "{\"a\":1}");
}

#[test]
fn empty_input_is_its_own_error() {
    let mut cache = DocumentCache::new();
    for source in ["", "   \n\t", "// only a comment\n", "/* nothing */"] {
        let error = parse_jsonc_document(&mut cache, source, Some("e.json")).expect_err("no value");
        assert!(matches!(error, DocError::EmptyInput));
        assert_eq!(error.message(), "Empty input");
    }
    assert_eq!(cache.len(), 0);
    assert_eq!(cmd_parse_json_with_comments("").expect_err("empty"), "Failed to parse input: Empty input");
}

#[test]
fn malformed_text_is_a_syntax_error() {
    let mut cache = DocumentCache::new();
    let error = parse_jsonc_document(&mut cache, "{", None).expect_err("unterminated");
    match &error {
        DocError::SyntaxError { detail } => assert_eq!(detail, "Unterminated object on line 1 column 1"),
        other => panic!("unexpected error {:?}", other),
    }
    assert_eq!(error.message(), "Parse error: Unterminated object on line 1 column 1");
    for source in ["\"open", "/* open", "[1, 2", "{\"a\" 1}", "[1] [2]", "}", "{a: 1}", "nul"] {
        let error = parse_jsonc_document(&mut cache, source, None).expect_err("malformed");
        assert!(matches!(error, DocError::SyntaxError { .. }), "{:?}", source);
    }
    assert_eq!(
        open_document(&mut cache, Some("bad.json"), "[1, 2").expect_err("unterminated"),
        "Failed to parse file 'bad.json': Parse error: Unterminated array on line 1 column 1"
    );
}

#[test]
fn comments_and_trailing_commas_are_accepted() {
    let parsed = cmd_parse_json_with_comments("// c\n{ \"a\": [1, 2,], /* d */ }").expect("jsonc");
    assert!(parsed.same(&object(vec![("a", PlainValue::Array(vec![num("1"), num("2")]))])));
}

#[test]
fn a_value_that_does_not_read_back_is_not_written() {
    let mut cache = DocumentCache::new();
    parse_jsonc_document(&mut cache, "[1] // keep", Some("p")).expect("open");
    let error = stringify_jsonc_document(&mut cache, &PlainValue::Array(vec![num("abc")]), Some("p"))
        .expect_err("no number");
    assert!(matches!(error, DocError::ProjectionFailure { .. }));
    assert!(error.message().starts_with("Failed to stringify: "));
    assert_eq!(cache.get("p").expect("cached").text, "[1] // keep");

    let twice = object(vec![("a", num("1")), ("a", num("2"))]);
    let error = stringify_jsonc_document(&mut cache, &twice, None).expect_err("one key twice");
    match error {
        DocError::ProjectionFailure { detail } => {
            assert_eq!(detail, "the text written does not read back as the value given")
        },
        other => panic!("unexpected error {:?}", other),
    }
    assert_eq!(
        cmd_stringify_json_with_comments(&num("1.50")).expect_err("not canonical"),
        "Failed to stringify input: Failed to stringify: the text written does not read back as the value given"
    );
    assert_eq!(
        save_document(&mut cache, Some("p"), &num("x")).expect_err("no number"),
        "Failed to stringify for save 'p': Failed to stringify: Parse error: Unexpected word on line 1 column 1"
    );
}

#[test]
fn a_save_is_remembered_for_the_next_save() {
    let mut cache = DocumentCache::new();
    parse_jsonc_document(&mut cache, "{\n  \"a\": 1, // one\n  \"b\": 2\n}", Some("p")).expect("open");
    let first = object(vec![("a", num("1")), ("b", num("3"))]);
    assert_eq!(
        stringify_jsonc_document(&mut cache, &first, Some("p")).expect("save"),
        "{\n  \"a\": 1, // one\n  \"b\": 3\n}"
    );
    assert!(cache.get("p").expect("cached").value.same(&first));
    let second = object(vec![("a", num("1")), ("b", num("3")), ("c", PlainValue::Bool(false))]);
    assert_eq!(
        stringify_jsonc_document(&mut cache, &second, Some("p")).expect("save"),
        "{\n  \"a\": 1, // one\n  \"b\": 3,\n  \"c\": false\n}"
    );
    assert_eq!(cache.len(), 1);
}

#[test]
fn members_may_come_in_another_order() {
    let source = "{\"a\" /*k*/ : /*v*/ 1 /*g*/ , /*t*/\n \"b\": 2}";
    let new = object(vec![("b", num("2")), ("a", num("7"))]);
    assert_eq!(open_then_save(source, &new), "{\"a\" /*k*/ : /*v*/ 7 /*g*/ , /*t*/\n \"b\": 2}");
    let same = object(vec![("b", num("2")), ("a", num("1"))]);
    assert_eq!(open_then_save(source, &same), source);
}

#[test]
fn an_empty_identity_is_no_identity() {
    let mut cache = DocumentCache::new();
    let value = parse_jsonc_document(&mut cache, "[1] // c", Some("")).expect("open");
    assert_eq!(cache.len(), 0);
    assert_eq!(stringify_jsonc_document(&mut cache, &value, Some("")).expect("save"), "[1]");
}

#[test]
fn identities_are_compared_as_written() {
    let mut cache = DocumentCache::new();
    parse_jsonc_document(&mut cache, "[1] // one", Some("./a.json")).expect("open");
    parse_jsonc_document(&mut cache, "[2] // two", Some("a.json")).expect("open");
    assert_eq!(cache.len(), 2);
    let one = PlainValue::Array(vec![num("1")]);
    assert_eq!(stringify_jsonc_document(&mut cache, &one, Some("./a.json")).expect("save"), "[1] // one");
    assert_eq!(stringify_jsonc_document(&mut cache, &one, Some("a.json")).expect("save"), "[1] // two");
}

#[test]
fn opening_again_replaces_the_remembered_document() {
    let mut cache = DocumentCache::new();
    parse_jsonc_document(&mut cache, "[1] // one", Some("a.json")).expect("open");
    parse_jsonc_document(&mut cache, "[1] // other", Some("a.json")).expect("open");
    assert_eq!(cache.len(), 1);
    let one = PlainValue::Array(vec![num("1")]);
    assert_eq!(stringify_jsonc_document(&mut cache, &one, Some("a.json")).expect("save"), "[1] // other");
}
