use jsonic::cache::DocumentCache;
use jsonic::commands::{
    contextualize_io_error, normalize_path, open_document, requested_path, save_document, trim,
};
use jsonic::document::{jsonc_dialect, Document};
use jsonic::error::DocError;
use jsonic::value::{Member, PlainValue};

fn num(text: &str) -> PlainValue {
    PlainValue::Number(text.to_string())
}

fn object(members: Vec<(&str, PlainValue)>) -> PlainValue {
    PlainValue::Object(members.into_iter().map(|(k, v)| Member { key: k.to_string(), value: v }).collect())
}

#[test]
fn a_path_is_taken_without_the_space_around_it() {
    assert_eq!(normalize_path("  data.jsonc \n"), Ok("data.jsonc".to_string()));
    assert_eq!(normalize_path("a b"), Ok("a b".to_string()));
    assert_eq!(normalize_path("\u{a0}\u{3000}x\u{2003}\u{85}"), Ok("x".to_string()));
    assert_eq!(normalize_path("\u{200b}x"), Ok("\u{200b}x".to_string()));
    assert_eq!(normalize_path(""), Err("No path provided".to_string()));
    assert_eq!(normalize_path(" \t\r\n"), Err("No path provided".to_string()));
    assert_eq!(trim(" \u{1680}é \u{2028}"), "é");
    assert_eq!(trim("é"), " é ".trim());
}

#[test]
fn a_request_without_a_path_leaves_the_choice_open() {
    assert_eq!(requested_path(Some(" a.json ")), Some("a.json".to_string()));
    assert_eq!(requested_path(Some("   ")), None);
    assert_eq!(requested_path(None), None);
}

#[test]
fn an_io_failure_names_the_action_and_the_path() {
    let message =
        contextualize_io_error("open", "/nonexistent/path.json", "No such file or directory (os error 2)");
    assert!(message.contains("Failed to open"));
    assert_eq!(message, "Failed to open '/nonexistent/path.json': No such file or directory (os error 2)");
    assert_eq!(contextualize_io_error("save", "", ""), "Failed to save '': ");
}

#[test]
fn an_io_failure_does_not_read_as_a_parse_failure() {
    let mut cache = DocumentCache::new();
    let parse = open_document(&mut cache, Some("parse"), "{").expect_err("malformed");
    assert_ne!(contextualize_io_error("open", "parse", "Unterminated object on line 1 column 1"), parse);
    assert!(parse.starts_with("Failed to parse file 'parse': "));
    let save = save_document(&mut cache, Some("save"), &num("x")).expect_err("no number");
    assert_ne!(contextualize_io_error("save", "save", "x"), save);
    assert!(save.starts_with("Failed to stringify for save 'save': "));
}

#[test]
fn every_error_has_its_message() {
    assert_eq!(DocError::EmptyInput.message(), "Empty input");
    assert_eq!(DocError::SyntaxError { detail: "bad".to_string() }.message(), "Parse error: bad");
    assert_eq!(DocError::CacheLockFailure.message(), "Failed to lock comment cache");
    assert_eq!(DocError::ProjectionFailure { detail: "why".to_string() }.message(), "Failed to stringify: why");
}

#[test]
fn values_are_compared_with_and_without_member_order() {
    let ab = object(vec![("a", num("1")), ("b", PlainValue::Array(vec![num("2"), PlainValue::Null]))]);
    let ba = object(vec![("b", PlainValue::Array(vec![num("2"), PlainValue::Null])), ("a", num("1"))]);
    assert!(ab.same(&ab.clone()));
    assert!(ab.same(&ab.duplicate()));
    assert!(!ab.same(&ba));
    assert!(ab.agrees_with(&ba));
    assert!(ba.agrees_with(&ab));
    assert!(!ab.agrees_with(&object(vec![("a", num("1"))])));
    assert!(!ab.agrees_with(&object(vec![("a", num("1")), ("c", PlainValue::Null)])));
    assert!(!object(vec![("a", num("1")), ("a", num("1"))]).agrees_with(&ab));
    assert!(!ab.agrees_with(&object(vec![("a", num("1")), ("a", num("1"))])));
    assert!(!num("1").same(&PlainValue::String("1".to_string())));
    assert!(!num("1").agrees_with(&num("1.0")));
    assert!(!PlainValue::Array(vec![num("1"), num("2")]).agrees_with(&PlainValue::Array(vec![num("2"), num("1")])));
    assert!(PlainValue::Null.same(&PlainValue::Null));
    assert!(!PlainValue::Bool(true).same(&PlainValue::Bool(false)));
}

#[test]
fn numbers_are_handed_out_in_canonical_spelling() {
    let doc = Document::open("[1.50, 1e2, -0, 10, 0.1]").expect("open");
    match &doc.value {
        PlainValue::Array(items) => {
            assert!(items[0].same(&num("1.5")));
            assert!(items[1].same(&num("100.0")));
            assert!(items[3].same(&num("10")));
            assert!(items[4].same(&num("0.1")));
        },
        other => panic!("unexpected value {:?}", other),
    }
}

#[test]
fn strings_and_keys_are_handed_out_decoded() {
    let doc = Document::open("{\"k\\u0041\": \"a\\n\\\"b\\\"\"}").expect("open");
    assert!(doc.value.same(&object(vec![("kA", PlainValue::String("a\n\"b\"".to_string()))])));
}

#[test]
fn the_dialect_is_json_with_comments_and_trailing_commas() {
    let dialect = jsonc_dialect();
    assert!(dialect.comments);
    assert!(dialect.trailing_commas);
    assert!(!dialect.loose_names);
}

#[test]
fn the_registry_holds_one_document_per_identity() {
    let mut cache = DocumentCache::new();
    assert_eq!(cache.len(), 0);
    assert!(cache.get("a").is_none());
    cache.put("a", Document::open("[1]").expect("open"));
    cache.put("b", Document::open("[2]").expect("open"));
    assert_eq!(cache.len(), 2);
    assert_eq!(cache.get("a").expect("a").text, "[1]");
    assert_eq!(cache.get("b").expect("b").text, "[2]");
    cache.put("a", Document::open("[3]").expect("open"));
    assert_eq!(cache.len(), 2);
    assert_eq!(cache.get("a").expect("a").text, "[3]");
    assert_eq!(cache.get("b").expect("b").text, "[2]");
    assert!(cache.get("A").is_none());
}

#[test]
fn a_document_is_put_together_from_what_the_parsers_made() {
    let tree = Document::open("[1]").expect("open").root;
    let made = Document::assemble("[1]".to_string(), Ok(Some(num("7"))), Ok(tree)).expect("document");
    assert!(made.value.same(&num("7")));
    assert_eq!(made.text, "[1]");
    let tree = Document::open("[1]").expect("open").root;
    assert!(matches!(
        Document::assemble("x".to_string(), Ok(None), Ok(tree)),
        Err(DocError::EmptyInput)
    ));
    assert!(matches!(
        Document::assemble("x".to_string(), Err("bad value".to_string()), Err("bad tree".to_string())),
        Err(DocError::SyntaxError { detail }) if detail == "bad value"
    ));
    assert!(matches!(
        Document::assemble("x".to_string(), Ok(Some(num("1"))), Err("bad tree".to_string())),
        Err(DocError::SyntaxError { detail }) if detail == "bad tree"
    ));
}

#[test]
fn a_written_text_is_accepted_only_with_the_value_written() {
    let reread = Document::open("{\"a\": 1, \"b\": 2}");
    let given = object(vec![("b", num("2")), ("a", num("1"))]);
    let settled = Document::settle(reread, &given).expect("agrees");
    assert!(settled.value.same(&given));
    assert_eq!(settled.text, "{\"a\": 1, \"b\": 2}");
    assert!(matches!(
        Document::settle(Document::open("[1]"), &num("1")),
        Err(DocError::ProjectionFailure { detail })
            if detail == "the text written does not read back as the value given"
    ));
    assert!(matches!(
        Document::settle(Document::open(""), &num("1")),
        Err(DocError::ProjectionFailure { detail }) if detail == "Empty input"
    ));
    assert!(matches!(
        Document::settle(Err(DocError::SyntaxError { detail: "bad".to_string() }), &num("1")),
        Err(DocError::ProjectionFailure { detail }) if detail == "Parse error: bad"
    ));
}
