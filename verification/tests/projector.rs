use jsonic::arrange::arrange_node;
use jsonic::cache::DocumentCache;
use jsonic::document::Document;
use jsonic::fresh::value_to_cst_input;
use jsonic::layout::{GroupKind, Layout};
use jsonic::project::{fresh_layout_of, project_document, project_layout};
use jsonic::service::{parse_jsonc_document, stringify_jsonc_document};
use jsonic::text::quote;
use jsonic::tree::{ConcreteNode, NodeKind};
use jsonic::value::{Member, PlainValue};

fn num(text: &str) -> PlainValue {
    PlainValue::Number(text.to_string())
}

fn text(value: &str) -> PlainValue {
    PlainValue::String(value.to_string())
}

fn array(items: Vec<PlainValue>) -> PlainValue {
    PlainValue::Array(items)
}

fn object(members: Vec<(&str, PlainValue)>) -> PlainValue {
    PlainValue::Object(members.into_iter().map(|(k, v)| Member { key: k.to_string(), value: v }).collect())
}

fn rewrite(source: &str, new: PlainValue) -> String {
    Document::open(source).expect("open").apply_value(&new)
}

#[test]
fn array_elements_are_matched_by_position() {
    assert_eq!(rewrite("[1, 2, 3]", array(vec![num("1"), num("2")])), "[1, 2]");
    assert_eq!(rewrite("[1, 2, 3,]", array(vec![num("1")])), "[1,]");
    assert_eq!(rewrite("[1, 2, 3]", array(vec![num("3"), num("2"), num("1")])), "[3, 2, 1]");
    assert_eq!(
        rewrite("[\n  1, // one\n  2, // two\n  3 // three\n]", array(vec![num("1"), num("2")])),
        "[\n  1, // one\n  2 // two\n]"
    );
}

#[test]
fn appended_elements_follow_the_last_one() {
    assert_eq!(
        rewrite("[\n  1, // one\n  2 // two\n]", array(vec![num("1"), num("2"), num("3")])),
        "[\n  1, // one\n  2, // two\n  3\n]"
    );
    assert_eq!(rewrite("[1, 2 // two\n]", array(vec![num("1"), num("2"), num("3")])), "[1, 2, // two\n 3\n]");
    assert_eq!(rewrite("[1]\r\n", array(vec![num("1"), num("2")])), "[1,2]\r\n");
    assert_eq!(rewrite("[]", array(vec![num("1"), num("2")])), "[1,2]");
    assert_eq!(rewrite("[1 /* a */]", array(vec![num("1"), num("2")])), "[1, /* a */\n2]");
}

#[test]
fn appended_keys_follow_the_order_of_the_new_value() {
    let source = "{\n  // first\n  \"a\": 1, // one\n  \"b\": [2, 3]\n}\n";
    let new = object(vec![
        ("z", PlainValue::Null),
        ("a", num("1")),
        ("c", text("x\ny")),
        ("b", array(vec![num("2"), num("3"), num("4")])),
    ]);
    assert_eq!(
        rewrite(source, new),
        "{\n  // first\n  \"a\": 1, // one\n  \"b\": [2, 3, 4],\n  \"z\": null,\n  \"c\": \"x\\ny\"\n}\n"
    );
    assert_eq!(rewrite("{}", object(vec![("a", num("1"))])), "{\"a\": 1}");
    assert_eq!(
        rewrite("{ \"a\": 1 }", object(vec![("a", num("1")), ("b", object(vec![("c", array(vec![]))]))])),
        "{ \"a\": 1, \"b\": {\"c\":[]} }"
    );
    assert_eq!(
        rewrite("{\r\n  \"a\": 1\r\n}\r\n", object(vec![("a", num("1")), ("b", num("2"))])),
        "{\r\n  \"a\": 1,\r\n  \"b\": 2\r\n}\r\n"
    );
}

#[test]
fn removed_keys_leave_with_their_trivia() {
    assert_eq!(rewrite("{\"a\": 1, // c\n}", object(vec![])), "{\n}");
    assert_eq!(
        rewrite("{\n  // about a\n  \"a\": 1,\n  // about b\n  \"b\": 2\n}", object(vec![("b", num("2"))])),
        "{\n  // about b\n  \"b\": 2\n}"
    );
    assert_eq!(
        rewrite("{\n  \"a\": 1, // one\n  \"b\": 2 // two\n}", object(vec![("a", num("1"))])),
        "{\n  \"a\": 1 // one\n}"
    );
}

#[test]
fn nested_values_are_rewritten_in_place() {
    assert_eq!(
        rewrite(
            "// head\n{\"a\": {\"b\": [true, null]}} // tail\n",
            object(vec![("a", object(vec![("b", array(vec![PlainValue::Bool(false), PlainValue::Null]))]))]),
        ),
        "// head\n{\"a\": {\"b\": [false, null]}} // tail\n"
    );
    assert_eq!(
        rewrite("[[1, 2], [3, 4]]", array(vec![array(vec![num("1"), num("2")]), array(vec![num("3"), num("5")])])),
        "[[1, 2], [3, 5]]"
    );
}

#[test]
fn a_value_of_another_kind_replaces_the_old_one() {
    assert_eq!(rewrite("/* c */ 1 // d", text("he\"l\\lo\u{1}\u{7f}é")), "/* c */ \"he\\\"l\\\\lo\\u0001\u{7f}é\" // d");
    assert_eq!(rewrite("null", PlainValue::Bool(true)), "true");
    assert_eq!(rewrite("{\"a\": 1, // c\n}", array(vec![])), "[]");
    assert_eq!(rewrite(" [1, /* c */ 2] ", object(vec![("a", num("1"))])), " {\"a\":1} ");
}

#[test]
fn a_key_written_with_escapes_is_taken_as_another_key() {
    assert_eq!(rewrite("{\"k\\u0041\": 1}", object(vec![("kA", num("2"))])), "{\"kA\": 2}");
    assert_eq!(rewrite("{\"a\\\"b\": 1 /* c */}", object(vec![("a\"b", num("2"))])), "{\"a\\\"b\": 2 /* c */}");
}

#[test]
fn a_key_that_occurs_twice_is_rewritten_twice() {
    assert_eq!(rewrite("{\"a\":1,\"a\":2}", object(vec![("a", num("3"))])), "{\"a\":3,\"a\":3}");
}

#[test]
fn string_literals_are_escaped() {
    assert_eq!(quote(""), "\"\"");
    assert_eq!(quote("plain"), "\"plain\"");
    assert_eq!(quote("a\"b\\c"), "\"a\\\"b\\\\c\"");
    assert_eq!(quote("\n\r\t\u{8}\u{c}"), "\"\\n\\r\\t\\b\\f\"");
    assert_eq!(quote("\u{0}\u{1f}\u{1b}"), "\"\\u0000\\u001f\\u001b\"");
    assert_eq!(quote("é\u{7f}/\u{2028}"), "\"é\u{7f}/\u{2028}\"");
}

#[test]
fn a_fresh_tree_is_compact() {
    let value = object(vec![
        ("a", array(vec![num("1"), PlainValue::Bool(false), PlainValue::Null])),
        ("b", object(vec![("c", text("d"))])),
        ("e", array(vec![])),
    ]);
    let tree = value_to_cst_input(&value);
    assert_eq!(tree.kind, NodeKind::Object);
    assert_eq!(tree.children.len(), 7);
    assert_eq!(tree.children[1].kind, NodeKind::Property);
    assert_eq!(tree.children[1].children[0].text, "\"a\"");
    assert_eq!(tree.children[2].text, ",");
    assert_eq!(tree.render(), "{\"a\":[1,false,null],\"b\":{\"c\":\"d\"},\"e\":[]}");
    assert_eq!(value_to_cst_input(&num("-1.5e3")).render(), "-1.5e3");
    assert_eq!(value_to_cst_input(&PlainValue::Bool(true)).render(), "true");
    match fresh_layout_of(&value) {
        Layout::Scalar { text } => assert_eq!(text, "{\"a\":[1,false,null],\"b\":{\"c\":\"d\"},\"e\":[]}"),
        other => panic!("unexpected layout {:?}", other),
    }
}

#[test]
fn the_tree_of_a_text_holds_every_character() {
    let source = "// head\r\n{\n  \"a\" : [1, 2.50 , ], /* b */\n\t\"c\": null // d\n}\n";
    let doc = Document::open(source).expect("open");
    assert_eq!(doc.root.kind, NodeKind::Root);
    assert_eq!(doc.root.render(), source);
    assert_eq!(doc.root.duplicate().render(), source);
    assert_eq!(arrange_node(&doc.root).render(), source);
    assert_eq!(arrange_node(&doc.root).duplicate().render(), source);
}

#[test]
fn trivia_on_the_line_of_a_value_belongs_to_it() {
    let doc = Document::open("{\n  // lead\n  \"a\" : 1 /* g */ , // t\n  \"b\": 2 // u\n  // end\n}").expect("open");
    let layout = arrange_node(&doc.root);
    let entries = match &layout {
        Layout::Group { kind: GroupKind::Root, entries, tail } => {
            assert_eq!(tail, "");
            entries
        },
        other => panic!("unexpected layout {:?}", other),
    };
    assert_eq!(entries.len(), 1);
    let (entries, tail) = match &entries[0].value {
        Layout::Group { kind: GroupKind::Object, entries, tail } => (entries, tail),
        other => panic!("unexpected layout {:?}", other),
    };
    assert_eq!(tail, "\n  // end\n");
    assert_eq!(entries.len(), 2);
    let a = &entries[0];
    assert_eq!(
        (a.notes.as_str(), a.indent.as_str(), a.key.as_str(), a.sep.as_str()),
        ("\n  // lead", "\n  ", "\"a\"", " : ")
    );
    assert_eq!((a.gap.as_str(), a.comma, a.trail.as_str()), (" /* g */ ", true, " // t"));
    match &a.value {
        Layout::Scalar { text } => assert_eq!(text, "1"),
        other => panic!("unexpected layout {:?}", other),
    }
    let b = &entries[1];
    assert_eq!((b.notes.as_str(), b.indent.as_str(), b.key.as_str(), b.sep.as_str()), ("", "\n  ", "\"b\"", ": "));
    assert_eq!((b.gap.as_str(), b.comma, b.trail.as_str()), ("", false, " // u"));
}

#[test]
fn a_tree_of_unexpected_shape_is_kept_as_text() {
    let stray = ConcreteNode {
        kind: NodeKind::Array,
        text: String::new(),
        children: vec![
            ConcreteNode { kind: NodeKind::Number, text: "1".to_string(), children: vec![] },
            ConcreteNode { kind: NodeKind::Token, text: "]".to_string(), children: vec![] },
        ],
    };
    match arrange_node(&stray) {
        Layout::Scalar { text } => assert_eq!(text, "1]"),
        other => panic!("unexpected layout {:?}", other),
    }
    let layout = arrange_node(&stray);
    let old = array(vec![num("1")]);
    let new = array(vec![num("2")]);
    assert_eq!(project_layout(&layout, &old, &old).render(), "1]");
    assert_eq!(project_layout(&layout, &old, &new).render(), "[2]");
    assert_eq!(project_document(&layout, &old, &new).render(), "[2]");
}

#[test]
fn a_comma_on_a_later_line_belongs_to_the_value_before_it() {
    assert_eq!(rewrite("[\n  1\n  , 2\n]", array(vec![num("1")])), "[\n  1\n  \n]");
    assert_eq!(rewrite("[\n  1\n  , 2\n]", array(vec![num("1"), num("2"), num("3")])), "[\n  1\n  , 2, 3\n]");
    assert_eq!(
        rewrite("{\"a\"\n:\n1\n,\n\"b\"\n:\n2\n}", object(vec![("b", num("2"))])),
        "{\n\"b\"\n:\n2\n}"
    );
    assert_eq!(
        rewrite(
            "{\n  // x\n  \"a\": 0 // y\n  , \"d\": 4\n}",
            object(vec![("b", num("3")), ("a", num("1"))]),
        ),
        "{\n  // x\n  \"a\": 1 // y\n  , \"b\": 3\n}"
    );
    assert_eq!(
        rewrite("[1 // a\n, 2 // b\n]", array(vec![num("1"), num("2"), num("3")])),
        "[1 // a\n, 2, // b\n 3\n]"
    );
}

#[test]
fn a_line_comment_never_swallows_what_comes_to_follow_it() {
    assert_eq!(rewrite("[1,//c\n2]", array(vec![num("1")])), "[1//c\n]");
    assert_eq!(
        rewrite("{\"a\":1, //c\n\"b\":2, \"c\":3}", object(vec![("a", num("1")), ("c", num("3"))])),
        "{\"a\":1, //c\n \"c\":3}"
    );
    assert_eq!(
        rewrite("{\"a\": 1, // c\n \"b\": 2, // d\n}", object(vec![("a", num("1"))])),
        "{\"a\": 1, // c\n}"
    );
    assert_eq!(
        rewrite("{\"a\": 1, // c\n \"b\": 2, // d\n}", object(vec![("b", num("2"))])),
        "{\n \"b\": 2, // d\n}"
    );
    assert_eq!(rewrite("[1, /*c*/ 2]", array(vec![num("1"), num("3")])), "[1, /*c*/ 3]");
}

#[test]
fn every_edit_of_every_document_reads_back_as_the_value_saved() {
    let sources = [
        "{}", "[]", "1", "\"x\"", "null", "{ }", "[ ]", " [1] ", "[1,2,3]", "[1, 2, 3,]", "[\n  1,\n  2\n]\n",
        "[\n  1, // a\n  2 // b\n  // c\n]", "[1 // a\n, 2 // b\n]",
        "[ /* a */ 1 /* b */ , /* c */ 2 /* d */ ]", "{\"a\":1}", "{\"a\": 1, \"b\": 2}",
        "{\n  \"a\": 1,\n  \"b\": 2,\n}\n", "{'a': 1, 'b': [1, 2]}", "{\"a\": 1 \"b\": 2}", "[1 2 3]",
        "{\n  // x\n  \"a\": { \"b\": [ 1, { \"c\": null } ] } // y\n  , \"d\": 4\n}",
        "// top\n{\n\t\"a\": [\n\t\t1, // one\n\t\t2, /* two */\n\t],\n\t\"b\": \"s\" // tail\n}\n// end",
        "{\"a\":1,\"a\":2}", "{\"a\": [], \"b\": {}}", "[[], [[]], {}]", "\r\n[\r\n  1,\r\n  2\r\n]\r\n",
        "{\"a\"\n:\n1\n,\n\"b\"\n:\n2\n}", "[1,]", "{\"a\":1,}", "[//c\n]", "{/*c*/}", "[1 /*c*/]",
        "{\"a\":1 //c\n}", "[1 //c\n,2 //d\n,3]", "{\"a\":1 //c\n,\"b\":2 //d\n,\"c\":3}", "[1,//c\n2]",
        "{\"b\":0 //c\n}", "[\n  1\n\n  // note\n\n  ,\n\n  2\n]", "{\"a\":1, //c\n\"b\":2, \"c\":3}",
        "{\"a\":1, //c\n\"b\":2, //d\n\"c\":3 //e\n}", "{\"x\":0,\"a\":1 /*c*/,\"b\":2 /*d*/}",
        "{\"c\":1, //c\n \"x\":2 //d\n, \"b\": 3}", "{\"a\": 1, // c\n \"b\": 2, // d\n}", "[1, 2, //c\n]",
    ];
    let values = vec![
        PlainValue::Null,
        num("1"),
        text("x"),
        array(vec![]),
        object(vec![]),
        array(vec![num("1")]),
        array(vec![num("2")]),
        array(vec![num("1"), num("2")]),
        array(vec![num("1"), num("2"), num("3")]),
        array(vec![num("1"), num("2"), num("3"), num("4")]),
        array(vec![text("a"), array(vec![]), object(vec![])]),
        object(vec![("a", num("1"))]),
        object(vec![("a", num("2"))]),
        object(vec![("b", num("2"))]),
        object(vec![("a", num("1")), ("b", num("2"))]),
        object(vec![("b", num("2")), ("a", num("1"))]),
        object(vec![("b", num("3")), ("a", num("1")), ("c", array(vec![num("1")]))]),
        object(vec![("c", num("3")), ("x", num("1"))]),
        object(vec![
            ("a", object(vec![("b", array(vec![num("1"), object(vec![("c", PlainValue::Bool(true))])]))])),
            ("d", num("4")),
        ]),
        object(vec![("a", array(vec![num("1"), num("2"), num("3")])), ("b", text("s")), ("z", PlainValue::Null)]),
        object(vec![("a", array(vec![])), ("b", object(vec![("k", num("0"))]))]),
        array(vec![
            array(vec![num("1")]),
            array(vec![array(vec![]), num("2")]),
            object(vec![("x", PlainValue::Null)]),
            num("9"),
        ]),
    ];
    for source in sources {
        for value in &values {
            let mut cache = DocumentCache::new();
            parse_jsonc_document(&mut cache, source, Some("p")).expect("open");
            let saved = stringify_jsonc_document(&mut cache, value, Some("p")).expect("save");
            let mut other = DocumentCache::new();
            let back = parse_jsonc_document(&mut other, &saved, None).expect("open again");
            assert!(back.agrees_with(value), "{:?} <- {:?} gave {:?}", source, value, saved);
            let again = stringify_jsonc_document(&mut cache, value, Some("p")).expect("save again");
            assert_eq!(again, saved);
        }
    }
}
