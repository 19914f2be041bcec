//! The calls into the parser crates, each behind a contract that is taken on
//! trust.  What a call returns is named, never described: the library checks
//! for itself whatever it relies on.
use jsonc_parser::cst::{CstContainerNode, CstLeafNode, CstNode, CstRootNode};
use jsonc_parser::ParseOptions;
use vstd::prelude::*;
use crate::tree::{ConcreteNode, Cst, NodeKind};
use crate::value::{Json, Member, PlainValue};

verus! {

#[verifier::external_type_specification]
#[verifier::external_body]
pub struct ExSerdeValue(serde_json::Value);

#[verifier::external_type_specification]
#[verifier::external_body]
pub struct ExCstNode(CstNode);

#[verifier::external_type_specification]
#[verifier::external_body]
pub struct ExCstContainerNode(CstContainerNode);

#[verifier::external_type_specification]
#[verifier::external_body]
pub struct ExCstLeafNode(CstLeafNode);

/// Which extensions of strict JSON a parse accepts.
#[derive(Clone, Copy, Debug, PartialEq, Eq, Structural)]
pub struct Dialect {
    pub comments: bool,
    pub loose_names: bool,
    pub trailing_commas: bool,
}

/// What `jsonc_parser::parse_to_serde_value` makes of a text: the value, no
/// value at all for a text without one, or the parser's complaint.
pub uninterp spec fn jsonc_value(text: Seq<char>, dialect: Dialect) -> Result<Option<Json>, Seq<char>>;

/// What `jsonc_parser::cst::CstRootNode::parse` makes of a text: the concrete
/// syntax tree, or the parser's complaint.
pub uninterp spec fn jsonc_tree(text: Seq<char>, dialect: Dialect) -> Result<Cst, Seq<char>>;

/// Copies a `serde_json::Value` into a plain value, variant by variant; a
/// number is carried as `serde_json::Number` prints it.  Nothing is claimed of
/// the copy.
#[verifier::external_body]
fn plain_from_serde(value: &serde_json::Value) -> PlainValue {
    match value {
        serde_json::Value::Null => PlainValue::Null,
        serde_json::Value::Bool(b) => PlainValue::Bool(*b),
        serde_json::Value::Number(n) => PlainValue::Number(n.to_string()),
        serde_json::Value::String(s) => PlainValue::String(s.clone()),
        serde_json::Value::Array(items) => PlainValue::Array(items.iter().map(plain_from_serde).collect()),
        serde_json::Value::Object(map) => PlainValue::Object(
            map.iter().map(|(k, v)| Member { key: k.clone(), value: plain_from_serde(v) }).collect(),
        ),
    }
}

/// Calls `jsonc_parser::parse_to_serde_value`.  The contract only names the
/// outcome: equal texts under equal dialects give equal outcomes.
#[verifier::external_body]
pub(crate) fn parse_value(text: &str, dialect: &Dialect) -> (r: Result<Option<PlainValue>, String>)
    ensures
        match r {
            Ok(Some(v)) => jsonc_value(text@, *dialect) == Ok::<Option<Json>, Seq<char>>(Some(v@)),
            Ok(None) => jsonc_value(text@, *dialect) == Ok::<Option<Json>, Seq<char>>(None),
            Err(e) => jsonc_value(text@, *dialect) == Err::<Option<Json>, Seq<char>>(e@),
        },
{
    let options = ParseOptions {
        allow_comments: dialect.comments,
        allow_loose_object_property_names: dialect.loose_names,
        allow_trailing_commas: dialect.trailing_commas,
    };
    match jsonc_parser::parse_to_serde_value(text, &options) {
        Ok(value) => Ok(value.as_ref().map(plain_from_serde)),
        Err(e) => Err(e.to_string()),
    }
}

/// Tells the variants of `jsonc_parser::cst::CstContainerNode` apart.
#[verifier::external_body]
fn container_kind(node: &CstContainerNode) -> NodeKind {
    match node {
        CstContainerNode::Root(_) => NodeKind::Root,
        CstContainerNode::Array(_) => NodeKind::Array,
        CstContainerNode::Object(_) => NodeKind::Object,
        CstContainerNode::ObjectProp(_) => NodeKind::Property,
    }
}

/// Tells the variants of `jsonc_parser::cst::CstLeafNode` apart.
#[verifier::external_body]
fn leaf_kind(node: &CstLeafNode) -> NodeKind {
    match node {
        CstLeafNode::StringLit(_) => NodeKind::String,
        CstLeafNode::WordLit(_) => NodeKind::Word,
        CstLeafNode::NumberLit(_) => NodeKind::Number,
        CstLeafNode::BooleanLit(_) => NodeKind::Boolean,
        CstLeafNode::NullKeyword(_) => NodeKind::Null,
        CstLeafNode::Token(_) => NodeKind::Token,
        CstLeafNode::Whitespace(_) => NodeKind::Whitespace,
        CstLeafNode::Newline(_) => NodeKind::Newline,
        CstLeafNode::Comment(_) => NodeKind::Comment,
    }
}

/// Copies a `jsonc_parser::cst::CstNode` into a concrete node: the kind, for a
/// leaf the text it prints as, for a container its children in order.
/// Nothing is claimed of the copy.
#[verifier::external_body]
fn concrete_from_cst(node: &CstNode) -> ConcreteNode {
    match node {
        CstNode::Container(container) => ConcreteNode {
            kind: container_kind(container),
            text: String::new(),
            children: container.children().iter().map(concrete_from_cst).collect(),
        },
        CstNode::Leaf(leaf) => ConcreteNode { kind: leaf_kind(leaf), text: leaf.to_string(), children: Vec::new() },
    }
}

/// Calls `jsonc_parser::cst::CstRootNode::parse`.  The contract only names
/// the outcome: equal texts under equal dialects give equal outcomes.
#[verifier::external_body]
pub(crate) fn parse_tree(text: &str, dialect: &Dialect) -> (r: Result<ConcreteNode, String>)
    ensures
        match r {
            Ok(t) => jsonc_tree(text@, *dialect) == Ok::<Cst, Seq<char>>(t@),
            Err(e) => jsonc_tree(text@, *dialect) == Err::<Cst, Seq<char>>(e@),
        },
{
    let options = ParseOptions {
        allow_comments: dialect.comments,
        allow_loose_object_property_names: dialect.loose_names,
        allow_trailing_commas: dialect.trailing_commas,
    };
    match CstRootNode::parse(text, &options) {
        Ok(root) => Ok(concrete_from_cst(&CstNode::Container(root.into()))),
        Err(e) => Err(e.to_string()),
    }
}

} // verus!
