//! The concrete tree of a value that has no formatting of its own: compact,
//! without whitespace or comments.
use vstd::prelude::*;
use vstd::string::StringExecFns;
use crate::text::{quote, quoted};
use crate::tree::{ConcreteNode, Cst, NodeKind};
use crate::value::{Json, PlainValue};

verus! {

/// A node without children.
pub open spec fn leaf(kind: NodeKind, text: Seq<char>) -> Cst {
    Cst { kind, text, children: Seq::empty() }
}

/// The property node for `key` and `value`: key literal, colon, value.
pub open spec fn fresh_property(key: Seq<char>, value: Cst) -> Cst {
    Cst {
        kind: NodeKind::Property,
        text: Seq::empty(),
        children: seq![leaf(NodeKind::String, quoted(key)), leaf(NodeKind::Token, ":"@), value],
    }
}

/// The compact tree of a value.
pub open spec fn fresh_cst(v: Json) -> Cst
    decreases v, 0nat,
{
    match v {
        Json::Null => leaf(NodeKind::Null, "null"@),
        Json::Bool(b) => leaf(
            NodeKind::Boolean,
            if b {
                "true"@
            } else {
                "false"@
            },
        ),
        Json::Number(n) => leaf(NodeKind::Number, n),
        Json::String(s) => leaf(NodeKind::String, quoted(s)),
        Json::Array(items) => Cst {
            kind: NodeKind::Array,
            text: Seq::empty(),
            children: fresh_elements(items, items.len()).push(leaf(NodeKind::Token, "]"@)),
        },
        Json::Object(members) => Cst {
            kind: NodeKind::Object,
            text: Seq::empty(),
            children: fresh_properties(members, members.len()).push(leaf(NodeKind::Token, "}"@)),
        },
    }
}

/// The opening bracket and the first `n` elements, separated by commas.
pub open spec fn fresh_elements(items: Seq<Json>, n: nat) -> Seq<Cst>
    decreases items, n,
{
    if n == 0 || n > items.len() {
        seq![leaf(NodeKind::Token, "["@)]
    } else {
        let before = fresh_elements(items, (n - 1) as nat);
        let joined = if n == 1 {
            before
        } else {
            before.push(leaf(NodeKind::Token, ","@))
        };
        joined.push(fresh_cst(items[n - 1]))
    }
}

/// The opening brace and the first `n` properties, separated by commas.
pub open spec fn fresh_properties(members: Seq<(Seq<char>, Json)>, n: nat) -> Seq<Cst>
    decreases members, n,
{
    if n == 0 || n > members.len() {
        seq![leaf(NodeKind::Token, "{"@)]
    } else {
        let before = fresh_properties(members, (n - 1) as nat);
        let joined = if n == 1 {
            before
        } else {
            before.push(leaf(NodeKind::Token, ","@))
        };
        joined.push(fresh_property(members[n - 1].0, fresh_cst(members[n - 1].1)))
    }
}

/// A node without children.
pub(crate) fn make_leaf(kind: NodeKind, text: String) -> (node: ConcreteNode)
    ensures
        node@ == leaf(kind, text@),
{
    let node = ConcreteNode { kind, text, children: Vec::new() };
    assert(node@.children =~= Seq::empty());
    node
}

/// A container with the given children.
pub(crate) fn make_container(kind: NodeKind, children: Vec<ConcreteNode>, Ghost(models): Ghost<Seq<Cst>>) -> (node:
    ConcreteNode)
    requires
        children@.len() == models.len(),
        forall|j: int| 0 <= j < models.len() ==> children@[j]@ == models[j],
    ensures
        node@ == (Cst { kind, text: Seq::empty(), children: models }),
{
    let node = ConcreteNode { kind, text: String::new(), children };
    assert(node@.children =~= models);
    node
}

/// Builds the compact tree of a value: the input that the projector splices
/// into a document wherever the value has no formatting of its own.
pub fn value_to_cst_input(value: &PlainValue) -> (node: ConcreteNode)
    ensures
        node@ == fresh_cst(value@),
    decreases value,
{
    match value {
        PlainValue::Null => make_leaf(NodeKind::Null, String::from_str("null")),
        PlainValue::Bool(b) => {
            if *b {
                make_leaf(NodeKind::Boolean, String::from_str("true"))
            } else {
                make_leaf(NodeKind::Boolean, String::from_str("false"))
            }
        },
        PlainValue::Number(n) => make_leaf(NodeKind::Number, n.clone()),
        PlainValue::String(s) => make_leaf(NodeKind::String, quote(s.as_str())),
        PlainValue::Array(items) => {
            let ghost models = value@->Array_0;
            let mut children: Vec<ConcreteNode> = Vec::new();
            children.push(make_leaf(NodeKind::Token, String::from_str("[")));
            let mut i: usize = 0;
            while i < items.len()
                invariant
                    i <= items.len(),
                    value is Array,
                    value->Array_0 == *items,
                    models == value@->Array_0,
                    models.len() == items@.len(),
                    children@.len() == fresh_elements(models, i as nat).len(),
                    forall|j: int|
                        0 <= j < children@.len() ==> children@[j]@ == fresh_elements(models, i as nat)[j],
                decreases items.len() - i,
            {
                if i > 0 {
                    children.push(make_leaf(NodeKind::Token, String::from_str(",")));
                }
                let element = value_to_cst_input(&items[i]);
                assert(models[i as int] == items@[i as int]@);
                children.push(element);
                i += 1;
            }
            children.push(make_leaf(NodeKind::Token, String::from_str("]")));
            make_container(
                NodeKind::Array,
                children,
                Ghost(fresh_elements(models, models.len()).push(leaf(NodeKind::Token, "]"@))),
            )
        },
        PlainValue::Object(members) => {
            let ghost models = value@->Object_0;
            let mut children: Vec<ConcreteNode> = Vec::new();
            children.push(make_leaf(NodeKind::Token, String::from_str("{")));
            let mut i: usize = 0;
            while i < members.len()
                invariant
                    i <= members.len(),
                    value is Object,
                    value->Object_0 == *members,
                    models == value@->Object_0,
                    models.len() == members@.len(),
                    children@.len() == fresh_properties(models, i as nat).len(),
                    forall|j: int|
                        0 <= j < children@.len() ==> children@[j]@ == fresh_properties(models, i as nat)[j],
                decreases members.len() - i,
            {
                if i > 0 {
                    children.push(make_leaf(NodeKind::Token, String::from_str(",")));
                }
                let inner = value_to_cst_input(&members[i].value);
                assert(models[i as int] == members@[i as int]@);
                let mut parts: Vec<ConcreteNode> = Vec::new();
                parts.push(make_leaf(NodeKind::String, quote(members[i].key.as_str())));
                parts.push(make_leaf(NodeKind::Token, String::from_str(":")));
                parts.push(inner);
                let property = make_container(
                    NodeKind::Property,
                    parts,
                    Ghost(fresh_property(models[i as int].0, fresh_cst(models[i as int].1)).children),
                );
                children.push(property);
                i += 1;
            }
            children.push(make_leaf(NodeKind::Token, String::from_str("}")));
            make_container(
                NodeKind::Object,
                children,
                Ghost(fresh_properties(models, models.len()).push(leaf(NodeKind::Token, "}"@))),
            )
        },
    }
}

} // verus!
