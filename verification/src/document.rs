//! A document: its text, its concrete syntax tree and the value it holds.
use vstd::prelude::*;
use vstd::string::StringExecFns;
use crate::arrange::{arrange, arrange_node};
use crate::error::{DocError, Fault};
use crate::outside::{jsonc_tree, jsonc_value, parse_tree, parse_value, Dialect};
use crate::project::{project_document, project_root};
use crate::tree::{ConcreteNode, Cst};
use crate::value::{Json, PlainValue};

verus! {

/// The dialect of every document: strict JSON, with comments and trailing
/// commas, and nothing else.
pub open spec fn jsonc() -> Dialect {
    Dialect { comments: true, loose_names: false, trailing_commas: true }
}

/// The dialect of every document.
pub fn jsonc_dialect() -> (dialect: Dialect)
    ensures
        dialect == jsonc(),
{
    Dialect { comments: true, loose_names: false, trailing_commas: true }
}

/// Mathematical model of a [`Document`].
pub struct DocModel {
    pub text: Seq<char>,
    pub root: Cst,
    pub value: Json,
}

/// A document as last read or written: the text, the concrete syntax tree of
/// that text, and the value that was handed out or accepted last.
#[derive(Debug)]
pub struct Document {
    pub text: String,
    pub root: ConcreteNode,
    pub value: PlainValue,
}

impl View for Document {
    type V = DocModel;

    open spec fn view(&self) -> DocModel {
        DocModel { text: self.text@, root: self.root@, value: self.value@ }
    }
}

/// The document that a text gives, from what the two parsers made of it: a
/// syntax error where either complains, no document where the text holds no
/// value.
pub open spec fn assembled(
    text: Seq<char>,
    value: Result<Option<Json>, Seq<char>>,
    tree: Result<Cst, Seq<char>>,
) -> Result<DocModel, Fault> {
    match value {
        Err(detail) => Err(Fault::SyntaxError { detail }),
        Ok(None) => Err(Fault::EmptyInput),
        Ok(Some(v)) => match tree {
            Err(detail) => Err(Fault::SyntaxError { detail }),
            Ok(root) => Ok(DocModel { text, root, value: v }),
        },
    }
}

/// The document that a text gives.
pub open spec fn opened(text: Seq<char>) -> Result<DocModel, Fault> {
    assembled(text, jsonc_value(text, jsonc()), jsonc_tree(text, jsonc()))
}

/// Whether a document is in step with its text: the text opens, its tree is
/// the document's tree, and its value is the document's value but for the
/// order of object members.
pub open spec fn in_step(doc: DocModel) -> bool {
    opened(doc.text) matches Ok(read) && read.root == doc.root && (read.value == doc.value || read.value.agrees(
        doc.value,
    ))
}

/// The text of a document after `new` has been written onto it: the text as
/// it stands where the value is the one it holds, else the projected layout
/// written out.
pub open spec fn applied(doc: DocModel, new: Json) -> Seq<char> {
    if new == doc.value {
        doc.text
    } else {
        project_root(arrange(doc.root), doc.value, new).text()
    }
}

/// What a written text is accepted as, from the document that it reads back
/// as: that document, holding the value written, where it reads back as that
/// value but for the order of object members; a projection failure otherwise.
pub open spec fn settled(reread: Result<DocModel, Fault>, new: Json) -> Result<DocModel, Fault> {
    match reread {
        Ok(doc) => if doc.value.agrees(new) {
            Ok(DocModel { value: new, ..doc })
        } else {
            Err(Fault::ProjectionFailure { detail: "the text written does not read back as the value given"@ })
        },
        Err(fault) => Err(Fault::ProjectionFailure { detail: fault.message() }),
    }
}

/// The model of an outcome that holds a document.
pub open spec fn outcome_view(r: Result<Document, DocError>) -> Result<DocModel, Fault> {
    match r {
        Ok(doc) => Ok(doc@),
        Err(e) => Err(e@),
    }
}

/// The model of what the value parser returned.
pub open spec fn value_view(r: Result<Option<PlainValue>, String>) -> Result<Option<Json>, Seq<char>> {
    match r {
        Ok(Some(v)) => Ok(Some(v@)),
        Ok(None) => Ok(None),
        Err(e) => Err(e@),
    }
}

/// The model of what the tree parser returned.
pub open spec fn tree_view(r: Result<ConcreteNode, String>) -> Result<Cst, Seq<char>> {
    match r {
        Ok(t) => Ok(t@),
        Err(e) => Err(e@),
    }
}

impl Document {
    /// Puts a document together from its text and from what the two parsers
    /// made of that text.
    pub fn assemble(
        text: String,
        value: Result<Option<PlainValue>, String>,
        tree: Result<ConcreteNode, String>,
    ) -> (r: Result<Document, DocError>)
        ensures
            outcome_view(r) == assembled(text@, value_view(value), tree_view(tree)),
    {
        match value {
            Err(detail) => Err(DocError::SyntaxError { detail }),
            Ok(None) => Err(DocError::EmptyInput),
            Ok(Some(v)) => match tree {
                Err(detail) => Err(DocError::SyntaxError { detail }),
                Ok(root) => Ok(Document { text, root, value: v }),
            },
        }
    }

    /// Reads a document from its text.
    pub fn open(text: &str) -> (r: Result<Document, DocError>)
        ensures
            outcome_view(r) == opened(text@),
    {
        let dialect = jsonc_dialect();
        let value = parse_value(text, &dialect);
        let tree = parse_tree(text, &dialect);
        Document::assemble(String::from_str(text), value, tree)
    }

    /// Writes a new value onto the document and returns the text.  Nothing
    /// changes where the value is the one the document holds; elsewhere only
    /// what differs is rewritten.
    pub fn apply_value(&self, new: &PlainValue) -> (text: String)
        ensures
            text@ == applied(self@, new@),
    {
        if new.same(&self.value) {
            self.text.clone()
        } else {
            let layout = arrange_node(&self.root);
            project_document(&layout, &self.value, new).render()
        }
    }

    /// Accepts a written text only as a document that holds the value
    /// written; `reread` is what the text reads back as.
    pub fn settle(reread: Result<Document, DocError>, new: &PlainValue) -> (r: Result<Document, DocError>)
        ensures
            outcome_view(r) == settled(outcome_view(reread), new@),
    {
        match reread {
            Ok(doc) => {
                if doc.value.agrees_with(new) {
                    Ok(Document { text: doc.text, root: doc.root, value: new.clone() })
                } else {
                    Err(
                        DocError::ProjectionFailure {
                            detail: String::from_str("the text written does not read back as the value given"),
                        },
                    )
                }
            },
            Err(e) => Err(DocError::ProjectionFailure { detail: e.message() }),
        }
    }
}

} // verus!
