//! Opening and saving documents, with or without an identity.
//!
//! A document opened under an identity is remembered, and a later save under
//! that identity rewrites it in place.  Without an identity, or under one
//! that was never opened, a save writes the value as a new, compact document.
use vstd::prelude::*;
use vstd::string::StringExecFns;
use crate::cache::DocumentCache;
use crate::document::{applied, in_step, opened, settled, DocModel, Document};
use crate::error::{DocError, Fault};
use crate::fresh::{fresh_cst, value_to_cst_input};
use crate::value::{Json, PlainValue};

verus! {

/// The identity that a hint gives: none where the hint is absent or empty.
pub open spec fn identity(hint: Option<&str>) -> Option<Seq<char>> {
    match hint {
        Some(path) => if path@.len() > 0 {
            Some(path@)
        } else {
            None
        },
        None => None,
    }
}

/// The document after a save of `new`: the document itself where it holds
/// that value already, else what the rewritten text reads back as, if that
/// holds the value.
pub open spec fn saved(doc: DocModel, new: Json) -> Result<DocModel, Fault> {
    if new == doc.value {
        Ok(doc)
    } else {
        settled(opened(applied(doc, new)), new)
    }
}

/// The new document that a value is written as: compact, without comments.
pub open spec fn formatted(new: Json) -> Result<DocModel, Fault> {
    settled(opened(fresh_cst(new).rendered()), new)
}

/// The identity that a hint gives.
fn identity_of<'a>(hint: Option<&'a str>) -> (id: Option<&'a str>)
    ensures
        match id {
            Some(path) => identity(hint) == Some(path@),
            None => identity(hint) is None,
        },
{
    match hint {
        Some(path) => {
            if path.unicode_len() > 0 {
                Some(path)
            } else {
                None
            }
        },
        None => None,
    }
}

/// Opens a document from its text and hands out its value.  Under an
/// identity the document is remembered, in place of the one remembered
/// before.  A text that does not open leaves the registry as it was.
pub fn parse_jsonc_document(cache: &mut DocumentCache, json_str: &str, path_hint: Option<&str>) -> (r: Result<
    PlainValue,
    DocError,
>)
    ensures
        match opened(json_str@) {
            Ok(doc) => {
                &&& r matches Ok(value)
                &&& value@ == doc.value
                &&& final(cache)@ == match identity(path_hint) {
                    Some(path) => old(cache)@.insert(path, doc),
                    None => old(cache)@,
                }
            },
            Err(fault) => {
                &&& r matches Err(e)
                &&& e@ == fault
                &&& final(cache)@ == old(cache)@
            },
        },
{
    match Document::open(json_str) {
        Ok(doc) => {
            let value = doc.value.clone();
            match identity_of(path_hint) {
                Some(path) => {
                    cache.put(path, doc);
                },
                None => {},
            }
            Ok(value)
        },
        Err(e) => Err(e),
    }
}

/// Saves a value over a document: the document's own text where the value is
/// the one it holds, else the rewritten text, accepted only if it reads back
/// as the value.
pub fn save_over(doc: &Document, new: &PlainValue) -> (r: Result<Document, DocError>)
    ensures
        match saved(doc@, new@) {
            Ok(after) => r matches Ok(d) && d@ == after,
            Err(fault) => r matches Err(e) && e@ == fault,
        },
{
    if new.same(&doc.value) {
        Ok(Document { text: doc.text.clone(), root: doc.root.duplicate(), value: doc.value.clone() })
    } else {
        let text = doc.apply_value(new);
        Document::settle(Document::open(text.as_str()), new)
    }
}

/// Writes a value as a new document.
pub fn format_new(new: &PlainValue) -> (r: Result<Document, DocError>)
    ensures
        match formatted(new@) {
            Ok(after) => r matches Ok(d) && d@ == after,
            Err(fault) => r matches Err(e) && e@ == fault,
        },
{
    let text = value_to_cst_input(new).render();
    Document::settle(Document::open(text.as_str()), new)
}

/// Saves a value and returns the text to write.  Under an identity that was
/// opened, the remembered document is rewritten and remembered anew; its
/// comments and whitespace stay wherever the value kept its shape.
/// Otherwise the value is written as a new document without comments, and
/// nothing is remembered.  A save that fails leaves the registry as it was.
pub fn stringify_jsonc_document(cache: &mut DocumentCache, json_value: &PlainValue, path_hint: Option<&str>) -> (r:
    Result<String, DocError>)
    ensures
        match identity(path_hint) {
            Some(path) if old(cache)@.contains_key(path) => match saved(old(cache)@[path], json_value@) {
                Ok(after) => {
                    &&& r matches Ok(text)
                    &&& text@ == after.text
                    &&& final(cache)@ == old(cache)@.insert(path, after)
                },
                Err(fault) => {
                    &&& r matches Err(e)
                    &&& e@ == fault
                    &&& final(cache)@ == old(cache)@
                },
            },
            _ => {
                &&& final(cache)@ == old(cache)@
                &&& match formatted(json_value@) {
                    Ok(after) => r matches Ok(text) && text@ == after.text,
                    Err(fault) => r matches Err(e) && e@ == fault,
                }
            },
        },
{
    let rewritten = match identity_of(path_hint) {
        Some(path) => match cache.get(path) {
            Some(doc) => Some((path, save_over(doc, json_value))),
            None => None,
        },
        None => None,
    };
    match rewritten {
        Some((path, outcome)) => match outcome {
            Ok(after) => {
                let text = after.text.clone();
                cache.put(path, after);
                Ok(text)
            },
            Err(e) => Err(e),
        },
        None => match format_new(json_value) {
            Ok(after) => Ok(after.text),
            Err(e) => Err(e),
        },
    }
}

/// Opening a text and saving the value it gave, unchanged, gives back the
/// text, character for character, and leaves the document as it was.
pub proof fn law_round_trip(text: Seq<char>, doc: DocModel)
    requires
        opened(text) == Ok::<DocModel, Fault>(doc),
    ensures
        doc.text == text,
        saved(doc, doc.value) == Ok::<DocModel, Fault>(doc),
        applied(doc, doc.value) == text,
{
}

/// A save that changes the value is accepted only with a text that opens
/// again, as a document that holds the value saved but for the order of
/// object members.  What is remembered afterwards is that text, its tree, and
/// the value as it was given.
pub proof fn law_saved_text_reads_back(doc: DocModel, new: Json, after: DocModel)
    requires
        saved(doc, new) == Ok::<DocModel, Fault>(after),
        new != doc.value,
    ensures
        after.text == applied(doc, new),
        after.value == new,
        opened(after.text) matches Ok(reread) && reread.value.agrees(new) && reread.root == after.root,
{
}

/// A value is written as a new document only with a text that opens again,
/// as a document that holds the value but for the order of object members.
pub proof fn law_new_document_reads_back(new: Json, after: DocModel)
    requires
        formatted(new) == Ok::<DocModel, Fault>(after),
    ensures
        after.text == fresh_cst(new).rendered(),
        after.value == new,
        opened(after.text) matches Ok(reread) && reread.value.agrees(new) && reread.root == after.root,
{
}

/// A document is in step with its text when it is opened and stays so with
/// every save: what is remembered always reads back as what it holds.
pub proof fn law_documents_stay_in_step(text: Seq<char>, doc: DocModel, new: Json, after: DocModel)
    ensures
        opened(text) == Ok::<DocModel, Fault>(doc) ==> in_step(doc),
        in_step(doc) && saved(doc, new) == Ok::<DocModel, Fault>(after) ==> in_step(after),
        formatted(new) == Ok::<DocModel, Fault>(after) ==> in_step(after),
{
}

} // verus!
