//! The operations offered to the surrounding application, with errors as
//! messages.
use vstd::prelude::*;
use vstd::string::{StrSliceExecFns, StringExecFns};
use crate::cache::DocumentCache;
use crate::document::opened;
use crate::error::Fault;
use crate::service::{formatted, identity, parse_jsonc_document, saved, stringify_jsonc_document};
use crate::value::PlainValue;

verus! {

/// Whether a character is white space: the characters with the Unicode
/// property `White_Space`.
pub open spec fn is_space(c: char) -> bool {
    let code = c as u32;
    ||| (0x09 <= code <= 0x0d)
    ||| code == 0x20
    ||| code == 0x85
    ||| code == 0xa0
    ||| code == 0x1680
    ||| (0x2000 <= code <= 0x200a)
    ||| code == 0x2028
    ||| code == 0x2029
    ||| code == 0x202f
    ||| code == 0x205f
    ||| code == 0x3000
}

/// The text without the white space that leads it.
pub open spec fn trimmed_start(s: Seq<char>) -> Seq<char>
    decreases s.len(),
{
    if s.len() > 0 && is_space(s[0]) {
        trimmed_start(s.drop_first())
    } else {
        s
    }
}

/// The text without the white space that ends it.
pub open spec fn trimmed_end(s: Seq<char>) -> Seq<char>
    decreases s.len(),
{
    if s.len() > 0 && is_space(s[s.len() - 1]) {
        trimmed_end(s.drop_last())
    } else {
        s
    }
}

/// The text without the white space around it.
pub open spec fn trimmed(s: Seq<char>) -> Seq<char> {
    trimmed_end(trimmed_start(s))
}

/// Whether a character is white space.
fn space(c: char) -> (yes: bool)
    ensures
        yes == is_space(c),
{
    let code: u32 = c as u32;
    (0x09 <= code && code <= 0x0d) || code == 0x20 || code == 0x85 || code == 0xa0 || code == 0x1680 || (0x2000
        <= code && code <= 0x200a) || code == 0x2028 || code == 0x2029 || code == 0x202f || code == 0x205f || code
        == 0x3000
}

/// The text without the white space around it.
pub fn trim(s: &str) -> (out: &str)
    ensures
        out@ == trimmed(s@),
{
    let n = s.unicode_len();
    let mut lo: usize = 0;
    assert(s@.subrange(0, n as int) =~= s@);
    while lo < n && space(s.get_char(lo))
        invariant
            lo <= n,
            n == s@.len(),
            trimmed_start(s@) == trimmed_start(s@.subrange(lo as int, n as int)),
        decreases n - lo,
    {
        assert(s@.subrange(lo as int, n as int).drop_first() =~= s@.subrange(lo + 1, n as int));
        lo += 1;
    }
    assert(trimmed_start(s@) == s@.subrange(lo as int, n as int));
    let mut hi: usize = n;
    while hi > lo && space(s.get_char(hi - 1))
        invariant
            lo <= hi <= n,
            n == s@.len(),
            trimmed(s@) == trimmed_end(s@.subrange(lo as int, hi as int)),
        decreases hi - lo,
    {
        assert(s@.subrange(lo as int, hi as int).drop_last() =~= s@.subrange(lo as int, hi - 1));
        hi -= 1;
    }
    s.substring_char(lo, hi)
}

/// The path that an input names: the input without the white space around
/// it.  An input that is blank names none.
pub fn normalize_path(input: &str) -> (r: Result<String, String>)
    ensures
        match r {
            Ok(path) => trimmed(input@).len() > 0 && path@ == trimmed(input@),
            Err(message) => trimmed(input@).len() == 0 && message@ == "No path provided"@,
        },
{
    let kept = trim(input);
    if kept.unicode_len() == 0 {
        Err(String::from_str("No path provided"))
    } else {
        Ok(String::from_str(kept))
    }
}

/// The message for a failed read or write: what was tried, on which path,
/// and what the system reported.
pub open spec fn io_message(action: Seq<char>, path: Seq<char>, err: Seq<char>) -> Seq<char> {
    "Failed to "@ + action + " '"@ + path + "': "@ + err
}

/// Words the failure of the action `action` on the file at `path`, of which
/// the system reported `err`.
pub fn contextualize_io_error(action: &str, path: &str, err: &str) -> (message: String)
    ensures
        message@ == io_message(action@, path@, err@),
{
    let mut message = String::from_str("Failed to ");
    message.append(action);
    message.append(" '");
    message.append(path);
    message.append("': ");
    message.append(err);
    message
}

/// The path that a request names, if it names one: a request without a
/// path, or with a blank one, leaves the choice to the user.
pub fn requested_path(path: Option<&str>) -> (chosen: Option<String>)
    ensures
        match chosen {
            Some(p) => path matches Some(given) && trimmed(given@).len() > 0 && p@ == trimmed(given@),
            None => path matches Some(given) ==> trimmed(given@).len() == 0,
        },
{
    match path {
        Some(given) => match normalize_path(given) {
            Ok(p) => Some(p),
            Err(_) => None,
        },
        None => None,
    }
}

/// The message for a text that does not open.
pub open spec fn open_failure(id: Option<Seq<char>>, fault: Fault) -> Seq<char> {
    match id {
        Some(path) => "Failed to parse file '"@ + path + "': "@ + fault.message(),
        None => "Failed to parse input: "@ + fault.message(),
    }
}

/// The message for a value that does not save.
pub open spec fn save_failure(id: Option<Seq<char>>, fault: Fault) -> Seq<char> {
    match id {
        Some(path) => "Failed to stringify for save '"@ + path + "': "@ + fault.message(),
        None => "Failed to stringify input: "@ + fault.message(),
    }
}

/// The identity that a hint gives.
pub open spec fn hint_view(hint: Option<&str>) -> Option<Seq<char>> {
    match hint {
        Some(path) => Some(path@),
        None => None,
    }
}

/// Opens a document from the text that was read for it, and hands out its
/// value.  Under an identity the document is remembered for later saves.
pub fn open_document(cache: &mut DocumentCache, id: Option<&str>, raw_text: &str) -> (r: Result<PlainValue, String>)
    ensures
        match opened(raw_text@) {
            Ok(doc) => {
                &&& r matches Ok(value)
                &&& value@ == doc.value
                &&& final(cache)@ == match identity(id) {
                    Some(path) => old(cache)@.insert(path, doc),
                    None => old(cache)@,
                }
            },
            Err(fault) => {
                &&& r matches Err(message)
                &&& message@ == open_failure(hint_view(id), fault)
                &&& final(cache)@ == old(cache)@
            },
        },
{
    match parse_jsonc_document(cache, raw_text, id) {
        Ok(value) => Ok(value),
        Err(e) => {
            let mut message = match id {
                Some(path) => {
                    let mut m = String::from_str("Failed to parse file '");
                    m.append(path);
                    m.append("': ");
                    m
                },
                None => String::from_str("Failed to parse input: "),
            };
            message.append(e.message().as_str());
            Err(message)
        },
    }
}

/// Saves a value and returns the text that the caller is to write.
pub fn save_document(cache: &mut DocumentCache, id: Option<&str>, value: &PlainValue) -> (r: Result<String, String>)
    ensures
        match identity(id) {
            Some(path) if old(cache)@.contains_key(path) => match saved(old(cache)@[path], value@) {
                Ok(after) => {
                    &&& r matches Ok(text)
                    &&& text@ == after.text
                    &&& final(cache)@ == old(cache)@.insert(path, after)
                },
                Err(fault) => {
                    &&& r matches Err(message)
                    &&& message@ == save_failure(hint_view(id), fault)
                    &&& final(cache)@ == old(cache)@
                },
            },
            _ => {
                &&& final(cache)@ == old(cache)@
                &&& match formatted(value@) {
                    Ok(after) => r matches Ok(text) && text@ == after.text,
                    Err(fault) => r matches Err(message) && message@ == save_failure(hint_view(id), fault),
                }
            },
        },
{
    match stringify_jsonc_document(cache, value, id) {
        Ok(text) => Ok(text),
        Err(e) => {
            let mut message = match id {
                Some(path) => {
                    let mut m = String::from_str("Failed to stringify for save '");
                    m.append(path);
                    m.append("': ");
                    m
                },
                None => String::from_str("Failed to stringify input: "),
            };
            message.append(e.message().as_str());
            Err(message)
        },
    }
}

/// Reads a text as a value, without remembering anything.
pub fn cmd_parse_json_with_comments(json_str: &str) -> (r: Result<PlainValue, String>)
    ensures
        match opened(json_str@) {
            Ok(doc) => r matches Ok(value) && value@ == doc.value,
            Err(fault) => r matches Err(message) && message@ == open_failure(None, fault),
        },
{
    let mut cache = DocumentCache::new();
    open_document(&mut cache, None, json_str)
}

/// Writes a value as a new document: compact, without comments.
pub fn cmd_stringify_json_with_comments(json_value: &PlainValue) -> (r: Result<String, String>)
    ensures
        match formatted(json_value@) {
            Ok(after) => r matches Ok(text) && text@ == after.text,
            Err(fault) => r matches Err(message) && message@ == save_failure(None, fault),
        },
{
    let mut cache = DocumentCache::new();
    save_document(&mut cache, None, json_value)
}

/// A failed read is never worded as a text that does not open, nor a failed
/// write as a value that does not save: the caller can tell the two apart by
/// the message.
pub proof fn law_io_failures_read_differently(
    path: Seq<char>,
    err: Seq<char>,
    id: Option<Seq<char>>,
    fault: Fault,
)
    ensures
        io_message("open"@, path, err) != open_failure(id, fault),
        io_message("save"@, path, err) != save_failure(id, fault),
{
    reveal_strlit("open");
    reveal_strlit("save");
    reveal_strlit("Failed to ");
    reveal_strlit(" '");
    reveal_strlit("': ");
    reveal_strlit("Failed to parse file '");
    reveal_strlit("Failed to parse input: ");
    reveal_strlit("Failed to stringify for save '");
    reveal_strlit("Failed to stringify input: ");
    assert(io_message("open"@, path, err)[10] == 'o');
    assert(open_failure(id, fault)[10] == 'p');
    assert(io_message("save"@, path, err)[11] == 'a');
    assert(save_failure(id, fault)[11] == 't');
}

} // verus!
