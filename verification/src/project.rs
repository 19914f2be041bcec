//! The value projector: rewrites a laid-out document so that it holds a new
//! value, and leaves alone whatever the new value did not change.
//!
//! A value equal to the old one keeps its text.  Elements of an array are
//! matched by position, properties of an object by key; what has no match in
//! the new value goes together with its trivia, and what is new is appended.
use vstd::prelude::*;
use vstd::string::StringExecFns;
use crate::fresh::{fresh_cst, value_to_cst_input};
use crate::layout::{Entry, EntryModel, GroupKind, Layout, LayoutModel};
use crate::text::{contains_newline, push_char, quote, quoted};
use crate::value::{find_member, member_value, Json, Member, PlainValue};

verus! {

/// The layout of a value that has no formatting of its own.
pub open spec fn fresh_layout(v: Json) -> LayoutModel {
    LayoutModel::Scalar { text: fresh_cst(v).rendered() }
}

/// The blank run that leads an appended entry: that of the last entry that
/// was there.
pub open spec fn base_indent(entries: Seq<EntryModel>) -> Seq<char> {
    if entries.len() == 0 {
        Seq::empty()
    } else {
        entries[entries.len() - 1].indent
    }
}

/// Whether the trivia that leads an entry holds a line feed.
pub open spec fn has_break(entry: EntryModel) -> bool {
    entry.notes.contains('\n') || entry.indent.contains('\n')
}

/// An entry as it is placed behind entries that it did not follow before: on
/// a new line where a comment ends the line of the last of them.
pub open spec fn joined(before: Seq<EntryModel>, entry: EntryModel) -> EntryModel {
    if before.len() > 0 && before[before.len() - 1].trail.len() > 0 && !has_break(entry) {
        EntryModel { notes: seq!['\n'] + entry.notes, ..entry }
    } else {
        entry
    }
}

/// The closing trivia as it is placed behind entries that it did not follow
/// before: on a new line where a comment ends the line of the last of them.
pub open spec fn joined_tail(before: Seq<EntryModel>, tail: Seq<char>) -> Seq<char> {
    if before.len() > 0 && before[before.len() - 1].trail.len() > 0 && !tail.contains('\n') {
        seq!['\n'] + tail
    } else {
        tail
    }
}

/// An entry for a value that the document did not hold before.
pub open spec fn fresh_entry(indent: Seq<char>, key: Seq<char>, sep: Seq<char>, value: Json) -> EntryModel {
    EntryModel { indent, key, sep, value: fresh_layout(value), ..EntryModel::blank() }
}

/// Whether the entries as they stood end with a comma.
pub open spec fn trailing_comma(entries: Seq<EntryModel>) -> bool {
    entries.len() > 0 && entries[entries.len() - 1].comma
}

/// The entries with their commas set: the last entry as the last one had it
/// before, an entry before an appended one with a comma, the others as they
/// were.  The first `kept` entries are ones that were there before.
pub open spec fn with_commas(entries: Seq<EntryModel>, kept: int, trailing: bool) -> Seq<EntryModel> {
    Seq::new(
        entries.len(),
        |i: int|
            EntryModel {
                comma: if i == entries.len() - 1 {
                    trailing
                } else if i + 1 >= kept {
                    true
                } else {
                    entries[i].comma
                },
                ..entries[i]
            },
    )
}

/// The first member at or after `from` whose key is written as `literal`.
pub open spec fn find_key(news: Seq<(Seq<char>, Json)>, literal: Seq<char>, from: int) -> Option<int>
    decreases news.len() - from,
{
    if from < 0 || from >= news.len() {
        None
    } else if quoted(news[from].0) == literal {
        Some(from)
    } else {
        find_key(news, literal, from + 1)
    }
}

/// Whether an entry at or after `from` has its key written as `literal`.
pub open spec fn has_key(entries: Seq<EntryModel>, literal: Seq<char>, from: int) -> bool
    decreases entries.len() - from,
{
    if from < 0 || from >= entries.len() {
        false
    } else if entries[from].key == literal {
        true
    } else {
        has_key(entries, literal, from + 1)
    }
}

/// Whether the new object lacks the key of the entry at `i`.
pub open spec fn removed(entries: Seq<EntryModel>, news: Seq<(Seq<char>, Json)>, i: int) -> bool {
    0 <= i < entries.len() && find_key(news, entries[i].key, 0) is None
}

/// Whether the new object lacks the key of the last entry.
pub open spec fn last_removed(entries: Seq<EntryModel>, news: Seq<(Seq<char>, Json)>) -> bool {
    removed(entries, news, entries.len() - 1)
}

/// The layout after the new value has been written onto it.
pub open spec fn project(layout: LayoutModel, old: Json, new: Json) -> LayoutModel
    decreases new, 0nat,
{
    if old == new {
        layout
    } else {
        match new {
            Json::Array(news) => if layout is Group && layout->kind == GroupKind::Array && old is Array
                && old->Array_0.len() == layout->entries.len() {
                let entries = layout->entries;
                let kept = if news.len() < entries.len() {
                    news.len() as int
                } else {
                    entries.len() as int
                };
                let merged = with_commas(
                    merged_elements(entries, old->Array_0, news, news.len()),
                    kept,
                    trailing_comma(entries),
                );
                LayoutModel::Group {
                    kind: GroupKind::Array,
                    entries: merged,
                    tail: if news.len() < entries.len() {
                        joined_tail(merged, layout->tail)
                    } else {
                        layout->tail
                    },
                }
            } else {
                fresh_layout(new)
            },
            Json::Object(news) => if layout is Group && layout->kind == GroupKind::Object && old is Object {
                let entries = layout->entries;
                let kept = kept_properties(entries, old->Object_0, news, entries.len());
                let all = with_commas(
                    kept + added_properties(entries, kept, news, news.len()),
                    kept.len() as int,
                    trailing_comma(entries),
                );
                LayoutModel::Group {
                    kind: GroupKind::Object,
                    entries: all,
                    tail: if last_removed(entries, news) {
                        joined_tail(all, layout->tail)
                    } else {
                        layout->tail
                    },
                }
            } else {
                fresh_layout(new)
            },
            _ => fresh_layout(new),
        }
    }
}

/// The first `n` elements of the new array: each entry that was there with its
/// value projected, then an appended entry for each element beyond them.
pub open spec fn merged_elements(entries: Seq<EntryModel>, olds: Seq<Json>, news: Seq<Json>, n: nat) -> Seq<
    EntryModel,
>
    decreases news, n,
{
    if n == 0 || n > news.len() {
        Seq::empty()
    } else {
        let before = merged_elements(entries, olds, news, (n - 1) as nat);
        let i = n - 1;
        if i < entries.len() && i < olds.len() {
            before.push(EntryModel { value: project(entries[i].value, olds[i], news[i]), ..entries[i] })
        } else {
            before.push(joined(before, fresh_entry(base_indent(entries), Seq::empty(), Seq::empty(), news[i])))
        }
    }
}

/// Of the first `n` properties that were there, those whose key the new object
/// still has, each with its value projected, and placed anew where the
/// property before it is gone.
pub open spec fn kept_properties(
    entries: Seq<EntryModel>,
    olds: Seq<(Seq<char>, Json)>,
    news: Seq<(Seq<char>, Json)>,
    n: nat,
) -> Seq<EntryModel>
    decreases news, n,
{
    if n == 0 || n > entries.len() {
        Seq::empty()
    } else {
        let before = kept_properties(entries, olds, news, (n - 1) as nat);
        let entry = entries[n - 1];
        match find_key(news, entry.key, 0) {
            Some(j) => if 0 <= j < news.len() {
                let rewritten = EntryModel {
                    value: match member_value(olds, news[j].0, 0) {
                        Some(o) => project(entry.value, o, news[j].1),
                        None => fresh_layout(news[j].1),
                    },
                    ..entry
                };
                if removed(entries, news, n - 2) {
                    before.push(joined(before, rewritten))
                } else {
                    before.push(rewritten)
                }
            } else {
                before
            },
            None => before,
        }
    }
}

/// An appended entry for each of the first `n` new members whose key no
/// property that was there has; `kept` are the properties that stay.
pub open spec fn added_properties(
    entries: Seq<EntryModel>,
    kept: Seq<EntryModel>,
    news: Seq<(Seq<char>, Json)>,
    n: nat,
) -> Seq<EntryModel>
    decreases n,
{
    if n == 0 || n > news.len() {
        Seq::empty()
    } else {
        let before = added_properties(entries, kept, news, (n - 1) as nat);
        let literal = quoted(news[n - 1].0);
        if has_key(entries, literal, 0) {
            before
        } else {
            before.push(joined(kept + before, fresh_entry(base_indent(entries), literal, ": "@, news[n - 1].1)))
        }
    }
}

/// The document after the new value has been written onto it.
pub open spec fn project_root(layout: LayoutModel, old: Json, new: Json) -> LayoutModel {
    if layout is Group && layout->kind == GroupKind::Root && layout->entries.len() == 1 {
        LayoutModel::Group {
            kind: GroupKind::Root,
            entries: seq![
                EntryModel { value: project(layout->entries[0].value, old, new), ..layout->entries[0] },
            ],
            tail: layout->tail,
        }
    } else {
        fresh_layout(new)
    }
}

/// The layout of a value that has no formatting of its own.
pub fn fresh_layout_of(value: &PlainValue) -> (layout: Layout)
    ensures
        layout@ == fresh_layout(value@),
{
    Layout::Scalar { text: value_to_cst_input(value).render() }
}

/// The blank run that leads an appended entry.
fn base_indent_of(entries: &Vec<Entry>, Ghost(models): Ghost<Seq<EntryModel>>) -> (indent: String)
    requires
        models.len() == entries@.len(),
        forall|j: int| 0 <= j < models.len() ==> models[j] == entries@[j]@,
    ensures
        indent@ == base_indent(models),
{
    if entries.len() == 0 {
        String::new()
    } else {
        entries[entries.len() - 1].indent.clone()
    }
}

/// Whether a comment ends the line of the last entry.
fn ends_with_comment(before: &Vec<Entry>, Ghost(models): Ghost<Seq<EntryModel>>) -> (yes: bool)
    requires
        models.len() == before@.len(),
        forall|j: int| 0 <= j < models.len() ==> models[j] == before@[j]@,
    ensures
        yes == (models.len() > 0 && models[models.len() - 1].trail.len() > 0),
{
    before.len() > 0 && !before[before.len() - 1].trail.as_str().is_empty()
}

/// The text behind a line feed.
fn on_new_line(text: &String) -> (out: String)
    ensures
        out@ == seq!['\n'] + text@,
{
    let mut out = String::new();
    push_char(&mut out, '\n');
    out.append(text.as_str());
    assert(out@ =~= seq!['\n'] + text@);
    out
}

/// Places an entry behind entries that it did not follow before.
fn join(before: &Vec<Entry>, entry: Entry, Ghost(models): Ghost<Seq<EntryModel>>) -> (out: Entry)
    requires
        models.len() == before@.len(),
        forall|j: int| 0 <= j < models.len() ==> models[j] == before@[j]@,
    ensures
        out@ == joined(models, entry@),
{
    if ends_with_comment(before, Ghost(models)) && !contains_newline(entry.notes.as_str()) && !contains_newline(
        entry.indent.as_str(),
    ) {
        let Entry { notes, indent, key, sep, value, gap, comma, trail } = entry;
        Entry { notes: on_new_line(&notes), indent, key, sep, value, gap, comma, trail }
    } else {
        entry
    }
}

/// Places the closing trivia behind entries that it did not follow before.
fn join_tail(before: &Vec<Entry>, tail: &String, Ghost(models): Ghost<Seq<EntryModel>>) -> (out: String)
    requires
        models.len() == before@.len(),
        forall|j: int| 0 <= j < models.len() ==> models[j] == before@[j]@,
    ensures
        out@ == joined_tail(models, tail@),
{
    if ends_with_comment(before, Ghost(models)) && !contains_newline(tail.as_str()) {
        on_new_line(tail)
    } else {
        tail.clone()
    }
}

/// An entry for a value that the document did not hold before.
fn fresh_entry_of(indent: String, key: String, sep: String, value: &PlainValue) -> (entry: Entry)
    ensures
        entry@ == fresh_entry(indent@, key@, sep@, value@),
{
    Entry {
        notes: String::new(),
        indent,
        key,
        sep,
        value: fresh_layout_of(value),
        gap: String::new(),
        comma: false,
        trail: String::new(),
    }
}

/// Sets the commas of the entries of a rewritten group.
fn set_commas(entries: &mut Vec<Entry>, kept: usize, trailing: bool, Ghost(models): Ghost<Seq<EntryModel>>)
    requires
        models.len() == old(entries)@.len(),
        forall|j: int| 0 <= j < models.len() ==> models[j] == old(entries)@[j]@,
    ensures
        final(entries)@.len() == models.len(),
        forall|j: int|
            0 <= j < models.len() ==> final(entries)@[j]@ == with_commas(models, kept as int, trailing)[j],
{
    let n = entries.len();
    let mut i: usize = 0;
    while i < n
        invariant
            i <= n,
            n == models.len(),
            entries@.len() == n,
            forall|j: int| 0 <= j < i ==> entries@[j]@ == with_commas(models, kept as int, trailing)[j],
            forall|j: int| i <= j < n ==> entries@[j]@ == models[j],
        decreases n - i,
    {
        let comma = if i == n - 1 {
            trailing
        } else if i + 1 >= kept {
            true
        } else {
            entries[i].comma
        };
        entries[i].comma = comma;
        i += 1;
    }
}

/// The index of the first literal that reads as `key`.
fn find_literal(literals: &Vec<String>, key: &String, Ghost(news): Ghost<Seq<(Seq<char>, Json)>>) -> (found: Option<
    usize,
>)
    requires
        literals@.len() == news.len(),
        forall|j: int| 0 <= j < news.len() ==> literals@[j]@ == quoted(news[j].0),
    ensures
        match found {
            Some(j) => find_key(news, key@, 0) == Some(j as int) && j < news.len(),
            None => find_key(news, key@, 0) is None,
        },
{
    let mut j: usize = 0;
    while j < literals.len()
        invariant
            j <= literals@.len(),
            literals@.len() == news.len(),
            forall|k: int| 0 <= k < news.len() ==> literals@[k]@ == quoted(news[k].0),
            find_key(news, key@, 0) == find_key(news, key@, j as int),
        decreases literals.len() - j,
    {
        if literals[j] == *key {
            return Some(j);
        }
        j += 1;
    }
    None
}

/// Whether an entry has its key written as `literal`.
fn holds_key(entries: &Vec<Entry>, literal: &String, Ghost(models): Ghost<Seq<EntryModel>>) -> (yes: bool)
    requires
        models.len() == entries@.len(),
        forall|j: int| 0 <= j < models.len() ==> models[j] == entries@[j]@,
    ensures
        yes == has_key(models, literal@, 0),
{
    let mut j: usize = 0;
    while j < entries.len()
        invariant
            j <= entries@.len(),
            models.len() == entries@.len(),
            forall|k: int| 0 <= k < models.len() ==> models[k] == entries@[k]@,
            has_key(models, literal@, 0) == has_key(models, literal@, j as int),
        decreases entries.len() - j,
    {
        if entries[j].key == *literal {
            return true;
        }
        j += 1;
    }
    false
}

/// A group from its entries.
fn group_of(kind: GroupKind, entries: Vec<Entry>, tail: String, Ghost(models): Ghost<Seq<EntryModel>>) -> (layout:
    Layout)
    requires
        models.len() == entries@.len(),
        forall|j: int| 0 <= j < models.len() ==> models[j] == entries@[j]@,
    ensures
        layout@ == (LayoutModel::Group { kind, entries: models, tail: tail@ }),
{
    let layout = Layout::Group { kind, entries, tail };
    assert(layout@->entries =~= models);
    layout
}

/// A copy of an entry with another value in it.
fn with_value(entry: &Entry, value: Layout) -> (out: Entry)
    ensures
        out@ == (EntryModel { value: value@, ..entry@ }),
{
    Entry {
        notes: entry.notes.clone(),
        indent: entry.indent.clone(),
        key: entry.key.clone(),
        sep: entry.sep.clone(),
        value,
        gap: entry.gap.clone(),
        comma: entry.comma,
        trail: entry.trail.clone(),
    }
}

/// The entries of the new array, before their commas are set.
fn merge_elements(
    entries: &Vec<Entry>,
    olds: &Vec<PlainValue>,
    news: &Vec<PlainValue>,
    Ghost(entries_m): Ghost<Seq<EntryModel>>,
    Ghost(olds_m): Ghost<Seq<Json>>,
    Ghost(news_m): Ghost<Seq<Json>>,
) -> (merged: Vec<Entry>)
    requires
        entries_m.len() == entries@.len(),
        forall|j: int| 0 <= j < entries_m.len() ==> entries_m[j] == entries@[j]@,
        olds_m.len() == olds@.len(),
        forall|j: int| 0 <= j < olds_m.len() ==> olds_m[j] == olds@[j]@,
        news_m.len() == news@.len(),
        forall|j: int| 0 <= j < news_m.len() ==> news_m[j] == news@[j]@,
    ensures
        merged@.len() == news_m.len(),
        merged@.len() == merged_elements(entries_m, olds_m, news_m, news_m.len()).len(),
        forall|j: int|
            0 <= j < merged@.len() ==> merged@[j]@ == merged_elements(entries_m, olds_m, news_m, news_m.len())[j],
    decreases news,
{
    let indent = base_indent_of(entries, Ghost(entries_m));
    let mut merged: Vec<Entry> = Vec::new();
    let mut i: usize = 0;
    while i < news.len()
        invariant
            i <= news.len(),
            entries_m.len() == entries@.len(),
            forall|j: int| 0 <= j < entries_m.len() ==> entries_m[j] == entries@[j]@,
            olds_m.len() == olds@.len(),
            forall|j: int| 0 <= j < olds_m.len() ==> olds_m[j] == olds@[j]@,
            news_m.len() == news@.len(),
            forall|j: int| 0 <= j < news_m.len() ==> news_m[j] == news@[j]@,
            indent@ == base_indent(entries_m),
            merged@.len() == i,
            merged_elements(entries_m, olds_m, news_m, i as nat).len() == i,
            forall|j: int| 0 <= j < i ==> merged@[j]@ == merged_elements(entries_m, olds_m, news_m, i as nat)[j],
        decreases news.len() - i,
    {
        if i < entries.len() && i < olds.len() {
            let value = project_layout(&entries[i].value, &olds[i], &news[i]);
            merged.push(with_value(&entries[i], value));
        } else {
            let fresh = fresh_entry_of(indent.clone(), String::new(), String::new(), &news[i]);
            let placed = join(&merged, fresh, Ghost(merged_elements(entries_m, olds_m, news_m, i as nat)));
            merged.push(placed);
        }
        i += 1;
    }
    merged
}

/// The literal of each key of the new object.
fn key_literals(news: &Vec<Member>, Ghost(news_m): Ghost<Seq<(Seq<char>, Json)>>) -> (literals: Vec<String>)
    requires
        news_m.len() == news@.len(),
        forall|j: int| 0 <= j < news_m.len() ==> news_m[j] == news@[j]@,
    ensures
        literals@.len() == news_m.len(),
        forall|j: int| 0 <= j < news_m.len() ==> literals@[j]@ == quoted(news_m[j].0),
{
    let mut literals: Vec<String> = Vec::new();
    let mut j: usize = 0;
    while j < news.len()
        invariant
            j <= news.len(),
            news_m.len() == news@.len(),
            forall|k: int| 0 <= k < news_m.len() ==> news_m[k] == news@[k]@,
            literals@.len() == j,
            forall|k: int| 0 <= k < j ==> literals@[k]@ == quoted(news_m[k].0),
        decreases news.len() - j,
    {
        literals.push(quote(news[j].key.as_str()));
        j += 1;
    }
    literals
}

/// The properties that stay, each with its value projected.
fn keep_properties(
    entries: &Vec<Entry>,
    olds: &Vec<Member>,
    news: &Vec<Member>,
    literals: &Vec<String>,
    Ghost(entries_m): Ghost<Seq<EntryModel>>,
    Ghost(olds_m): Ghost<Seq<(Seq<char>, Json)>>,
    Ghost(news_m): Ghost<Seq<(Seq<char>, Json)>>,
) -> (kept: Vec<Entry>)
    requires
        entries_m.len() == entries@.len(),
        forall|j: int| 0 <= j < entries_m.len() ==> entries_m[j] == entries@[j]@,
        olds_m.len() == olds@.len(),
        forall|j: int| 0 <= j < olds_m.len() ==> olds_m[j] == olds@[j]@,
        news_m.len() == news@.len(),
        forall|j: int| 0 <= j < news_m.len() ==> news_m[j] == news@[j]@,
        literals@.len() == news_m.len(),
        forall|j: int| 0 <= j < news_m.len() ==> literals@[j]@ == quoted(news_m[j].0),
    ensures
        kept@.len() == kept_properties(entries_m, olds_m, news_m, entries_m.len()).len(),
        forall|j: int|
            0 <= j < kept@.len() ==> kept@[j]@ == kept_properties(entries_m, olds_m, news_m, entries_m.len())[j],
    decreases news,
{
    let mut kept: Vec<Entry> = Vec::new();
    let mut i: usize = 0;
    while i < entries.len()
        invariant
            i <= entries.len(),
            entries_m.len() == entries@.len(),
            forall|j: int| 0 <= j < entries_m.len() ==> entries_m[j] == entries@[j]@,
            olds_m.len() == olds@.len(),
            forall|j: int| 0 <= j < olds_m.len() ==> olds_m[j] == olds@[j]@,
            news_m.len() == news@.len(),
            forall|j: int| 0 <= j < news_m.len() ==> news_m[j] == news@[j]@,
            literals@.len() == news_m.len(),
            forall|j: int| 0 <= j < news_m.len() ==> literals@[j]@ == quoted(news_m[j].0),
            kept@.len() == kept_properties(entries_m, olds_m, news_m, i as nat).len(),
            forall|j: int|
                0 <= j < kept@.len() ==> kept@[j]@ == kept_properties(entries_m, olds_m, news_m, i as nat)[j],
        decreases entries.len() - i,
    {
        let entry = &entries[i];
        match find_literal(literals, &entry.key, Ghost(news_m)) {
            Some(j) => {
                let value = match find_member(olds, &news[j].key, Ghost(olds_m)) {
                    Some(k) => project_layout(&entry.value, &olds[k].value, &news[j].value),
                    None => fresh_layout_of(&news[j].value),
                };
                let rewritten = with_value(entry, value);
                let gone = i > 0 && find_literal(literals, &entries[i - 1].key, Ghost(news_m)).is_none();
                if gone {
                    let placed = join(
                        &kept,
                        rewritten,
                        Ghost(kept_properties(entries_m, olds_m, news_m, i as nat)),
                    );
                    kept.push(placed);
                } else {
                    kept.push(rewritten);
                }
            },
            None => {},
        }
        i += 1;
    }
    kept
}

/// Appends an entry for each new member whose key no entry has.
fn add_properties(
    out: &mut Vec<Entry>,
    entries: &Vec<Entry>,
    news: &Vec<Member>,
    literals: &Vec<String>,
    Ghost(entries_m): Ghost<Seq<EntryModel>>,
    Ghost(news_m): Ghost<Seq<(Seq<char>, Json)>>,
    Ghost(kept_m): Ghost<Seq<EntryModel>>,
)
    requires
        entries_m.len() == entries@.len(),
        forall|j: int| 0 <= j < entries_m.len() ==> entries_m[j] == entries@[j]@,
        news_m.len() == news@.len(),
        forall|j: int| 0 <= j < news_m.len() ==> news_m[j] == news@[j]@,
        literals@.len() == news_m.len(),
        forall|j: int| 0 <= j < news_m.len() ==> literals@[j]@ == quoted(news_m[j].0),
        kept_m.len() == old(out)@.len(),
        forall|j: int| 0 <= j < kept_m.len() ==> kept_m[j] == old(out)@[j]@,
    ensures
        final(out)@.len() == (kept_m + added_properties(entries_m, kept_m, news_m, news_m.len())).len(),
        forall|j: int|
            0 <= j < final(out)@.len() ==> final(out)@[j]@ == (kept_m + added_properties(
                entries_m,
                kept_m,
                news_m,
                news_m.len(),
            ))[j],
{
    let indent = base_indent_of(entries, Ghost(entries_m));
    let mut j: usize = 0;
    while j < news.len()
        invariant
            j <= news.len(),
            entries_m.len() == entries@.len(),
            forall|k: int| 0 <= k < entries_m.len() ==> entries_m[k] == entries@[k]@,
            news_m.len() == news@.len(),
            forall|k: int| 0 <= k < news_m.len() ==> news_m[k] == news@[k]@,
            literals@.len() == news_m.len(),
            forall|k: int| 0 <= k < news_m.len() ==> literals@[k]@ == quoted(news_m[k].0),
            indent@ == base_indent(entries_m),
            out@.len() == (kept_m + added_properties(entries_m, kept_m, news_m, j as nat)).len(),
            forall|k: int|
                0 <= k < out@.len() ==> out@[k]@ == (kept_m + added_properties(entries_m, kept_m, news_m, j as nat))[k],
        decreases news.len() - j,
    {
        let ghost before = added_properties(entries_m, kept_m, news_m, j as nat);
        let ghost after = added_properties(entries_m, kept_m, news_m, (j + 1) as nat);
        if !holds_key(entries, &literals[j], Ghost(entries_m)) {
            assert(kept_m + after =~= (kept_m + before).push(after.last()));
            let fresh = fresh_entry_of(indent.clone(), literals[j].clone(), String::from_str(": "), &news[j].value);
            let placed = join(out, fresh, Ghost(kept_m + before));
            out.push(placed);
        }
        j += 1;
    }
}

/// Writes the new value onto a layout of the old one.
pub fn project_layout(layout: &Layout, old: &PlainValue, new: &PlainValue) -> (out: Layout)
    ensures
        out@ == project(layout@, old@, new@),
    decreases new,
{
    if old.same(new) {
        return layout.duplicate();
    }
    match (layout, old, new) {
        (
            Layout::Group { kind: GroupKind::Array, entries, tail },
            PlainValue::Array(olds),
            PlainValue::Array(news),
        ) => {
            if olds.len() != entries.len() {
                return fresh_layout_of(new);
            }
            let ghost entries_m = layout@->entries;
            let ghost olds_m = old@->Array_0;
            let ghost news_m = new@->Array_0;
            assert(new->Array_0 == *news);
            let mut merged = merge_elements(entries, olds, news, Ghost(entries_m), Ghost(olds_m), Ghost(news_m));
            let kept = if news.len() < entries.len() {
                news.len()
            } else {
                entries.len()
            };
            let trailing = entries.len() > 0 && entries[entries.len() - 1].comma;
            let ghost merged_m = merged_elements(entries_m, olds_m, news_m, news_m.len());
            set_commas(&mut merged, kept, trailing, Ghost(merged_m));
            let ghost placed_m = with_commas(merged_m, kept as int, trailing);
            let tail = if news.len() < entries.len() {
                join_tail(&merged, tail, Ghost(placed_m))
            } else {
                tail.clone()
            };
            group_of(GroupKind::Array, merged, tail, Ghost(placed_m))
        },
        (
            Layout::Group { kind: GroupKind::Object, entries, tail },
            PlainValue::Object(olds),
            PlainValue::Object(news),
        ) => {
            let ghost entries_m = layout@->entries;
            let ghost olds_m = old@->Object_0;
            let ghost news_m = new@->Object_0;
            assert(new->Object_0 == *news);
            let literals = key_literals(news, Ghost(news_m));
            let mut out = keep_properties(
                entries,
                olds,
                news,
                &literals,
                Ghost(entries_m),
                Ghost(olds_m),
                Ghost(news_m),
            );
            let kept = out.len();
            let ghost kept_m = kept_properties(entries_m, olds_m, news_m, entries_m.len());
            add_properties(&mut out, entries, news, &literals, Ghost(entries_m), Ghost(news_m), Ghost(kept_m));
            let trailing = entries.len() > 0 && entries[entries.len() - 1].comma;
            let ghost all_m = kept_m + added_properties(entries_m, kept_m, news_m, news_m.len());
            set_commas(&mut out, kept, trailing, Ghost(all_m));
            let ghost placed_m = with_commas(all_m, kept as int, trailing);
            let gone = entries.len() > 0 && find_literal(
                &literals,
                &entries[entries.len() - 1].key,
                Ghost(news_m),
            ).is_none();
            let tail = if gone {
                join_tail(&out, tail, Ghost(placed_m))
            } else {
                tail.clone()
            };
            group_of(GroupKind::Object, out, tail, Ghost(placed_m))
        },
        _ => fresh_layout_of(new),
    }
}

/// Writes the new value onto the layout of a document that held the old one.
pub fn project_document(layout: &Layout, old: &PlainValue, new: &PlainValue) -> (out: Layout)
    ensures
        out@ == project_root(layout@, old@, new@),
{
    match layout {
        Layout::Group { kind: GroupKind::Root, entries, tail } => {
            if entries.len() == 1 {
                let e = &entries[0];
                assert(layout@->entries[0] == e@);
                let value = project_layout(&e.value, old, new);
                let entry = with_value(e, value);
                let ghost models = seq![entry@];
                let mut out: Vec<Entry> = Vec::new();
                out.push(entry);
                group_of(GroupKind::Root, out, tail.clone(), Ghost(models))
            } else {
                fresh_layout_of(new)
            }
        },
        _ => fresh_layout_of(new),
    }
}

/// Whether two entries differ in their values at most: the same trivia, the
/// same key, the same comma.
pub open spec fn same_trivia(a: EntryModel, b: EntryModel) -> bool {
    &&& a.notes == b.notes
    &&& a.indent == b.indent
    &&& a.key == b.key
    &&& a.sep == b.sep
    &&& a.gap == b.gap
    &&& a.comma == b.comma
    &&& a.trail == b.trail
}

/// Whether every one of the first `n` entries has its key among the members.
pub open spec fn keys_found(entries: Seq<EntryModel>, news: Seq<(Seq<char>, Json)>, n: nat) -> bool
    decreases n,
{
    if n == 0 {
        true
    } else if n > entries.len() {
        false
    } else {
        keys_found(entries, news, (n - 1) as nat) && find_key(news, entries[n - 1].key, 0) is Some
    }
}

/// Whether every one of the first `n` members has its key among the entries.
pub open spec fn keys_held(entries: Seq<EntryModel>, news: Seq<(Seq<char>, Json)>, n: nat) -> bool
    decreases n,
{
    if n == 0 {
        true
    } else if n > news.len() {
        false
    } else {
        keys_held(entries, news, (n - 1) as nat) && has_key(entries, quoted(news[n - 1].0), 0)
    }
}

/// What `find_key` finds is a member.
proof fn lemma_find_key(news: Seq<(Seq<char>, Json)>, literal: Seq<char>, from: int)
    requires
        0 <= from,
    ensures
        find_key(news, literal, from) matches Some(j) ==> from <= j < news.len(),
    decreases news.len() - from,
{
    if from < news.len() && quoted(news[from].0) != literal {
        lemma_find_key(news, literal, from + 1);
    }
}

/// Below the length of the old array, merging keeps each entry and projects
/// its value.
proof fn lemma_merged_kept(entries: Seq<EntryModel>, olds: Seq<Json>, news: Seq<Json>, n: nat)
    requires
        n <= news.len(),
        n <= entries.len(),
        entries.len() == olds.len(),
    ensures
        merged_elements(entries, olds, news, n).len() == n,
        forall|i: int|
            0 <= i < n ==> #[trigger] merged_elements(entries, olds, news, n)[i] == (EntryModel {
                value: project(entries[i].value, olds[i], news[i]),
                ..entries[i]
            }),
    decreases n,
{
    if n > 0 {
        lemma_merged_kept(entries, olds, news, (n - 1) as nat);
    }
}

/// Where every key is found, every property is kept.
proof fn lemma_all_kept(
    entries: Seq<EntryModel>,
    olds: Seq<(Seq<char>, Json)>,
    news: Seq<(Seq<char>, Json)>,
    n: nat,
)
    requires
        n <= entries.len(),
        keys_found(entries, news, n),
    ensures
        kept_properties(entries, olds, news, n).len() == n,
        forall|i: int|
            0 <= i < n ==> same_trivia(#[trigger] kept_properties(entries, olds, news, n)[i], entries[i]),
    decreases n,
{
    if n > 0 {
        lemma_all_kept(entries, olds, news, (n - 1) as nat);
        lemma_find_key(news, entries[n - 1].key, 0);
        if n >= 2 {
            assert(keys_found(entries, news, (n - 1) as nat));
            assert(!removed(entries, news, n - 2));
        }
    }
}

/// Where every key is held, no property is added.
proof fn lemma_none_added(entries: Seq<EntryModel>, kept: Seq<EntryModel>, news: Seq<(Seq<char>, Json)>, n: nat)
    requires
        n <= news.len(),
        keys_held(entries, news, n),
    ensures
        added_properties(entries, kept, news, n).len() == 0,
    decreases n,
{
    if n > 0 {
        lemma_none_added(entries, kept, news, (n - 1) as nat);
    }
}

/// An array rewritten to an array of the same length keeps every comment and
/// every blank: each entry keeps its trivia and its comma, the closing
/// trivia stays, and only the values are projected, each from the old
/// element in its place.
pub proof fn law_array_of_same_length_keeps_trivia(layout: LayoutModel, old: Json, new: Json)
    requires
        layout is Group,
        layout->kind == GroupKind::Array,
        old is Array,
        new is Array,
        old->Array_0.len() == layout->entries.len(),
        new->Array_0.len() == layout->entries.len(),
    ensures
        project(layout, old, new) is Group,
        project(layout, old, new)->kind == GroupKind::Array,
        project(layout, old, new)->tail == layout->tail,
        project(layout, old, new)->entries.len() == layout->entries.len(),
        forall|i: int|
            0 <= i < layout->entries.len() ==> {
                &&& same_trivia(#[trigger] project(layout, old, new)->entries[i], layout->entries[i])
                &&& project(layout, old, new)->entries[i].value == project(
                    layout->entries[i].value,
                    old->Array_0[i],
                    new->Array_0[i],
                )
            },
{
    let entries = layout->entries;
    let olds = old->Array_0;
    let news = new->Array_0;
    if old == new {
        assert forall|i: int| 0 <= i < entries.len() implies project(entries[i].value, olds[i], news[i])
            == entries[i].value by {}
    } else {
        lemma_merged_kept(entries, olds, news, news.len());
    }
}

/// An object rewritten to an object with the same keys keeps every comment
/// and every blank: each property keeps its place, its trivia and its comma,
/// whatever the order of the new members, and the closing trivia stays.
pub proof fn law_object_of_same_keys_keeps_trivia(layout: LayoutModel, old: Json, new: Json)
    requires
        layout is Group,
        layout->kind == GroupKind::Object,
        old is Object,
        new is Object,
        keys_found(layout->entries, new->Object_0, layout->entries.len()),
        keys_held(layout->entries, new->Object_0, new->Object_0.len()),
    ensures
        project(layout, old, new) is Group,
        project(layout, old, new)->kind == GroupKind::Object,
        project(layout, old, new)->tail == layout->tail,
        project(layout, old, new)->entries.len() == layout->entries.len(),
        forall|i: int|
            0 <= i < layout->entries.len() ==> same_trivia(
                #[trigger] project(layout, old, new)->entries[i],
                layout->entries[i],
            ),
{
    let entries = layout->entries;
    let olds = old->Object_0;
    let news = new->Object_0;
    if old != new {
        lemma_all_kept(entries, olds, news, entries.len());
        let kept = kept_properties(entries, olds, news, entries.len());
        lemma_none_added(entries, kept, news, news.len());
        assert(kept + added_properties(entries, kept, news, news.len()) =~= kept);
    }
}

/// A value projected onto itself changes nothing.
pub proof fn law_same_value_keeps_layout(layout: LayoutModel, value: Json)
    ensures
        project(layout, value, value) == layout,
{
}

} // verus!
