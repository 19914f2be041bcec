//! From the concrete syntax tree to the layout: which trivia belongs to which
//! element.
//!
//! Comments that follow a value on its line, before or after its comma, stay
//! with that value, and so does its comma, on whatever line it stands.
//! Blank space after them, and everything from the next line break on, leads
//! the next value.
use vstd::prelude::*;
use vstd::string::StringExecFns;
use crate::layout::{closer, comma_text, entries_text, opener, Entry, EntryModel, GroupKind, Layout, LayoutModel};
use crate::tree::{ConcreteNode, Cst, NodeKind};

verus! {

/// Whether a node of this kind is a value, or a property that holds one.
pub open spec fn is_value_kind(kind: NodeKind) -> bool {
    match kind {
        NodeKind::Whitespace | NodeKind::Newline | NodeKind::Comment | NodeKind::Token => false,
        _ => true,
    }
}

/// Whether the node is the punctuation mark `mark`.
pub open spec fn is_mark(node: Cst, mark: Seq<char>) -> bool {
    node.kind == NodeKind::Token && node.rendered() == mark
}

/// The text of the children from `lo` up to `hi`.
pub open spec fn span_text(children: Seq<Cst>, lo: int, hi: int) -> Seq<char>
    decreases hi - lo,
{
    if hi <= lo || lo < 0 || hi > children.len() {
        Seq::empty()
    } else {
        span_text(children, lo, hi - 1) + children[hi - 1].rendered()
    }
}

/// Where a walk over the children of a container stands.
pub struct Scan {
    /// The entries that are complete.
    pub done: Seq<EntryModel>,
    /// Whether the walk is still on the line of the last value.
    pub open: bool,
    /// The entry of that value, while `open`.
    pub entry: EntryModel,
    /// Trivia gathered for the next entry, up to its last comment.
    pub notes: Seq<char>,
    /// The blank run gathered since.
    pub indent: Seq<char>,
}

impl Scan {
    /// Before the first child.
    pub open spec fn start() -> Scan {
        Scan {
            done: Seq::empty(),
            open: false,
            entry: EntryModel::blank(),
            notes: Seq::empty(),
            indent: Seq::empty(),
        }
    }

    /// Whether the last value's line has ended without a comma: a comma that
    /// comes now, on a later line, is still that value's.
    pub open spec fn awaits_comma(self) -> bool {
        !self.open && self.done.len() > 0 && !self.done[self.done.len() - 1].comma
    }

    /// The walk after the line of the last value has ended.
    pub open spec fn closed(self) -> Scan {
        if self.open {
            Scan { done: self.done.push(self.entry), open: false, entry: EntryModel::blank(), ..self }
        } else {
            self
        }
    }

    /// The walk after one more child, of which `parts` is the entry where the
    /// child is a value.
    pub open spec fn step(self, child: Cst, parts: EntryModel) -> Scan {
        let text = child.rendered();
        match child.kind {
            NodeKind::Whitespace => Scan { indent: self.indent + text, ..self },
            NodeKind::Comment => if self.open {
                Scan {
                    entry: EntryModel { trail: self.entry.trail + self.indent + text, ..self.entry },
                    indent: Seq::empty(),
                    ..self
                }
            } else {
                Scan { notes: self.notes + self.indent + text, indent: Seq::empty(), ..self }
            },
            NodeKind::Newline => {
                let c = self.closed();
                Scan { indent: c.indent + text, ..c }
            },
            NodeKind::Token => if self.open && !self.entry.comma && text == ","@ {
                Scan {
                    entry: EntryModel {
                        gap: self.entry.trail + self.indent,
                        trail: Seq::empty(),
                        comma: true,
                        ..self.entry
                    },
                    indent: Seq::empty(),
                    ..self
                }
            } else if self.awaits_comma() && text == ","@ {
                let last = self.done[self.done.len() - 1];
                Scan {
                    done: self.done.drop_last(),
                    open: true,
                    entry: EntryModel {
                        gap: last.trail + self.notes + self.indent,
                        trail: Seq::empty(),
                        comma: true,
                        ..last
                    },
                    notes: Seq::empty(),
                    indent: Seq::empty(),
                }
            } else {
                let c = self.closed();
                Scan { notes: c.notes + c.indent + text, indent: Seq::empty(), ..c }
            },
            _ => {
                let c = self.closed();
                Scan {
                    done: c.done,
                    open: true,
                    entry: EntryModel { notes: c.notes, indent: c.indent, ..parts },
                    notes: Seq::empty(),
                    indent: Seq::empty(),
                }
            },
        }
    }

    /// The group that the walk has gathered.
    pub open spec fn group(self, kind: GroupKind) -> LayoutModel {
        let c = self.closed();
        LayoutModel::Group { kind, entries: c.done, tail: c.notes + c.indent }
    }
}

/// The walk over the children from `lo` up to `hi`.
pub open spec fn scan(children: Seq<Cst>, lo: int, hi: int) -> Scan
    decreases children, hi - lo,
{
    if hi <= lo || lo < 0 || hi > children.len() {
        Scan::start()
    } else {
        scan(children, lo, hi - 1).step(children[hi - 1], entry_parts(children[hi - 1]))
    }
}

/// Whether a property node has the shape key, colon, value.
pub open spec fn is_keyed(node: Cst) -> bool {
    &&& node.kind == NodeKind::Property
    &&& node.text.len() == 0
    &&& node.children.len() >= 2
    &&& (node.children[0].kind == NodeKind::String || node.children[0].kind == NodeKind::Word)
}

/// The entry of a value node, without the trivia before it: for a property
/// its key, what separates key and value, and the value's layout.
pub open spec fn entry_parts(node: Cst) -> EntryModel
    decreases node, 1nat,
{
    if is_keyed(node) {
        let last = node.children.len() - 1;
        EntryModel {
            key: node.children[0].rendered(),
            sep: span_text(node.children, 1, last),
            value: arrange(node.children[last]),
            ..EntryModel::blank()
        }
    } else {
        EntryModel { value: arrange(node), ..EntryModel::blank() }
    }
}

/// Whether a container starts with `open` and ends with `close`.
pub open spec fn is_bracketed(node: Cst, open: Seq<char>, close: Seq<char>) -> bool {
    &&& node.text.len() == 0
    &&& node.children.len() >= 2
    &&& is_mark(node.children[0], open)
    &&& is_mark(node.children[node.children.len() - 1], close)
}

/// The layout of a node.  A node of unexpected shape is kept as plain text.
pub open spec fn arrange(node: Cst) -> LayoutModel
    decreases node, 0nat,
{
    match node.kind {
        NodeKind::Root => if node.text.len() == 0 {
            scan(node.children, 0, node.children.len() as int).group(GroupKind::Root)
        } else {
            LayoutModel::Scalar { text: node.rendered() }
        },
        NodeKind::Array => if is_bracketed(node, "["@, "]"@) {
            scan(node.children, 1, node.children.len() - 1).group(GroupKind::Array)
        } else {
            LayoutModel::Scalar { text: node.rendered() }
        },
        NodeKind::Object => if is_bracketed(node, "{"@, "}"@) {
            scan(node.children, 1, node.children.len() - 1).group(GroupKind::Object)
        } else {
            LayoutModel::Scalar { text: node.rendered() }
        },
        _ => LayoutModel::Scalar { text: node.rendered() },
    }
}

/// The models of a run of entries.
pub open spec fn entry_models(entries: Seq<Entry>) -> Seq<EntryModel> {
    Seq::new(entries.len(), |i: int| if 0 <= i < entries.len() { entries[i]@ } else { EntryModel::blank() })
}

/// A walk over the children of a container, as it runs.
struct Scanner {
    done: Vec<Entry>,
    open: bool,
    entry: Entry,
    notes: String,
    indent: String,
}

impl View for Scanner {
    type V = Scan;

    closed spec fn view(&self) -> Scan {
        Scan {
            done: entry_models(self.done@),
            open: self.open,
            entry: self.entry@,
            notes: self.notes@,
            indent: self.indent@,
        }
    }
}

/// An entry without any text.
fn blank_entry() -> (entry: Entry)
    ensures
        entry@ == EntryModel::blank(),
{
    Entry {
        notes: String::new(),
        indent: String::new(),
        key: String::new(),
        sep: String::new(),
        value: Layout::Scalar { text: String::new() },
        gap: String::new(),
        comma: false,
        trail: String::new(),
    }
}

/// Whether `text` reads exactly as `mark`.
fn reads_as(text: &String, mark: &str) -> (same: bool)
    ensures
        same == (text@ == mark@),
{
    let other = String::from_str(mark);
    *text == other
}

/// Whether a node of this kind is a value, or a property that holds one.
fn value_kind(kind: NodeKind) -> (yes: bool)
    ensures
        yes == is_value_kind(kind),
{
    match kind {
        NodeKind::Whitespace | NodeKind::Newline | NodeKind::Comment | NodeKind::Token => false,
        _ => true,
    }
}

impl Scanner {
    fn start() -> (s: Scanner)
        ensures
            s@ == Scan::start(),
    {
        let s = Scanner {
            done: Vec::new(),
            open: false,
            entry: blank_entry(),
            notes: String::new(),
            indent: String::new(),
        };
        assert(entry_models(s.done@) =~= Seq::empty());
        s
    }

    fn closed(self) -> (s: Scanner)
        ensures
            s@ == self@.closed(),
    {
        if self.open {
            let Scanner { done, open, entry, notes, indent } = self;
            let mut done = done;
            let ghost before = done@;
            done.push(entry);
            assert(entry_models(done@) =~= entry_models(before).push(entry@));
            Scanner { done, open: false, entry: blank_entry(), notes, indent }
        } else {
            self
        }
    }

    /// Takes in a child that is trivia or punctuation.
    fn take_trivia(self, child: &ConcreteNode) -> (s: Scanner)
        requires
            !is_value_kind(child.kind),
        ensures
            s@ == self@.step(child@, EntryModel::blank()),
            forall|parts: EntryModel| s@ == self@.step(child@, parts),
    {
        let text = child.render();
        match child.kind {
            NodeKind::Whitespace => {
                let Scanner { done, open, entry, notes, indent } = self;
                let mut indent = indent;
                indent.append(text.as_str());
                Scanner { done, open, entry, notes, indent }
            },
            NodeKind::Comment => {
                let Scanner { done, open, entry, notes, indent } = self;
                if open {
                    let mut entry = entry;
                    entry.trail.append(indent.as_str());
                    entry.trail.append(text.as_str());
                    Scanner { done, open, entry, notes, indent: String::new() }
                } else {
                    let mut notes = notes;
                    notes.append(indent.as_str());
                    notes.append(text.as_str());
                    Scanner { done, open, entry, notes, indent: String::new() }
                }
            },
            NodeKind::Newline => {
                let Scanner { done, open, entry, notes, indent } = self.closed();
                let mut indent = indent;
                indent.append(text.as_str());
                Scanner { done, open, entry, notes, indent }
            },
            _ => {
                let late = !self.open && self.done.len() > 0 && !self.done[self.done.len() - 1].comma;
                proof {
                    if self.done@.len() > 0 {
                        assert(entry_models(self.done@)[self.done@.len() - 1] == self.done@[self.done@.len() - 1]@);
                    }
                }
                if self.open && !self.entry.comma && reads_as(&text, ",") {
                    let Scanner { done, open, entry, notes, indent } = self;
                    let Entry { notes: n, indent: i, key, sep, value, gap, comma, trail } = entry;
                    let mut gap = trail;
                    gap.append(indent.as_str());
                    let entry = Entry {
                        notes: n,
                        indent: i,
                        key,
                        sep,
                        value,
                        gap,
                        comma: true,
                        trail: String::new(),
                    };
                    Scanner { done, open, entry, notes, indent: String::new() }
                } else if late && reads_as(&text, ",") {
                    let Scanner { done, open, entry, notes, indent } = self;
                    let mut done = done;
                    let ghost before = done@;
                    let last = done.pop().unwrap();
                    assert(entry_models(done@) =~= entry_models(before).drop_last());
                    let Entry { notes: n, indent: i, key, sep, value, gap, comma, trail } = last;
                    let mut gap = trail;
                    gap.append(notes.as_str());
                    gap.append(indent.as_str());
                    let entry = Entry {
                        notes: n,
                        indent: i,
                        key,
                        sep,
                        value,
                        gap,
                        comma: true,
                        trail: String::new(),
                    };
                    Scanner { done, open: true, entry, notes: String::new(), indent: String::new() }
                } else {
                    let Scanner { done, open, entry, notes, indent } = self.closed();
                    let mut notes = notes;
                    notes.append(indent.as_str());
                    notes.append(text.as_str());
                    Scanner { done, open, entry, notes, indent: String::new() }
                }
            },
        }
    }

    /// Takes in a child that is a value, of which `parts` is the entry.
    fn take_value(self, Ghost(child): Ghost<Cst>, parts: Entry) -> (s: Scanner)
        requires
            is_value_kind(child.kind),
        ensures
            s@ == self@.step(child, parts@),
    {
        let Scanner { done, open, entry, notes, indent } = self.closed();
        let Entry { notes: n, indent: i, key, sep, value, gap, comma, trail } = parts;
        let entry = Entry { notes, indent, key, sep, value, gap, comma, trail };
        Scanner { done, open: true, entry, notes: String::new(), indent: String::new() }
    }

    /// Ends the walk.
    fn group(self, kind: GroupKind) -> (layout: Layout)
        ensures
            layout@ == self@.group(kind),
    {
        let Scanner { done, open, entry, notes, indent } = self.closed();
        let mut tail = notes;
        tail.append(indent.as_str());
        let layout = Layout::Group { kind, entries: done, tail };
        assert(layout@->entries =~= entry_models(done@));
        layout
    }
}

/// The text of the children from `lo` up to `hi`.
fn span(children: &Vec<ConcreteNode>, lo: usize, hi: usize, Ghost(models): Ghost<Seq<Cst>>) -> (out: String)
    requires
        lo <= hi <= children@.len(),
        models.len() == children@.len(),
        forall|j: int| 0 <= j < models.len() ==> models[j] == children@[j]@,
    ensures
        out@ == span_text(models, lo as int, hi as int),
{
    let mut out = String::new();
    let mut i: usize = lo;
    while i < hi
        invariant
            lo <= i <= hi <= children@.len(),
            models.len() == children@.len(),
            forall|j: int| 0 <= j < models.len() ==> models[j] == children@[j]@,
            out@ == span_text(models, lo as int, i as int),
        decreases hi - i,
    {
        let piece = children[i].render();
        out.append(piece.as_str());
        i += 1;
    }
    out
}

/// Whether the node is the punctuation mark `mark`.
fn marks(node: &ConcreteNode, mark: &str) -> (yes: bool)
    ensures
        yes == is_mark(node@, mark@),
{
    if node.kind == NodeKind::Token {
        let text = node.render();
        reads_as(&text, mark)
    } else {
        false
    }
}

/// Walks the children from `lo` up to `hi`.
fn scan_children(node: &ConcreteNode, lo: usize, hi: usize) -> (s: Scanner)
    requires
        lo <= hi <= node.children@.len(),
    ensures
        s@ == scan(node@.children, lo as int, hi as int),
    decreases node, 0nat,
{
    let mut s = Scanner::start();
    let mut i: usize = lo;
    while i < hi
        invariant
            lo <= i <= hi <= node.children@.len(),
            s@ == scan(node@.children, lo as int, i as int),
        decreases hi - i,
    {
        let child = &node.children[i];
        assert(node@.children[i as int] == child@);
        if value_kind(child.kind) {
            let parts = parts_of(child);
            s = s.take_value(Ghost(child@), parts);
        } else {
            s = s.take_trivia(child);
        }
        i += 1;
    }
    s
}

/// The entry of a value node, without the trivia before it.
fn parts_of(node: &ConcreteNode) -> (parts: Entry)
    ensures
        parts@ == entry_parts(node@),
    decreases node, 2nat,
{
    let n = node.children.len();
    if node.kind == NodeKind::Property && node.text.as_str().is_empty() && n >= 2 && (node.children[0].kind
        == NodeKind::String
        || node.children[0].kind == NodeKind::Word) {
        assert(node@.children[0] == node.children@[0]@);
        assert(node@.children[n - 1] == node.children@[n - 1]@);
        let key = node.children[0].render();
        let sep = span(&node.children, 1, n - 1, Ghost(node@.children));
        let value = arrange_node(&node.children[n - 1]);
        Entry {
            notes: String::new(),
            indent: String::new(),
            key,
            sep,
            value,
            gap: String::new(),
            comma: false,
            trail: String::new(),
        }
    } else {
        if node.children.len() > 0 {
            assert(node@.children[0] == node.children@[0]@);
        }
        let value = arrange_node(node);
        Entry {
            notes: String::new(),
            indent: String::new(),
            key: String::new(),
            sep: String::new(),
            value,
            gap: String::new(),
            comma: false,
            trail: String::new(),
        }
    }
}

/// Whether a container starts with `open` and ends with `close`.
fn bracketed(node: &ConcreteNode, open: &str, close: &str) -> (yes: bool)
    ensures
        yes == is_bracketed(node@, open@, close@),
{
    let n = node.children.len();
    if node.text.as_str().is_empty() && n >= 2 {
        assert(node@.children[0] == node.children@[0]@);
        assert(node@.children[n - 1] == node.children@[n - 1]@);
        marks(&node.children[0], open) && marks(&node.children[n - 1], close)
    } else {
        false
    }
}

/// Lays a node out for editing.
pub fn arrange_node(node: &ConcreteNode) -> (layout: Layout)
    ensures
        layout@ == arrange(node@),
    decreases node, 1nat,
{
    let n = node.children.len();
    match node.kind {
        NodeKind::Root => {
            if node.text.as_str().is_empty() {
                scan_children(node, 0, n).group(GroupKind::Root)
            } else {
                Layout::Scalar { text: node.render() }
            }
        },
        NodeKind::Array => {
            if bracketed(node, "[", "]") {
                scan_children(node, 1, n - 1).group(GroupKind::Array)
            } else {
                Layout::Scalar { text: node.render() }
            }
        },
        NodeKind::Object => {
            if bracketed(node, "{", "}") {
                scan_children(node, 1, n - 1).group(GroupKind::Object)
            } else {
                Layout::Scalar { text: node.render() }
            }
        },
        _ => Layout::Scalar { text: node.render() },
    }
}

impl Scan {
    /// Every character that the walk has taken in, in source order.
    pub open spec fn text(self) -> Seq<char> {
        entries_text(self.done, self.done.len()) + (if self.open {
            self.entry.text()
        } else {
            Seq::empty()
        }) + self.notes + self.indent
    }

    /// What holds of every walk: next to an open entry no notes are
    /// gathered, and no entry has a gap before it has a comma.
    pub open spec fn tidy(self) -> bool {
        &&& self.open ==> self.notes.len() == 0
        &&& self.open && !self.entry.comma ==> self.entry.gap.len() == 0
        &&& forall|i: int| 0 <= i < self.done.len() && !self.done[i].comma ==> self.done[i].gap.len() == 0
    }
}

/// The text of a run of entries does not depend on what follows the run.
proof fn lemma_entries_prefix(a: Seq<EntryModel>, b: Seq<EntryModel>, n: nat)
    requires
        n <= a.len(),
        n <= b.len(),
        forall|i: int| 0 <= i < n ==> a[i] == b[i],
    ensures
        entries_text(a, n) == entries_text(b, n),
    decreases n,
{
    if n > 0 {
        lemma_entries_prefix(a, b, (n - 1) as nat);
    }
}

/// One more entry adds its text.
proof fn lemma_entries_push(done: Seq<EntryModel>, entry: EntryModel)
    ensures
        entries_text(done.push(entry), done.len() + 1) == entries_text(done, done.len()) + entry.text(),
{
    lemma_entries_prefix(done.push(entry), done, done.len());
}

/// Ending the line of the last value moves no character.
proof fn lemma_closed(s: Scan)
    requires
        s.tidy(),
    ensures
        s.closed().text() == s.text(),
        s.closed().tidy(),
        !s.closed().open,
        s.closed().notes == s.notes,
        s.closed().indent == s.indent,
{
    if s.open {
        lemma_entries_push(s.done, s.entry);
        assert(s.closed().text() =~= s.text());
        assert forall|i: int| 0 <= i < s.closed().done.len() && !s.closed().done[i].comma implies s.closed().done[i].gap.len()
            == 0 by {
            if i < s.done.len() {
                assert(s.closed().done[i] == s.done[i]);
            }
        }
    } else {
        assert(s.closed().text() =~= s.text());
    }
}

/// A step over blank space or a comment takes in its characters.
proof fn lemma_step_trivia(s: Scan, child: Cst, parts: EntryModel)
    requires
        s.tidy(),
        child.kind == NodeKind::Whitespace || child.kind == NodeKind::Comment,
    ensures
        s.step(child, parts).tidy(),
        s.step(child, parts).text() == s.text() + child.rendered(),
{
    let text = child.rendered();
    let after = s.step(child, parts);
    if child.kind == NodeKind::Comment && s.open {
        assert(s.notes =~= Seq::empty());
        assert(after.entry.text() =~= s.entry.text() + s.indent + text);
    }
    assert(after.text() =~= s.text() + text);
}

/// A step over a line break takes in its characters.
proof fn lemma_step_newline(s: Scan, child: Cst, parts: EntryModel)
    requires
        s.tidy(),
        child.kind == NodeKind::Newline,
    ensures
        s.step(child, parts).tidy(),
        s.step(child, parts).text() == s.text() + child.rendered(),
{
    lemma_closed(s);
    assert(s.step(child, parts).text() =~= s.closed().text() + child.rendered());
}

/// A step over a comma that follows its value on the same line.
proof fn lemma_step_comma(s: Scan, child: Cst, parts: EntryModel)
    requires
        s.tidy(),
        child.kind == NodeKind::Token,
        s.open && !s.entry.comma && child.rendered() == ","@,
    ensures
        s.step(child, parts).tidy(),
        s.step(child, parts).text() == s.text() + child.rendered(),
{
    let after = s.step(child, parts);
    assert(s.notes =~= Seq::empty());
    assert(s.entry.gap =~= Seq::empty());
    assert(comma_text(false) =~= Seq::empty());
    assert(after.entry.text() =~= s.entry.text() + s.indent + ","@);
    assert(after.text() =~= s.text() + ","@);
}

/// A step over a comma that follows its value on a later line.
proof fn lemma_step_late_comma(s: Scan, child: Cst, parts: EntryModel)
    requires
        s.tidy(),
        child.kind == NodeKind::Token,
        s.awaits_comma() && child.rendered() == ","@,
    ensures
        s.step(child, parts).tidy(),
        s.step(child, parts).text() == s.text() + child.rendered(),
{
    let after = s.step(child, parts);
    let n = (s.done.len() - 1) as nat;
    let last = s.done[n as int];
    lemma_entries_prefix(s.done, s.done.drop_last(), n);
    assert(entries_text(s.done, s.done.len()) == entries_text(s.done.drop_last(), n) + last.text());
    assert(last.gap =~= Seq::empty());
    assert(comma_text(false) =~= Seq::empty());
    assert(after.entry.text() =~= last.text() + s.notes + s.indent + ","@);
    assert(after.text() =~= s.text() + ","@);
    assert forall|i: int| 0 <= i < after.done.len() && !after.done[i].comma implies after.done[i].gap.len()
        == 0 by {
        assert(after.done[i] == s.done[i]);
    }
}

/// A step over any other punctuation mark takes in its characters.
proof fn lemma_step_mark(s: Scan, child: Cst, parts: EntryModel)
    requires
        s.tidy(),
        child.kind == NodeKind::Token,
        !(s.open && !s.entry.comma && child.rendered() == ","@),
        !(s.awaits_comma() && child.rendered() == ","@),
    ensures
        s.step(child, parts).tidy(),
        s.step(child, parts).text() == s.text() + child.rendered(),
{
    lemma_closed(s);
    assert(s.step(child, parts).text() =~= s.closed().text() + child.rendered());
}

/// A step over a value takes in the characters of its entry.
proof fn lemma_step_value(s: Scan, child: Cst, parts: EntryModel)
    requires
        s.tidy(),
        is_value_kind(child.kind),
        parts.text() == child.rendered(),
        parts.notes.len() == 0,
        parts.indent.len() == 0,
        parts.gap.len() == 0,
        !parts.comma,
    ensures
        s.step(child, parts).tidy(),
        s.step(child, parts).text() == s.text() + child.rendered(),
{
    lemma_closed(s);
    let c = s.closed();
    let after = s.step(child, parts);
    assert(parts.notes =~= Seq::empty());
    assert(parts.indent =~= Seq::empty());
    assert(after.entry.text() =~= c.notes + c.indent + parts.text());
    assert(after.text() =~= c.text() + child.rendered());
}

/// A step takes in exactly the characters of the child.
proof fn lemma_step(s: Scan, child: Cst, parts: EntryModel)
    requires
        s.tidy(),
        is_value_kind(child.kind) ==> parts.text() == child.rendered() && parts.notes.len() == 0
            && parts.indent.len() == 0 && parts.gap.len() == 0 && !parts.comma,
    ensures
        s.step(child, parts).tidy(),
        s.step(child, parts).text() == s.text() + child.rendered(),
{
    match child.kind {
        NodeKind::Whitespace | NodeKind::Comment => lemma_step_trivia(s, child, parts),
        NodeKind::Newline => lemma_step_newline(s, child, parts),
        NodeKind::Token => {
            if s.open && !s.entry.comma && child.rendered() == ","@ {
                lemma_step_comma(s, child, parts);
            } else if s.awaits_comma() && child.rendered() == ","@ {
                lemma_step_late_comma(s, child, parts);
            } else {
                lemma_step_mark(s, child, parts);
            }
        },
        _ => lemma_step_value(s, child, parts),
    }
}

/// A span is the span up to a point followed by the span from it.
proof fn lemma_span_split(children: Seq<Cst>, lo: int, mid: int, hi: int)
    requires
        0 <= lo <= mid <= hi <= children.len(),
    ensures
        span_text(children, lo, hi) == span_text(children, lo, mid) + span_text(children, mid, hi),
    decreases hi - mid,
{
    if mid < hi {
        lemma_span_split(children, lo, mid, hi - 1);
        assert(span_text(children, lo, hi) =~= span_text(children, lo, mid) + span_text(children, mid, hi));
    } else {
        assert(span_text(children, lo, hi) =~= span_text(children, lo, mid) + span_text(children, mid, hi));
    }
}

/// The span of one child is that child's text.
proof fn lemma_span_one(children: Seq<Cst>, i: int)
    requires
        0 <= i < children.len(),
    ensures
        span_text(children, i, i + 1) == children[i].rendered(),
{
    assert(span_text(children, i, i) =~= Seq::empty());
    assert(span_text(children, i, i + 1) =~= children[i].rendered());
}

/// A node's text is its own text followed by the span of its children.
proof fn lemma_rendered_span(node: Cst, n: nat)
    requires
        n <= node.children.len(),
    ensures
        node.text_upto(n) == node.text + span_text(node.children, 0, n as int),
    decreases n,
{
    if n > 0 {
        lemma_rendered_span(node, (n - 1) as nat);
        assert(node.text_upto(n) =~= node.text + span_text(node.children, 0, n as int));
    } else {
        assert(node.text_upto(n) =~= node.text + span_text(node.children, 0, n as int));
    }
}

/// A walk takes in exactly the characters of the children it has passed.
proof fn lemma_scan(children: Seq<Cst>, lo: int, hi: int)
    requires
        0 <= lo <= hi <= children.len(),
    ensures
        scan(children, lo, hi).tidy(),
        scan(children, lo, hi).text() == span_text(children, lo, hi),
    decreases children, hi - lo,
{
    if hi > lo {
        lemma_scan(children, lo, hi - 1);
        let child = children[hi - 1];
        lemma_parts(child);
        lemma_step(scan(children, lo, hi - 1), child, entry_parts(child));
    } else {
        assert(Scan::start().text() =~= Seq::empty());
    }
}

/// The entry of a node holds exactly the characters of the node.
proof fn lemma_parts(node: Cst)
    ensures
        entry_parts(node).text() == node.rendered(),
        entry_parts(node).notes.len() == 0,
        entry_parts(node).indent.len() == 0,
        entry_parts(node).gap.len() == 0,
        !entry_parts(node).comma,
    decreases node, 1nat,
{
    let parts = entry_parts(node);
    if is_keyed(node) {
        let n = node.children.len() as int;
        let last = n - 1;
        law_arrange_keeps_text(node.children[last]);
        lemma_rendered_span(node, n as nat);
        lemma_span_split(node.children, 0, 1, n);
        lemma_span_split(node.children, 1, last, n);
        lemma_span_one(node.children, 0);
        lemma_span_one(node.children, last);
        assert(parts.text() =~= node.children[0].rendered() + span_text(node.children, 1, last)
            + node.children[last].rendered());
        assert(node.text =~= Seq::empty());
        assert(parts.text() =~= node.rendered());
    } else {
        law_arrange_keeps_text(node);
        assert(parts.text() =~= node.rendered());
    }
}

/// The text of a group between its brackets.
proof fn lemma_group(node: Cst, lo: int, hi: int, kind: GroupKind)
    requires
        0 <= lo <= hi <= node.children.len(),
    ensures
        scan(node.children, lo, hi).group(kind).text() == opener(kind) + span_text(node.children, lo, hi) + closer(
            kind,
        ),
    decreases node, 0nat, 0nat,
{
    lemma_scan(node.children, lo, hi);
    let s = scan(node.children, lo, hi);
    lemma_closed(s);
    let c = s.closed();
    assert(c.text() =~= entries_text(c.done, c.done.len()) + c.notes + c.indent);
    assert(s.group(kind).text() =~= opener(kind) + c.text() + closer(kind));
}

/// Laying a tree out moves no character: the layout of a node writes out as
/// the node does.
pub proof fn law_arrange_keeps_text(node: Cst)
    ensures
        arrange(node).text() == node.rendered(),
    decreases node, 0nat, 1nat,
{
    let n = node.children.len() as int;
    lemma_rendered_span(node, n as nat);
    match node.kind {
        NodeKind::Root => {
            if node.text.len() == 0 {
                lemma_group(node, 0, n, GroupKind::Root);
                assert(arrange(node).text() =~= node.rendered());
            }
        },
        NodeKind::Array => {
            if is_bracketed(node, "["@, "]"@) {
                lemma_group(node, 1, n - 1, GroupKind::Array);
                lemma_span_split(node.children, 0, 1, n);
                lemma_span_split(node.children, 1, n - 1, n);
                lemma_span_one(node.children, 0);
                lemma_span_one(node.children, n - 1);
                assert(arrange(node).text() =~= node.rendered());
            }
        },
        NodeKind::Object => {
            if is_bracketed(node, "{"@, "}"@) {
                lemma_group(node, 1, n - 1, GroupKind::Object);
                lemma_span_split(node.children, 0, 1, n);
                lemma_span_split(node.children, 1, n - 1, n);
                lemma_span_one(node.children, 0);
                lemma_span_one(node.children, n - 1);
                assert(arrange(node).text() =~= node.rendered());
            }
        },
        _ => {},
    }
}

} // verus!
