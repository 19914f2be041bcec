//! A document laid out for editing: each element of an array and each
//! property of an object is an entry that owns the trivia around it.
use vstd::prelude::*;
use vstd::string::StringExecFns;

verus! {

/// What kind of sequence a group of entries is.
#[derive(Clone, Copy, Debug, PartialEq, Eq, Structural)]
pub enum GroupKind {
    /// The document itself: no brackets, at most one entry.
    Root,
    Array,
    Object,
}

/// Mathematical model of an [`Entry`].
pub struct EntryModel {
    pub notes: Seq<char>,
    pub indent: Seq<char>,
    pub key: Seq<char>,
    pub sep: Seq<char>,
    pub value: LayoutModel,
    pub gap: Seq<char>,
    pub comma: bool,
    pub trail: Seq<char>,
}

/// Mathematical model of a [`Layout`].
pub enum LayoutModel {
    Scalar { text: Seq<char> },
    Group { kind: GroupKind, entries: Seq<EntryModel>, tail: Seq<char> },
}

/// One element of an array, one property of an object, or the value of a
/// document, together with the trivia that belongs to it.
#[derive(Debug)]
pub struct Entry {
    /// Trivia before the entry, up to the last comment or stray token.
    pub notes: String,
    /// The blank run that ends the trivia before the entry.
    pub indent: String,
    /// The key literal as written; empty unless the entry is a property.
    pub key: String,
    /// From the end of the key to the start of the value: the colon and the
    /// trivia around it.
    pub sep: String,
    pub value: Layout,
    /// Trivia between the value and its comma; empty without a comma.
    pub gap: String,
    /// Whether a comma follows the value, before the next one.
    pub comma: bool,
    /// Comments on the same line after the comma, or after the value where no
    /// comma follows, with the blank space before each.
    pub trail: String,
}

/// A value as laid out in a document.
#[derive(Debug)]
pub enum Layout {
    /// Text that is kept or replaced as a whole.
    Scalar { text: String },
    /// Entries between brackets, and the trivia before the closing bracket.
    Group { kind: GroupKind, entries: Vec<Entry>, tail: String },
}

/// The bracket that opens a group.
pub open spec fn opener(kind: GroupKind) -> Seq<char> {
    match kind {
        GroupKind::Root => Seq::empty(),
        GroupKind::Array => "["@,
        GroupKind::Object => "{"@,
    }
}

/// The bracket that closes a group.
pub open spec fn closer(kind: GroupKind) -> Seq<char> {
    match kind {
        GroupKind::Root => Seq::empty(),
        GroupKind::Array => "]"@,
        GroupKind::Object => "}"@,
    }
}

/// The comma of an entry, as text.
pub open spec fn comma_text(comma: bool) -> Seq<char> {
    if comma {
        ","@
    } else {
        Seq::empty()
    }
}

impl EntryModel {
    /// An entry without any text.
    pub open spec fn blank() -> EntryModel {
        EntryModel {
            notes: Seq::empty(),
            indent: Seq::empty(),
            key: Seq::empty(),
            sep: Seq::empty(),
            value: LayoutModel::Scalar { text: Seq::empty() },
            gap: Seq::empty(),
            comma: false,
            trail: Seq::empty(),
        }
    }

    /// The characters of the entry, in source order.
    pub open spec fn text(self) -> Seq<char>
        decreases self, 0nat,
    {
        self.notes + self.indent + self.key + self.sep + self.value.text() + self.gap + comma_text(self.comma)
            + self.trail
    }
}

impl LayoutModel {
    /// The characters of the layout, in source order.
    pub open spec fn text(self) -> Seq<char>
        decreases self, 0nat,
    {
        match self {
            LayoutModel::Scalar { text } => text,
            LayoutModel::Group { kind, entries, tail } => opener(kind) + entries_text(entries, entries.len()) + tail
                + closer(kind),
        }
    }
}

/// The characters of the first `n` entries.
pub open spec fn entries_text(entries: Seq<EntryModel>, n: nat) -> Seq<char>
    decreases entries, n,
{
    if n == 0 || n > entries.len() {
        Seq::empty()
    } else {
        entries_text(entries, (n - 1) as nat) + entries[n - 1].text()
    }
}

impl Entry {
    /// The mathematical entry that this entry stands for.
    pub open spec fn model(&self) -> EntryModel
        decreases self,
    {
        EntryModel {
            notes: self.notes@,
            indent: self.indent@,
            key: self.key@,
            sep: self.sep@,
            value: self.value.model(),
            gap: self.gap@,
            comma: self.comma,
            trail: self.trail@,
        }
    }

    /// A deep copy.
    pub fn duplicate(&self) -> (copy: Entry)
        ensures
            copy@ == self@,
        decreases self, 0nat,
    {
        Entry {
            notes: self.notes.clone(),
            indent: self.indent.clone(),
            key: self.key.clone(),
            sep: self.sep.clone(),
            value: self.value.duplicate(),
            gap: self.gap.clone(),
            comma: self.comma,
            trail: self.trail.clone(),
        }
    }

    /// Writes the entry out.
    pub fn render(&self) -> (out: String)
        ensures
            out@ == self@.text(),
        decreases self, 0nat,
    {
        let mut out = self.notes.clone();
        out.append(self.indent.as_str());
        out.append(self.key.as_str());
        out.append(self.sep.as_str());
        let value = self.value.render();
        out.append(value.as_str());
        out.append(self.gap.as_str());
        if self.comma {
            out.append(",");
        }
        out.append(self.trail.as_str());
        assert(out@ =~= self@.text()) by {
            assert(comma_text(false) + self.trail@ =~= self.trail@);
        }
        out
    }
}

impl Layout {
    /// The mathematical layout that this layout stands for.
    pub open spec fn model(&self) -> LayoutModel
        decreases self,
    {
        match self {
            Layout::Scalar { text } => LayoutModel::Scalar { text: text@ },
            Layout::Group { kind, entries, tail } => LayoutModel::Group {
                kind: *kind,
                entries: Seq::new(
                    entries@.len(),
                    |i: int| if 0 <= i < entries@.len() { entries@[i].model() } else { EntryModel::blank() },
                ),
                tail: tail@,
            },
        }
    }

    /// A deep copy.
    pub fn duplicate(&self) -> (copy: Layout)
        ensures
            copy@ == self@,
        decreases self, 1nat,
    {
        match self {
            Layout::Scalar { text } => Layout::Scalar { text: text.clone() },
            Layout::Group { kind, entries, tail } => {
                let mut out: Vec<Entry> = Vec::new();
                let mut i: usize = 0;
                while i < entries.len()
                    invariant
                        i <= entries.len(),
                        self is Group,
                        self->entries == *entries,
                        out@.len() == i,
                        forall|j: int| 0 <= j < i ==> out@[j]@ == entries@[j]@,
                    decreases entries.len() - i,
                {
                    let entry = entries[i].duplicate();
                    out.push(entry);
                    i += 1;
                }
                let copy = Layout::Group { kind: *kind, entries: out, tail: tail.clone() };
                assert(copy@->entries =~= self@->entries);
                copy
            },
        }
    }

    /// Writes the layout out.
    pub fn render(&self) -> (out: String)
        ensures
            out@ == self@.text(),
        decreases self, 1nat,
    {
        match self {
            Layout::Scalar { text } => text.clone(),
            Layout::Group { kind, entries, tail } => {
                let mut out = match kind {
                    GroupKind::Root => String::new(),
                    GroupKind::Array => String::from_str("["),
                    GroupKind::Object => String::from_str("{"),
                };
                let ghost models = self@->entries;
                let mut i: usize = 0;
                while i < entries.len()
                    invariant
                        i <= entries.len(),
                        self is Group,
                        self->entries == *entries,
                        models == self@->entries,
                        models.len() == entries@.len(),
                        out@ == opener(*kind) + entries_text(models, i as nat),
                    decreases entries.len() - i,
                {
                    let piece = entries[i].render();
                    assert(models[i as int] == entries@[i as int]@);
                    out.append(piece.as_str());
                    assert(out@ =~= opener(*kind) + entries_text(models, (i + 1) as nat));
                    i += 1;
                }
                out.append(tail.as_str());
                match kind {
                    GroupKind::Root => {},
                    GroupKind::Array => {
                        out.append("]");
                    },
                    GroupKind::Object => {
                        out.append("}");
                    },
                }
                assert(out@ =~= self@.text());
                out
            },
        }
    }
}

impl View for Entry {
    type V = EntryModel;

    open spec fn view(&self) -> EntryModel {
        self.model()
    }
}

impl View for Layout {
    type V = LayoutModel;

    open spec fn view(&self) -> LayoutModel {
        self.model()
    }
}

} // verus!
