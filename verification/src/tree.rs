//! The concrete syntax tree: every character of a document, grouped by role.
use vstd::prelude::*;
use vstd::string::StringExecFns;

verus! {

/// The role of a node of the concrete syntax tree.
#[derive(Clone, Copy, Debug, PartialEq, Eq, Structural)]
pub enum NodeKind {
    /// The whole document: trivia around at most one value.
    Root,
    Array,
    Object,
    /// A key, its colon and its value inside an object.
    Property,
    String,
    /// An unquoted word.
    Word,
    Number,
    Boolean,
    Null,
    /// A bracket, brace, comma or colon.
    Token,
    Whitespace,
    Newline,
    Comment,
}

/// Mathematical model of a concrete node.
pub struct Cst {
    pub kind: NodeKind,
    /// The node's own characters; empty for a container.
    pub text: Seq<char>,
    pub children: Seq<Cst>,
}

/// A node of the concrete syntax tree.  A leaf carries its text as written; a
/// container carries its children in source order, trivia included.
#[derive(Debug)]
pub struct ConcreteNode {
    pub kind: NodeKind,
    pub text: String,
    pub children: Vec<ConcreteNode>,
}

impl Cst {
    /// A leaf without text.
    pub open spec fn blank() -> Cst {
        Cst { kind: NodeKind::Whitespace, text: Seq::empty(), children: Seq::empty() }
    }

    /// The node's text followed by the text of its first `n` children.
    pub open spec fn text_upto(self, n: nat) -> Seq<char>
        decreases self, n,
    {
        if n == 0 || n > self.children.len() {
            self.text
        } else {
            let child = self.children[n - 1];
            self.text_upto((n - 1) as nat) + child.text_upto(child.children.len())
        }
    }

    /// Every character below this node, in source order.
    pub open spec fn rendered(self) -> Seq<char> {
        self.text_upto(self.children.len())
    }
}

impl ConcreteNode {
    /// The mathematical tree that this node stands for.
    pub open spec fn model(&self) -> Cst
        decreases self,
    {
        Cst {
            kind: self.kind,
            text: self.text@,
            children: Seq::new(
                self.children@.len(),
                |i: int| if 0 <= i < self.children@.len() { self.children@[i].model() } else { Cst::blank() },
            ),
        }
    }

    /// A deep copy.
    pub fn duplicate(&self) -> (copy: ConcreteNode)
        ensures
            copy@ == self@,
        decreases self,
    {
        let mut children: Vec<ConcreteNode> = Vec::new();
        let mut i: usize = 0;
        while i < self.children.len()
            invariant
                i <= self.children.len(),
                children@.len() == i,
                forall|j: int| 0 <= j < i ==> children@[j]@ == self.children@[j]@,
            decreases self.children.len() - i,
        {
            let child = self.children[i].duplicate();
            children.push(child);
            i += 1;
        }
        let copy = ConcreteNode { kind: self.kind, text: self.text.clone(), children };
        assert(copy@.children =~= self@.children);
        copy
    }

    /// Writes the node back out: its text, then its children in order.
    pub fn render(&self) -> (out: String)
        ensures
            out@ == self@.rendered(),
        decreases self,
    {
        let mut out = self.text.clone();
        let mut i: usize = 0;
        while i < self.children.len()
            invariant
                i <= self.children.len(),
                out@ == self@.text_upto(i as nat),
            decreases self.children.len() - i,
        {
            let piece = self.children[i].render();
            assert(self@.children[i as int] == self.children@[i as int]@);
            out.append(piece.as_str());
            i += 1;
        }
        out
    }
}

impl View for ConcreteNode {
    type V = Cst;

    open spec fn view(&self) -> Cst {
        self.model()
    }
}

} // verus!
