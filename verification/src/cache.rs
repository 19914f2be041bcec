//! The registry of open documents, keyed by identity.
//!
//! Identities are compared as they are written: two spellings of one path
//! are two identities.  Nothing is ever evicted.
use vstd::prelude::*;
use vstd::string::StringExecFns;
use crate::document::{DocModel, Document};

verus! {

/// One document under its identity.
#[derive(Debug)]
pub struct Slot {
    pub key: String,
    pub doc: Document,
}

/// The documents that were opened under an identity, each as last read or
/// written.
#[derive(Debug)]
pub struct DocumentCache {
    slots: Vec<Slot>,
}

/// The map that the first `n` slots stand for.
pub open spec fn map_of(slots: Seq<Slot>, n: nat) -> Map<Seq<char>, DocModel>
    decreases n,
{
    if n == 0 || n > slots.len() {
        Map::empty()
    } else {
        map_of(slots, (n - 1) as nat).insert(slots[n - 1].key@, slots[n - 1].doc@)
    }
}

/// Whether no two slots have the same key.
pub open spec fn distinct_keys(slots: Seq<Slot>) -> bool {
    forall|i: int, j: int| 0 <= i < j < slots.len() ==> slots[i].key@ != slots[j].key@
}

/// The keys of the map are the keys of the slots.
proof fn lemma_map_keys(slots: Seq<Slot>, n: nat, key: Seq<char>)
    requires
        n <= slots.len(),
    ensures
        map_of(slots, n).contains_key(key) <==> exists|i: int| 0 <= i < n && slots[i].key@ == key,
    decreases n,
{
    if n > 0 {
        lemma_map_keys(slots, (n - 1) as nat, key);
        if slots[n - 1].key@ == key {
            assert(0 <= n - 1 < n && slots[n - 1].key@ == key);
        }
    }
}

/// Under distinct keys, the map holds each slot's document under its key.
proof fn lemma_map_value(slots: Seq<Slot>, n: nat, i: int)
    requires
        n <= slots.len(),
        0 <= i < n,
        distinct_keys(slots),
    ensures
        map_of(slots, n).contains_key(slots[i].key@),
        map_of(slots, n)[slots[i].key@] == slots[i].doc@,
    decreases n,
{
    if i < n - 1 {
        lemma_map_value(slots, (n - 1) as nat, i);
    }
}

/// The map of a prefix does not depend on what follows it.
proof fn lemma_map_prefix(a: Seq<Slot>, b: Seq<Slot>, n: nat)
    requires
        n <= a.len(),
        n <= b.len(),
        forall|i: int| 0 <= i < n ==> a[i].key@ == b[i].key@ && a[i].doc@ == b[i].doc@,
    ensures
        map_of(a, n) == map_of(b, n),
    decreases n,
{
    if n > 0 {
        lemma_map_prefix(a, b, (n - 1) as nat);
    }
}

/// Replacing the document of slot `i` is an insertion under its key.
proof fn lemma_map_replace(a: Seq<Slot>, b: Seq<Slot>, n: nat, i: int)
    requires
        a.len() == b.len(),
        n <= a.len(),
        0 <= i < a.len(),
        distinct_keys(a),
        forall|k: int| 0 <= k < a.len() ==> a[k].key@ == b[k].key@,
        forall|k: int| 0 <= k < a.len() && k != i ==> a[k].doc@ == b[k].doc@,
    ensures
        i < n ==> map_of(b, n) == map_of(a, n).insert(a[i].key@, b[i].doc@),
        i >= n ==> map_of(b, n) == map_of(a, n),
    decreases n,
{
    if n > 0 {
        lemma_map_replace(a, b, (n - 1) as nat, i);
        if i < n - 1 {
            assert(map_of(b, n) =~= map_of(a, n).insert(a[i].key@, b[i].doc@));
        } else if i == n - 1 {
            assert(map_of(b, n) =~= map_of(a, n).insert(a[i].key@, b[i].doc@));
        }
    }
}

impl DocumentCache {
    /// What holds of every registry: no identity occurs twice.
    #[verifier::type_invariant]
    spec fn distinct(self) -> bool {
        distinct_keys(self.slots@)
    }

    /// An empty registry.
    pub fn new() -> (cache: DocumentCache)
        ensures
            cache@ == Map::<Seq<char>, DocModel>::empty(),
    {
        DocumentCache { slots: Vec::new() }
    }

    /// The index of the slot with this key.
    fn position(&self, key: &str) -> (found: Option<usize>)
        ensures
            match found {
                Some(i) => i < self.slots@.len() && self.slots@[i as int].key@ == key@,
                None => forall|i: int| 0 <= i < self.slots@.len() ==> self.slots@[i].key@ != key@,
            },
    {
        let mut i: usize = 0;
        while i < self.slots.len()
            invariant
                i <= self.slots@.len(),
                forall|k: int| 0 <= k < i ==> self.slots@[k].key@ != key@,
            decreases self.slots.len() - i,
        {
            let same = self.slots[i].key == String::from_str(key);
            if same {
                return Some(i);
            }
            i += 1;
        }
        None
    }

    /// How many documents the registry holds.
    pub fn len(&self) -> (n: usize)
        ensures
            n == self@.dom().len(),
            self@.dom().finite(),
    {
        proof {
            use_type_invariant(self);
            self.lemma_count(self.slots@.len());
        }
        self.slots.len()
    }

    /// The first `n` slots stand for `n` identities.
    proof fn lemma_count(&self, n: nat)
        requires
            distinct_keys(self.slots@),
            n <= self.slots@.len(),
        ensures
            map_of(self.slots@, n).dom().finite(),
            map_of(self.slots@, n).dom().len() == n,
        decreases n,
    {
        if n > 0 {
            self.lemma_count((n - 1) as nat);
            let key = self.slots@[n - 1].key@;
            lemma_map_keys(self.slots@, (n - 1) as nat, key);
            assert(!map_of(self.slots@, (n - 1) as nat).contains_key(key));
            assert(map_of(self.slots@, n).dom() =~= map_of(self.slots@, (n - 1) as nat).dom().insert(key));
        }
    }

    /// The document under an identity, if one was put there.
    pub fn get(&self, key: &str) -> (found: Option<&Document>)
        ensures
            match found {
                Some(doc) => self@.contains_key(key@) && self@[key@] == doc@,
                None => !self@.contains_key(key@),
            },
    {
        proof {
            use_type_invariant(self);
            lemma_map_keys(self.slots@, self.slots@.len(), key@);
        }
        match self.position(key) {
            Some(i) => {
                proof {
                    lemma_map_value(self.slots@, self.slots@.len(), i as int);
                }
                Some(&self.slots[i].doc)
            },
            None => None,
        }
    }

    /// Puts a document under an identity, in place of the one that was there.
    pub fn put(&mut self, key: &str, doc: Document)
        ensures
            final(self)@ == old(self)@.insert(key@, doc@),
    {
        proof {
            use_type_invariant(&*self);
        }
        let found = self.position(key);
        let mut taken = DocumentCache { slots: Vec::new() };
        core::mem::swap(self, &mut taken);
        let DocumentCache { slots } = taken;
        let ghost before = slots@;
        let mut slots = slots;
        match found {
            Some(i) => {
                slots[i].doc = doc;
                proof {
                    lemma_map_replace(before, slots@, before.len(), i as int);
                }
            },
            None => {
                slots.push(Slot { key: String::from_str(key), doc });
                proof {
                    lemma_map_prefix(before, slots@, before.len());
                }
            },
        }
        *self = DocumentCache { slots };
    }
}

impl View for DocumentCache {
    type V = Map<Seq<char>, DocModel>;

    closed spec fn view(&self) -> Map<Seq<char>, DocModel> {
        map_of(self.slots@, self.slots@.len())
    }
}

} // verus!
