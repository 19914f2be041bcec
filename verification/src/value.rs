//! The plain, formatting-free value that callers read and edit.
use vstd::prelude::*;

verus! {

/// Mathematical model of a JSON value: text as sequences of characters,
/// containers as sequences, object entries in insertion order.
pub enum Json {
    Null,
    Bool(bool),
    /// The number in its canonical spelling.
    Number(Seq<char>),
    String(Seq<char>),
    Array(Seq<Json>),
    Object(Seq<(Seq<char>, Json)>),
}

/// One entry of an object: a key and the value stored under it.
#[derive(Debug)]
pub struct Member {
    pub key: String,
    pub value: PlainValue,
}

/// A JSON-shaped value without any formatting information.
#[derive(Debug)]
pub enum PlainValue {
    Null,
    Bool(bool),
    /// The number in its canonical spelling, such as `1.5` or `-3`.
    Number(String),
    String(String),
    Array(Vec<PlainValue>),
    /// Entries in insertion order.
    Object(Vec<Member>),
}

impl PlainValue {
    /// The mathematical value that this value stands for.
    pub open spec fn model(&self) -> Json
        decreases self,
    {
        match self {
            PlainValue::Null => Json::Null,
            PlainValue::Bool(b) => Json::Bool(*b),
            PlainValue::Number(n) => Json::Number(n@),
            PlainValue::String(s) => Json::String(s@),
            PlainValue::Array(items) => Json::Array(
                Seq::new(items@.len(), |i: int| if 0 <= i < items@.len() { items@[i].model() } else { Json::Null }),
            ),
            PlainValue::Object(members) => Json::Object(
                Seq::new(
                    members@.len(),
                    |i: int| if 0 <= i < members@.len() {
                        (members@[i].key@, members@[i].value.model())
                    } else {
                        (Seq::empty(), Json::Null)
                    },
                ),
            ),
        }
    }
}

impl View for PlainValue {
    type V = Json;

    open spec fn view(&self) -> Json {
        self.model()
    }
}

impl View for Member {
    type V = (Seq<char>, Json);

    open spec fn view(&self) -> (Seq<char>, Json) {
        (self.key@, self.value@)
    }
}

impl PlainValue {
    /// Structural equality: same shape, same scalars, same keys in the same order.
    pub fn same(&self, other: &PlainValue) -> (eq: bool)
        ensures
            eq == (self@ == other@),
        decreases self,
    {
        match self {
            PlainValue::Null => match other {
                PlainValue::Null => true,
                _ => false,
            },
            PlainValue::Bool(x) => match other {
                PlainValue::Bool(y) => *x == *y,
                _ => false,
            },
            PlainValue::Number(x) => match other {
                PlainValue::Number(y) => *x == *y,
                _ => false,
            },
            PlainValue::String(x) => match other {
                PlainValue::String(y) => *x == *y,
                _ => false,
            },
            PlainValue::Array(x) => match other {
                PlainValue::Array(y) => {
                    if x.len() != y.len() {
                        assert(self@->Array_0.len() != other@->Array_0.len());
                        return false;
                    }
                    let mut i: usize = 0;
                    while i < x.len()
                        invariant
                            i <= x.len(),
                            x.len() == y.len(),
                            self == PlainValue::Array(*x),
                            other == PlainValue::Array(*y),
                            forall|j: int| 0 <= j < i ==> x@[j]@ == y@[j]@,
                        decreases x.len() - i,
                    {
                        if !x[i].same(&y[i]) {
                            assert(self@->Array_0[i as int] == x@[i as int]@);
                            assert(other@->Array_0[i as int] == y@[i as int]@);
                            return false;
                        }
                        i += 1;
                    }
                    assert(self@->Array_0 =~= other@->Array_0);
                    true
                },
                _ => false,
            },
            PlainValue::Object(x) => match other {
                PlainValue::Object(y) => {
                    if x.len() != y.len() {
                        assert(self@->Object_0.len() != other@->Object_0.len());
                        return false;
                    }
                    let mut i: usize = 0;
                    while i < x.len()
                        invariant
                            i <= x.len(),
                            x.len() == y.len(),
                            self == PlainValue::Object(*x),
                            other == PlainValue::Object(*y),
                            forall|j: int| 0 <= j < i ==> x@[j]@ == y@[j]@,
                        decreases x.len() - i,
                    {
                        if !(x[i].key == y[i].key && x[i].value.same(&y[i].value)) {
                            assert(self@->Object_0[i as int] == x@[i as int]@);
                            assert(other@->Object_0[i as int] == y@[i as int]@);
                            return false;
                        }
                        i += 1;
                    }
                    assert(self@->Object_0 =~= other@->Object_0);
                    true
                },
                _ => false,
            },
        }
    }

    /// A deep copy.
    pub fn duplicate(&self) -> (copy: PlainValue)
        ensures
            copy@ == self@,
        decreases self,
    {
        match self {
            PlainValue::Null => PlainValue::Null,
            PlainValue::Bool(b) => PlainValue::Bool(*b),
            PlainValue::Number(n) => PlainValue::Number(n.clone()),
            PlainValue::String(s) => PlainValue::String(s.clone()),
            PlainValue::Array(items) => {
                let mut out: Vec<PlainValue> = Vec::new();
                let mut i: usize = 0;
                while i < items.len()
                    invariant
                        i <= items.len(),
                        self == PlainValue::Array(*items),
                        out@.len() == i,
                        forall|j: int| 0 <= j < i ==> out@[j]@ == items@[j]@,
                    decreases items.len() - i,
                {
                    assert(self->Array_0 == *items);
                    let item = items[i].duplicate();
                    out.push(item);
                    i += 1;
                }
                let copy = PlainValue::Array(out);
                assert(copy@->Array_0 =~= self@->Array_0);
                copy
            },
            PlainValue::Object(members) => {
                let mut out: Vec<Member> = Vec::new();
                let mut i: usize = 0;
                while i < members.len()
                    invariant
                        i <= members.len(),
                        self == PlainValue::Object(*members),
                        out@.len() == i,
                        forall|j: int| 0 <= j < i ==> out@[j]@ == members@[j]@,
                    decreases members.len() - i,
                {
                    assert(self->Object_0 == *members);
                    let value = members[i].value.duplicate();
                    out.push(Member { key: members[i].key.clone(), value });
                    i += 1;
                }
                let copy = PlainValue::Object(out);
                assert(copy@->Object_0 =~= self@->Object_0);
                copy
            },
        }
    }
}

impl Clone for PlainValue {
    fn clone(&self) -> (copy: PlainValue)
        ensures
            copy@ == self@,
    {
        self.duplicate()
    }
}

/// The value of the first member at or after `from` whose key is `name`.
pub open spec fn member_value(members: Seq<(Seq<char>, Json)>, name: Seq<char>, from: int) -> Option<Json>
    decreases members.len() - from,
{
    if from < 0 || from >= members.len() {
        None
    } else if members[from].0 == name {
        Some(members[from].1)
    } else {
        member_value(members, name, from + 1)
    }
}

/// Whether the first `n` elements of `a` agree with those of `b`, one by one.
pub open spec fn items_agree(a: Seq<Json>, b: Seq<Json>, n: nat) -> bool
    decreases a, n,
{
    if n == 0 {
        true
    } else if n > a.len() || n > b.len() {
        false
    } else {
        items_agree(a, b, (n - 1) as nat) && a[n - 1].agrees(b[n - 1])
    }
}

/// Whether each of the first `n` members of `a` has its key in `b`, with a
/// value that agrees.
pub open spec fn members_agree(a: Seq<(Seq<char>, Json)>, b: Seq<(Seq<char>, Json)>, n: nat) -> bool
    decreases a, n,
{
    if n == 0 {
        true
    } else if n > a.len() {
        false
    } else {
        members_agree(a, b, (n - 1) as nat) && match member_value(b, a[n - 1].0, 0) {
            Some(v) => a[n - 1].1.agrees(v),
            None => false,
        }
    }
}

/// Whether each of the first `n` members of `b` has its key in `a`.
pub open spec fn keys_within(b: Seq<(Seq<char>, Json)>, a: Seq<(Seq<char>, Json)>, n: nat) -> bool
    decreases n,
{
    if n == 0 {
        true
    } else if n > b.len() {
        false
    } else {
        keys_within(b, a, (n - 1) as nat) && member_value(a, b[n - 1].0, 0) is Some
    }
}

impl Json {
    /// Whether two values are the same but for the order of the members of
    /// their objects.
    pub open spec fn agrees(self, other: Json) -> bool
        decreases self, 0nat,
    {
        match self {
            Json::Array(items) => {
                &&& other is Array
                &&& other->Array_0.len() == items.len()
                &&& items_agree(items, other->Array_0, items.len())
            },
            Json::Object(members) => {
                &&& other is Object
                &&& other->Object_0.len() == members.len()
                &&& members_agree(members, other->Object_0, members.len())
                &&& keys_within(other->Object_0, members, other->Object_0.len())
            },
            _ => self == other,
        }
    }
}

/// The index of the first member whose key is `name`.
pub(crate) fn find_member(members: &Vec<Member>, name: &String, Ghost(models): Ghost<Seq<(Seq<char>, Json)>>) -> (found:
    Option<usize>)
    requires
        members@.len() == models.len(),
        forall|j: int| 0 <= j < models.len() ==> models[j] == members@[j]@,
    ensures
        match found {
            Some(j) => j < models.len() && member_value(models, name@, 0) == Some(models[j as int].1),
            None => member_value(models, name@, 0) is None,
        },
{
    let mut j: usize = 0;
    while j < members.len()
        invariant
            j <= members@.len(),
            members@.len() == models.len(),
            forall|k: int| 0 <= k < models.len() ==> models[k] == members@[k]@,
            member_value(models, name@, 0) == member_value(models, name@, j as int),
        decreases members.len() - j,
    {
        if members[j].key == *name {
            return Some(j);
        }
        j += 1;
    }
    None
}

impl PlainValue {
    /// Whether two values are the same but for the order of the members of
    /// their objects.
    pub fn agrees_with(&self, other: &PlainValue) -> (yes: bool)
        ensures
            yes == self@.agrees(other@),
        decreases self,
    {
        match self {
            PlainValue::Array(x) => match other {
                PlainValue::Array(y) => {
                    if x.len() != y.len() {
                        return false;
                    }
                    let ghost xm = self@->Array_0;
                    let ghost ym = other@->Array_0;
                    let mut i: usize = 0;
                    while i < x.len()
                        invariant
                            i <= x.len(),
                            x.len() == y.len(),
                            self is Array,
                            self->Array_0 == *x,
                            other is Array,
                            other->Array_0 == *y,
                            xm == self@->Array_0,
                            ym == other@->Array_0,
                            items_agree(xm, ym, i as nat),
                        decreases x.len() - i,
                    {
                        assert(xm[i as int] == x@[i as int]@);
                        assert(ym[i as int] == y@[i as int]@);
                        if !x[i].agrees_with(&y[i]) {
                            proof {
                                lemma_items_disagree(xm, ym, (i + 1) as nat, xm.len());
                            }
                            return false;
                        }
                        i += 1;
                    }
                    true
                },
                _ => false,
            },
            PlainValue::Object(x) => match other {
                PlainValue::Object(y) => {
                    if x.len() != y.len() {
                        return false;
                    }
                    let ghost xm = self@->Object_0;
                    let ghost ym = other@->Object_0;
                    let mut i: usize = 0;
                    while i < x.len()
                        invariant
                            i <= x.len(),
                            x.len() == y.len(),
                            self is Object,
                            self->Object_0 == *x,
                            other is Object,
                            other->Object_0 == *y,
                            xm == self@->Object_0,
                            ym == other@->Object_0,
                            members_agree(xm, ym, i as nat),
                        decreases x.len() - i,
                    {
                        assert(xm[i as int] == x@[i as int]@);
                        let matched = match find_member(y, &x[i].key, Ghost(ym)) {
                            Some(j) => {
                                assert(ym[j as int] == y@[j as int]@);
                                x[i].value.agrees_with(&y[j].value)
                            },
                            None => false,
                        };
                        if !matched {
                            proof {
                                lemma_members_disagree(xm, ym, (i + 1) as nat, xm.len());
                            }
                            return false;
                        }
                        i += 1;
                    }
                    let mut j: usize = 0;
                    while j < y.len()
                        invariant
                            j <= y.len(),
                            x.len() == y.len(),
                            self is Object,
                            self->Object_0 == *x,
                            other is Object,
                            other->Object_0 == *y,
                            xm == self@->Object_0,
                            ym == other@->Object_0,
                            members_agree(xm, ym, xm.len()),
                            keys_within(ym, xm, j as nat),
                        decreases y.len() - j,
                    {
                        assert(ym[j as int] == y@[j as int]@);
                        if find_member(x, &y[j].key, Ghost(xm)).is_none() {
                            proof {
                                lemma_keys_outside(ym, xm, (j + 1) as nat, ym.len());
                            }
                            return false;
                        }
                        j += 1;
                    }
                    true
                },
                _ => false,
            },
            _ => self.same(other),
        }
    }
}

/// A disagreement among the first `n` elements remains one among more.
proof fn lemma_items_disagree(a: Seq<Json>, b: Seq<Json>, n: nat, m: nat)
    requires
        n <= m,
        !items_agree(a, b, n),
    ensures
        !items_agree(a, b, m),
    decreases m,
{
    if n < m {
        lemma_items_disagree(a, b, n, (m - 1) as nat);
    }
}

/// A disagreement among the first `n` members remains one among more.
proof fn lemma_members_disagree(a: Seq<(Seq<char>, Json)>, b: Seq<(Seq<char>, Json)>, n: nat, m: nat)
    requires
        n <= m,
        !members_agree(a, b, n),
    ensures
        !members_agree(a, b, m),
    decreases m,
{
    if n < m {
        lemma_members_disagree(a, b, n, (m - 1) as nat);
    }
}

/// A key outside among the first `n` members remains one among more.
proof fn lemma_keys_outside(b: Seq<(Seq<char>, Json)>, a: Seq<(Seq<char>, Json)>, n: nat, m: nat)
    requires
        n <= m,
        !keys_within(b, a, n),
    ensures
        !keys_within(b, a, m),
    decreases m,
{
    if n < m {
        lemma_keys_outside(b, a, n, (m - 1) as nat);
    }
}

} // verus!
