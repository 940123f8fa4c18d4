//! The tree of a structured document, as the record and definition readers
//! see it: nodes with a name, entries (positional arguments and named
//! properties) and optional child nodes, each with its place in the source.
use vstd::prelude::*;

verus! {

/// A byte range of the source text.
#[derive(Clone, Copy, Debug, PartialEq, Eq, Structural)]
pub struct Span {
    pub offset: usize,
    pub len: usize,
}

/// A scalar value of the document. A floating-point number is held as its
/// IEEE 754 bit pattern.
#[derive(Clone, Debug, PartialEq, Eq)]
pub enum Scalar {
    String(String),
    Integer(i128),
    Float(u64),
    Bool(bool),
    Null,
}

/// An entry of a node: a positional argument (no name) or a property.
#[derive(Clone, Debug)]
pub struct Entry {
    pub name: Option<String>,
    pub value: Scalar,
    pub span: Span,
}

/// A node of the document.
#[derive(Debug)]
pub struct Node {
    pub name: String,
    pub name_span: Span,
    pub span: Span,
    pub entries: Vec<Entry>,
    pub children: Option<Vec<Node>>,
}

impl Scalar {
    /// A copy of this value.
    pub fn duplicate(&self) -> (r: Scalar)
        ensures
            r == *self,
    {
        match self {
            Scalar::String(s) => Scalar::String(s.clone()),
            Scalar::Integer(i) => Scalar::Integer(*i),
            Scalar::Float(b) => Scalar::Float(*b),
            Scalar::Bool(b) => Scalar::Bool(*b),
            Scalar::Null => Scalar::Null,
        }
    }

    /// The string this value holds, if it is a string.
    pub open spec fn string_of(self) -> Option<Seq<char>> {
        match self {
            Scalar::String(s) => Some(s@),
            _ => None,
        }
    }
}

/// Whether an entry is a positional argument.
pub open spec fn is_argument(e: Entry) -> bool {
    e.name is None
}

/// Whether an entry is the property `key`.
pub open spec fn is_property(e: Entry, key: Seq<char>) -> bool {
    e.name matches Some(n) && n@ == key
}

/// The number of positional arguments among the first `n` entries.
pub open spec fn arguments_before(es: Seq<Entry>, n: int) -> nat
    decreases n,
{
    if n <= 0 {
        0
    } else {
        arguments_before(es, n - 1) + if is_argument(es[n - 1]) { 1nat } else { 0nat }
    }
}

/// The index of the `k`-th positional argument (counting from zero).
pub open spec fn argument_index(es: Seq<Entry>, k: nat) -> Option<int> {
    if exists|i: int| 0 <= i < es.len() && is_argument(es[i]) && arguments_before(es, i) == k {
        Some(choose|i: int| 0 <= i < es.len() && is_argument(es[i]) && arguments_before(es, i) == k)
    } else {
        None
    }
}

/// The index of the last entry that is the property `key`: a later property
/// overrides an earlier one of the same name.
pub open spec fn property_index(es: Seq<Entry>, key: Seq<char>) -> Option<int>
    decreases es.len(),
{
    if es.len() == 0 {
        None
    } else if is_property(es.last(), key) {
        Some(es.len() - 1)
    } else {
        property_index(es.drop_last(), key)
    }
}

/// The index of the first node named `name`.
pub open spec fn first_named(ns: Seq<Node>, name: Seq<char>) -> Option<int>
    decreases ns.len(),
{
    if ns.len() == 0 {
        None
    } else if ns[0].name@ == name {
        Some(0)
    } else {
        match first_named(ns.drop_first(), name) {
            Some(i) => Some(i + 1),
            None => None,
        }
    }
}

proof fn lemma_arguments_before_mono(es: Seq<Entry>, i: int, j: int)
    requires
        0 <= i <= j <= es.len(),
    ensures
        arguments_before(es, i) <= arguments_before(es, j),
    decreases j - i,
{
    if i < j {
        lemma_arguments_before_mono(es, i, j - 1);
    }
}

proof fn lemma_argument_unique(es: Seq<Entry>, i: int, j: int)
    requires
        0 <= i < j < es.len(),
        is_argument(es[i]),
    ensures
        arguments_before(es, i) < arguments_before(es, j),
{
    lemma_arguments_before_mono(es, i + 1, j);
}

/// The first positional argument of the entries, if any.
pub fn first_argument(es: &Vec<Entry>) -> (r: Option<&Entry>)
    ensures
        match argument_index(es@, 0) {
            Some(i) => r == Some(&es@[i]),
            None => r is None,
        },
{
    let mut i: usize = 0;
    while i < es.len()
        invariant
            i <= es.len(),
            arguments_before(es@, i as int) == 0,
        decreases es.len() - i,
    {
        if es[i].name.is_none() {
            proof {
                assert forall|j: int| 0 <= j < es@.len() && is_argument(es@[j]) && arguments_before(es@, j) == 0 implies j == i by {
                    if j > i {
                        lemma_argument_unique(es@, i as int, j);
                    } else if j < i {
                        lemma_argument_unique(es@, j, i as int);
                    }
                }
            }
            return Some(&es[i]);
        }
        i = i + 1;
    }
    proof {
        assert forall|j: int| 0 <= j < es@.len() && is_argument(es@[j]) implies arguments_before(es@, j) != 0 by {
            lemma_arguments_before_mono(es@, j + 1, es@.len() as int);
        }
    }
    None
}

/// The last entry that is the property `key`, if any.
pub fn property<'a>(es: &'a Vec<Entry>, key: &str) -> (r: Option<&'a Entry>)
    ensures
        match property_index(es@, key@) {
            Some(i) => r == Some(&es@[i]),
            None => r is None,
        },
{
    let mut i: usize = es.len();
    assert(es@.subrange(0, i as int) =~= es@);
    while i > 0
        invariant
            i <= es.len(),
            property_index(es@, key@) == property_index(es@.subrange(0, i as int), key@),
        decreases i,
    {
        let e = &es[i - 1];
        let hit = match &e.name {
            Some(n) => crate::text::text_eq(n.as_str(), key),
            None => false,
        };
        proof {
            let sub = es@.subrange(0, i as int);
            assert(sub.last() == es@[i - 1]);
            assert(sub.drop_last() =~= es@.subrange(0, i - 1));
        }
        if hit {
            return Some(e);
        }
        i = i - 1;
    }
    None
}

/// The first node named `name`, if any.
pub fn find_named<'a>(ns: &'a Vec<Node>, name: &str) -> (r: Option<&'a Node>)
    ensures
        match first_named(ns@, name@) {
            Some(i) => r == Some(&ns@[i]),
            None => r is None,
        },
{
    let mut i: usize = 0;
    assert(ns@.subrange(0, ns@.len() as int) =~= ns@);
    while i < ns.len()
        invariant
            i <= ns.len(),
            first_named(ns@, name@) == (match first_named(ns@.subrange(i as int, ns@.len() as int), name@) {
                Some(j) => Some(j + i),
                None => None::<int>,
            }),
        decreases ns.len() - i,
    {
        proof {
            let sub = ns@.subrange(i as int, ns@.len() as int);
            assert(sub[0] == ns@[i as int]);
            assert(sub.drop_first() =~= ns@.subrange(i + 1, ns@.len() as int));
        }
        if crate::text::text_eq(ns[i].name.as_str(), name) {
            return Some(&ns[i]);
        }
        i = i + 1;
    }
    proof {
        assert(ns@.subrange(i as int, ns@.len() as int).len() == 0);
    }
    None
}

} // verus!
