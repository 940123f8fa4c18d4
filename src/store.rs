//! The loaded definitions: for each record kind its versions, ordered by
//! `since`, and the choice of the version in effect at an instant.
use crate::definition::{
    insertion_point, lemma_insertion_point, sorted_by_since, versions_view, Definition,
    DefinitionView,
};
use crate::keyed::{
    count_below, keys, lemma_name_index, lemma_same_ordered, lookup, name_index, names_of, names_ordered, put,
    put_ordered,
};
use crate::text::lemma_text_lt_total;
use crate::timestamp::Timestamp;
use vstd::prelude::*;

verus! {

/// The versions of each record kind, keyed by kind name.
#[derive(Debug)]
pub struct DefinitionStore {
    pub kinds: Vec<(String, Vec<Definition>)>,
}

/// The view of the kinds of a store.
pub open spec fn kinds_view(v: Seq<(String, Vec<Definition>)>) -> Seq<(Seq<char>, Seq<DefinitionView>)> {
    v.map_values(|p: (String, Vec<Definition>)| (p.0@, versions_view(p.1@)))
}

impl View for DefinitionStore {
    type V = Seq<(Seq<char>, Seq<DefinitionView>)>;

    open spec fn view(&self) -> Seq<(Seq<char>, Seq<DefinitionView>)> {
        kinds_view(self.kinds@)
    }
}

/// The kinds are ordered by name, each name once.
pub open spec fn kinds_ordered(s: Seq<(Seq<char>, Seq<DefinitionView>)>) -> bool {
    names_ordered(keys(s))
}

/// The index of the version in effect at `t`: the last whose `since` is not
/// later than `t`, or the first when every version is later.
pub open spec fn active_index(vs: Seq<DefinitionView>, t: Timestamp) -> int {
    let p = insertion_point(vs, t);
    if p > 0 {
        p - 1
    } else {
        0
    }
}

impl DefinitionStore {
    /// Every kind's versions are ordered by `since`.
    pub open spec fn wf(&self) -> bool {
        &&& forall|i: int| 0 <= i < self@.len() ==> sorted_by_since(#[trigger] self@[i].1)
        &&& kinds_ordered(self@)
    }

    /// An empty store.
    pub fn new() -> (r: DefinitionStore)
        ensures
            r@ == Seq::<(Seq<char>, Seq<DefinitionView>)>::empty(),
            r.wf(),
    {
        let r = DefinitionStore { kinds: Vec::new() };
        assert(r@ =~= Seq::empty());
        r
    }

    /// Sets the versions of kind `name`, replacing any it had.
    pub fn insert(&mut self, name: String, versions: Vec<Definition>)
        requires
            old(self).wf(),
            sorted_by_since(versions_view(versions@)),
        ensures
            final(self)@ == put(old(self)@, name@, versions_view(versions@)),
            final(self).wf(),
    {
        let ghost before = self.kinds@;
        let ghost sv = old(self)@;
        let ghost vv = versions_view(versions@);
        let ghost ks = keys(sv);
        assert(ks =~= names_of(before));
        proof {
            lemma_name_index(ks, name@);
        }
        proof {
            if name_index(ks, name@) is None {
                crate::keyed::lemma_put_position(ks, name@);
            }
        }
        put_ordered(&mut self.kinds, name, versions);
        assert(self@ =~= put(sv, name@, vv));
        assert(keys(self@) =~= names_of(self.kinds@));
        assert forall|i: int| 0 <= i < self@.len() implies sorted_by_since(#[trigger] self@[i].1) by {
            match name_index(ks, name@) {
                Some(x) => {
                    if i != x {
                        assert(self@[i] == sv[i]);
                    }
                },
                None => {
                    let p = count_below(ks, name@);
                    if i < p {
                        assert(self@[i] == sv[i]);
                    } else if i > p {
                        assert(self@[i] == sv[i - 1]);
                    }
                },
            }
        }
    }

    /// The versions of kind `name`, if it is known.
    pub fn versions(&self, name: &str) -> (r: Option<&Vec<Definition>>)
        ensures
            match lookup(self@, name@) {
                Some(vs) => r matches Some(v) && versions_view(v@) == vs,
                None => r is None,
            },
    {
        assert(keys(self@) =~= names_of(self.kinds@));
        proof {
            crate::keyed::lemma_name_index(names_of(self.kinds@), name@);
        }
        match crate::keyed::find_key(&self.kinds, name) {
            Some(i) => Some(&self.kinds[i].1),
            None => None,
        }
    }
}

/// Finds the version in effect at `t` by a binary search for the first
/// version whose `since` is later than `t`, stepped back by one. The result
/// is the version with the greatest `since` not later than `t`, or the
/// earliest version when all of them are later.
pub fn active_version(versions: &Vec<Definition>, t: &Timestamp) -> (r: usize)
    requires
        versions.len() > 0,
        sorted_by_since(versions_view(versions@)),
    ensures
        r < versions.len(),
        r == active_index(versions_view(versions@), *t),
        (exists|j: int| 0 <= j < versions.len() && versions@[j].since.total() <= t.total()) ==> {
            &&& versions@[r as int].since.total() <= t.total()
            &&& forall|j: int| r < j < versions.len() ==> versions@[j].since.total() > t.total()
        },
        (forall|j: int| 0 <= j < versions.len() ==> versions@[j].since.total() > t.total()) ==> r
            == 0,
{
    let ghost vs = versions_view(versions@);
    let mut lo: usize = 0;
    let mut hi: usize = versions.len();
    while lo < hi
        invariant
            0 <= lo <= hi <= versions.len(),
            vs == versions_view(versions@),
            sorted_by_since(vs),
            forall|j: int| 0 <= j < lo ==> vs[j].since.total() <= t.total(),
            forall|j: int| hi <= j < versions.len() ==> vs[j].since.total() > t.total(),
        decreases hi - lo,
    {
        let mid = lo + (hi - lo) / 2;
        assert(vs[mid as int].since == versions@[mid as int].since);
        if versions[mid].since.is_after(t) {
            hi = mid;
        } else {
            lo = mid + 1;
        }
    }
    proof {
        lemma_insertion_point(vs, *t);
        let p = insertion_point(vs, *t);
        if p < lo {
            assert(vs[p].since.total() <= t.total());
        } else if p > lo {
            assert(vs[lo as int].since.total() > t.total());
        }
        assert(p == lo);
        assert forall|j: int| 0 <= j < versions.len() implies #[trigger] versions@[j].since == vs[j].since by {}
        if lo > 0 {
            assert(vs[lo - 1].since.total() <= t.total());
        }
    }
    if lo > 0 {
        lo - 1
    } else {
        0
    }
}

/// Names in an ordered list of kinds are unique.
pub proof fn lemma_ordered_unique(s: Seq<(Seq<char>, Seq<DefinitionView>)>)
    requires
        kinds_ordered(s),
    ensures
        forall|i: int, j: int| 0 <= i < j < s.len() ==> (#[trigger] s[i]).0 != (#[trigger] s[j]).0,
{
    assert forall|i: int, j: int| 0 <= i < j < s.len() implies (#[trigger] s[i]).0 != (#[trigger] s[j]).0 by {
        assert(keys(s)[i] == s[i].0 && keys(s)[j] == s[j].0);
        lemma_text_lt_total(s[i].0, s[i].0);
    }
}

/// Two ordered lists of kinds that hold the same versions under every name
/// are the same list: the order of loading leaves no trace.
pub proof fn lemma_same_kinds_same_store(a: Seq<(Seq<char>, Seq<DefinitionView>)>, b: Seq<(Seq<char>, Seq<DefinitionView>)>)
    requires
        kinds_ordered(a),
        kinds_ordered(b),
        forall|k: Seq<char>| lookup(a, k) == lookup(b, k),
    ensures
        a == b,
{
    lemma_same_ordered(a, b);
}

} // verus!
