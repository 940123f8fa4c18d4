//! Lists of named entries that behave as maps: a name appears at most once,
//! and setting a name again replaces its value in place.
use crate::text::{lemma_text_lt_total, lemma_text_lt_transitive, text_eq, text_less, text_lt};
use vstd::prelude::*;

verus! {

/// The index of the first occurrence of `k` in `ns`.
pub open spec fn name_index(ns: Seq<Seq<char>>, k: Seq<char>) -> Option<int>
    decreases ns.len(),
{
    if ns.len() == 0 {
        None
    } else if ns[0] == k {
        Some(0)
    } else {
        match name_index(ns.drop_first(), k) {
            Some(i) => Some(i + 1),
            None => None,
        }
    }
}

/// The names of a keyed list.
pub open spec fn keys<V>(s: Seq<(Seq<char>, V)>) -> Seq<Seq<char>> {
    s.map_values(|p: (Seq<char>, V)| p.0)
}

/// The names of an executable keyed list.
pub open spec fn names_of<W>(v: Seq<(String, W)>) -> Seq<Seq<char>> {
    v.map_values(|p: (String, W)| p.0@)
}

/// The value held under `k`, if any.
pub open spec fn lookup<V>(s: Seq<(Seq<char>, V)>, k: Seq<char>) -> Option<V> {
    match name_index(keys(s), k) {
        Some(i) => Some(s[i].1),
        None => None,
    }
}

/// Sets `k` to `v`: an existing entry keeps its place and takes the value.
pub open spec fn upsert<V>(s: Seq<(Seq<char>, V)>, k: Seq<char>, v: V) -> Seq<(Seq<char>, V)> {
    match name_index(keys(s), k) {
        Some(i) => s.update(i, (k, v)),
        None => s.push((k, v)),
    }
}

/// Where `name_index` points.
pub proof fn lemma_name_index(ns: Seq<Seq<char>>, k: Seq<char>)
    ensures
        name_index(ns, k) matches Some(i) ==> 0 <= i < ns.len() && ns[i] == k && forall|j: int|
            0 <= j < i ==> ns[j] != k,
        name_index(ns, k) is None ==> forall|j: int| 0 <= j < ns.len() ==> ns[j] != k,
    decreases ns.len(),
{
    if ns.len() > 0 {
        lemma_name_index(ns.drop_first(), k);
        if ns[0] != k {
            assert forall|j: int| 0 < j < ns.len() implies ns[j] == ns.drop_first()[j - 1] by {}
        }
    }
}

pub proof fn lemma_name_index_first(ns: Seq<Seq<char>>, k: Seq<char>, i: int)
    requires
        0 <= i < ns.len(),
        ns[i] == k,
        forall|j: int| 0 <= j < i ==> ns[j] != k,
    ensures
        name_index(ns, k) == Some(i),
    decreases ns.len(),
{
    if i > 0 {
        lemma_name_index_first(ns.drop_first(), k, i - 1);
    }
}

/// Finds the entry named `k`.
pub fn find_key<W>(v: &Vec<(String, W)>, k: &str) -> (r: Option<usize>)
    ensures
        r matches Some(i) ==> name_index(names_of(v@), k@) == Some(i as int) && i < v@.len(),
        r is None ==> name_index(names_of(v@), k@) is None,
{
    let ghost ns = names_of(v@);
    let mut i: usize = 0;
    while i < v.len()
        invariant
            i <= v.len(),
            ns == names_of(v@),
            forall|j: int| 0 <= j < i ==> ns[j] != k@,
        decreases v.len() - i,
    {
        if text_eq(v[i].0.as_str(), k) {
            proof {
                assert(ns[i as int] == k@);
                lemma_name_index_first(ns, k@, i as int);
            }
            return Some(i);
        }
        i = i + 1;
    }
    proof {
        lemma_name_index(ns, k@);
    }
    None
}

/// Sets entry `k` to `w`, as `upsert` says.
pub fn set_key<W>(v: &mut Vec<(String, W)>, k: String, w: W)
    ensures
        final(v)@ == (match name_index(names_of(old(v)@), k@) {
            Some(i) => old(v)@.update(i, (k, w)),
            None => old(v)@.push((k, w)),
        }),
{
    match find_key(v, k.as_str()) {
        Some(i) => {
            v.set(i, (k, w));
        },
        None => {
            v.push((k, w));
        },
    }
}

/// The names are in increasing order, so each appears once.
pub open spec fn names_ordered(ns: Seq<Seq<char>>) -> bool {
    forall|i: int, j: int| 0 <= i < j < ns.len() ==> text_lt(#[trigger] ns[i], #[trigger] ns[j])
}

/// The number of names that come before `k`.
pub open spec fn count_below(ns: Seq<Seq<char>>, k: Seq<char>) -> int
    decreases ns.len(),
{
    if ns.len() == 0 {
        0
    } else {
        count_below(ns.drop_last(), k) + if text_lt(ns.last(), k) {
            1int
        } else {
            0int
        }
    }
}

/// Sets `k` to `v` in a list ordered by name: an existing entry keeps its
/// place, a new one goes where its name belongs.
pub open spec fn put<V>(s: Seq<(Seq<char>, V)>, k: Seq<char>, v: V) -> Seq<(Seq<char>, V)> {
    match name_index(keys(s), k) {
        Some(i) => s.update(i, (k, v)),
        None => s.insert(count_below(keys(s), k), (k, v)),
    }
}

/// The entries of `s` set one after the other into a list ordered by name:
/// a name set again keeps its last value.
pub open spec fn ordered_of<V>(s: Seq<(Seq<char>, V)>) -> Seq<(Seq<char>, V)>
    decreases s.len(),
{
    if s.len() == 0 {
        Seq::empty()
    } else {
        put(ordered_of(s.drop_last()), s.last().0, s.last().1)
    }
}

/// The value last given to `k` in `s`, if any.
pub open spec fn last_value<V>(s: Seq<(Seq<char>, V)>, k: Seq<char>) -> Option<V>
    decreases s.len(),
{
    if s.len() == 0 {
        None
    } else if s.last().0 == k {
        Some(s.last().1)
    } else {
        last_value(s.drop_last(), k)
    }
}

proof fn lemma_count_below(ns: Seq<Seq<char>>, k: Seq<char>, p: int)
    requires
        0 <= p <= ns.len(),
        forall|j: int| 0 <= j < p ==> text_lt(#[trigger] ns[j], k),
        forall|j: int| p <= j < ns.len() ==> !text_lt(#[trigger] ns[j], k),
    ensures
        count_below(ns, k) == p,
    decreases ns.len(),
{
    if ns.len() > 0 {
        let q = ns.drop_last();
        if p == ns.len() {
            assert forall|j: int| 0 <= j < p - 1 implies text_lt(#[trigger] q[j], k) by {
                assert(q[j] == ns[j]);
            }
            lemma_count_below(q, k, p - 1);
        } else {
            assert forall|j: int| 0 <= j < p implies text_lt(#[trigger] q[j], k) by {
                assert(q[j] == ns[j]);
            }
            assert forall|j: int| p <= j < q.len() implies !text_lt(#[trigger] q[j], k) by {
                assert(q[j] == ns[j]);
            }
            lemma_count_below(q, k, p);
        }
    }
}

/// Where a new name goes in an ordered list: after the names below it, before
/// the others, all of which are above it.
pub proof fn lemma_put_position(ns: Seq<Seq<char>>, k: Seq<char>)
    requires
        names_ordered(ns),
        name_index(ns, k) is None,
    ensures
        0 <= count_below(ns, k) <= ns.len(),
        forall|j: int| 0 <= j < count_below(ns, k) ==> text_lt(#[trigger] ns[j], k),
        forall|j: int| count_below(ns, k) <= j < ns.len() ==> text_lt(k, #[trigger] ns[j]),
    decreases ns.len(),
{
    lemma_name_index(ns, k);
    if ns.len() > 0 {
        let q = ns.drop_last();
        let last = ns.last();
        assert(names_ordered(q)) by {
            assert forall|i: int, j: int| 0 <= i < j < q.len() implies text_lt(#[trigger] q[i], #[trigger] q[j]) by {
                assert(q[i] == ns[i] && q[j] == ns[j]);
            }
        }
        lemma_name_index(q, k);
        if name_index(q, k) is Some {
            let i = name_index(q, k)->Some_0;
            assert(ns[i] == q[i]);
        }
        lemma_put_position(q, k);
        let p0 = count_below(q, k);
        assert(last == ns[ns.len() - 1]);
        assert(last != k);
        lemma_text_lt_total(last, k);
        if text_lt(last, k) {
            if p0 < q.len() {
                assert(q[p0] == ns[p0]);
                lemma_text_lt_transitive(q[p0], last, k);
                lemma_text_lt_total(k, q[p0]);
            }
            assert forall|j: int| 0 <= j < count_below(ns, k) implies text_lt(#[trigger] ns[j], k) by {
                if j < q.len() {
                    assert(ns[j] == q[j]);
                }
            }
        } else {
            assert forall|j: int| count_below(ns, k) <= j < ns.len() implies text_lt(k, #[trigger] ns[j]) by {
                if j < q.len() {
                    assert(ns[j] == q[j]);
                }
            }
            assert forall|j: int| 0 <= j < count_below(ns, k) implies text_lt(#[trigger] ns[j], k) by {
                assert(ns[j] == q[j]);
            }
        }
    }
}

/// Sets entry `k` to `w` in a list ordered by name, as `put` says.
pub fn put_ordered<W>(v: &mut Vec<(String, W)>, k: String, w: W)
    requires
        names_ordered(names_of(old(v)@)),
    ensures
        final(v)@ == (match name_index(names_of(old(v)@), k@) {
            Some(i) => old(v)@.update(i, (k, w)),
            None => old(v)@.insert(count_below(names_of(old(v)@), k@), (k, w)),
        }),
        names_ordered(names_of(final(v)@)),
{
    let ghost ns = names_of(v@);
    let ghost before = v@;
    let mut p: usize = 0;
    while p < v.len() && text_less(v[p].0.as_str(), k.as_str())
        invariant
            p <= v.len(),
            v@ == before,
            ns == names_of(before),
            forall|j: int| 0 <= j < p ==> text_lt(#[trigger] ns[j], k@),
        decreases v.len() - p,
    {
        p = p + 1;
    }
    let found = p < v.len() && text_eq(v[p].0.as_str(), k.as_str());
    proof {
        lemma_text_lt_total(k@, k@);
        assert forall|j: int| 0 <= j < p implies ns[j] != k@ by {}
        if found {
            lemma_name_index_first(ns, k@, p as int);
        } else {
            if p < ns.len() {
                lemma_text_lt_total(ns[p as int], k@);
            }
            assert forall|j: int| p <= j < ns.len() implies text_lt(k@, #[trigger] ns[j]) by {
                if j > p {
                    lemma_text_lt_transitive(k@, ns[p as int], ns[j]);
                }
            }
            assert forall|j: int| p <= j < ns.len() implies !text_lt(#[trigger] ns[j], k@) by {
                lemma_text_lt_total(k@, ns[j]);
            }
            assert forall|j: int| 0 <= j < ns.len() implies ns[j] != k@ by {
                if j >= p {
                    lemma_text_lt_total(k@, ns[j]);
                }
            }
            lemma_name_index(ns, k@);
            lemma_count_below(ns, k@, p as int);
        }
    }
    if found {
        v.set(p, (k, w));
    } else {
        v.insert(p, (k, w));
    }
    let ghost after = names_of(v@);
    assert forall|i: int, j: int| 0 <= i < j < after.len() implies text_lt(#[trigger] after[i], #[trigger] after[j]) by {
        if found {
            assert(after[i] == ns[i] && after[j] == ns[j]);
        } else if j < p {
            assert(after[i] == ns[i] && after[j] == ns[j]);
        } else if i < p && j == p {
            assert(after[i] == ns[i]);
        } else if i < p {
            assert(after[i] == ns[i] && after[j] == ns[j - 1]);
            lemma_text_lt_transitive(ns[i], k@, ns[j - 1]);
        } else if i == p {
            assert(after[j] == ns[j - 1]);
        } else {
            assert(after[i] == ns[i - 1] && after[j] == ns[j - 1]);
        }
    }
}

/// Setting a name keeps a list ordered, and every name of the result is the
/// name set or one that was there.
pub proof fn lemma_put<V>(s: Seq<(Seq<char>, V)>, k: Seq<char>, v: V)
    requires
        names_ordered(keys(s)),
    ensures
        names_ordered(keys(put(s, k, v))),
        forall|i: int| 0 <= i < put(s, k, v).len() ==> (#[trigger] put(s, k, v)[i]).0 == k || exists|j: int|
            0 <= j < s.len() && s[j].0 == put(s, k, v)[i].0,
        forall|k2: Seq<char>| #[trigger] lookup(put(s, k, v), k2) == if k2 == k {
            Some(v)
        } else {
            lookup(s, k2)
        },
{
    let ks = keys(s);
    let r = put(s, k, v);
    let rk = keys(r);
    lemma_name_index(ks, k);
    lemma_text_lt_total(k, k);
    match name_index(ks, k) {
        Some(x) => {
            assert forall|i: int| 0 <= i < rk.len() implies rk[i] == ks[i] by {}
            assert(rk =~= ks);
            assert forall|i: int| 0 <= i < r.len() implies (#[trigger] r[i]).0 == k || exists|j: int|
                0 <= j < s.len() && s[j].0 == r[i].0 by {
                if i != x {
                    assert(s[i].0 == r[i].0);
                }
            }
            assert forall|k2: Seq<char>| #[trigger] lookup(r, k2) == if k2 == k {
                Some(v)
            } else {
                lookup(s, k2)
            } by {
                lemma_name_index(ks, k2);
            }
        },
        None => {
            lemma_put_position(ks, k);
            let p = count_below(ks, k);
            assert(rk =~= ks.insert(p, k));
            assert forall|i: int, j: int| 0 <= i < j < rk.len() implies text_lt(#[trigger] rk[i], #[trigger] rk[j]) by {
                if j < p {
                } else if i < p && j == p {
                } else if i < p {
                    lemma_text_lt_transitive(ks[i], k, ks[j - 1]);
                } else if i == p {
                } else {
                }
            }
            assert forall|i: int| 0 <= i < r.len() implies (#[trigger] r[i]).0 == k || exists|j: int|
                0 <= j < s.len() && s[j].0 == r[i].0 by {
                if i < p {
                    assert(s[i].0 == r[i].0);
                } else if i > p {
                    assert(s[i - 1].0 == r[i].0);
                }
            }
            assert forall|k2: Seq<char>| #[trigger] lookup(r, k2) == if k2 == k {
                Some(v)
            } else {
                lookup(s, k2)
            } by {
                lemma_name_index(ks, k2);
                lemma_name_index(rk, k2);
                if k2 == k {
                    lemma_name_index_first(rk, k, p);
                } else {
                    match name_index(ks, k2) {
                        Some(y) => {
                            if y < p {
                                lemma_name_index_first(rk, k2, y);
                            } else {
                                assert forall|j: int| 0 <= j < y + 1 implies rk[j] != k2 by {
                                    if j < p {
                                        assert(rk[j] == ks[j]);
                                    } else if j > p {
                                        assert(rk[j] == ks[j - 1]);
                                    }
                                }
                                lemma_name_index_first(rk, k2, y + 1);
                            }
                        },
                        None => {
                            assert forall|j: int| 0 <= j < rk.len() implies rk[j] != k2 by {
                                if j < p {
                                    assert(rk[j] == ks[j]);
                                } else if j > p {
                                    assert(rk[j] == ks[j - 1]);
                                }
                            }
                            if name_index(rk, k2) is Some {
                                let z = name_index(rk, k2)->Some_0;
                                assert(rk[z] == k2);
                            }
                        },
                    }
                }
            }
        },
    }
}

/// `ordered_of` gives an ordered list whose names are names of the input and
/// whose value under each name is the last one given to it.
pub proof fn lemma_ordered_of<V>(s: Seq<(Seq<char>, V)>)
    ensures
        names_ordered(keys(ordered_of(s))),
        forall|i: int| 0 <= i < ordered_of(s).len() ==> exists|j: int|
            0 <= j < s.len() && s[j].0 == (#[trigger] ordered_of(s)[i]).0,
        forall|k: Seq<char>| #[trigger] lookup(ordered_of(s), k) == last_value(s, k),
    decreases s.len(),
{
    if s.len() == 0 {
        assert forall|k: Seq<char>| #[trigger] lookup(ordered_of(s), k) == last_value(s, k) by {
            assert(keys(ordered_of(s)).len() == 0);
        }
    } else {
        let q = s.drop_last();
        lemma_ordered_of(q);
        lemma_put(ordered_of(q), s.last().0, s.last().1);
        let r = ordered_of(s);
        assert forall|i: int| 0 <= i < r.len() implies exists|j: int| 0 <= j < s.len() && s[j].0 == (
        #[trigger] r[i]).0 by {
            if r[i].0 == s.last().0 {
                assert(s[s.len() - 1].0 == r[i].0);
            } else {
                let j = choose|j: int| 0 <= j < ordered_of(q).len() && ordered_of(q)[j].0 == r[i].0;
                let m = choose|m: int| 0 <= m < q.len() && q[m].0 == (#[trigger] ordered_of(q)[j]).0;
                assert(s[m] == q[m]);
            }
        }
        assert forall|k: Seq<char>| #[trigger] lookup(ordered_of(s), k) == last_value(s, k) by {
            assert(lookup(ordered_of(q), k) == last_value(q, k));
        }
    }
}

proof fn lemma_lookup_first<V>(s: Seq<(Seq<char>, V)>)
    requires
        s.len() > 0,
    ensures
        lookup(s, s[0].0) == Some(s[0].1),
{
    lemma_name_index_first(keys(s), s[0].0, 0);
}

proof fn lemma_lookup_rest<V>(s: Seq<(Seq<char>, V)>, k: Seq<char>)
    requires
        s.len() > 0,
        s[0].0 != k,
    ensures
        lookup(s, k) == lookup(s.drop_first(), k),
{
    assert(keys(s).drop_first() =~= keys(s.drop_first()));
    lemma_name_index(keys(s.drop_first()), k);
    if let Some(i) = name_index(keys(s.drop_first()), k) {
        assert(s[i + 1] == s.drop_first()[i]);
    }
}

proof fn lemma_lookup_some<V>(s: Seq<(Seq<char>, V)>, k: Seq<char>)
    requires
        lookup(s, k) is Some,
    ensures
        exists|j: int| 0 <= j < s.len() && (#[trigger] s[j]).0 == k,
{
    lemma_name_index(keys(s), k);
    let i = name_index(keys(s), k)->Some_0;
    assert(keys(s)[i] == s[i].0);
}

/// Two lists ordered by name that hold the same value under every name are
/// the same list.
pub proof fn lemma_same_ordered<V>(a: Seq<(Seq<char>, V)>, b: Seq<(Seq<char>, V)>)
    requires
        names_ordered(keys(a)),
        names_ordered(keys(b)),
        forall|k: Seq<char>| lookup(a, k) == lookup(b, k),
    ensures
        a == b,
    decreases a.len() + b.len(),
{
    if a.len() == 0 && b.len() > 0 {
        lemma_lookup_first(b);
        assert(lookup(a, b[0].0) == lookup(b, b[0].0));
    } else if b.len() == 0 && a.len() > 0 {
        lemma_lookup_first(a);
        assert(lookup(a, a[0].0) == lookup(b, a[0].0));
    } else if a.len() == 0 && b.len() == 0 {
        assert(a =~= b);
    } else {
        let k0 = a[0].0;
        let m0 = b[0].0;
        lemma_lookup_first(a);
        lemma_lookup_first(b);
        assert(lookup(a, k0) == lookup(b, k0));
        assert(lookup(a, m0) == lookup(b, m0));
        lemma_lookup_some(b, k0);
        lemma_lookup_some(a, m0);
        let j = choose|j: int| 0 <= j < b.len() && (#[trigger] b[j]).0 == k0;
        let i = choose|i: int| 0 <= i < a.len() && (#[trigger] a[i]).0 == m0;
        lemma_text_lt_total(k0, m0);
        if k0 != m0 {
            assert(keys(b)[0] == m0 && keys(b)[j] == k0);
            assert(keys(a)[0] == k0 && keys(a)[i] == m0);
            assert(j > 0 && i > 0);
            assert(text_lt(m0, k0));
            assert(text_lt(k0, m0));
        }
        assert(a[0] == b[0]);
        let a1 = a.drop_first();
        let b1 = b.drop_first();
        assert(names_ordered(keys(a1))) by {
            assert forall|x: int, y: int| 0 <= x < y < a1.len() implies text_lt(#[trigger] keys(a1)[x], #[trigger] keys(a1)[y]) by {
                assert(keys(a1)[x] == keys(a)[x + 1] && keys(a1)[y] == keys(a)[y + 1]);
            }
        }
        assert(names_ordered(keys(b1))) by {
            assert forall|x: int, y: int| 0 <= x < y < b1.len() implies text_lt(#[trigger] keys(b1)[x], #[trigger] keys(b1)[y]) by {
                assert(keys(b1)[x] == keys(b)[x + 1] && keys(b1)[y] == keys(b)[y + 1]);
            }
        }
        assert forall|k: Seq<char>| lookup(a1, k) == lookup(b1, k) by {
            if k != k0 {
                lemma_lookup_rest(a, k);
                lemma_lookup_rest(b, k);
            } else {
                lemma_name_index(keys(a1), k);
                lemma_name_index(keys(b1), k);
                lemma_text_lt_total(k0, k0);
                if let Some(x) = name_index(keys(a1), k) {
                    assert(keys(a1)[x] == keys(a)[x + 1]);
                    assert(text_lt(keys(a)[0], keys(a)[x + 1]));
                }
                if let Some(x) = name_index(keys(b1), k) {
                    assert(keys(b1)[x] == keys(b)[x + 1]);
                    assert(text_lt(keys(b)[0], keys(b)[x + 1]));
                }
            }
        }
        lemma_same_ordered(a1, b1);
        assert(a =~= b) by {
            assert forall|x: int| 0 <= x < a.len() implies a[x] == b[x] by {
                if x > 0 {
                    assert(a[x] == a1[x - 1] && b[x] == b1[x - 1]);
                }
            }
        }
    }
}

/// After setting `k` to `v`, `k` holds `v` and every other name keeps its
/// value.
pub proof fn lemma_upsert_lookup<V>(s: Seq<(Seq<char>, V)>, k: Seq<char>, v: V, k2: Seq<char>)
    ensures
        lookup(upsert(s, k, v), k2) == if k2 == k {
            Some(v)
        } else {
            lookup(s, k2)
        },
{
    let ks = keys(s);
    let r = upsert(s, k, v);
    let rk = keys(r);
    lemma_name_index(ks, k);
    lemma_name_index(ks, k2);
    match name_index(ks, k) {
        Some(x) => {
            assert(rk =~= ks);
        },
        None => {
            assert(rk =~= ks.push(k));
            lemma_name_index(rk, k2);
            if k2 == k {
                lemma_name_index_first(rk, k, ks.len() as int);
            } else if let Some(y) = name_index(ks, k2) {
                lemma_name_index_first(rk, k2, y);
            } else if let Some(z) = name_index(rk, k2) {
                assert(rk[z] == k2);
                if z < ks.len() {
                    assert(ks[z] == k2);
                }
            }
        },
    }
}

} // verus!
