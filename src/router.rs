//! Composition of backends behind one schema: every schema-visible name of
//! a backend carries the backend's name and a separator; a request is routed
//! by that prefix, which must be registered, to its backend under the local
//! name, and the answers are paired with the caller's contexts in order.
use crate::adapter::{coerces, is_known_type, neighbor_request_ok, property_request_ok, property_value, are_paths, listed_paths, Adapter};
use crate::schema::{prefixed, prefixed_name, ADAPTER_SEP};
use crate::synth::RECORDS_ENTRY;
use crate::text::{owned, strip_prefix};
use crate::value::{FieldValue, ValueView};
use crate::vertex::Vertex;
use vstd::prelude::*;

verus! {

/// The name under which the record store's backend is registered.
pub const PLAIXT: &'static str = "Plaixt";

/// A vertex of any composed backend, tagged with its backend.
#[derive(Clone, Debug)]
pub enum TrustfallMultiVertex {
    Plaixt(Vertex),
}

impl TrustfallMultiVertex {
    /// The record store's vertex, if this is one.
    pub fn as_plaixt(&self) -> (r: Option<&Vertex>)
        ensures
            match *self {
                TrustfallMultiVertex::Plaixt(v) => r == Some(&v),
            },
    {
        match self {
            TrustfallMultiVertex::Plaixt(v) => Some(v),
        }
    }

    /// The record store's vertex, if this is one.
    pub fn into_vertex(self) -> (r: Option<Vertex>)
        ensures
            match self {
                TrustfallMultiVertex::Plaixt(v) => r == Some(v),
            },
    {
        match self {
            TrustfallMultiVertex::Plaixt(v) => Some(v),
        }
    }
}

/// The backend-local vertex of an optional composed vertex.
pub open spec fn inner(o: Option<TrustfallMultiVertex>) -> Option<Vertex> {
    match o {
        Some(TrustfallMultiVertex::Plaixt(v)) => Some(v),
        None => None,
    }
}

/// The value of a property as the composed schema shows it: a runtime type
/// name carries the backend's prefix.
pub open spec fn outer_value(v: Vertex, local: Seq<char>, p: Seq<char>, exists_now: bool) -> ValueView {
    let value = property_value(v, local, p, exists_now);
    if p == "__typename"@ {
        match value {
            ValueView::Text(t) => ValueView::Text(prefixed(PLAIXT@, t)),
            _ => value,
        }
    } else {
        value
    }
}

/// The vertices are the paths given, in order, each as a generic path of
/// the record store's backend.
pub open spec fn are_outer_paths(r: Seq<TrustfallMultiVertex>, ps: Seq<Seq<char>>) -> bool {
    &&& r.len() == ps.len()
    &&& forall|j: int| 0 <= j < r.len() ==> ((#[trigger] r[j]) matches TrustfallMultiVertex::Plaixt(
        Vertex::Path(q),
    ) && q@ == ps[j])
}

/// The first registered backend whose prefix `name` carries, and the local
/// name after it.
pub open spec fn route_of(backends: Seq<Seq<char>>, name: Seq<char>) -> Option<(int, Seq<char>)>
    decreases backends.len(),
{
    if backends.len() == 0 {
        None
    } else {
        match route_of(backends.drop_last(), name) {
            Some(r) => Some(r),
            None => {
                let p = prefixed(backends.last(), Seq::empty());
                if p.len() <= name.len() && name.subrange(0, p.len() as int) == p {
                    Some(((backends.len() - 1) as int, name.subrange(p.len() as int, name.len() as int)))
                } else {
                    None
                }
            },
        }
    }
}

/// The backends composed behind one schema.
#[derive(Debug)]
pub struct TrustfallMultiAdapter {
    pub plaixt: Adapter,
    pub backends: Vec<String>,
}

/// The items of `v` in the opposite order.
pub fn into_reversed<T>(v: Vec<T>) -> (r: Vec<T>)
    ensures
        r@.len() == v@.len(),
        forall|j: int| 0 <= j < r@.len() ==> #[trigger] r@[j] == v@[v@.len() - 1 - j],
{
    let n = v.len();
    let mut rest = v;
    let mut out: Vec<T> = Vec::new();
    while rest.len() > 0
        invariant
            rest@.len() + out@.len() == n,
            n == v@.len(),
            rest@ == v@.subrange(0, rest@.len() as int),
            forall|j: int| 0 <= j < out@.len() ==> #[trigger] out@[j] == v@[n - 1 - j],
        decreases rest@.len(),
    {
        let ghost k = rest@.len();
        let x = rest.pop().unwrap();
        assert(x == v@[k - 1]);
        assert(rest@ =~= v@.subrange(0, rest@.len() as int));
        out.push(x);
    }
    out
}

/// Pairs each context with the answer at its position.
pub fn rezip<C, O>(contexts: Vec<C>, outputs: Vec<O>) -> (r: Vec<(C, O)>)
    requires
        contexts@.len() == outputs@.len(),
    ensures
        r@.len() == contexts@.len(),
        forall|i: int| 0 <= i < r@.len() ==> #[trigger] r@[i] == (contexts@[i], outputs@[i]),
{
    let n = contexts.len();
    let mut cs = contexts;
    let mut os = outputs;
    let mut reversed: Vec<(C, O)> = Vec::new();
    while cs.len() > 0
        invariant
            cs@.len() == os@.len(),
            cs@.len() + reversed@.len() == n,
            n == contexts@.len(),
            n == outputs@.len(),
            cs@ == contexts@.subrange(0, cs@.len() as int),
            os@ == outputs@.subrange(0, os@.len() as int),
            forall|j: int| 0 <= j < reversed@.len() ==> #[trigger] reversed@[j] == (
                contexts@[n - 1 - j],
                outputs@[n - 1 - j],
            ),
        decreases cs@.len(),
    {
        let ghost k = cs@.len();
        let c = cs.pop().unwrap();
        let o = os.pop().unwrap();
        assert(c == contexts@[k - 1]);
        assert(o == outputs@[k - 1]);
        assert(cs@ =~= contexts@.subrange(0, cs@.len() as int));
        assert(os@ =~= outputs@.subrange(0, os@.len() as int));
        reversed.push((c, o));
    }
    let out = into_reversed(reversed);
    assert forall|j: int| 0 <= j < out@.len() implies #[trigger] out@[j] == (contexts@[j], outputs@[j]) by {
        assert(out@[j] == reversed@[n - 1 - j]);
    }
    out
}

/// The backend-local vertices of composed vertices, in order.
pub fn unwrap_vertices(vertices: Vec<Option<TrustfallMultiVertex>>) -> (r: Vec<Option<Vertex>>)
    ensures
        r@.len() == vertices@.len(),
        forall|i: int| 0 <= i < r@.len() ==> #[trigger] r@[i] == inner(vertices@[i]),
{
    let n = vertices.len();
    let mut vs = vertices;
    let mut reversed: Vec<Option<Vertex>> = Vec::new();
    while vs.len() > 0
        invariant
            vs@.len() + reversed@.len() == n,
            n == vertices@.len(),
            vs@ == vertices@.subrange(0, vs@.len() as int),
            forall|j: int| 0 <= j < reversed@.len() ==> #[trigger] reversed@[j] == inner(vertices@[n - 1 - j]),
        decreases vs@.len(),
    {
        let ghost k = vs@.len();
        let v = vs.pop().unwrap();
        assert(v == vertices@[k - 1]);
        assert(vs@ =~= vertices@.subrange(0, vs@.len() as int));
        let u = match v {
            Some(m) => m.into_vertex(),
            None => None,
        };
        reversed.push(u);
    }
    let out = into_reversed(reversed);
    assert forall|j: int| 0 <= j < out@.len() implies #[trigger] out@[j] == inner(vertices@[j]) by {
        assert(out@[j] == reversed@[n - 1 - j]);
    }
    out
}

/// Tags each backend-local vertex with the record store's backend.
fn wrap_vertices(vertices: Vec<Vertex>) -> (r: Vec<TrustfallMultiVertex>)
    ensures
        r@.len() == vertices@.len(),
        forall|i: int| 0 <= i < r@.len() ==> #[trigger] r@[i] == TrustfallMultiVertex::Plaixt(vertices@[i]),
{
    let n = vertices.len();
    let mut vs = vertices;
    let mut reversed: Vec<TrustfallMultiVertex> = Vec::new();
    while vs.len() > 0
        invariant
            vs@.len() + reversed@.len() == n,
            n == vertices@.len(),
            vs@ == vertices@.subrange(0, vs@.len() as int),
            forall|j: int| 0 <= j < reversed@.len() ==> #[trigger] reversed@[j] == TrustfallMultiVertex::Plaixt(
                vertices@[n - 1 - j],
            ),
        decreases vs@.len(),
    {
        let ghost k = vs@.len();
        let v = vs.pop().unwrap();
        assert(v == vertices@[k - 1]);
        assert(vs@ =~= vertices@.subrange(0, vs@.len() as int));
        reversed.push(TrustfallMultiVertex::Plaixt(v));
    }
    let out = into_reversed(reversed);
    assert forall|j: int| 0 <= j < out@.len() implies #[trigger] out@[j] == TrustfallMultiVertex::Plaixt(vertices@[j]) by {
        assert(out@[j] == reversed@[n - 1 - j]);
    }
    out
}

/// A value as the composed schema shows it, where it is a runtime type
/// name: text carries the backend's prefix.
pub open spec fn outer_typename(v: ValueView) -> ValueView {
    match v {
        ValueView::Text(t) => ValueView::Text(prefixed(PLAIXT@, t)),
        _ => v,
    }
}

/// Pairs each context with the backend's value at its position; runtime
/// type names, where `typename` says the values are such, get the backend's
/// prefix.
pub fn pair_properties<C>(contexts: Vec<C>, values: Vec<FieldValue>, typename: bool) -> (r: Vec<(C, FieldValue)>)
    requires
        contexts@.len() == values@.len(),
    ensures
        r@.len() == contexts@.len(),
        forall|i: int|
            0 <= i < r@.len() ==> (#[trigger] r@[i]).0 == contexts@[i] && r@[i].1@ == if typename {
                outer_typename(values@[i]@)
            } else {
                values@[i]@
            },
{
    let ghost vals = values@;
    let outer = if typename {
        outer_typenames(values)
    } else {
        values
    };
    let r = rezip(contexts, outer);
    assert forall|i: int| 0 <= i < r@.len() implies (#[trigger] r@[i]).0 == contexts@[i] && r@[i].1@ == if typename {
        outer_typename(vals[i]@)
    } else {
        vals[i]@
    } by {
        assert(r@[i].1 == outer@[i]);
    }
    r
}

/// Pairs each context with the backend's neighbor list at its position,
/// each neighbor tagged with the record store's backend, in order.
pub fn pair_neighbors<C>(contexts: Vec<C>, lists: Vec<Vec<Vertex>>) -> (r: Vec<(C, Vec<TrustfallMultiVertex>)>)
    requires
        contexts@.len() == lists@.len(),
    ensures
        r@.len() == contexts@.len(),
        forall|i: int|
            0 <= i < r@.len() ==> (#[trigger] r@[i]).0 == contexts@[i] && r@[i].1@.len() == lists@[i]@.len()
                && forall|k: int| 0 <= k < r@[i].1@.len() ==> r@[i].1@[k] == TrustfallMultiVertex::Plaixt(lists@[i]@[k]),
{
    let ghost before = lists@;
    let n = lists.len();
    let mut rest = lists;
    let mut reversed: Vec<Vec<TrustfallMultiVertex>> = Vec::new();
    while rest.len() > 0
        invariant
            rest@.len() + reversed@.len() == n,
            n == before.len(),
            rest@ == before.subrange(0, rest@.len() as int),
            forall|j: int| 0 <= j < reversed@.len() ==> {
                &&& (#[trigger] reversed@[j])@.len() == before[n - 1 - j]@.len()
                &&& forall|k: int| 0 <= k < reversed@[j]@.len() ==> reversed@[j]@[k]
                    == TrustfallMultiVertex::Plaixt(before[n - 1 - j]@[k])
            },
        decreases rest@.len(),
    {
        let ghost k = rest@.len();
        let l = rest.pop().unwrap();
        assert(l == before[k - 1]);
        assert(rest@ =~= before.subrange(0, rest@.len() as int));
        reversed.push(wrap_vertices(l));
    }
    let wrapped = into_reversed(reversed);
    let r = rezip(contexts, wrapped);
    assert forall|i: int| 0 <= i < r@.len() implies (#[trigger] r@[i]).0 == contexts@[i] && r@[i].1@.len()
        == before[i]@.len() && forall|k: int| 0 <= k < r@[i].1@.len() ==> r@[i].1@[k]
        == TrustfallMultiVertex::Plaixt(before[i]@[k]) by {
        assert(wrapped@[i] == reversed@[n - 1 - i]);
        assert(r@[i].1 == wrapped@[i]);
    }
    r
}

impl TrustfallMultiAdapter {
    /// The record store's backend, registered under its name.
    pub fn new(plaixt: Adapter) -> (r: TrustfallMultiAdapter)
        ensures
            r.backends@.map_values(|s: String| s@) == seq![PLAIXT@],
            r.plaixt == plaixt,
    {
        let mut backends: Vec<String> = Vec::new();
        backends.push(owned(PLAIXT));
        assert(backends@.map_values(|s: String| s@) =~= seq![PLAIXT@]);
        TrustfallMultiAdapter { plaixt, backends }
    }

    /// The names of the registered backends.
    pub open spec fn backend_names(&self) -> Seq<Seq<char>> {
        self.backends@.map_values(|s: String| s@)
    }

    /// Routes a schema-visible name to its registered backend and the
    /// backend-local name; `None` where no registered backend's prefix fits.
    pub fn route<'a>(&self, name: &'a str) -> (r: Option<(usize, &'a str)>)
        ensures
            match route_of(self.backend_names(), name@) {
                Some(p) => r matches Some(x) && x.0 == p.0 && x.1@ == p.1,
                None => r is None,
            },
    {
        let ghost bs = self.backend_names();
        let mut i: usize = 0;
        assert(bs.subrange(0, 0) =~= Seq::<Seq<char>>::empty());
        while i < self.backends.len()
            invariant
                i <= self.backends.len(),
                bs == self.backend_names(),
                route_of(bs.subrange(0, i as int), name@) is None,
            decreases self.backends.len() - i,
        {
            assert(bs.subrange(0, i + 1).drop_last() =~= bs.subrange(0, i as int));
            let prefix = prefixed_name(self.backends[i].as_str(), "");
            proof {
                reveal_strlit("");
            }
            assert(bs[i as int] == self.backends@[i as int]@);
            assert(prefix@ =~= prefixed(bs[i as int], Seq::empty()));
            match strip_prefix(name, prefix.as_str()) {
                Some(rest) => {
                    assert(name@.subrange(0, prefix@.len() as int) =~= prefix@);
                    assert(name@.subrange(prefix@.len() as int, name@.len() as int) =~= rest@);
                    proof {
                        lemma_route_prefix(bs, name@, i + 1, bs.len() as int);
                        assert(bs.subrange(0, bs.len() as int) =~= bs);
                    }
                    return Some((i, rest));
                },
                None => {},
            }
            i = i + 1;
        }
        assert(bs.subrange(0, bs.len() as int) =~= bs);
        None
    }

    /// The starting vertices of a schema-visible entry point.
    pub fn resolve_starting_vertices(&self, name: &str) -> (r: Vec<TrustfallMultiVertex>)
        requires
            route_of(self.backend_names(), name@) matches Some(p) && p.0 == 0 && p.1 == RECORDS_ENTRY@,
        ensures
            r@.len() == self.plaixt.records@.len(),
            forall|i: int| 0 <= i < r@.len() ==> (#[trigger] r@[i] matches TrustfallMultiVertex::Plaixt(
                Vertex::Record(x),
            ) && x@ == self.plaixt.records@[i]@),
    {
        let (_, local) = self.route(name).unwrap();
        let vs = self.plaixt.resolve_starting_vertices(local);
        wrap_vertices(vs)
    }

    /// Resolves a property of a schema-visible type for each vertex, paired
    /// with its context in order. A runtime type name is given schema-visible.
    pub fn resolve_property<C>(
        &self,
        contexts: Vec<C>,
        vertices: Vec<Option<TrustfallMultiVertex>>,
        type_label: &str,
        property: &str,
    ) -> (r: Vec<(C, FieldValue)>)
        requires
            contexts@.len() == vertices@.len(),
            route_of(self.backend_names(), type_label@) matches Some(p) && p.0 == 0
                && crate::adapter::property_declared(self.plaixt.definitions@, p.1, property@) && forall|i: int|
                0 <= i < vertices@.len() ==> (inner(#[trigger] vertices@[i]) matches Some(v)
                ==> property_request_ok(self.plaixt.definitions@, v, p.1, property@)),
        ensures
            r@.len() == contexts@.len(),
            forall|i: int| 0 <= i < r@.len() ==> (#[trigger] r@[i]).0 == contexts@[i],
            forall|i: int| 0 <= i < r@.len() ==> match inner(#[trigger] vertices@[i]) {
                Some(v) => exists|b: bool| #[trigger] outer_value(
                    v,
                    route_of(self.backend_names(), type_label@)->Some_0.1,
                    property@,
                    b,
                ) == r@[i].1@,
                None => r@[i].1@ == ValueView::Null,
            },
    {
        let (_, local) = self.route(type_label).unwrap();
        let vs = unwrap_vertices(vertices);
        let values = self.plaixt.resolve_property(&vs, local, property);
        let is_typename = crate::text::text_eq(property, "__typename");
        let ghost vals = values@;
        let r = pair_properties(contexts, values, is_typename);
        assert forall|i: int| 0 <= i < r@.len() implies match inner(#[trigger] vertices@[i]) {
            Some(v) => exists|b: bool| #[trigger] outer_value(
                v,
                route_of(self.backend_names(), type_label@)->Some_0.1,
                property@,
                b,
            ) == r@[i].1@,
            None => r@[i].1@ == ValueView::Null,
        } by {
            assert(vs@[i] == inner(vertices@[i]));
            if let Some(v) = inner(vertices@[i]) {
                let b = choose|b: bool| vals[i]@ == property_value(v, local@, property@, b);
                assert(outer_value(v, local@, property@, b) == r@[i].1@);
            }
        }
        r
    }

    /// Resolves an edge of a schema-visible type for each vertex, paired
    /// with its context in order.
    pub fn resolve_neighbors<C>(
        &self,
        contexts: Vec<C>,
        vertices: Vec<Option<TrustfallMultiVertex>>,
        type_label: &str,
        edge: &str,
    ) -> (r: Vec<(C, Vec<TrustfallMultiVertex>)>)
        requires
            contexts@.len() == vertices@.len(),
            route_of(self.backend_names(), type_label@) matches Some(p) && p.0 == 0
                && crate::adapter::edge_declared(p.1, edge@) && forall|i: int|
                0 <= i < vertices@.len() ==> (inner(#[trigger] vertices@[i]) matches Some(v)
                ==> neighbor_request_ok(v, p.1, edge@)),
        ensures
            r@.len() == contexts@.len(),
            forall|i: int| 0 <= i < r@.len() ==> (#[trigger] r@[i]).0 == contexts@[i],
            forall|i: int| 0 <= i < r@.len() ==> match inner(vertices@[i]) {
                Some(_) => exists|l: Option<Seq<Option<Seq<char>>>>| are_outer_paths(r@[i].1@, listed_paths(l)),
                None => (#[trigger] r@[i]).1@.len() == 0,
            },
    {
        let (_, local) = self.route(type_label).unwrap();
        let vs = unwrap_vertices(vertices);
        let lists = self.plaixt.resolve_neighbors(&vs, local, edge);
        let ghost before = lists@;
        let r = pair_neighbors(contexts, lists);
        assert forall|i: int| 0 <= i < r@.len() implies match inner(vertices@[i]) {
            Some(_) => exists|l: Option<Seq<Option<Seq<char>>>>| are_outer_paths(r@[i].1@, listed_paths(l)),
            None => (#[trigger] r@[i]).1@.len() == 0,
        } by {
            assert(vs@[i] == inner(vertices@[i]));
            if let Some(v) = inner(vertices@[i]) {
                let l = choose|l: Option<Seq<Option<Seq<char>>>>| are_paths(before[i]@, listed_paths(l));
                assert(are_outer_paths(r@[i].1@, listed_paths(l)));
            }
        }
        r
    }

    /// Whether each vertex coerces to a schema-visible type, paired with its
    /// context in order.
    pub fn resolve_coercion<C>(
        &self,
        contexts: Vec<C>,
        vertices: Vec<Option<TrustfallMultiVertex>>,
        coerce_to: &str,
    ) -> (r: Vec<(C, bool)>)
        requires
            contexts@.len() == vertices@.len(),
            route_of(self.backend_names(), coerce_to@) matches Some(p) && p.0 == 0 && is_known_type(
                self.plaixt.definitions@,
                p.1,
            ),
        ensures
            r@.len() == contexts@.len(),
            forall|i: int| 0 <= i < r@.len() ==> (#[trigger] r@[i]).0 == contexts@[i],
            forall|i: int| 0 <= i < r@.len() ==> (#[trigger] r@[i]).1 == match inner(vertices@[i]) {
                Some(v) => coerces(v, route_of(self.backend_names(), coerce_to@)->Some_0.1),
                None => false,
            },
    {
        let (_, local) = self.route(coerce_to).unwrap();
        let vs = unwrap_vertices(vertices);
        let answers = self.plaixt.resolve_coercion(&vs, local);
        let r = rezip(contexts, answers);
        assert forall|i: int| 0 <= i < r@.len() implies (#[trigger] r@[i]).1 == match inner(vertices@[i]) {
            Some(v) => coerces(v, route_of(self.backend_names(), coerce_to@)->Some_0.1),
            None => false,
        } by {
            assert(vs@[i] == inner(vertices@[i]));
            assert(r@[i].1 == answers@[i]);
        }
        r
    }
}

/// A route found among the first backends stays the route when more
/// backends are registered after them.
proof fn lemma_route_prefix(bs: Seq<Seq<char>>, name: Seq<char>, k: int, j: int)
    requires
        0 <= k <= j <= bs.len(),
        route_of(bs.subrange(0, k), name) is Some,
    ensures
        route_of(bs.subrange(0, j), name) == route_of(bs.subrange(0, k), name),
    decreases j - k,
{
    if j > k {
        lemma_route_prefix(bs, name, k, j - 1);
        assert(bs.subrange(0, j).drop_last() =~= bs.subrange(0, j - 1));
    }
}

/// Gives each runtime type name its backend's prefix.
fn outer_typenames(values: Vec<FieldValue>) -> (r: Vec<FieldValue>)
    ensures
        r@.len() == values@.len(),
        forall|i: int| 0 <= i < r@.len() ==> (#[trigger] r@[i])@ == match values@[i]@ {
            ValueView::Text(t) => ValueView::Text(prefixed(PLAIXT@, t)),
            other => other,
        },
{
    let mut out: Vec<FieldValue> = Vec::new();
    let mut i: usize = 0;
    while i < values.len()
        invariant
            i <= values.len(),
            out@.len() == i,
            forall|j: int| 0 <= j < i ==> (#[trigger] out@[j])@ == match values@[j]@ {
                ValueView::Text(t) => ValueView::Text(prefixed(PLAIXT@, t)),
                other => other,
            },
        decreases values.len() - i,
    {
        let v = match &values[i] {
            FieldValue::String(t) => FieldValue::String(prefixed_name(PLAIXT, t.as_str())),
            FieldValue::Null => FieldValue::Null,
            FieldValue::Boolean(b) => FieldValue::Boolean(*b),
            FieldValue::Int64(n) => FieldValue::Int64(*n),
            FieldValue::Uint64(n) => FieldValue::Uint64(*n),
            FieldValue::Float64(n) => FieldValue::Float64(*n),
        };
        out.push(v);
        i = i + 1;
    }
    out
}

} // verus!
