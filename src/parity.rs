//! What the synthesized schema and the resolvers agree on: every property
//! and edge that the schema exposes is one that the resolvers back, and
//! coercion follows the schema's declared subtype relation.
use crate::adapter::{
    coerces, edge_declared, is_record_type, kind_declared, kind_of_type, neighbor_request_ok, property_declared,
    property_request_ok,
};
use crate::definition::DefinitionView;
use crate::keyed::{keys, lemma_ordered_of, lookup, name_index, ordered_of};
use crate::schema::{prefixed, DynamicSchemaView, VertexTypeView};
use crate::synth::{
    directory_fields, document_fields, file_fields, kind_fields, kind_type, kind_type_name, kind_types, synthesized, DIRECTORY_TYPE, DOCUMENT_TYPE, FILE_TYPE,
    KIND_TYPE_PREFIX, PATH_INTERFACE, RECORD_INTERFACE,
};
use crate::vertex::{typename_of, Vertex};
use vstd::prelude::*;

verus! {

/// Kind names are unique in the store.
pub open spec fn unique_kinds(store: Seq<(Seq<char>, Seq<DefinitionView>)>) -> bool {
    forall|i: int, j: int| 0 <= i < j < store.len() ==> (#[trigger] store[i]).0 != (#[trigger] store[j]).0
}

/// The fixed type names differ from each other and from every record kind's
/// type name.
pub proof fn lemma_literals()
    ensures
        KIND_TYPE_PREFIX@.len() == 2,
        KIND_TYPE_PREFIX@[0] != PATH_INTERFACE@[0],
        KIND_TYPE_PREFIX@[0] != FILE_TYPE@[0],
        KIND_TYPE_PREFIX@[0] != DIRECTORY_TYPE@[0],
        KIND_TYPE_PREFIX@[0] != DOCUMENT_TYPE@[0],
        KIND_TYPE_PREFIX@[0] != RECORD_INTERFACE@[0],
        PATH_INTERFACE@ != FILE_TYPE@,
        PATH_INTERFACE@ != DIRECTORY_TYPE@,
        PATH_INTERFACE@ != DOCUMENT_TYPE@,
        PATH_INTERFACE@ != RECORD_INTERFACE@,
        FILE_TYPE@ != DIRECTORY_TYPE@,
        FILE_TYPE@ != DOCUMENT_TYPE@,
        FILE_TYPE@ != RECORD_INTERFACE@,
        DIRECTORY_TYPE@ != DOCUMENT_TYPE@,
        DIRECTORY_TYPE@ != RECORD_INTERFACE@,
        DOCUMENT_TYPE@ != RECORD_INTERFACE@,
        PATH_INTERFACE@.len() != RECORD_INTERFACE@.len(),
        PATH_INTERFACE@.len() > 0,
        FILE_TYPE@.len() > 0,
        DIRECTORY_TYPE@.len() > 0,
        DOCUMENT_TYPE@.len() > 0,
        RECORD_INTERFACE@.len() > 0,
{
    reveal_strlit("Path");
    reveal_strlit("File");
    reveal_strlit("Directory");
    reveal_strlit("PaperlessDocument");
    reveal_strlit("Record");
    reveal_strlit("p_");
    assert(PATH_INTERFACE@[0] != FILE_TYPE@[0]);
    assert(PATH_INTERFACE@[0] != DIRECTORY_TYPE@[0]);
    assert(PATH_INTERFACE@.len() != DOCUMENT_TYPE@.len());
    assert(PATH_INTERFACE@[0] != RECORD_INTERFACE@[0]);
    assert(FILE_TYPE@[0] != DIRECTORY_TYPE@[0]);
    assert(FILE_TYPE@[0] != DOCUMENT_TYPE@[0]);
    assert(FILE_TYPE@[0] != RECORD_INTERFACE@[0]);
    assert(DIRECTORY_TYPE@[0] != DOCUMENT_TYPE@[0]);
    assert(DIRECTORY_TYPE@[0] != RECORD_INTERFACE@[0]);
    assert(DOCUMENT_TYPE@[0] != RECORD_INTERFACE@[0]);
}

/// A record kind's type name is no fixed type name, and names its kind.
proof fn lemma_kind_type_name(k: Seq<char>, v: Vertex)
    ensures
        kind_type_name(k) != PATH_INTERFACE@,
        kind_type_name(k) != FILE_TYPE@,
        kind_type_name(k) != DIRECTORY_TYPE@,
        kind_type_name(k) != DOCUMENT_TYPE@,
        kind_type_name(k) != RECORD_INTERFACE@,
        typename_of(v) == kind_type_name(k) ==> (v matches Vertex::Record(r) && r.kind@ == k),
{
    lemma_literals();
    assert(kind_type_name(k)[0] == KIND_TYPE_PREFIX@[0]);
    if typename_of(v) == kind_type_name(k) {
        if let Vertex::Record(r) = v {
            assert(r.kind@ =~= kind_type_name(k).subrange(2, kind_type_name(k).len() as int));
            assert(k =~= kind_type_name(k).subrange(2, kind_type_name(k).len() as int));
        } else {
            assert(typename_of(v)[0] != kind_type_name(k)[0]);
        }
    }
}

/// Each record kind type comes from a kind of the store with a version.
proof fn lemma_kind_types_origin(store: Seq<(Seq<char>, Seq<DefinitionView>)>, adapter: Seq<char>, j: int)
    requires
        0 <= j < kind_types(store, adapter).len(),
    ensures
        exists|e: int|
            0 <= e < store.len() && (#[trigger] store[e]).1.len() > 0 && kind_types(store, adapter)[j]
                == kind_type(adapter, store[e].0, store[e].1[0]),
    decreases store.len(),
{
    let q = store.drop_last();
    if store.last().1.len() > 0 && j == kind_types(q, adapter).len() {
        assert(store[store.len() - 1] == store.last());
    } else {
        lemma_kind_types_origin(q, adapter, j);
        let e = choose|e: int|
            0 <= e < q.len() && (#[trigger] q[e]).1.len() > 0 && kind_types(q, adapter)[j] == kind_type(
                adapter,
                q[e].0,
                q[e].1[0],
            );
        assert(store[e] == q[e]);
    }
}

/// A kind that the store holds with a version is declared.
proof fn lemma_kind_declared(store: Seq<(Seq<char>, Seq<DefinitionView>)>, e: int)
    requires
        unique_kinds(store),
        0 <= e < store.len(),
        store[e].1.len() > 0,
    ensures
        kind_declared(store, store[e].0),
{
    let ks = keys(store);
    assert forall|j: int| 0 <= j < e implies ks[j] != store[e].0 by {
        assert(ks[j] == store[j].0);
    }
    crate::keyed::lemma_name_index_first(ks, store[e].0, e);
}

/// A record kind's type is a record type.
proof fn lemma_declared_is_record_type(store: Seq<(Seq<char>, Seq<DefinitionView>)>, k: Seq<char>)
    requires
        kind_declared(store, k),
    ensures
        is_record_type(store, kind_type_name(k)),
{
    lemma_literals();
    let t = kind_type_name(k);
    assert(t.subrange(0, 2) =~= KIND_TYPE_PREFIX@);
    assert(t.subrange(2, t.len() as int) =~= k);
}

/// The runtime type of a vertex, where it is a type of the synthesized
/// schema: a file, a directory, a document, or a record of a declared kind.
proof fn lemma_schema_type_vertex(
    store: Seq<(Seq<char>, Seq<DefinitionView>)>,
    adapter: Seq<char>,
    t: int,
    v: Vertex,
)
    requires
        unique_kinds(store),
        0 <= t < synthesized(store, adapter).types.len(),
        typename_of(v) == synthesized(store, adapter).types[t].name,
    ensures
        t == 0 ==> v is File,
        t == 1 ==> v is Directory,
        t == 2 ==> v is PaperlessDocument,
        t >= 3 ==> (v matches Vertex::Record(r) && kind_declared(store, r.kind@) && synthesized(
            store,
            adapter,
        ).types[t] == kind_type(adapter, r.kind@, lookup(store, r.kind@)->Some_0[0])),
{
    lemma_literals();
    let s = synthesized(store, adapter);
    if t >= 3 {
        lemma_kind_types_origin(store, adapter, t - 3);
        let e = choose|e: int|
            0 <= e < store.len() && (#[trigger] store[e]).1.len() > 0 && kind_types(store, adapter)[t
                - 3] == kind_type(adapter, store[e].0, store[e].1[0]);
        assert(s.types[t] == kind_types(store, adapter)[t - 3]);
        lemma_kind_type_name(store[e].0, v);
        lemma_kind_declared(store, e);
        let ks = keys(store);
        assert forall|j: int| 0 <= j < e implies ks[j] != store[e].0 by {
            assert(ks[j] == store[j].0);
        }
        crate::keyed::lemma_name_index_first(ks, store[e].0, e);
    } else {
        match v {
            Vertex::Record(r) => {
                lemma_kind_type_name(r.kind@, v);
            },
            _ => {},
        }
    }
}

/// Every vertex coerces to its own runtime type.
pub proof fn lemma_coercion_reflexive(v: Vertex)
    ensures
        coerces(v, typename_of(v)),
{
}

/// Coercion follows the synthesized schema: a vertex whose runtime type is a
/// type of the schema coerces to an interface of the schema exactly when
/// that type declares it implements it, and to a type of the schema exactly
/// when that is its own type.
pub proof fn lemma_coercion_matches_schema(
    store: Seq<(Seq<char>, Seq<DefinitionView>)>,
    adapter: Seq<char>,
    t: int,
    v: Vertex,
)
    requires
        crate::store::kinds_ordered(store),
        0 <= t < synthesized(store, adapter).types.len(),
        typename_of(v) == synthesized(store, adapter).types[t].name,
    ensures
        forall|i: int| 0 <= i < synthesized(store, adapter).interfaces.len() ==> (coerces(
            v,
            (#[trigger] synthesized(store, adapter).interfaces[i]).name,
        ) <==> synthesized(store, adapter).types[t].implements.contains(
            prefixed(adapter, synthesized(store, adapter).interfaces[i].name),
        )),
        forall|u: int| 0 <= u < synthesized(store, adapter).types.len() ==> (coerces(
            v,
            (#[trigger] synthesized(store, adapter).types[u]).name,
        ) <==> synthesized(store, adapter).types[u].name == typename_of(v)),
{
    crate::store::lemma_ordered_unique(store);
    lemma_literals();
    let s = synthesized(store, adapter);
    lemma_schema_type_vertex(store, adapter, t, v);
    let rec = prefixed(adapter, RECORD_INTERFACE@);
    let path = prefixed(adapter, PATH_INTERFACE@);
    assert(rec.len() != path.len());
    assert forall|i: int| 0 <= i < s.interfaces.len() implies (coerces(v, (#[trigger] s.interfaces[i]).name)
        <==> s.types[t].implements.contains(prefixed(adapter, s.interfaces[i].name))) by {
        if t >= 3 {
            assert(s.types[t].implements =~= seq![rec]);
            assert(s.types[t].implements[0] == rec);
        } else if t == 2 {
            assert(s.types[t].implements =~= Seq::<Seq<char>>::empty());
        } else {
            assert(s.types[t].implements =~= seq![path]);
            assert(s.types[t].implements[0] == path);
        }
    }
    assert forall|u: int| 0 <= u < s.types.len() implies (coerces(v, (#[trigger] s.types[u]).name)
        <==> s.types[u].name == typename_of(v)) by {
        if u >= 3 {
            lemma_kind_types_origin(store, adapter, u - 3);
            let e = choose|e: int|
                0 <= e < store.len() && (#[trigger] store[e]).1.len() > 0 && kind_types(store, adapter)[u
                    - 3] == kind_type(adapter, store[e].0, store[e].1[0]);
            assert(s.types[u] == kind_types(store, adapter)[u - 3]);
            lemma_kind_type_name(store[e].0, v);
        }
    }
}

/// Every property and edge that the synthesized schema exposes on a type is
/// one the resolvers back, for a vertex of that type: a directory's children
/// are its one edge, and a record is asked only for the fields it carries,
/// and must be well formed.
pub proof fn lemma_schema_resolver_parity(
    store: Seq<(Seq<char>, Seq<DefinitionView>)>,
    adapter: Seq<char>,
    t: int,
    i: int,
    v: Vertex,
)
    requires
        crate::store::kinds_ordered(store),
        0 <= t < synthesized(store, adapter).types.len(),
        0 <= i < synthesized(store, adapter).types[t].fields.len(),
        typename_of(v) == synthesized(store, adapter).types[t].name,
        v matches Vertex::Record(r) ==> r.wf() && {
            let f = synthesized(store, adapter).types[t].fields[i].0;
            f == "_at"@ || f == "_kind"@ || lookup(r@.fields, f) is Some
        },
    ensures
        ({
            let ty = synthesized(store, adapter).types[t];
            let f = ty.fields[i].0;
            if t == 1 && f == "Children"@ {
                neighbor_request_ok(v, ty.name, f) && edge_declared(ty.name, f)
            } else {
                property_request_ok(store, v, ty.name, f) && property_declared(store, ty.name, f)
            }
        }),
        property_request_ok(store, v, synthesized(store, adapter).types[t].name, "__typename"@),
{
    crate::store::lemma_ordered_unique(store);
    lemma_literals();
    let s = synthesized(store, adapter);
    lemma_schema_type_vertex(store, adapter, t, v);
    let f = s.types[t].fields[i].0;
    reveal_strlit("Children");
    reveal_strlit("exists");
    reveal_strlit("basename");
    reveal_strlit("path");
    reveal_strlit("extension");
    reveal_strlit("_at");
    reveal_strlit("_kind");
    let raw = if t == 0 {
        file_fields()
    } else if t == 1 {
        directory_fields(adapter)
    } else if t == 2 {
        document_fields()
    } else {
        kind_fields(lookup(store, (v->Record_0).kind@)->Some_0[0])
    };
    assert(s.types[t].fields == ordered_of(raw));
    lemma_ordered_of(raw);
    let j = choose|j: int| 0 <= j < raw.len() && raw[j].0 == (#[trigger] ordered_of(raw)[i]).0;
    assert(f == raw[j].0);
    if t >= 3 {
        if let Vertex::Record(r) = v {
            lemma_declared_is_record_type(store, r.kind@);
            let d = lookup(store, r.kind@)->Some_0[0];
            let n = d.fields.len();
            let t_name = kind_type_name(r.kind@);
            lemma_kind_type_name(r.kind@, v);
            assert(kind_of_type(t_name) =~= r.kind@) by {
                lemma_literals();
            }
            if j < n {
                assert(f == d.fields[j].0);
                assert(crate::synth::declares(d.fields, f));
            } else if j == n {
                assert(f == "_at"@);
            } else {
                assert(f == "_kind"@);
            }
        }
    }
}

/// Type `sub` is `sup`, or a type of the schema named `sub` declares that it
/// implements `sup`.
pub open spec fn schema_subtype(s: DynamicSchemaView, adapter: Seq<char>, sub: Seq<char>, sup: Seq<char>) -> bool {
    ||| sub == sup
    ||| exists|t: int|
        0 <= t < s.types.len() && (#[trigger] s.types[t]).name == sub && s.types[t].implements.contains(
            prefixed(adapter, sup),
        )
}

proof fn lemma_prefixed_injective(adapter: Seq<char>, x: Seq<char>, y: Seq<char>)
    requires
        prefixed(adapter, x) == prefixed(adapter, y),
    ensures
        x == y,
{
    let n: int = (adapter.len() + crate::schema::ADAPTER_SEP@.len()) as int;
    assert(prefixed(adapter, x).subrange(n, prefixed(adapter, x).len() as int) =~= x);
    assert(prefixed(adapter, y).subrange(n, prefixed(adapter, y).len() as int) =~= y);
}

/// No type of the schema is named like an interface, and each implements
/// only the schema's interfaces.
proof fn lemma_type_shape(store: Seq<(Seq<char>, Seq<DefinitionView>)>, adapter: Seq<char>, t: int, v: Vertex)
    requires
        0 <= t < synthesized(store, adapter).types.len(),
    ensures
        synthesized(store, adapter).types[t].name != RECORD_INTERFACE@,
        synthesized(store, adapter).types[t].name != PATH_INTERFACE@,
        forall|x: Seq<char>| #[trigger] synthesized(store, adapter).types[t].implements.contains(x) ==> x == prefixed(
            adapter,
            RECORD_INTERFACE@,
        ) || x == prefixed(adapter, PATH_INTERFACE@),
{
    lemma_literals();
    let s = synthesized(store, adapter);
    if t >= 3 {
        lemma_kind_types_origin(store, adapter, t - 3);
        let e = choose|e: int|
            0 <= e < store.len() && (#[trigger] store[e]).1.len() > 0 && kind_types(store, adapter)[t
                - 3] == kind_type(adapter, store[e].0, store[e].1[0]);
        assert(s.types[t] == kind_types(store, adapter)[t - 3]);
        lemma_kind_type_name(store[e].0, v);
        assert(s.types[t].implements =~= seq![prefixed(adapter, RECORD_INTERFACE@)]);
    } else if t == 2 {
        assert(s.types[t].implements =~= Seq::<Seq<char>>::empty());
    } else {
        assert(s.types[t].implements =~= seq![prefixed(adapter, PATH_INTERFACE@)]);
    }
}

/// A batch of coercion answers, as `resolve_coercion` gives them, follows
/// the synthesized schema: a context's answer is true exactly when it has a
/// vertex whose runtime type is the target or declares that it implements
/// it. The vertices' runtime types and the target are names of the schema.
pub proof fn lemma_batch_coercion_follows_schema(
    store: Seq<(Seq<char>, Seq<DefinitionView>)>,
    adapter: Seq<char>,
    vertices: Seq<Option<Vertex>>,
    target: Seq<char>,
    answers: Seq<bool>,
)
    requires
        crate::store::kinds_ordered(store),
        answers.len() == vertices.len(),
        forall|i: int| 0 <= i < vertices.len() ==> #[trigger] answers[i] == match vertices[i] {
            Some(v) => coerces(v, target),
            None => false,
        },
        forall|i: int|
            0 <= i < vertices.len() ==> (#[trigger] vertices[i] matches Some(v) ==> exists|t: int|
                0 <= t < synthesized(store, adapter).types.len() && (#[trigger] synthesized(store, adapter).types[t]).name
                    == typename_of(v)),
        target == RECORD_INTERFACE@ || target == PATH_INTERFACE@ || exists|u: int|
            0 <= u < synthesized(store, adapter).types.len() && (#[trigger] synthesized(store, adapter).types[u]).name
                == target,
    ensures
        forall|i: int| 0 <= i < vertices.len() ==> #[trigger] answers[i] == (vertices[i] is Some && schema_subtype(
            synthesized(store, adapter),
            adapter,
            typename_of(vertices[i]->Some_0),
            target,
        )),
{
    crate::store::lemma_ordered_unique(store);
    lemma_literals();
    let s = synthesized(store, adapter);
    assert(s.interfaces[0].name == RECORD_INTERFACE@ && s.interfaces[1].name == PATH_INTERFACE@);
    assert forall|i: int| 0 <= i < vertices.len() implies #[trigger] answers[i] == (vertices[i] is Some
        && schema_subtype(s, adapter, typename_of(vertices[i]->Some_0), target)) by {
        if let Some(v) = vertices[i] {
            let t = choose|t: int| 0 <= t < s.types.len() && (#[trigger] s.types[t]).name == typename_of(v);
            lemma_coercion_matches_schema(store, adapter, t, v);
            lemma_type_shape(store, adapter, t, v);
            let sub = typename_of(v);
            if target == RECORD_INTERFACE@ || target == PATH_INTERFACE@ {
                let k: int = if target == RECORD_INTERFACE@ { 0 } else { 1 };
                assert(s.interfaces[k].name == target);
                if schema_subtype(s, adapter, sub, target) {
                    let t2 = choose|t2: int|
                        0 <= t2 < s.types.len() && (#[trigger] s.types[t2]).name == sub && s.types[t2].implements.contains(
                            prefixed(adapter, target),
                        );
                    lemma_coercion_matches_schema(store, adapter, t2, v);
                }
            } else {
                let u = choose|u: int| 0 <= u < s.types.len() && (#[trigger] s.types[u]).name == target;
                lemma_type_shape(store, adapter, u, v);
                if sub != target && schema_subtype(s, adapter, sub, target) {
                    let t2 = choose|t2: int|
                        0 <= t2 < s.types.len() && (#[trigger] s.types[t2]).name == sub && s.types[t2].implements.contains(
                            prefixed(adapter, target),
                        );
                    lemma_type_shape(store, adapter, t2, v);
                    if prefixed(adapter, target) == prefixed(adapter, RECORD_INTERFACE@) {
                        lemma_prefixed_injective(adapter, target, RECORD_INTERFACE@);
                    } else {
                        lemma_prefixed_injective(adapter, target, PATH_INTERFACE@);
                    }
                }
            }
        }
    }
}

} // verus!
