//! The four resolution operations that a graph query engine asks of a
//! backend, over records, filesystem entries and external documents. Each
//! batched operation answers its inputs one for one and in order.
use crate::fs::{extension, file_name, list_directory, path_exists, path_extension, path_file_name};
use crate::keyed::{keys, lookup, name_index, names_of};
use crate::record::{records_view, values_view, Record, RecordView};
use crate::store::DefinitionStore;
use crate::synth::{
    DIRECTORY_TYPE, DOCUMENT_TYPE, FILE_TYPE, KIND_TYPE_PREFIX, PATH_INTERFACE, RECORDS_ENTRY,
    RECORD_INTERFACE,
};
use crate::text::{owned, strip_prefix, text_eq};
use crate::timestamp::instant_text;
use crate::value::{value_of_scalar, FieldValue, ValueView};
use crate::vertex::{is_fs, path_of, typename_of, ExternalDocument, Vertex};
use vstd::prelude::*;

verus! {

/// The record store's backend: the records, and the definitions that shaped
/// its schema.
#[derive(Debug)]
pub struct Adapter {
    pub records: Vec<Record>,
    pub definitions: DefinitionStore,
}

/// A text value, or null where there is none.
pub open spec fn optional_text(o: Option<Seq<char>>) -> ValueView {
    match o {
        Some(s) => ValueView::Text(s),
        None => ValueView::Null,
    }
}

/// The properties of an external document.
pub open spec fn is_document_property(p: Seq<char>) -> bool {
    p == "id"@ || p == "title"@ || p == "content"@ || p == "created"@ || p == "added"@ || p
        == "archive_serial_number"@
}

/// The properties that every filesystem entry has.
pub open spec fn is_path_property(p: Seq<char>) -> bool {
    p == "exists"@ || p == "basename"@ || p == "path"@
}

/// A property of an external document: a field of the fetched snapshot.
pub open spec fn document_property(d: ExternalDocument, p: Seq<char>) -> ValueView {
    if p == "id"@ {
        ValueView::Uint64(d.id)
    } else if p == "title"@ {
        ValueView::Text(d.title@)
    } else if p == "content"@ {
        ValueView::Text(d.content@)
    } else if p == "created"@ {
        ValueView::Text(d.created@)
    } else if p == "added"@ {
        ValueView::Text(d.added@)
    } else {
        match d.archive_serial_number {
            Some(s) => ValueView::Text(s@),
            None => ValueView::Null,
        }
    }
}

/// A property of a filesystem entry at `path`, where `exists_now` is what
/// the filesystem answered when asked whether the path exists.
pub open spec fn fs_property(path: Seq<char>, p: Seq<char>, exists_now: bool) -> ValueView {
    if p == "exists"@ {
        ValueView::Boolean(exists_now)
    } else if p == "basename"@ {
        optional_text(path_file_name(path))
    } else if p == "path"@ {
        ValueView::Text(path)
    } else {
        optional_text(path_extension(path))
    }
}

/// A property of a record: its instant as text, its kind, or a field value.
pub open spec fn record_property(r: RecordView, p: Seq<char>) -> ValueView {
    if p == "_at"@ {
        ValueView::Text(instant_text(r.at.second, r.at.nanosecond))
    } else if p == "_kind"@ {
        ValueView::Text(r.kind)
    } else {
        match lookup(r.fields, p) {
            Some(s) => value_of_scalar(s@),
            None => ValueView::Null,
        }
    }
}

/// Kind `k` has a version, and so a type in the schema.
pub open spec fn kind_declared(store: Seq<(Seq<char>, Seq<crate::definition::DefinitionView>)>, k: Seq<char>) -> bool {
    lookup(store, k) matches Some(vs) && vs.len() > 0
}

/// Type `t` is the record interface or the type of a declared kind.
pub open spec fn is_record_type(store: Seq<(Seq<char>, Seq<crate::definition::DefinitionView>)>, t: Seq<char>) -> bool {
    ||| t == RECORD_INTERFACE@
    ||| {
        &&& KIND_TYPE_PREFIX@.len() <= t.len()
        &&& t.subrange(0, KIND_TYPE_PREFIX@.len() as int) == KIND_TYPE_PREFIX@
        &&& kind_declared(store, t.subrange(KIND_TYPE_PREFIX@.len() as int, t.len() as int))
    }
}

/// The record kind whose type is `t`, for a kind type.
pub open spec fn kind_of_type(t: Seq<char>) -> Seq<char> {
    t.subrange(KIND_TYPE_PREFIX@.len() as int, t.len() as int)
}

/// Property `p` is one that the schema declares on type `t`.
pub open spec fn property_declared(
    store: Seq<(Seq<char>, Seq<crate::definition::DefinitionView>)>,
    t: Seq<char>,
    p: Seq<char>,
) -> bool {
    ||| p == "__typename"@
    ||| t == DOCUMENT_TYPE@ && is_document_property(p)
    ||| t == PATH_INTERFACE@ && is_path_property(p)
    ||| t == FILE_TYPE@ && (is_path_property(p) || p == "extension"@)
    ||| t == DIRECTORY_TYPE@ && is_path_property(p)
    ||| is_record_type(store, t) && (p == "_at"@ || p == "_kind"@)
    ||| is_record_type(store, t) && t != RECORD_INTERFACE@ && crate::synth::declares(
        lookup(store, kind_of_type(t))->Some_0[0].fields,
        p,
    )
}

/// Edge `e` is one that the schema declares on type `t`.
pub open spec fn edge_declared(t: Seq<char>, e: Seq<char>) -> bool {
    t == DIRECTORY_TYPE@ && e == "Children"@
}

/// A property request that the schema backs, on a vertex of the type asked
/// for: anything else is a desynchronization of schema and resolvers.
pub open spec fn property_request_ok(
    store: Seq<(Seq<char>, Seq<crate::definition::DefinitionView>)>,
    v: Vertex,
    t: Seq<char>,
    p: Seq<char>,
) -> bool {
    ||| p == "__typename"@
    ||| t == DOCUMENT_TYPE@ && v is PaperlessDocument && is_document_property(p)
    ||| t == PATH_INTERFACE@ && is_fs(v) && is_path_property(p)
    ||| t == FILE_TYPE@ && v is File && (is_path_property(p) || p == "extension"@)
    ||| t == DIRECTORY_TYPE@ && v is Directory && is_path_property(p)
    ||| is_record_type(store, t) && (v matches Vertex::Record(r) && r.wf() && (p == "_at"@ || p
        == "_kind"@ || lookup(r@.fields, p) is Some))
}

/// The value of property `p` of vertex `v` asked for as type `t`.
pub open spec fn property_value(v: Vertex, t: Seq<char>, p: Seq<char>, exists_now: bool) -> ValueView {
    if p == "__typename"@ {
        ValueView::Text(typename_of(v))
    } else if t == DOCUMENT_TYPE@ {
        match v {
            Vertex::PaperlessDocument(d) => document_property(d, p),
            _ => ValueView::Null,
        }
    } else if t == PATH_INTERFACE@ || t == FILE_TYPE@ || t == DIRECTORY_TYPE@ {
        fs_property(path_of(v), p, exists_now)
    } else {
        match v {
            Vertex::Record(r) => record_property(r@, p),
            _ => ValueView::Null,
        }
    }
}

/// The paths that a directory listing yields: none where the directory could
/// not be listed, and the readable entries in listing order otherwise.
pub open spec fn listed_paths(listing: Option<Seq<Option<Seq<char>>>>) -> Seq<Seq<char>> {
    match listing {
        None => Seq::empty(),
        Some(es) => readable_entries(es),
    }
}

/// The readable entries of a listing, in order.
pub open spec fn readable_entries(es: Seq<Option<Seq<char>>>) -> Seq<Seq<char>>
    decreases es.len(),
{
    if es.len() == 0 {
        Seq::empty()
    } else {
        match es.last() {
            Some(p) => readable_entries(es.drop_last()).push(p),
            None => readable_entries(es.drop_last()),
        }
    }
}

/// The view of a directory listing.
pub open spec fn listing_view(l: Option<Vec<Option<String>>>) -> Option<Seq<Option<Seq<char>>>> {
    match l {
        None => None,
        Some(v) => Some(v@.map_values(|e: Option<String>| match e {
            Some(s) => Some(s@),
            None => None,
        })),
    }
}

/// The vertices are the paths given, in order, each as a generic path.
pub open spec fn are_paths(r: Seq<Vertex>, ps: Seq<Seq<char>>) -> bool {
    &&& r.len() == ps.len()
    &&& forall|i: int| 0 <= i < r.len() ==> ((#[trigger] r[i]) matches Vertex::Path(p) && p@ == ps[i])
}

/// A neighbor request that the schema backs: only a directory's children.
pub open spec fn neighbor_request_ok(v: Vertex, t: Seq<char>, e: Seq<char>) -> bool {
    t == DIRECTORY_TYPE@ && e == "Children"@ && v is Directory
}

/// The types that the schema declares.
pub open spec fn is_known_type(store: Seq<(Seq<char>, Seq<crate::definition::DefinitionView>)>, t: Seq<char>) -> bool {
    ||| t == PATH_INTERFACE@
    ||| t == FILE_TYPE@
    ||| t == DIRECTORY_TYPE@
    ||| t == DOCUMENT_TYPE@
    ||| is_record_type(store, t)
}

/// A vertex coerces to type `t` when its runtime type is `t`, or when `t` is
/// an interface that its runtime type implements.
pub open spec fn coerces(v: Vertex, t: Seq<char>) -> bool {
    ||| typename_of(v) == t
    ||| t == RECORD_INTERFACE@ && v is Record
    ||| t == PATH_INTERFACE@ && is_fs(v)
}

/// The fixed type names are no record types.
proof fn lemma_fixed_types_not_records(store: Seq<(Seq<char>, Seq<crate::definition::DefinitionView>)>)
    ensures
        !is_record_type(store, PATH_INTERFACE@),
        !is_record_type(store, FILE_TYPE@),
        !is_record_type(store, DIRECTORY_TYPE@),
        !is_record_type(store, DOCUMENT_TYPE@),
        PATH_INTERFACE@ != FILE_TYPE@,
        PATH_INTERFACE@ != DIRECTORY_TYPE@,
        PATH_INTERFACE@ != DOCUMENT_TYPE@,
        FILE_TYPE@ != DIRECTORY_TYPE@,
        FILE_TYPE@ != DOCUMENT_TYPE@,
        DIRECTORY_TYPE@ != DOCUMENT_TYPE@,
{
    crate::parity::lemma_literals();
    if 2 <= PATH_INTERFACE@.len() && PATH_INTERFACE@.subrange(0, 2) == KIND_TYPE_PREFIX@ {
        assert(PATH_INTERFACE@.subrange(0, 2)[0] == PATH_INTERFACE@[0]);
    }
    if 2 <= FILE_TYPE@.len() && FILE_TYPE@.subrange(0, 2) == KIND_TYPE_PREFIX@ {
        assert(FILE_TYPE@.subrange(0, 2)[0] == FILE_TYPE@[0]);
    }
    if 2 <= DIRECTORY_TYPE@.len() && DIRECTORY_TYPE@.subrange(0, 2) == KIND_TYPE_PREFIX@ {
        assert(DIRECTORY_TYPE@.subrange(0, 2)[0] == DIRECTORY_TYPE@[0]);
    }
    if 2 <= DOCUMENT_TYPE@.len() && DOCUMENT_TYPE@.subrange(0, 2) == KIND_TYPE_PREFIX@ {
        assert(DOCUMENT_TYPE@.subrange(0, 2)[0] == DOCUMENT_TYPE@[0]);
    }
}

/// The vertices that a directory listing yields, each as a generic path; an
/// unreadable directory yields none.
pub fn children_from_listing(listing: Option<Vec<Option<String>>>) -> (r: Vec<Vertex>)
    ensures
        are_paths(r@, listed_paths(listing_view(listing))),
{
    let ghost lv = listing_view(listing);
    let mut out: Vec<Vertex> = Vec::new();
    match listing {
        None => {
            out
        },
        Some(entries) => {
            let ghost es = lv->Some_0;
            let mut i: usize = 0;
            assert(es.subrange(0, 0) =~= Seq::<Option<Seq<char>>>::empty());
            while i < entries.len()
                invariant
                    i <= entries.len(),
                    es == entries@.map_values(|e: Option<String>| match e {
                        Some(s) => Some(s@),
                        None => None,
                    }),
                    are_paths(out@, readable_entries(es.subrange(0, i as int))),
                decreases entries.len() - i,
            {
                assert(es.subrange(0, i + 1).drop_last() =~= es.subrange(0, i as int));
                match &entries[i] {
                    Some(p) => {
                        out.push(Vertex::Path(p.clone()));
                    },
                    None => {},
                }
                i = i + 1;
            }
            assert(es.subrange(0, es.len() as int) =~= es);
            out
        },
    }
}

/// A property of a filesystem entry at `path`, given what the filesystem
/// answered when asked whether it exists.
pub fn fs_property_value(path: &str, p: &str, exists_now: bool) -> (r: FieldValue)
    requires
        is_path_property(p@) || p@ == "extension"@,
    ensures
        r@ == fs_property(path@, p@, exists_now),
{
    if text_eq(p, "exists") {
        FieldValue::Boolean(exists_now)
    } else if text_eq(p, "basename") {
        match file_name(path) {
            Some(s) => FieldValue::String(s),
            None => FieldValue::Null,
        }
    } else if text_eq(p, "path") {
        FieldValue::String(owned(path))
    } else {
        match extension(path) {
            Some(s) => FieldValue::String(s),
            None => FieldValue::Null,
        }
    }
}

fn document_property_value(d: &ExternalDocument, p: &str) -> (r: FieldValue)
    ensures
        r@ == document_property(*d, p@),
{
    if text_eq(p, "id") {
        FieldValue::Uint64(d.id)
    } else if text_eq(p, "title") {
        FieldValue::String(d.title.clone())
    } else if text_eq(p, "content") {
        FieldValue::String(d.content.clone())
    } else if text_eq(p, "created") {
        FieldValue::String(d.created.clone())
    } else if text_eq(p, "added") {
        FieldValue::String(d.added.clone())
    } else {
        match &d.archive_serial_number {
            Some(s) => FieldValue::String(s.clone()),
            None => FieldValue::Null,
        }
    }
}

fn record_property_value(r: &Record, p: &str) -> (v: FieldValue)
    requires
        r.wf(),
        p@ == "_at"@ || p@ == "_kind"@ || lookup(r@.fields, p@) is Some,
    ensures
        v@ == record_property(r@, p@),
{
    if text_eq(p, "_at") {
        FieldValue::String(r.at.to_text())
    } else if text_eq(p, "_kind") {
        FieldValue::String(r.kind.clone())
    } else {
        assert(keys(r@.fields) =~= names_of(r.fields@));
        proof {
            crate::keyed::lemma_name_index(names_of(r.fields@), p@);
        }
        match crate::keyed::find_key(&r.fields, p) {
            Some(i) => FieldValue::from_scalar(&r.fields[i].1),
            None => FieldValue::Null,
        }
    }
}

impl Adapter {
    /// A backend over these records and definitions.
    pub fn new(records: Vec<Record>, definitions: DefinitionStore) -> (r: Adapter)
        ensures
            records_view(r.records@) == records_view(records@),
            r.definitions@ == definitions@,
    {
        Adapter { records, definitions }
    }

    /// The schema text of this backend under name `adapter`, with
    /// `directives` declaring the query engine's directives.
    pub fn schema(&self, adapter: &str, directives: &str) -> (r: String)
        ensures
            r@ == crate::synth::schema_text(crate::synth::synthesized(self.definitions@, adapter@), directives@),
    {
        crate::synth::to_schema(&self.definitions, adapter, directives)
    }

    /// Whether the schema declares property `p` on type `t`.
    pub fn property_declared(&self, t: &str, p: &str) -> (r: bool)
        ensures
            r == property_declared(self.definitions@, t@, p@),
    {
        proof {
            lemma_fixed_types_not_records(self.definitions@);
        }
        if text_eq(p, "__typename") {
            return true;
        }
        let path_prop = text_eq(p, "exists") || text_eq(p, "basename") || text_eq(p, "path");
        if text_eq(t, DOCUMENT_TYPE) {
            return text_eq(p, "id") || text_eq(p, "title") || text_eq(p, "content") || text_eq(p, "created")
                || text_eq(p, "added") || text_eq(p, "archive_serial_number");
        }
        if text_eq(t, PATH_INTERFACE) || text_eq(t, DIRECTORY_TYPE) {
            return path_prop;
        }
        if text_eq(t, FILE_TYPE) {
            return path_prop || text_eq(p, "extension");
        }
        if !self.is_record_type(t) {
            return false;
        }
        if text_eq(p, "_at") || text_eq(p, "_kind") {
            return true;
        }
        if text_eq(t, RECORD_INTERFACE) {
            return false;
        }
        match strip_prefix(t, KIND_TYPE_PREFIX) {
            None => false,
            Some(k) => {
                assert(kind_of_type(t@) =~= k@);
                match self.definitions.versions(k) {
                    Some(v) => {
                        if v.len() == 0 {
                            return false;
                        }
                        let fields = &v[0].fields;
                        let ghost fv = crate::definition::fields_view(fields@);
                        assert(keys(fv) =~= names_of(fields@));
                        proof {
                            crate::keyed::lemma_name_index(keys(fv), p@);
                        }
                        let found = crate::keyed::find_key(fields, p).is_some();
                        proof {
                            if !found {
                                assert forall|j: int| 0 <= j < fv.len() implies (#[trigger] fv[j]).0 != p@ by {
                                    assert(keys(fv)[j] == fv[j].0);
                                }
                            } else {
                                let j = name_index(keys(fv), p@)->Some_0;
                                assert(keys(fv)[j] == fv[j].0);
                            }
                        }
                        found
                    },
                    None => false,
                }
            },
        }
    }

    /// Whether the schema declares edge `e` on type `t`.
    pub fn edge_declared(&self, t: &str, e: &str) -> (r: bool)
        ensures
            r == edge_declared(t@, e@),
    {
        text_eq(t, DIRECTORY_TYPE) && text_eq(e, "Children")
    }

    /// Whether type `t` is the record interface or the type of a declared kind.
    pub fn is_record_type(&self, t: &str) -> (r: bool)
        ensures
            r == is_record_type(self.definitions@, t@),
    {
        if text_eq(t, RECORD_INTERFACE) {
            return true;
        }
        match strip_prefix(t, KIND_TYPE_PREFIX) {
            None => false,
            Some(k) => {
                assert(t@.subrange(0, KIND_TYPE_PREFIX@.len() as int) =~= KIND_TYPE_PREFIX@);
                assert(t@.subrange(KIND_TYPE_PREFIX@.len() as int, t@.len() as int) =~= k@);
                match self.definitions.versions(k) {
                    Some(v) => v.len() > 0,
                    None => false,
                }
            },
        }
    }

    /// Whether the schema declares type `t`.
    pub fn is_known_type(&self, t: &str) -> (r: bool)
        ensures
            r == is_known_type(self.definitions@, t@),
    {
        text_eq(t, PATH_INTERFACE) || text_eq(t, FILE_TYPE) || text_eq(t, DIRECTORY_TYPE) || text_eq(
            t,
            DOCUMENT_TYPE,
        ) || self.is_record_type(t)
    }

    /// Whether the schema backs property `p` of type `t` on vertex `v`.
    pub fn property_request_ok(&self, v: &Vertex, t: &str, p: &str) -> (r: bool)
        ensures
            r == property_request_ok(self.definitions@, *v, t@, p@),
    {
        proof {
            lemma_fixed_types_not_records(self.definitions@);
        }
        if text_eq(p, "__typename") {
            return true;
        }
        let path_prop = text_eq(p, "exists") || text_eq(p, "basename") || text_eq(p, "path");
        if text_eq(t, DOCUMENT_TYPE) {
            return match v {
                Vertex::PaperlessDocument(_) => text_eq(p, "id") || text_eq(p, "title") || text_eq(p, "content")
                    || text_eq(p, "created") || text_eq(p, "added") || text_eq(p, "archive_serial_number"),
                _ => false,
            };
        }
        if text_eq(t, PATH_INTERFACE) {
            return v.as_path().is_some() && path_prop;
        }
        if text_eq(t, FILE_TYPE) {
            return match v {
                Vertex::File(_) => path_prop || text_eq(p, "extension"),
                _ => false,
            };
        }
        if text_eq(t, DIRECTORY_TYPE) {
            return match v {
                Vertex::Directory(_) => path_prop,
                _ => false,
            };
        }
        if !self.is_record_type(t) {
            return false;
        }
        match v {
            Vertex::Record(r) => {
                if !record_wf(r) {
                    return false;
                }
                if text_eq(p, "_at") || text_eq(p, "_kind") {
                    return true;
                }
                assert(keys(r@.fields) =~= names_of(r.fields@));
                crate::keyed::find_key(&r.fields, p).is_some()
            },
            _ => false,
        }
    }

    /// Whether the schema backs edge `e` of type `t` on vertex `v`.
    pub fn neighbor_request_ok(&self, v: &Vertex, t: &str, e: &str) -> (r: bool)
        ensures
            r == neighbor_request_ok(*v, t@, e@),
    {
        text_eq(t, DIRECTORY_TYPE) && text_eq(e, "Children") && match v {
            Vertex::Directory(_) => true,
            _ => false,
        }
    }

    /// Property `p` of one vertex asked for as type `t`. A filesystem entry's
    /// existence is asked of the filesystem now.
    pub fn property_of(&self, v: &Vertex, t: &str, p: &str) -> (r: FieldValue)
        requires
            property_request_ok(self.definitions@, *v, t@, p@),
        ensures
            exists|b: bool| r@ == property_value(*v, t@, p@, b),
            p@ != "exists"@ ==> r@ == property_value(*v, t@, p@, false),
    {
        proof {
            lemma_fixed_types_not_records(self.definitions@);
        }
        if text_eq(p, "__typename") {
            return FieldValue::String(v.typename());
        }
        if text_eq(t, DOCUMENT_TYPE) {
            return match v {
                Vertex::PaperlessDocument(d) => document_property_value(d, p),
                _ => FieldValue::Null,
            };
        }
        if text_eq(t, PATH_INTERFACE) || text_eq(t, FILE_TYPE) || text_eq(t, DIRECTORY_TYPE) {
            let path = match v.as_path() {
                Some(s) => s,
                None => return FieldValue::Null,
            };
            let exists_now = if text_eq(p, "exists") {
                path_exists(path.as_str())
            } else {
                false
            };
            let r = fs_property_value(path.as_str(), p, exists_now);
            assert(r@ == property_value(*v, t@, p@, exists_now));
            return r;
        }
        match v {
            Vertex::Record(r) => record_property_value(r, p),
            _ => FieldValue::Null,
        }
    }

    /// Resolves property `p` of type `t` for each vertex, one answer per
    /// vertex and in order; a missing vertex gives null.
    pub fn resolve_property(&self, vertices: &Vec<Option<Vertex>>, t: &str, p: &str) -> (r: Vec<FieldValue>)
        requires
            property_declared(self.definitions@, t@, p@),
            forall|i: int| 0 <= i < vertices@.len() ==> ((#[trigger] vertices@[i]) matches Some(v)
                ==> property_request_ok(self.definitions@, v, t@, p@)),
        ensures
            r@.len() == vertices@.len(),
            forall|i: int| 0 <= i < vertices@.len() ==> match #[trigger] vertices@[i] {
                Some(v) => exists|b: bool| r@[i]@ == property_value(v, t@, p@, b),
                None => r@[i]@ == ValueView::Null,
            },
    {
        let mut out: Vec<FieldValue> = Vec::new();
        let mut i: usize = 0;
        while i < vertices.len()
            invariant
                i <= vertices.len(),
                out@.len() == i,
                forall|j: int| 0 <= j < vertices@.len() ==> ((#[trigger] vertices@[j]) matches Some(v)
                    ==> property_request_ok(self.definitions@, v, t@, p@)),
                forall|j: int| 0 <= j < i ==> match #[trigger] vertices@[j] {
                    Some(v) => exists|b: bool| out@[j]@ == property_value(v, t@, p@, b),
                    None => out@[j]@ == ValueView::Null,
                },
            decreases vertices.len() - i,
        {
            let value = match &vertices[i] {
                Some(v) => self.property_of(v, t, p),
                None => FieldValue::Null,
            };
            out.push(value);
            i = i + 1;
        }
        out
    }

    /// Resolves edge `e` of type `t` for each vertex, one answer per vertex
    /// and in order: a directory's children are its entries as generic
    /// paths, in the filesystem's order, and none where it cannot be listed.
    pub fn resolve_neighbors(&self, vertices: &Vec<Option<Vertex>>, t: &str, e: &str) -> (r: Vec<Vec<Vertex>>)
        requires
            edge_declared(t@, e@),
            forall|i: int| 0 <= i < vertices@.len() ==> ((#[trigger] vertices@[i]) matches Some(v)
                ==> neighbor_request_ok(v, t@, e@)),
        ensures
            r@.len() == vertices@.len(),
            forall|i: int| 0 <= i < vertices@.len() ==> match #[trigger] vertices@[i] {
                Some(_) => exists|l: Option<Seq<Option<Seq<char>>>>| are_paths(r@[i]@, listed_paths(l)),
                None => r@[i]@.len() == 0,
            },
    {
        let mut out: Vec<Vec<Vertex>> = Vec::new();
        let mut i: usize = 0;
        while i < vertices.len()
            invariant
                i <= vertices.len(),
                out@.len() == i,
                forall|j: int| 0 <= j < i ==> match #[trigger] vertices@[j] {
                    Some(_) => exists|l: Option<Seq<Option<Seq<char>>>>| are_paths(out@[j]@, listed_paths(l)),
                    None => out@[j]@.len() == 0,
                },
            decreases vertices.len() - i,
        {
            let children = match &vertices[i] {
                Some(v) => match v.as_path() {
                    Some(path) => {
                        let listing = list_directory(path.as_str());
                        let ghost lv = listing_view(listing);
                        let c = children_from_listing(listing);
                        assert(are_paths(c@, listed_paths(lv)));
                        c
                    },
                    None => {
                        let c: Vec<Vertex> = Vec::new();
                        assert(are_paths(c@, listed_paths(None)));
                        c
                    },
                },
                None => Vec::new(),
            };
            out.push(children);
            i = i + 1;
        }
        out
    }

    /// Whether each vertex coerces to type `t`, one answer per vertex and in
    /// order; a missing vertex does not coerce.
    pub fn resolve_coercion(&self, vertices: &Vec<Option<Vertex>>, t: &str) -> (r: Vec<bool>)
        requires
            is_known_type(self.definitions@, t@),
        ensures
            r@.len() == vertices@.len(),
            forall|i: int| 0 <= i < vertices@.len() ==> r@[i] == match #[trigger] vertices@[i] {
                Some(v) => coerces(v, t@),
                None => false,
            },
    {
        let mut out: Vec<bool> = Vec::new();
        let mut i: usize = 0;
        while i < vertices.len()
            invariant
                i <= vertices.len(),
                out@.len() == i,
                forall|j: int| 0 <= j < i ==> out@[j] == match #[trigger] vertices@[j] {
                    Some(v) => coerces(v, t@),
                    None => false,
                },
            decreases vertices.len() - i,
        {
            let c = match &vertices[i] {
                Some(v) => coerces_to(v, t),
                None => false,
            };
            out.push(c);
            i = i + 1;
        }
        out
    }

    /// The vertices of entry point `name`: every record, in order.
    pub fn resolve_starting_vertices(&self, name: &str) -> (r: Vec<Vertex>)
        requires
            name@ == RECORDS_ENTRY@,
        ensures
            r@.len() == self.records@.len(),
            forall|i: int| 0 <= i < r@.len() ==> ((#[trigger] r@[i]) matches Vertex::Record(x) && x@
                == self.records@[i]@ && x.wf() == self.records@[i].wf()),
    {
        let mut out: Vec<Vertex> = Vec::new();
        let mut i: usize = 0;
        while i < self.records.len()
            invariant
                i <= self.records.len(),
                out@.len() == i,
                forall|j: int| 0 <= j < i ==> ((#[trigger] out@[j]) matches Vertex::Record(x) && x@
                    == self.records@[j]@ && x.wf() == self.records@[j].wf()),
            decreases self.records.len() - i,
        {
            out.push(Vertex::Record(self.records[i].duplicate()));
            i = i + 1;
        }
        out
    }
}

/// Whether a record is well formed.
fn record_wf(r: &Record) -> (b: bool)
    ensures
        b == r.wf(),
{
    if !r.at.in_range() {
        return false;
    }
    let mut i: usize = 0;
    while i < r.fields.len()
        invariant
            i <= r.fields.len(),
            forall|j: int| 0 <= j < i ==> crate::value::fits((#[trigger] r.fields@[j]).1@),
        decreases r.fields.len() - i,
    {
        match &r.fields[i].1 {
            crate::document::Scalar::Integer(n) => {
                if *n < i64::MIN as i128 || *n > i64::MAX as i128 {
                    return false;
                }
            },
            _ => {},
        }
        i = i + 1;
    }
    true
}

/// Whether vertex `v` coerces to type `t`.
pub fn coerces_to(v: &Vertex, t: &str) -> (r: bool)
    ensures
        r == coerces(*v, t@),
{
    let name = v.typename();
    if text_eq(name.as_str(), t) {
        return true;
    }
    match v {
        Vertex::Record(_) => text_eq(t, RECORD_INTERFACE),
        Vertex::Path(_) | Vertex::File(_) | Vertex::Directory(_) => text_eq(t, PATH_INTERFACE),
        Vertex::PaperlessDocument(_) => false,
    }
}

} // verus!
