//! The schema of the record store's backend: fixed interfaces and types for
//! records, filesystem entries and external documents, and one type per
//! record kind, shaped by that kind's earliest version.
use crate::definition::{Definition, DefinitionView, FieldKindView};
use crate::schema::{
    interface_text, prefixed, prefixed_name, type_text, DynamicSchema, DynamicSchemaView,
    StartingVertex, StartingVertexView, VertexType, VertexTypeView,
};
use crate::keyed::{last_value, lemma_ordered_of, lemma_same_ordered, ordered_of};
use crate::store::DefinitionStore;
use crate::text::owned;
use vstd::prelude::*;

verus! {

/// A type or entry point of the schema, as text that a query engine reads.
#[derive(Debug)]
pub struct CustomVertex {
    pub name: String,
    pub definition: String,
}

/// The local name of the interface that every record type implements.
pub const RECORD_INTERFACE: &'static str = "Record";

/// The local name of the interface of filesystem entries.
pub const PATH_INTERFACE: &'static str = "Path";

/// The local name of the type of files.
pub const FILE_TYPE: &'static str = "File";

/// The local name of the type of directories.
pub const DIRECTORY_TYPE: &'static str = "Directory";

/// The local name of the type of external documents.
pub const DOCUMENT_TYPE: &'static str = "PaperlessDocument";

/// The local name of the entry point that yields every record.
pub const RECORDS_ENTRY: &'static str = "Records";

/// What a record kind's name is prefixed with to give its type's local name.
pub const KIND_TYPE_PREFIX: &'static str = "p_";

/// The local type name of record kind `kind`.
pub open spec fn kind_type_name(kind: Seq<char>) -> Seq<char> {
    KIND_TYPE_PREFIX@ + kind
}

/// The fields of a record kind's type: its declared fields as strings, then
/// the record's instant and kind.
pub open spec fn kind_fields(d: DefinitionView) -> Seq<(Seq<char>, Seq<char>)> {
    d.fields.map_values(|p: (Seq<char>, FieldKindView)| (p.0, "String!"@)) + seq![
        ("_at"@, "String!"@),
        ("_kind"@, "String!"@),
    ]
}

/// The type of record kind `kind`, shaped by its version `d`.
pub open spec fn kind_type(adapter: Seq<char>, kind: Seq<char>, d: DefinitionView) -> VertexTypeView {
    VertexTypeView {
        adapter,
        name: kind_type_name(kind),
        fields: ordered_of(kind_fields(d)),
        implements: seq![prefixed(adapter, RECORD_INTERFACE@)],
    }
}

/// The fields that every filesystem entry has.
pub open spec fn path_fields() -> Seq<(Seq<char>, Seq<char>)> {
    seq![("exists"@, "Boolean!"@), ("basename"@, "String"@), ("path"@, "String!"@)]
}

/// The fields of records.
pub open spec fn record_fields() -> Seq<(Seq<char>, Seq<char>)> {
    seq![("_at"@, "String!"@), ("_kind"@, "String!"@)]
}

/// The fields of files.
pub open spec fn file_fields() -> Seq<(Seq<char>, Seq<char>)> {
    path_fields().push(("extension"@, "String"@))
}

/// The fields of directories, its children edge among them.
pub open spec fn directory_fields(adapter: Seq<char>) -> Seq<(Seq<char>, Seq<char>)> {
    path_fields().push(("Children"@, "["@ + prefixed(adapter, PATH_INTERFACE@) + "!]"@))
}

/// The fields of external documents.
pub open spec fn document_fields() -> Seq<(Seq<char>, Seq<char>)> {
    seq![
        ("id"@, "Int!"@),
        ("title"@, "String!"@),
        ("content"@, "String!"@),
        ("created"@, "String!"@),
        ("added"@, "String!"@),
        ("archive_serial_number"@, "String"@),
    ]
}

/// The interface of records.
pub open spec fn record_interface(adapter: Seq<char>) -> VertexTypeView {
    VertexTypeView {
        adapter,
        name: RECORD_INTERFACE@,
        fields: ordered_of(record_fields()),
        implements: Seq::empty(),
    }
}

/// The interface of filesystem entries.
pub open spec fn path_interface(adapter: Seq<char>) -> VertexTypeView {
    VertexTypeView { adapter, name: PATH_INTERFACE@, fields: ordered_of(path_fields()), implements: Seq::empty() }
}

/// The type of files.
pub open spec fn file_type(adapter: Seq<char>) -> VertexTypeView {
    VertexTypeView {
        adapter,
        name: FILE_TYPE@,
        fields: ordered_of(file_fields()),
        implements: seq![prefixed(adapter, PATH_INTERFACE@)],
    }
}

/// The type of directories.
pub open spec fn directory_type(adapter: Seq<char>) -> VertexTypeView {
    VertexTypeView {
        adapter,
        name: DIRECTORY_TYPE@,
        fields: ordered_of(directory_fields(adapter)),
        implements: seq![prefixed(adapter, PATH_INTERFACE@)],
    }
}

/// The type of external documents.
pub open spec fn document_type(adapter: Seq<char>) -> VertexTypeView {
    VertexTypeView { adapter, name: DOCUMENT_TYPE@, fields: ordered_of(document_fields()), implements: Seq::empty() }
}

/// One type per record kind that has a version, shaped by its earliest.
pub open spec fn kind_types(store: Seq<(Seq<char>, Seq<DefinitionView>)>, adapter: Seq<char>) -> Seq<
    VertexTypeView,
>
    decreases store.len(),
{
    if store.len() == 0 {
        Seq::empty()
    } else if store.last().1.len() > 0 {
        kind_types(store.drop_last(), adapter).push(
            kind_type(adapter, store.last().0, store.last().1[0]),
        )
    } else {
        kind_types(store.drop_last(), adapter)
    }
}

/// The schema of backend `adapter` over the definitions `store`.
pub open spec fn synthesized(store: Seq<(Seq<char>, Seq<DefinitionView>)>, adapter: Seq<char>) -> DynamicSchemaView {
    DynamicSchemaView {
        roots: seq![
            StartingVertexView {
                adapter,
                name: RECORDS_ENTRY@,
                ty: "["@ + prefixed(adapter, RECORD_INTERFACE@) + "!]!"@,
            },
        ],
        interfaces: seq![record_interface(adapter), path_interface(adapter)],
        types: seq![file_type(adapter), directory_type(adapter), document_type(adapter)] + kind_types(
            store,
            adapter,
        ),
    }
}

/// `name: type, ` for each entry point.
pub open spec fn roots_text(rs: Seq<StartingVertexView>) -> Seq<char>
    decreases rs.len(),
{
    if rs.len() == 0 {
        Seq::empty()
    } else {
        roots_text(rs.drop_last()) + prefixed(rs.last().adapter, rs.last().name) + ": "@
            + rs.last().ty + ", "@
    }
}

/// Each declaration on a line of its own.
pub open spec fn declarations_text(ts: Seq<VertexTypeView>, interfaces: bool) -> Seq<char>
    decreases ts.len(),
{
    if ts.len() == 0 {
        Seq::empty()
    } else {
        declarations_text(ts.drop_last(), interfaces) + (if interfaces {
            interface_text(ts.last())
        } else {
            type_text(ts.last())
        }) + "\n"@
    }
}

/// The schema text: the query root, the engine's directive declarations,
/// the entry points, the interfaces and the types.
pub open spec fn schema_text(d: DynamicSchemaView, directives: Seq<char>) -> Seq<char> {
    "schema { query: RootSchemaQuery }\n"@ + directives + "\ntype RootSchemaQuery { "@ + roots_text(
        d.roots,
    ) + "}\n"@ + declarations_text(d.interfaces, true) + declarations_text(d.types, false)
}

fn pair(a: &str, b: &str) -> (r: (String, String))
    ensures
        r.0@ == a@,
        r.1@ == b@,
{
    (owned(a), owned(b))
}

fn path_field_list() -> (r: Vec<(String, String)>)
    ensures
        crate::schema::pairs_view(r@) == path_fields(),
{
    let mut v: Vec<(String, String)> = Vec::new();
    v.push(pair("exists", "Boolean!"));
    v.push(pair("basename", "String"));
    v.push(pair("path", "String!"));
    assert(crate::schema::pairs_view(v@) =~= path_fields());
    v
}

fn one_name(s: String) -> (r: Vec<String>)
    ensures
        crate::schema::strings_view(r@) == seq![s@],
{
    let mut v: Vec<String> = Vec::new();
    v.push(s);
    assert(crate::schema::strings_view(v@) =~= seq![s@]);
    v
}

/// The type of record kind `kind`, shaped by its version `d`.
fn kind_vertex_type(adapter: &str, kind: &str, d: &Definition) -> (r: VertexType)
    ensures
        r@ == kind_type(adapter@, kind@, d@),
{
    proof {
        reveal_strlit("String");
        reveal_strlit("!");
        reveal_strlit("String!");
    }
    let ghost target = kind_fields(d@);
    let mut fields: Vec<(String, String)> = Vec::new();
    let mut i: usize = 0;
    while i < d.fields.len()
        invariant
            i <= d.fields.len(),
            fields@.len() == i,
            forall|j: int| 0 <= j < i ==> (#[trigger] fields@[j]).0@ == d.fields@[j].0@ && fields@[j].1@
                == "String!"@,
        decreases d.fields.len() - i,
    {
        let mut ty = d.fields[i].1.trustfall_kind();
        ty.append("!");
        proof {
            reveal_strlit("String");
            reveal_strlit("!");
            reveal_strlit("String!");
        }
        assert(ty@ =~= "String!"@);
        fields.push((d.fields[i].0.clone(), ty));
        i = i + 1;
    }
    fields.push(pair("_at", "String!"));
    fields.push(pair("_kind", "String!"));
    assert(crate::schema::pairs_view(fields@) =~= target);
    let mut name = owned(KIND_TYPE_PREFIX);
    name.append(kind);
    VertexType::new(owned(adapter), name, fields, one_name(prefixed_name(adapter, RECORD_INTERFACE)))
}

impl Definition {
    /// The schema declaration of this version's record type, for backend
    /// `adapter`: its schema-visible name and its text.
    pub fn to_custom_vertices(&self, adapter: &str) -> (r: Vec<CustomVertex>)
        ensures
            r@.len() == 1,
            r@[0].name@ == prefixed(adapter@, kind_type_name(self.name@)),
            r@[0].definition@ == type_text(kind_type(adapter@, self.name@, self@)),
    {
        let t = kind_vertex_type(adapter, self.name.as_str(), self);
        let mut v: Vec<CustomVertex> = Vec::new();
        v.push(CustomVertex { name: t.schema_name(), definition: t.schema_type() });
        v
    }
}

impl DynamicSchema {
    /// The schema text, with `directives` declaring the engine's directives.
    pub fn render(&self, directives: &str) -> (r: String)
        ensures
            r@ == schema_text(self@, directives@),
    {
        let ghost d = self@;
        let mut out = owned("schema { query: RootSchemaQuery }\n");
        out.append(directives);
        out.append("\ntype RootSchemaQuery { ");
        let mut i: usize = 0;
        assert(d.roots.subrange(0, 0) =~= Seq::<StartingVertexView>::empty());
        let ghost head = out@;
        while i < self.roots.len()
            invariant
                i <= self.roots.len(),
                d == self@,
                out@ == head + roots_text(d.roots.subrange(0, i as int)),
            decreases self.roots.len() - i,
        {
            assert(d.roots.subrange(0, i + 1).drop_last() =~= d.roots.subrange(0, i as int));
            let name = self.roots[i].schema_name();
            out.append(name.as_str());
            out.append(": ");
            out.append(self.roots[i].vertex_type());
            out.append(", ");
            assert(out@ =~= head + roots_text(d.roots.subrange(0, i + 1)));
            i = i + 1;
        }
        assert(d.roots.subrange(0, d.roots.len() as int) =~= d.roots);
        out.append("}\n");
        let ghost head2 = out@;
        let mut j: usize = 0;
        assert(d.interfaces.subrange(0, 0) =~= Seq::<VertexTypeView>::empty());
        while j < self.interfaces.len()
            invariant
                j <= self.interfaces.len(),
                d == self@,
                out@ == head2 + declarations_text(d.interfaces.subrange(0, j as int), true),
            decreases self.interfaces.len() - j,
        {
            assert(d.interfaces.subrange(0, j + 1).drop_last() =~= d.interfaces.subrange(0, j as int));
            let t = self.interfaces[j].schema_interface();
            out.append(t.as_str());
            out.append("\n");
            assert(out@ =~= head2 + declarations_text(d.interfaces.subrange(0, j + 1), true));
            j = j + 1;
        }
        assert(d.interfaces.subrange(0, d.interfaces.len() as int) =~= d.interfaces);
        let ghost head3 = out@;
        let mut k: usize = 0;
        assert(d.types.subrange(0, 0) =~= Seq::<VertexTypeView>::empty());
        while k < self.types.len()
            invariant
                k <= self.types.len(),
                d == self@,
                out@ == head3 + declarations_text(d.types.subrange(0, k as int), false),
            decreases self.types.len() - k,
        {
            assert(d.types.subrange(0, k + 1).drop_last() =~= d.types.subrange(0, k as int));
            let t = self.types[k].schema_type();
            out.append(t.as_str());
            out.append("\n");
            assert(out@ =~= head3 + declarations_text(d.types.subrange(0, k + 1), false));
            k = k + 1;
        }
        assert(d.types.subrange(0, d.types.len() as int) =~= d.types);
        assert(out@ =~= schema_text(d, directives@));
        out
    }
}

fn no_names() -> (r: Vec<String>)
    ensures
        crate::schema::strings_view(r@) == Seq::<Seq<char>>::empty(),
{
    let v: Vec<String> = Vec::new();
    assert(crate::schema::strings_view(v@) =~= Seq::<Seq<char>>::empty());
    v
}

fn list_type(inner: &str, suffix: &str) -> (r: String)
    ensures
        r@ == "["@ + inner@ + suffix@,
{
    let mut s = owned("[");
    s.append(inner);
    s.append(suffix);
    s
}

/// The schema of backend `adapter` over the definitions `store`, as
/// `synthesized` says.
pub fn synthesize(store: &DefinitionStore, adapter: &str) -> (r: DynamicSchema)
    ensures
        r@ == synthesized(store@, adapter@),
{
    let mut schema = DynamicSchema::new();
    let record_iface = prefixed_name(adapter, RECORD_INTERFACE);
    let path_iface = prefixed_name(adapter, PATH_INTERFACE);
    schema.add_root(
        StartingVertex::new(owned(adapter), owned(RECORDS_ENTRY), list_type(record_iface.as_str(), "!]!")),
    );
    let mut rec_list: Vec<(String, String)> = Vec::new();
    rec_list.push(pair("_at", "String!"));
    rec_list.push(pair("_kind", "String!"));
    assert(crate::schema::pairs_view(rec_list@) =~= record_fields());
    schema.add_interface(VertexType::new(owned(adapter), owned(RECORD_INTERFACE), rec_list, no_names()));
    schema.add_interface(VertexType::new(owned(adapter), owned(PATH_INTERFACE), path_field_list(), no_names()));
    let mut file_list = path_field_list();
    file_list.push(pair("extension", "String"));
    assert(crate::schema::pairs_view(file_list@) =~= file_fields());
    schema.add_type(
        VertexType::new(owned(adapter), owned(FILE_TYPE), file_list, one_name(path_iface.clone())),
    );
    let mut dir_list = path_field_list();
    dir_list.push((owned("Children"), list_type(path_iface.as_str(), "!]")));
    assert(crate::schema::pairs_view(dir_list@) =~= directory_fields(adapter@));
    schema.add_type(VertexType::new(owned(adapter), owned(DIRECTORY_TYPE), dir_list, one_name(path_iface)));
    let mut doc_list: Vec<(String, String)> = Vec::new();
    doc_list.push(pair("id", "Int!"));
    doc_list.push(pair("title", "String!"));
    doc_list.push(pair("content", "String!"));
    doc_list.push(pair("created", "String!"));
    doc_list.push(pair("added", "String!"));
    doc_list.push(pair("archive_serial_number", "String"));
    assert(crate::schema::pairs_view(doc_list@) =~= document_fields());
    schema.add_type(VertexType::new(owned(adapter), owned(DOCUMENT_TYPE), doc_list, no_names()));
    let ghost target = synthesized(store@, adapter@);
    assert(schema@.roots =~= target.roots);
    assert(schema@.interfaces =~= target.interfaces);
    let ghost fixed = seq![file_type(adapter@), directory_type(adapter@), document_type(adapter@)];
    assert(schema@.types =~= fixed);
    let ghost sv = store@;
    let mut i: usize = 0;
    assert(sv.subrange(0, 0) =~= Seq::<(Seq<char>, Seq<DefinitionView>)>::empty());
    assert(fixed + kind_types(sv.subrange(0, 0), adapter@) =~= fixed);
    while i < store.kinds.len()
        invariant
            i <= store.kinds.len(),
            sv == store@,
            schema@.roots == target.roots,
            schema@.interfaces == target.interfaces,
            schema@.types == fixed + kind_types(sv.subrange(0, i as int), adapter@),
        decreases store.kinds.len() - i,
    {
        let ghost before = schema@.types;
        assert(sv.subrange(0, i + 1).drop_last() =~= sv.subrange(0, i as int));
        assert(sv[i as int].1 == crate::definition::versions_view(store.kinds@[i as int].1@));
        if store.kinds[i].1.len() > 0 {
            let t = kind_vertex_type(adapter, store.kinds[i].0.as_str(), &store.kinds[i].1[0]);
            schema.add_type(t);
            assert(schema@.types =~= fixed + kind_types(sv.subrange(0, i + 1), adapter@));
        } else {
            assert(schema@.types =~= fixed + kind_types(sv.subrange(0, i + 1), adapter@));
        }
        i = i + 1;
    }
    assert(sv.subrange(0, sv.len() as int) =~= sv);
    assert(schema@.types =~= target.types);
    schema
}

/// The schema text of backend `adapter` over the definitions `store`, with
/// `directives` declaring the query engine's directives.
pub fn to_schema(store: &DefinitionStore, adapter: &str, directives: &str) -> (r: String)
    ensures
        r@ == schema_text(synthesized(store@, adapter@), directives@),
{
    let schema = synthesize(store, adapter);
    schema.render(directives)
}

/// Synthesis is deterministic: two stores that hold the same versions under
/// every kind name, whatever order their kinds were loaded in, give the same
/// schema text.
pub proof fn lemma_synthesis_deterministic(
    a: Seq<(Seq<char>, Seq<DefinitionView>)>,
    b: Seq<(Seq<char>, Seq<DefinitionView>)>,
    adapter: Seq<char>,
    directives: Seq<char>,
)
    requires
        crate::store::kinds_ordered(a),
        crate::store::kinds_ordered(b),
        forall|k: Seq<char>| crate::keyed::lookup(a, k) == crate::keyed::lookup(b, k),
    ensures
        schema_text(synthesized(a, adapter), directives) == schema_text(synthesized(b, adapter), directives),
{
    crate::store::lemma_same_kinds_same_store(a, b);
}

/// Whether a version declares field `k`.
pub open spec fn declares(fs: Seq<(Seq<char>, FieldKindView)>, k: Seq<char>) -> bool {
    exists|j: int| 0 <= j < fs.len() && (#[trigger] fs[j]).0 == k
}

proof fn lemma_last_value_concat(a: Seq<(Seq<char>, Seq<char>)>, b: Seq<(Seq<char>, Seq<char>)>, k: Seq<char>)
    ensures
        last_value(a + b, k) == if last_value(b, k) is Some {
            last_value(b, k)
        } else {
            last_value(a, k)
        },
    decreases b.len(),
{
    if b.len() == 0 {
        assert(a + b =~= a);
    } else {
        assert((a + b).drop_last() =~= a + b.drop_last());
        assert((a + b).last() == b.last());
        lemma_last_value_concat(a, b.drop_last(), k);
    }
}

proof fn lemma_last_value_declared(fs: Seq<(Seq<char>, FieldKindView)>, k: Seq<char>)
    ensures
        last_value(fs.map_values(|p: (Seq<char>, FieldKindView)| (p.0, "String!"@)), k) == if declares(fs, k) {
            Some("String!"@)
        } else {
            None
        },
    decreases fs.len(),
{
    let m = fs.map_values(|p: (Seq<char>, FieldKindView)| (p.0, "String!"@));
    if fs.len() > 0 {
        let q = fs.drop_last();
        assert(m.drop_last() =~= q.map_values(|p: (Seq<char>, FieldKindView)| (p.0, "String!"@)));
        lemma_last_value_declared(q, k);
        assert(fs[fs.len() - 1] == fs.last());
        if exists|j: int| 0 <= j < q.len() && (#[trigger] q[j]).0 == k {
            let j = choose|j: int| 0 <= j < q.len() && (#[trigger] q[j]).0 == k;
            assert(fs[j] == q[j]);
        }
        if exists|j: int| 0 <= j < fs.len() && (#[trigger] fs[j]).0 == k {
            let j = choose|j: int| 0 <= j < fs.len() && (#[trigger] fs[j]).0 == k;
            if j < q.len() {
                assert(q[j] == fs[j]);
            }
        }
    }
}

/// A record kind's type does not depend on the order its fields were
/// declared in: two versions that declare the same field names give the same
/// type, and so the same schema text.
pub proof fn lemma_kind_type_ignores_field_order(
    adapter: Seq<char>,
    kind: Seq<char>,
    d1: DefinitionView,
    d2: DefinitionView,
)
    requires
        forall|k: Seq<char>| #[trigger] declares(d1.fields, k) == declares(d2.fields, k),
    ensures
        kind_type(adapter, kind, d1) == kind_type(adapter, kind, d2),
        type_text(kind_type(adapter, kind, d1)) == type_text(kind_type(adapter, kind, d2)),
{
    let tail = seq![("_at"@, "String!"@), ("_kind"@, "String!"@)];
    assert forall|k: Seq<char>| last_value(kind_fields(d1), k) == last_value(kind_fields(d2), k) by {
        lemma_last_value_concat(d1.fields.map_values(|p: (Seq<char>, FieldKindView)| (p.0, "String!"@)), tail, k);
        lemma_last_value_concat(d2.fields.map_values(|p: (Seq<char>, FieldKindView)| (p.0, "String!"@)), tail, k);
        lemma_last_value_declared(d1.fields, k);
        lemma_last_value_declared(d2.fields, k);
    }
    lemma_ordered_of(kind_fields(d1));
    lemma_ordered_of(kind_fields(d2));
    lemma_same_ordered(ordered_of(kind_fields(d1)), ordered_of(kind_fields(d2)));
}

} // verus!
