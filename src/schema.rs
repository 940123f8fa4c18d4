//! Synthesis of the query schema: the entry points and types of one backend,
//! each schema-visible name prefixed with the backend's name and a fixed
//! separator, rendered as schema text.
use crate::definition::{Definition, DefinitionView};
use crate::store::DefinitionStore;
use crate::keyed::{
    keys, last_value, lemma_name_index, lemma_ordered_of, lemma_put_position, lemma_same_ordered, name_index, names_of, names_ordered, ordered_of, put, put_ordered,
};
use crate::text::{joined_with, owned};
use vstd::prelude::*;

verus! {

/// What separates a backend's name from a backend-local name.
pub const ADAPTER_SEP: &'static str = "__";

/// A schema-visible name: the backend's name, the separator, the local name.
pub open spec fn prefixed(adapter: Seq<char>, name: Seq<char>) -> Seq<char> {
    adapter + ADAPTER_SEP@ + name
}

/// Builds `adapter + ADAPTER_SEP + name`.
pub fn prefixed_name(adapter: &str, name: &str) -> (r: String)
    ensures
        r@ == prefixed(adapter@, name@),
{
    let mut s = owned(adapter);
    s.append(ADAPTER_SEP);
    s.append(name);
    s
}

/// An entry point of a backend: its local name and the type it yields.
#[derive(Debug, Default)]
pub struct StartingVertex {
    pub adapter_name: String,
    pub start_vertex_name: String,
    pub vertex_type: String,
}

/// An entry point as a mathematical value.
pub struct StartingVertexView {
    pub adapter: Seq<char>,
    pub name: Seq<char>,
    pub ty: Seq<char>,
}

impl View for StartingVertex {
    type V = StartingVertexView;

    open spec fn view(&self) -> StartingVertexView {
        StartingVertexView {
            adapter: self.adapter_name@,
            name: self.start_vertex_name@,
            ty: self.vertex_type@,
        }
    }
}

impl StartingVertex {
    /// An entry point `start_vertex_name` of backend `adapter_name`.
    pub fn new(adapter_name: String, start_vertex_name: String, start_vertex_type: String) -> (r: Self)
        ensures
            r@ == (StartingVertexView {
                adapter: adapter_name@,
                name: start_vertex_name@,
                ty: start_vertex_type@,
            }),
    {
        StartingVertex { adapter_name, start_vertex_name, vertex_type: start_vertex_type }
    }

    /// The entry point's schema-visible name.
    pub fn schema_name(&self) -> (r: String)
        ensures
            r@ == prefixed(self@.adapter, self@.name),
    {
        prefixed_name(self.adapter_name.as_str(), self.start_vertex_name.as_str())
    }

    /// The type text of what the entry point yields.
    pub fn vertex_type(&self) -> (r: &str)
        ensures
            r@ == self@.ty,
    {
        self.vertex_type.as_str()
    }
}

/// A type of a backend: its local name, its fields with their type text, and
/// the schema-visible names of the interfaces it implements.
#[derive(Debug, Default)]
pub struct VertexType {
    pub adapter_name: String,
    pub vertex_name: String,
    pub vertex_fields: Vec<(String, String)>,
    pub implements: Vec<String>,
}

/// A type as a mathematical value.
pub struct VertexTypeView {
    pub adapter: Seq<char>,
    pub name: Seq<char>,
    pub fields: Seq<(Seq<char>, Seq<char>)>,
    pub implements: Seq<Seq<char>>,
}

/// The view of a list of fields with their type text.
pub open spec fn pairs_view(v: Seq<(String, String)>) -> Seq<(Seq<char>, Seq<char>)> {
    v.map_values(|p: (String, String)| (p.0@, p.1@))
}

/// The view of a list of strings.
pub open spec fn strings_view(v: Seq<String>) -> Seq<Seq<char>> {
    v.map_values(|s: String| s@)
}

impl View for VertexType {
    type V = VertexTypeView;

    open spec fn view(&self) -> VertexTypeView {
        VertexTypeView {
            adapter: self.adapter_name@,
            name: self.vertex_name@,
            fields: pairs_view(self.vertex_fields@),
            implements: strings_view(self.implements@),
        }
    }
}

/// `name: type, ` for each field, in order.
pub open spec fn fields_text(fs: Seq<(Seq<char>, Seq<char>)>) -> Seq<char>
    decreases fs.len(),
{
    if fs.len() == 0 {
        Seq::empty()
    } else {
        fields_text(fs.drop_last()) + fs.last().0 + ": "@ + fs.last().1 + ", "@
    }
}

/// The names joined by ` & `.
pub open spec fn joined(ns: Seq<Seq<char>>) -> Seq<char> {
    joined_with(ns, " & "@)
}

/// The `implements` clause: empty where there is no interface.
pub open spec fn implements_text(ns: Seq<Seq<char>>) -> Seq<char> {
    if ns.len() == 0 {
        Seq::empty()
    } else {
        "implements "@ + joined(ns)
    }
}

/// The declaration of a type.
pub open spec fn type_text(t: VertexTypeView) -> Seq<char> {
    "type "@ + prefixed(t.adapter, t.name) + " "@ + implements_text(t.implements) + " { "@
        + fields_text(t.fields) + " }"@
}

/// The declaration of an interface.
pub open spec fn interface_text(t: VertexTypeView) -> Seq<char> {
    "interface "@ + prefixed(t.adapter, t.name) + " { "@ + fields_text(t.fields) + " }"@
}

fn render_fields(fs: &Vec<(String, String)>) -> (r: String)
    ensures
        r@ == fields_text(pairs_view(fs@)),
{
    let ghost v = pairs_view(fs@);
    let mut out = String::new();
    let mut i: usize = 0;
    assert(v.subrange(0, 0) =~= Seq::<(Seq<char>, Seq<char>)>::empty());
    while i < fs.len()
        invariant
            i <= fs.len(),
            v == pairs_view(fs@),
            out@ == fields_text(v.subrange(0, i as int)),
        decreases fs.len() - i,
    {
        assert(v.subrange(0, i + 1).drop_last() =~= v.subrange(0, i as int));
        out.append(fs[i].0.as_str());
        out.append(": ");
        out.append(fs[i].1.as_str());
        out.append(", ");
        i = i + 1;
    }
    assert(v.subrange(0, fs.len() as int) =~= v);
    out
}

fn render_implements(ns: &Vec<String>) -> (r: String)
    ensures
        r@ == implements_text(strings_view(ns@)),
{
    let ghost v = strings_view(ns@);
    if ns.len() == 0 {
        return String::new();
    }
    let mut out = owned("implements ");
    out.append(ns[0].as_str());
    let mut i: usize = 1;
    assert(v.subrange(0, 1).len() == 1);
    while i < ns.len()
        invariant
            1 <= i <= ns.len(),
            v == strings_view(ns@),
            out@ == "implements "@ + joined(v.subrange(0, i as int)),
        decreases ns.len() - i,
    {
        assert(v.subrange(0, i + 1).drop_last() =~= v.subrange(0, i as int));
        out.append(" & ");
        out.append(ns[i].as_str());
        assert(out@ =~= "implements "@ + joined(v.subrange(0, i + 1)));
        i = i + 1;
    }
    assert(v.subrange(0, ns.len() as int) =~= v);
    out
}

impl VertexType {
    /// A type `vertex_name` of backend `adapter_name`. Its fields are kept
    /// ordered by name, a name given twice keeping its last type, so the
    /// order they are given in leaves no trace.
    pub fn new(
        adapter_name: String,
        vertex_name: String,
        vertex_fields: Vec<(String, String)>,
        implements: Vec<String>,
    ) -> (r: Self)
        ensures
            r@ == (VertexTypeView {
                adapter: adapter_name@,
                name: vertex_name@,
                fields: ordered_of(pairs_view(vertex_fields@)),
                implements: strings_view(implements@),
            }),
    {
        let ghost input = pairs_view(vertex_fields@);
        let mut fields: Vec<(String, String)> = Vec::new();
        let mut i: usize = 0;
        assert(input.subrange(0, 0) =~= Seq::<(Seq<char>, Seq<char>)>::empty());
        assert(names_of(fields@) =~= Seq::<Seq<char>>::empty());
        while i < vertex_fields.len()
            invariant
                i <= vertex_fields.len(),
                input == pairs_view(vertex_fields@),
                pairs_view(fields@) == ordered_of(input.subrange(0, i as int)),
                names_ordered(names_of(fields@)),
            decreases vertex_fields.len() - i,
        {
            let ghost before = fields@;
            assert(input.subrange(0, i + 1).drop_last() =~= input.subrange(0, i as int));
            assert(keys(pairs_view(before)) =~= names_of(before));
            let name = vertex_fields[i].0.clone();
            let ty = vertex_fields[i].1.clone();
            proof {
                lemma_name_index(names_of(before), name@);
                if name_index(names_of(before), name@) is None {
                    lemma_put_position(names_of(before), name@);
                }
            }
            put_ordered(&mut fields, name, ty);
            assert(pairs_view(fields@) =~= put(pairs_view(before), name@, ty@));
            i = i + 1;
        }
        assert(input.subrange(0, vertex_fields.len() as int) =~= input);
        VertexType { adapter_name, vertex_name, vertex_fields: fields, implements }
    }

    /// The type's schema-visible name.
    pub fn schema_name(&self) -> (r: String)
        ensures
            r@ == prefixed(self@.adapter, self@.name),
    {
        prefixed_name(self.adapter_name.as_str(), self.vertex_name.as_str())
    }

    /// The declaration of this type.
    pub fn schema_type(&self) -> (r: String)
        ensures
            r@ == type_text(self@),
    {
        let mut out = owned("type ");
        let name = self.schema_name();
        out.append(name.as_str());
        out.append(" ");
        let impls = render_implements(&self.implements);
        out.append(impls.as_str());
        out.append(" { ");
        let fields = render_fields(&self.vertex_fields);
        out.append(fields.as_str());
        out.append(" }");
        out
    }

    /// The declaration of this type as an interface.
    pub fn schema_interface(&self) -> (r: String)
        ensures
            r@ == interface_text(self@),
    {
        let mut out = owned("interface ");
        let name = self.schema_name();
        out.append(name.as_str());
        out.append(" { ");
        let fields = render_fields(&self.vertex_fields);
        out.append(fields.as_str());
        out.append(" }");
        out
    }
}

/// The entry points, interfaces and types of a schema under construction.
#[derive(Debug, Default)]
pub struct DynamicSchema {
    pub roots: Vec<StartingVertex>,
    pub interfaces: Vec<VertexType>,
    pub types: Vec<VertexType>,
}

/// A schema under construction as a mathematical value.
pub struct DynamicSchemaView {
    pub roots: Seq<StartingVertexView>,
    pub interfaces: Seq<VertexTypeView>,
    pub types: Seq<VertexTypeView>,
}

impl View for DynamicSchema {
    type V = DynamicSchemaView;

    open spec fn view(&self) -> DynamicSchemaView {
        DynamicSchemaView {
            roots: self.roots@.map_values(|r: StartingVertex| r@),
            interfaces: self.interfaces@.map_values(|t: VertexType| t@),
            types: self.types@.map_values(|t: VertexType| t@),
        }
    }
}

impl DynamicSchema {
    /// An empty schema.
    pub fn new() -> (r: Self)
        ensures
            r@ == (DynamicSchemaView { roots: Seq::empty(), interfaces: Seq::empty(), types: Seq::empty() }),
    {
        let r = DynamicSchema { roots: Vec::new(), interfaces: Vec::new(), types: Vec::new() };
        assert(r@.roots =~= Seq::empty());
        assert(r@.interfaces =~= Seq::empty());
        assert(r@.types =~= Seq::empty());
        r
    }

    /// Adds an entry point after the others.
    pub fn add_root(&mut self, root: StartingVertex)
        ensures
            final(self)@ == (DynamicSchemaView { roots: old(self)@.roots.push(root@), ..old(self)@ }),
    {
        self.roots.push(root);
        assert(self@.roots =~= old(self)@.roots.push(root@));
    }

    /// Adds an interface after the others.
    pub fn add_interface(&mut self, kind: VertexType)
        ensures
            final(self)@ == (DynamicSchemaView { interfaces: old(self)@.interfaces.push(kind@), ..old(self)@ }),
    {
        self.interfaces.push(kind);
        assert(self@.interfaces =~= old(self)@.interfaces.push(kind@));
    }

    /// Adds a type after the others.
    pub fn add_type(&mut self, kind: VertexType)
        ensures
            final(self)@ == (DynamicSchemaView { types: old(self)@.types.push(kind@), ..old(self)@ }),
    {
        self.types.push(kind);
        assert(self@.types =~= old(self)@.types.push(kind@));
    }
}

/// A type's declaration does not depend on the order its fields are given
/// in: two field lists that give every name the same last type give the same
/// text.
pub proof fn lemma_type_text_ignores_field_order(
    adapter: Seq<char>,
    name: Seq<char>,
    f1: Seq<(Seq<char>, Seq<char>)>,
    f2: Seq<(Seq<char>, Seq<char>)>,
    implements: Seq<Seq<char>>,
)
    requires
        forall|k: Seq<char>| last_value(f1, k) == last_value(f2, k),
    ensures
        type_text(VertexTypeView { adapter, name, fields: ordered_of(f1), implements }) == type_text(
            VertexTypeView { adapter, name, fields: ordered_of(f2), implements },
        ),
{
    lemma_ordered_of(f1);
    lemma_ordered_of(f2);
    lemma_same_ordered(ordered_of(f1), ordered_of(f2));
}

} // verus!
