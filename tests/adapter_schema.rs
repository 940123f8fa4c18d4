use plaixt::adapter::{children_from_listing, coerces_to, fs_property_value, Adapter};
use plaixt::definition::parse_definition;
use plaixt::document::{Entry, Node, Scalar, Span};
use plaixt::record::parse_record;
use plaixt::router::{pair_neighbors, pair_properties, rezip, TrustfallMultiAdapter, TrustfallMultiVertex};
use plaixt::schema::{DynamicSchema, StartingVertex, VertexType};
use plaixt::store::DefinitionStore;
use plaixt::synth::{synthesize, to_schema};
use plaixt::value::FieldValue;
use plaixt::vertex::{ExternalDocument, Vertex};

fn sp(offset: usize) -> Span {
    Span { offset, len: 1 }
}

fn text(s: &str) -> Scalar {
    Scalar::String(s.to_string())
}

fn node(name: &str, entries: Vec<Entry>, children: Option<Vec<Node>>) -> Node {
    Node { name: name.to_string(), name_span: sp(0), span: sp(0), entries, children }
}

fn arg(value: Scalar) -> Entry {
    Entry { name: None, value, span: sp(0) }
}

fn prop(name: &str, value: Scalar) -> Entry {
    Entry { name: Some(name.to_string()), value, span: sp(0) }
}

fn store_with_task() -> DefinitionStore {
    let fields = vec![
        node("status", vec![], Some(vec![node("oneOf", vec![arg(text("open")), arg(text("done"))], None)])),
        node("owner", vec![prop("is", text("string"))], None),
    ];
    let later = vec![
        node("status", vec![prop("is", text("string"))], None),
        node("owner", vec![prop("is", text("string"))], None),
        node("priority", vec![prop("is", text("string"))], None),
    ];
    let doc = vec![
        node("define", vec![prop("since", text("2023-01-01"))], Some(vec![node("fields", vec![], Some(later))])),
        node("define", vec![prop("since", text("2020-01-01"))], Some(vec![node("fields", vec![], Some(fields))])),
    ];
    let mut store = DefinitionStore::new();
    store.insert("task".to_string(), parse_definition("task", &doc).unwrap());
    store
}

fn task_adapter() -> Adapter {
    let store = store_with_task();
    let doc = vec![node(
        "task",
        vec![arg(text("2021-06-01"))],
        Some(vec![node("status", vec![arg(text("open"))], None), node("owner", vec![arg(text("kim"))], None)]),
    )];
    let records = parse_record(&doc, &store).unwrap();
    Adapter::new(records, store)
}

#[test]
fn starting_vertex_names() {
    let s = StartingVertex::new("Plaixt".to_string(), "Records".to_string(), "[Plaixt__Record!]!".to_string());
    assert_eq!(s.schema_name(), "Plaixt__Records");
    assert_eq!(s.vertex_type(), "[Plaixt__Record!]!");
}

#[test]
fn vertex_type_text() {
    let t = VertexType::new(
        "A".to_string(),
        "T".to_string(),
        vec![("x".to_string(), "String!".to_string()), ("y".to_string(), "Int".to_string())],
        vec!["A__I".to_string(), "A__J".to_string()],
    );
    assert_eq!(t.schema_name(), "A__T");
    assert_eq!(t.schema_type(), "type A__T implements A__I & A__J { x: String!, y: Int,  }");
    assert_eq!(t.schema_interface(), "interface A__T { x: String!, y: Int,  }");
    let bare = VertexType::new("A".to_string(), "U".to_string(), vec![], vec![]);
    assert_eq!(bare.schema_type(), "type A__U  {  }");
}

#[test]
fn dynamic_schema_collects_in_order() {
    let mut d = DynamicSchema::new();
    d.add_root(StartingVertex::new("A".to_string(), "R".to_string(), "[T!]!".to_string()));
    d.add_type(VertexType::new("A".to_string(), "T".to_string(), vec![], vec![]));
    d.add_type(VertexType::new("A".to_string(), "U".to_string(), vec![], vec![]));
    assert_eq!(d.roots.len(), 1);
    assert_eq!(d.types[1].vertex_name, "U");
    assert_eq!(d.render("D"), "schema { query: RootSchemaQuery }\nD\ntype RootSchemaQuery { A__R: [T!]!, }\ntype A__T  {  }\ntype A__U  {  }\n");
}

#[test]
fn schema_uses_earliest_version() {
    let store = store_with_task();
    let text = to_schema(&store, "Plaixt", "");
    assert!(text.contains("type Plaixt__p_task implements Plaixt__Record { _at: String!, _kind: String!, owner: String!, status: String!,  }"));
    assert!(!text.contains("priority"));
    assert!(text.contains("type RootSchemaQuery { Plaixt__Records: [Plaixt__Record!]!, }"));
    assert!(text.contains("interface Plaixt__Record { _at: String!, _kind: String!,  }"));
    assert!(text.contains("type Plaixt__Directory implements Plaixt__Path { Children: [Plaixt__Path!], basename: String, exists: Boolean!, path: String!,  }"));
}

#[test]
fn schema_synthesis_is_deterministic() {
    let store = store_with_task();
    let a = to_schema(&store, "Plaixt", "directive @filter on FIELD");
    let b = to_schema(&store, "Plaixt", "directive @filter on FIELD");
    assert_eq!(a, b);
    let again = to_schema(&store_with_task(), "Plaixt", "directive @filter on FIELD");
    assert_eq!(a, again);
    assert_eq!(Adapter::new(vec![], store_with_task()).schema("Plaixt", "directive @filter on FIELD"), a);
}

#[test]
fn kinds_without_versions_get_no_type() {
    let mut store = store_with_task();
    store.insert("empty".to_string(), vec![]);
    let s = synthesize(&store, "Plaixt");
    assert_eq!(s.types.len(), 4);
}

#[test]
fn custom_vertices_of_a_definition() {
    let store = store_with_task();
    let d = &store.versions("task").unwrap()[0];
    let cv = d.to_custom_vertices("Plaixt");
    assert_eq!(cv.len(), 1);
    assert_eq!(cv[0].name, "Plaixt__p_task");
    assert!(cv[0].definition.starts_with("type Plaixt__p_task implements Plaixt__Record {"));
}

#[test]
fn record_typename_is_its_kind_type() {
    let adapter = task_adapter();
    let vs = adapter.resolve_starting_vertices("Records");
    assert_eq!(vs.len(), 1);
    assert_eq!(vs[0].typename(), "p_task");
    let values = adapter.resolve_property(&vec![Some(vs.into_iter().next().unwrap())], "p_task", "__typename");
    assert_eq!(values, vec![FieldValue::String("p_task".to_string())]);
}

#[test]
fn record_properties() {
    let adapter = task_adapter();
    let v = adapter.resolve_starting_vertices("Records").into_iter().next().unwrap();
    let batch = vec![Some(v), None];
    assert_eq!(adapter.resolve_property(&batch, "p_task", "_at"), vec![FieldValue::String("2021-06-01T00:00:00Z".to_string()), FieldValue::Null]);
    assert_eq!(adapter.resolve_property(&batch, "Record", "_kind")[0], FieldValue::String("task".to_string()));
    assert_eq!(adapter.resolve_property(&batch, "p_task", "owner")[0], FieldValue::String("kim".to_string()));
}

#[test]
fn request_checks_follow_the_schema() {
    let adapter = task_adapter();
    let v = adapter.resolve_starting_vertices("Records").into_iter().next().unwrap();
    assert!(adapter.property_request_ok(&v, "p_task", "status"));
    assert!(!adapter.property_request_ok(&v, "p_task", "priority"));
    assert!(!adapter.property_request_ok(&v, "p_note", "_at"));
    assert!(adapter.property_request_ok(&v, "p_note", "__typename"));
    assert!(adapter.is_known_type("p_task"));
    assert!(!adapter.is_known_type("p_"));
    assert!(!adapter.is_known_type("Query"));
    let f = Vertex::File("a/b.txt".to_string());
    assert!(adapter.property_request_ok(&f, "File", "extension"));
    assert!(adapter.property_request_ok(&f, "Path", "exists"));
    assert!(!adapter.property_request_ok(&f, "Directory", "path"));
    assert!(adapter.property_declared("p_task", "owner"));
    assert!(!adapter.property_declared("p_task", "priority"));
    assert!(adapter.property_declared("Record", "_at"));
    assert!(!adapter.property_declared("Record", "owner"));
    assert!(!adapter.property_declared("Query", "x"));
    assert!(adapter.edge_declared("Directory", "Children"));
    assert!(!adapter.edge_declared("p_task", "owner"));
}

#[test]
fn filesystem_properties() {
    let adapter = Adapter::new(vec![], DefinitionStore::new());
    let batch = vec![Some(Vertex::File("notes/todo.txt".to_string())), Some(Vertex::File("notes/README".to_string()))];
    assert_eq!(
        adapter.resolve_property(&batch, "File", "basename"),
        vec![FieldValue::String("todo.txt".to_string()), FieldValue::String("README".to_string())]
    );
    assert_eq!(adapter.resolve_property(&batch, "File", "extension"), vec![FieldValue::String("txt".to_string()), FieldValue::Null]);
    assert_eq!(adapter.resolve_property(&batch, "Path", "path")[1], FieldValue::String("notes/README".to_string()));
    assert_eq!(fs_property_value("/", "basename", false), FieldValue::Null);
    assert_eq!(fs_property_value("a/b.tar.gz", "extension", false), FieldValue::String("gz".to_string()));
    assert_eq!(fs_property_value("x", "exists", true), FieldValue::Boolean(true));
    assert_eq!(fs_property_value("home/.bashrc", "extension", false), FieldValue::Null);
    assert_eq!(fs_property_value("home/.config.toml", "extension", false), FieldValue::String("toml".to_string()));
    assert_eq!(fs_property_value("a/b.", "extension", false), FieldValue::String("".to_string()));
    assert_eq!(fs_property_value("a/..", "extension", false), FieldValue::Null);
    let missing = vec![Some(Vertex::Directory("/no/such/place/at/all".to_string()))];
    assert_eq!(adapter.resolve_property(&missing, "Directory", "exists"), vec![FieldValue::Boolean(false)]);
}

#[test]
fn document_properties() {
    let adapter = Adapter::new(vec![], DefinitionStore::new());
    let doc = ExternalDocument {
        id: 7,
        title: "Invoice".to_string(),
        content: "total".to_string(),
        created: "2024-01-02".to_string(),
        added: "2024-01-03".to_string(),
        archive_serial_number: None,
    };
    let batch = vec![Some(Vertex::PaperlessDocument(doc))];
    assert_eq!(adapter.resolve_property(&batch, "PaperlessDocument", "id"), vec![FieldValue::Uint64(7)]);
    assert_eq!(adapter.resolve_property(&batch, "PaperlessDocument", "title"), vec![FieldValue::String("Invoice".to_string())]);
    assert_eq!(adapter.resolve_property(&batch, "PaperlessDocument", "archive_serial_number"), vec![FieldValue::Null]);
    assert_eq!(adapter.resolve_property(&batch, "PaperlessDocument", "__typename"), vec![FieldValue::String("PaperlessDocument".to_string())]);
}

#[test]
fn directory_children_in_listing_order() {
    let listing = Some(vec![Some("d/a.txt".to_string()), None, Some("d/b".to_string())]);
    let children = children_from_listing(listing);
    assert_eq!(children.len(), 2);
    assert!(matches!(&children[0], Vertex::Path(p) if p == "d/a.txt"));
    assert!(matches!(&children[1], Vertex::Path(p) if p == "d/b"));
}

#[test]
fn missing_directory_has_no_children() {
    assert!(children_from_listing(None).is_empty());
    let adapter = Adapter::new(vec![], DefinitionStore::new());
    let batch = vec![Some(Vertex::Directory("/no/such/place/at/all".to_string())), None];
    let out = adapter.resolve_neighbors(&batch, "Directory", "Children");
    assert_eq!(out.len(), 2);
    assert!(out[0].is_empty());
    assert!(out[1].is_empty());
}

#[test]
fn coercion_follows_subtypes() {
    let adapter = task_adapter();
    let rec = adapter.resolve_starting_vertices("Records").into_iter().next().unwrap();
    assert!(coerces_to(&rec, "p_task"));
    assert!(coerces_to(&rec, "Record"));
    assert!(!coerces_to(&rec, "Path"));
    let file = Vertex::File("x".to_string());
    assert!(coerces_to(&file, "File"));
    assert!(coerces_to(&file, "Path"));
    assert!(!coerces_to(&file, "Directory"));
    let path = Vertex::Path("x".to_string());
    assert!(!coerces_to(&path, "File"));
    let batch = vec![Some(rec), Some(file), None];
    assert_eq!(adapter.resolve_coercion(&batch, "Record"), vec![true, false, false]);
}

#[test]
fn router_routes_registered_prefixes() {
    let multi = TrustfallMultiAdapter::new(task_adapter());
    assert_eq!(multi.route("Plaixt__p_task"), Some((0, "p_task")));
    assert_eq!(multi.route("Plaixt__"), Some((0, "")));
    assert_eq!(multi.route("Other__p_task"), None);
    assert_eq!(multi.route("Plaixt_p_task"), None);
    assert_eq!(multi.route("Plaixt"), None);
}

#[test]
fn router_keeps_context_pairing() {
    let multi = TrustfallMultiAdapter::new(task_adapter());
    let starts = multi.resolve_starting_vertices("Plaixt__Records");
    assert_eq!(starts.len(), 1);
    let rec = starts.into_iter().next().unwrap();
    assert!(matches!(rec.as_plaixt(), Some(Vertex::Record(_))));
    let contexts = vec!["first", "second", "third"];
    let vertices = vec![None, Some(rec), Some(TrustfallMultiVertex::Plaixt(Vertex::File("f".to_string())))];
    let out = multi.resolve_property(contexts, vertices, "Plaixt__Path", "__typename");
    assert_eq!(out.len(), 3);
    assert_eq!(out[0], ("first", FieldValue::Null));
    assert_eq!(out[1], ("second", FieldValue::String("Plaixt__p_task".to_string())));
    assert_eq!(out[2], ("third", FieldValue::String("Plaixt__File".to_string())));
}

#[test]
fn router_coercion_and_neighbors() {
    let multi = TrustfallMultiAdapter::new(task_adapter());
    let rec = multi.resolve_starting_vertices("Plaixt__Records").into_iter().next().unwrap();
    let out = multi.resolve_coercion(vec![1, 2], vec![Some(rec), None], "Plaixt__Record");
    assert_eq!(out, vec![(1, true), (2, false)]);
    let dirs = vec![Some(TrustfallMultiVertex::Plaixt(Vertex::Directory("/no/such/place/at/all".to_string())))];
    let n = multi.resolve_neighbors(vec!['a'], dirs, "Plaixt__Directory", "Children");
    assert_eq!(n.len(), 1);
    assert_eq!(n[0].0, 'a');
    assert!(n[0].1.is_empty());
}

#[test]
fn rezip_pairs_by_position() {
    assert_eq!(rezip(vec![3, 1, 2], vec!["c", "a", "b"]), vec![(3, "c"), (1, "a"), (2, "b")]);
    assert!(rezip(Vec::<u8>::new(), Vec::<u8>::new()).is_empty());
}

fn one_field_kind(kind: &str, field: &str) -> Vec<plaixt::definition::Definition> {
    let doc = vec![node(
        "define",
        vec![prop("since", text("2020-01-01"))],
        Some(vec![node("fields", vec![], Some(vec![node(field, vec![prop("is", text("string"))], None)]))]),
    )];
    parse_definition(kind, &doc).unwrap()
}

#[test]
fn store_orders_kinds_by_name() {
    let mut store = DefinitionStore::new();
    store.insert("note".to_string(), one_field_kind("note", "body"));
    store.insert("book".to_string(), one_field_kind("book", "title"));
    store.insert("movie".to_string(), one_field_kind("movie", "title"));
    let names: Vec<&str> = store.kinds.iter().map(|k| k.0.as_str()).collect();
    assert_eq!(names, vec!["book", "movie", "note"]);
    store.insert("movie".to_string(), one_field_kind("movie", "year"));
    let names: Vec<&str> = store.kinds.iter().map(|k| k.0.as_str()).collect();
    assert_eq!(names, vec!["book", "movie", "note"]);
    assert_eq!(store.versions("movie").unwrap()[0].fields[0].0, "year");
}

#[test]
fn schema_text_ignores_load_order() {
    let mut first = DefinitionStore::new();
    first.insert("note".to_string(), one_field_kind("note", "body"));
    first.insert("book".to_string(), one_field_kind("book", "title"));
    let mut second = DefinitionStore::new();
    second.insert("book".to_string(), one_field_kind("book", "title"));
    second.insert("note".to_string(), one_field_kind("note", "body"));
    let a = to_schema(&first, "Plaixt", "");
    assert_eq!(a, to_schema(&second, "Plaixt", ""));
    assert!(a.find("Plaixt__p_book").unwrap() < a.find("Plaixt__p_note").unwrap());
}

#[test]
fn query_engine_accepts_the_schema() {
    let mut store = store_with_task();
    store.insert("book".to_string(), one_field_kind("book", "title"));
    let text = to_schema(&store, "Plaixt", trustfall::Schema::ALL_DIRECTIVE_DEFINITIONS);
    let schema = trustfall::Schema::parse(&text);
    assert!(schema.is_ok(), "{:?}\n{}", schema.err(), text);
}

#[test]
fn vertex_type_fields_ignore_given_order() {
    let pair = |a: &str, b: &str| (a.to_string(), b.to_string());
    let t1 = VertexType::new("A".to_string(), "T".to_string(), vec![pair("b", "y"), pair("a", "x")], vec![]);
    let t2 = VertexType::new("A".to_string(), "T".to_string(), vec![pair("a", "x"), pair("b", "y")], vec![]);
    assert_eq!(t1.schema_type(), t2.schema_type());
    assert_eq!(t1.schema_type(), "type A__T  { a: x, b: y,  }");
    let t3 = VertexType::new("A".to_string(), "T".to_string(), vec![pair("a", "z"), pair("b", "y"), pair("a", "x")], vec![]);
    assert_eq!(t3.schema_type(), t1.schema_type());
}

#[test]
fn schema_text_ignores_field_declaration_order() {
    let decl = |names: &[&str]| {
        let fields = names.iter().map(|n| node(n, vec![prop("is", text("string"))], None)).collect();
        let doc = vec![node(
            "define",
            vec![prop("since", text("2020-01-01"))],
            Some(vec![node("fields", vec![], Some(fields))]),
        )];
        let mut store = DefinitionStore::new();
        store.insert("k".to_string(), parse_definition("k", &doc).unwrap());
        to_schema(&store, "Plaixt", "")
    };
    assert_eq!(decl(&["a", "b"]), decl(&["b", "a"]));
    assert!(decl(&["b", "a"]).contains("{ _at: String!, _kind: String!, a: String!, b: String!,  }"));
}

#[test]
fn neighbor_lists_stay_with_their_contexts() {
    let lists = vec![
        vec![Vertex::Path("d/a".to_string()), Vertex::Path("d/b".to_string())],
        vec![],
        vec![Vertex::Path("e/c".to_string())],
    ];
    let out = pair_neighbors(vec!["x", "y", "z"], lists);
    assert_eq!(out.len(), 3);
    let names: Vec<(&str, Vec<String>)> = out
        .iter()
        .map(|(c, vs)| {
            let ps = vs
                .iter()
                .map(|v| match v {
                    TrustfallMultiVertex::Plaixt(Vertex::Path(p)) => p.clone(),
                    other => panic!("unexpected {other:?}"),
                })
                .collect();
            (*c, ps)
        })
        .collect();
    assert_eq!(
        names,
        vec![
            ("x", vec!["d/a".to_string(), "d/b".to_string()]),
            ("y", vec![]),
            ("z", vec!["e/c".to_string()]),
        ]
    );
}

#[test]
fn property_values_stay_with_their_contexts() {
    let values = vec![FieldValue::Boolean(true), FieldValue::Null, FieldValue::Boolean(false)];
    assert_eq!(
        pair_properties(vec![1, 2, 3], values, false),
        vec![(1, FieldValue::Boolean(true)), (2, FieldValue::Null), (3, FieldValue::Boolean(false))]
    );
    let names = vec![FieldValue::String("File".to_string()), FieldValue::Null];
    assert_eq!(
        pair_properties(vec!['a', 'b'], names, true),
        vec![('a', FieldValue::String("Plaixt__File".to_string())), ('b', FieldValue::Null)]
    );
}
