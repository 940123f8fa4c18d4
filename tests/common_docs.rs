use plaixt::definition::{parse_definition, Definition, DefinitionKind};
use plaixt::document::{Entry, Node, Scalar, Span};
use plaixt::error::ErrorKind;
use plaixt::record::{parse_record, Record};
use plaixt::store::{active_version, DefinitionStore};
use plaixt::timestamp::{parse_timestamp, Timestamp};
use plaixt::value::FieldValue;

fn sp(offset: usize) -> Span {
    Span { offset, len: 1 }
}

fn text(s: &str) -> Scalar {
    Scalar::String(s.to_string())
}

fn arg(value: Scalar, at: usize) -> Entry {
    Entry { name: None, value, span: sp(at) }
}

fn prop(name: &str, value: Scalar, at: usize) -> Entry {
    Entry { name: Some(name.to_string()), value, span: sp(at) }
}

fn node(name: &str, at: usize, entries: Vec<Entry>, children: Option<Vec<Node>>) -> Node {
    Node { name: name.to_string(), name_span: sp(at), span: Span { offset: at, len: 10 }, entries, children }
}

fn is_field(name: &str, kind: &str, at: usize) -> Node {
    node(name, at, vec![prop("is", text(kind), at + 1)], None)
}

fn one_of_field(name: &str, options: &[&str], at: usize) -> Node {
    let entries = options.iter().enumerate().map(|(i, o)| arg(text(o), at + 2 + i)).collect();
    node(name, at, vec![], Some(vec![node("oneOf", at + 1, entries, None)]))
}

fn define(since: &str, fields: Vec<Node>, at: usize) -> Node {
    node(
        "define",
        at,
        vec![prop("since", text(since), at + 1)],
        Some(vec![node("fields", at + 2, vec![], Some(fields))]),
    )
}

/// `task`: version A from 2020 with a `status` choice, version B from 2023
/// adding a free `priority`. B is written first.
fn task_definitions() -> Vec<Definition> {
    let doc = vec![
        define(
            "2023-01-01",
            vec![one_of_field("status", &["open", "done"], 200), is_field("priority", "string", 220)],
            100,
        ),
        define("2020-01-01", vec![one_of_field("status", &["open", "done"], 20)], 0),
    ];
    parse_definition("task", &doc).unwrap()
}

fn task_store() -> DefinitionStore {
    let mut store = DefinitionStore::new();
    store.insert("task".to_string(), task_definitions());
    store
}

fn field(name: &str, value: &str, at: usize) -> Node {
    node(name, at, vec![arg(text(value), at + 1)], None)
}

fn record(at_text: &str, fields: Vec<Node>, at: usize) -> Node {
    node("task", at, vec![arg(text(at_text), at + 1)], Some(fields))
}

fn err_kind<T: std::fmt::Debug>(r: Result<T, plaixt::error::ParseError>) -> (ErrorKind, usize) {
    let e = r.unwrap_err();
    (e.kind, e.span.offset)
}

#[test]
fn versions_are_sorted_by_since() {
    let defs = task_definitions();
    assert_eq!(defs.len(), 2);
    assert_eq!(defs[0].since.second, 1577836800);
    assert_eq!(defs[1].since.second, 1672531200);
    assert_eq!(defs[0].fields.len(), 1);
    assert_eq!(defs[1].fields.len(), 2);
    assert_eq!(defs[1].fields[1].0, "priority");
    assert!(matches!(defs[1].fields[1].1, DefinitionKind::String));
    match &defs[0].fields[0].1 {
        DefinitionKind::OneOf(v) => assert_eq!(v, &vec!["open".to_string(), "done".to_string()]),
        _ => panic!("expected a choice"),
    }
}

#[test]
fn equal_since_keeps_document_order() {
    let doc = vec![
        define("2020-01-01", vec![is_field("a", "string", 10)], 0),
        define("2020-01-01", vec![is_field("b", "string", 30)], 20),
    ];
    let defs = parse_definition("k", &doc).unwrap();
    assert_eq!(defs[0].fields[0].0, "a");
    assert_eq!(defs[1].fields[0].0, "b");
}

#[test]
fn redeclared_field_takes_new_kind_in_place() {
    let doc = vec![define(
        "2020-01-01",
        vec![one_of_field("a", &["x"], 10), is_field("b", "string", 20), is_field("a", "STRING", 30)],
        0,
    )];
    let defs = parse_definition("k", &doc).unwrap();
    assert_eq!(defs[0].fields.len(), 2);
    assert_eq!(defs[0].fields[0].0, "a");
    assert!(matches!(defs[0].fields[0].1, DefinitionKind::String));
}

#[test]
fn active_version_picks_greatest_since_not_later() {
    let defs = task_definitions();
    let t = |s: &str| parse_timestamp(s).unwrap();
    assert_eq!(active_version(&defs, &t("2021-06-01")), 0);
    assert_eq!(active_version(&defs, &t("2023-01-01")), 1);
    assert_eq!(active_version(&defs, &t("2024-01-01")), 1);
    assert_eq!(active_version(&defs, &t("2022-12-31T23:59:59")), 0);
}

#[test]
fn active_version_before_every_since_is_the_earliest() {
    let defs = task_definitions();
    assert_eq!(active_version(&defs, &parse_timestamp("1999-01-01").unwrap()), 0);
}

#[test]
fn scenario_versioned_task() {
    let store = task_store();
    let ok = parse_record(&vec![record("2021-06-01", vec![field("status", "open", 10)], 0)], &store).unwrap();
    assert_eq!(ok.len(), 1);
    assert_eq!(ok[0].kind, "task");
    assert_eq!(ok[0].at, Timestamp { second: 1622505600, nanosecond: 0 });
    assert_eq!(ok[0].fields, vec![("status".to_string(), text("open"))]);

    let early = vec![record("2021-06-01", vec![field("status", "open", 10), field("priority", "high", 20)], 0)];
    assert_eq!(err_kind(parse_record(&early, &store)), (ErrorKind::Validation, 20));

    let late = vec![record("2024-01-01", vec![field("priority", "high", 10), field("status", "done", 20)], 0)];
    let recs = parse_record(&late, &store).unwrap();
    assert_eq!(recs[0].fields.len(), 2);
    assert_eq!(recs[0].fields[0], ("priority".to_string(), text("high")));
}

#[test]
fn choice_violation_is_a_validation_error() {
    let store = task_store();
    let doc = vec![record("2021-06-01", vec![field("status", "Open", 10)], 0)];
    assert_eq!(err_kind(parse_record(&doc, &store)), (ErrorKind::Validation, 10));
    assert_eq!(
        parse_record(&doc, &store).unwrap_err().message,
        "This field has the wrong kind. Expected one of: open, done"
    );
    let non_string = vec![node(
        "task",
        0,
        vec![arg(text("2021-06-01"), 1)],
        Some(vec![node("status", 30, vec![arg(Scalar::Integer(3), 31)], None)]),
    )];
    assert_eq!(err_kind(parse_record(&non_string, &store)), (ErrorKind::Validation, 30));
}

#[test]
fn record_errors() {
    let store = task_store();
    let unknown = vec![node("note", 5, vec![arg(text("2021-06-01"), 6)], None)];
    assert_eq!(err_kind(parse_record(&unknown, &store)), (ErrorKind::Reference, 5));
    let no_at = vec![node("task", 5, vec![prop("x", text("2021-06-01"), 6)], None)];
    assert_eq!(err_kind(parse_record(&no_at, &store)), (ErrorKind::Shape, 5));
    let int_at = vec![node("task", 5, vec![arg(Scalar::Integer(2021), 6)], None)];
    assert_eq!(err_kind(parse_record(&int_at, &store)), (ErrorKind::Type, 6));
    let bad_at = vec![node("task", 5, vec![arg(text("June 1st"), 6)], None)];
    assert_eq!(err_kind(parse_record(&bad_at, &store)), (ErrorKind::Temporal, 6));
    let no_value = vec![record("2021-06-01", vec![node("status", 40, vec![], None)], 0)];
    assert_eq!(err_kind(parse_record(&no_value, &store)), (ErrorKind::Shape, 40));
}

#[test]
fn record_round_trips_its_scalars() {
    let store = task_store();
    let recs = parse_record(
        &vec![
            record("2024-01-01", vec![field("priority", "a \"quoted\" text", 10)], 0),
            record("2021-06-01T08:30:00", vec![field("status", "done", 60)], 50),
        ],
        &store,
    )
    .unwrap();
    assert_eq!(recs.len(), 2);
    for (rec, expected) in recs.iter().zip(["a \"quoted\" text", "done"]) {
        let v = FieldValue::from_scalar(&rec.fields[0].1);
        assert_eq!(v, FieldValue::String(expected.to_string()));
        assert_eq!(v.to_scalar(), Some(text(expected)));
    }
    assert_eq!(recs[1].at.second, 1622536200);
}

#[test]
fn scalar_round_trip_keeps_kind_and_value() {
    for s in [Scalar::Integer(-42), Scalar::Bool(true), Scalar::Null, Scalar::Float(0x400921fb54442d18), text("x")] {
        let v = FieldValue::from_scalar(&s);
        assert_eq!(v.to_scalar(), Some(s.clone()));
    }
    assert_eq!(FieldValue::from_scalar(&Scalar::Integer(7)), FieldValue::Int64(7));
    assert_eq!(FieldValue::from_scalar(&Scalar::Bool(false)), FieldValue::Boolean(false));
}

#[test]
fn definition_errors() {
    let unknown = vec![node("defin", 3, vec![], None)];
    assert_eq!(err_kind(parse_definition("k", &unknown)), (ErrorKind::Shape, 3));
    let no_since = vec![node("define", 3, vec![], Some(vec![node("fields", 9, vec![], None)]))];
    assert_eq!(err_kind(parse_definition("k", &no_since)), (ErrorKind::Shape, 3));
    let int_since = vec![node("define", 3, vec![prop("since", Scalar::Integer(2020), 4)], None)];
    assert_eq!(err_kind(parse_definition("k", &int_since)), (ErrorKind::Type, 4));
    let bad_since = vec![node("define", 3, vec![prop("since", text("soon"), 4)], None)];
    assert_eq!(err_kind(parse_definition("k", &bad_since)), (ErrorKind::Temporal, 4));
    let no_fields = vec![node("define", 3, vec![prop("since", text("2020-01-01"), 4)], None)];
    assert_eq!(err_kind(parse_definition("k", &no_fields)), (ErrorKind::Shape, 3));
    let unknown_kind = vec![define("2020-01-01", vec![is_field("a", "number", 50)], 0)];
    assert_eq!(err_kind(parse_definition("k", &unknown_kind)), (ErrorKind::Reference, 50));
    let int_kind = vec![define("2020-01-01", vec![node("a", 50, vec![prop("is", Scalar::Integer(1), 51)], None)], 0)];
    assert_eq!(err_kind(parse_definition("k", &int_kind)), (ErrorKind::Type, 50));
    let bare = vec![define("2020-01-01", vec![node("a", 50, vec![], None)], 0)];
    assert_eq!(err_kind(parse_definition("k", &bare)), (ErrorKind::Shape, 50));
    let no_one_of = vec![define("2020-01-01", vec![node("a", 50, vec![], Some(vec![node("anyOf", 60, vec![], None)]))], 0)];
    assert_eq!(err_kind(parse_definition("k", &no_one_of)), (ErrorKind::Shape, 50));
    let bad_option = vec![define(
        "2020-01-01",
        vec![node("a", 50, vec![], Some(vec![node("oneOf", 60, vec![arg(Scalar::Integer(1), 61)], None)]))],
        0,
    )];
    assert_eq!(err_kind(parse_definition("k", &bad_option)), (ErrorKind::Type, 61));
    let reserved = vec![define("2020-01-01", vec![is_field("at", "string", 50)], 0)];
    assert_eq!(parse_definition("k", &reserved).unwrap_err().message, "Reserved field name.");
    assert_eq!(err_kind(parse_definition("k", &reserved)), (ErrorKind::Validation, 50));
    let unknown_kind_msg = vec![define("2020-01-01", vec![is_field("a", "Date", 50)], 0)];
    assert_eq!(
        parse_definition("k", &unknown_kind_msg).unwrap_err().message,
        "Did not recognize valid field kind: \"date\""
    );
    let reserved_kind = vec![define("2020-01-01", vec![is_field("kind", "string", 70)], 0)];
    assert_eq!(err_kind(parse_definition("k", &reserved_kind)), (ErrorKind::Validation, 70));
}

#[test]
fn field_kind_names_ignore_ascii_case() {
    assert!(matches!(DefinitionKind::from_name("String"), Ok(DefinitionKind::String)));
    assert!(matches!(DefinitionKind::from_name("STRING"), Ok(DefinitionKind::String)));
    assert_eq!(
        DefinitionKind::from_name("NumBer").unwrap_err(),
        "Did not recognize valid field kind: \"number\"".to_string()
    );
    assert!(DefinitionKind::from_name("").is_err());
}

#[test]
fn validate_explains_choices() {
    let k = DefinitionKind::OneOf(vec!["open".to_string(), "done".to_string()]);
    assert_eq!(k.validate(&text("open")), Ok(()));
    assert_eq!(k.validate(&text("later")), Err("Expected one of: open, done".to_string()));
    assert_eq!(DefinitionKind::String.validate(&Scalar::Null), Err("Expected a string here".to_string()));
    assert_eq!(DefinitionKind::String.validate(&text("")), Ok(()));
    assert_eq!(k.trustfall_kind(), "String");
}

#[test]
fn timestamps_read_in_three_forms() {
    assert_eq!(parse_timestamp("2020-01-01T00:00:00+01:00"), Some(Timestamp { second: 1577833200, nanosecond: 0 }));
    assert_eq!(parse_timestamp("2020-01-01T10:00:00"), Some(Timestamp { second: 1577872800, nanosecond: 0 }));
    assert_eq!(parse_timestamp("2020-01-01"), Some(Timestamp { second: 1577836800, nanosecond: 0 }));
    assert_eq!(parse_timestamp("2020-01-01T00:00:00.5Z"), Some(Timestamp { second: 1577836800, nanosecond: 500_000_000 }));
    assert_eq!(parse_timestamp("yesterday"), None);
    assert_eq!(parse_timestamp(""), None);
}

#[test]
fn timestamps_render_in_utc() {
    assert_eq!(Timestamp { second: 1577836800, nanosecond: 0 }.to_text(), "2020-01-01T00:00:00Z");
    assert_eq!(Timestamp { second: 0, nanosecond: 0 }.to_text(), "1970-01-01T00:00:00Z");
    assert!(Timestamp { second: 5, nanosecond: 1 }.is_after(&Timestamp { second: 5, nanosecond: 0 }));
    assert!(!Timestamp { second: -1, nanosecond: -5 }.is_after(&Timestamp { second: 0, nanosecond: 0 }));
}

#[test]
fn store_replaces_a_kind() {
    let mut store = task_store();
    store.insert("task".to_string(), vec![]);
    assert_eq!(store.kinds.len(), 1);
    assert!(store.versions("task").unwrap().is_empty());
    assert!(store.versions("note").is_none());
    let doc = vec![record("2021-06-01", vec![], 0)];
    assert_eq!(err_kind(parse_record(&doc, &store)), (ErrorKind::Reference, 0));
}

#[test]
fn empty_documents_read_as_nothing() {
    assert!(parse_definition("k", &vec![]).unwrap().is_empty());
    let recs: Vec<Record> = parse_record(&vec![], &task_store()).unwrap();
    assert!(recs.is_empty());
}
