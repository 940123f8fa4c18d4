//! Time-stamped records: a node per record, named by its kind, whose first
//! argument is its instant and whose children assign its fields.
use crate::definition::{accepts, children_of, validation_hint, sorted_by_since, versions_view, FieldKindView};
use crate::document::{argument_index, first_argument, Node, Scalar, Span};
use crate::error::{
    ErrorKind, ParseError, BAD_INSTANT, FIELD_WITHOUT_VALUE, MISSING_INSTANT, NO_VERSION, UNDECLARED_FIELD,
    UNKNOWN_RECORD_KIND, WRONG_KIND,
};
use crate::keyed::{keys, lookup, names_of, set_key, upsert};
use crate::store::{active_index, active_version, DefinitionStore};
use crate::timestamp::{parse_timestamp, timestamp_of_text, Timestamp};
use crate::value::fits;
use vstd::prelude::*;

verus! {

/// A record: its kind, its instant, and its field values by name.
#[derive(Clone, Debug)]
pub struct Record {
    pub kind: String,
    pub at: Timestamp,
    pub fields: Vec<(String, Scalar)>,
}

/// A record as a mathematical value.
pub struct RecordView {
    pub kind: Seq<char>,
    pub at: Timestamp,
    pub fields: Seq<(Seq<char>, Scalar)>,
}

/// The view of a record's fields.
pub open spec fn values_view(v: Seq<(String, Scalar)>) -> Seq<(Seq<char>, Scalar)> {
    v.map_values(|p: (String, Scalar)| (p.0@, p.1))
}

impl View for Record {
    type V = RecordView;

    open spec fn view(&self) -> RecordView {
        RecordView { kind: self.kind@, at: self.at, fields: values_view(self.fields@) }
    }
}

impl Record {
    /// The record's instant lies in range and each field value has an
    /// engine value.
    pub open spec fn wf(&self) -> bool {
        &&& self.at.wf()
        &&& forall|i: int| 0 <= i < self.fields@.len() ==> fits((#[trigger] self.fields@[i]).1@)
    }

    /// A copy of this record.
    pub fn duplicate(&self) -> (r: Record)
        ensures
            r@ == self@,
            r.wf() == self.wf(),
    {
        let mut fields: Vec<(String, Scalar)> = Vec::new();
        let mut i: usize = 0;
        while i < self.fields.len()
            invariant
                i <= self.fields.len(),
                fields@.len() == i,
                forall|j: int| 0 <= j < i ==> (#[trigger] fields@[j]).0@ == self.fields@[j].0@ && fields@[j].1
                    == self.fields@[j].1,
            decreases self.fields.len() - i,
        {
            fields.push((self.fields[i].0.clone(), self.fields[i].1.duplicate()));
            i = i + 1;
        }
        let r = Record { kind: self.kind.clone(), at: self.at, fields };
        assert(values_view(r.fields@) =~= values_view(self.fields@));
        assert(r.wf() == self.wf()) by {
            assert forall|j: int| 0 <= j < r.fields@.len() implies r.fields@[j].1 == self.fields@[j].1 by {}
        }
        r
    }
}

/// The views of a list of records.
pub open spec fn records_view(v: Seq<Record>) -> Seq<RecordView> {
    v.map_values(|r: Record| r@)
}

/// The field values that the field assignments `cs` give under the field
/// declarations `decl`, or the first error: each assignment needs a value,
/// a declared name, and a value that the declared kind accepts.
pub open spec fn record_fields_of(cs: Seq<Node>, decl: Seq<(Seq<char>, FieldKindView)>) -> Result<
    Seq<(Seq<char>, Scalar)>,
    (ErrorKind, Seq<char>, Span),
>
    decreases cs.len(),
{
    if cs.len() == 0 {
        Ok(Seq::empty())
    } else {
        match record_fields_of(cs.drop_last(), decl) {
            Err(e) => Err(e),
            Ok(acc) => {
                let c = cs.last();
                match argument_index(c.entries@, 0) {
                    None => Err((ErrorKind::Shape, FIELD_WITHOUT_VALUE@, c.name_span)),
                    Some(i) => match lookup(decl, c.name@) {
                        None => Err((ErrorKind::Validation, UNDECLARED_FIELD@, c.name_span)),
                        Some(k) => if accepts(k, c.entries@[i].value) {
                            Ok(upsert(acc, c.name@, c.entries@[i].value))
                        } else {
                            Err((ErrorKind::Validation, WRONG_KIND@ + validation_hint(k), c.name_span))
                        },
                    },
                }
            },
        }
    }
}

/// The record that node `n` gives under the definitions `store`, or its
/// error. Its fields are checked against the version in effect at its
/// instant.
pub open spec fn record_of(n: Node, store: Seq<(Seq<char>, Seq<crate::definition::DefinitionView>)>) -> Result<
    RecordView,
    (ErrorKind, Seq<char>, Span),
> {
    match lookup(store, n.name@) {
        None => Err((ErrorKind::Reference, UNKNOWN_RECORD_KIND@, n.name_span)),
        Some(vs) => if vs.len() == 0 {
            Err((ErrorKind::Reference, NO_VERSION@, n.name_span))
        } else {
            match argument_index(n.entries@, 0) {
                None => Err((ErrorKind::Shape, MISSING_INSTANT@, n.name_span)),
                Some(i) => match n.entries@[i].value {
                    Scalar::String(s) => match timestamp_of_text(s@) {
                        None => Err((ErrorKind::Temporal, BAD_INSTANT@, n.entries@[i].span)),
                        Some(t) => match record_fields_of(
                            children_of(n),
                            vs[active_index(vs, t)].fields,
                        ) {
                            Err(e) => Err(e),
                            Ok(fs) => Ok(RecordView { kind: n.name@, at: t, fields: fs }),
                        },
                    },
                    _ => Err((ErrorKind::Type, BAD_INSTANT@, n.entries@[i].span)),
                },
            }
        },
    }
}

/// The records of a record document, in document order, or its first error.
pub open spec fn records_of(ns: Seq<Node>, store: Seq<(Seq<char>, Seq<crate::definition::DefinitionView>)>) -> Result<
    Seq<RecordView>,
    (ErrorKind, Seq<char>, Span),
>
    decreases ns.len(),
{
    if ns.len() == 0 {
        Ok(Seq::empty())
    } else {
        match records_of(ns.drop_last(), store) {
            Err(e) => Err(e),
            Ok(acc) => match record_of(ns.last(), store) {
                Err(e) => Err(e),
                Ok(r) => Ok(acc.push(r)),
            },
        }
    }
}

proof fn lemma_record_fields_prefix(cs: Seq<Node>, decl: Seq<(Seq<char>, FieldKindView)>, i: int, j: int)
    requires
        0 <= i <= j <= cs.len(),
        record_fields_of(cs.subrange(0, i), decl) is Err,
    ensures
        record_fields_of(cs.subrange(0, j), decl) == record_fields_of(cs.subrange(0, i), decl),
    decreases j - i,
{
    if j > i {
        lemma_record_fields_prefix(cs, decl, i, j - 1);
        assert(cs.subrange(0, j).drop_last() =~= cs.subrange(0, j - 1));
    }
}

proof fn lemma_records_prefix(
    ns: Seq<Node>,
    store: Seq<(Seq<char>, Seq<crate::definition::DefinitionView>)>,
    i: int,
    j: int,
)
    requires
        0 <= i <= j <= ns.len(),
        records_of(ns.subrange(0, i), store) is Err,
    ensures
        records_of(ns.subrange(0, j), store) == records_of(ns.subrange(0, i), store),
    decreases j - i,
{
    if j > i {
        lemma_records_prefix(ns, store, i, j - 1);
        assert(ns.subrange(0, j).drop_last() =~= ns.subrange(0, j - 1));
    }
}

/// Checks and collects the field assignments `cs` of a record.
fn record_fields(cs: &Vec<Node>, decl: &Vec<(String, crate::definition::DefinitionKind)>) -> (r: Result<
    Vec<(String, Scalar)>,
    ParseError,
>)
    ensures
        crate::definition::agrees(
            r,
            record_fields_of(cs@, crate::definition::fields_view(decl@)),
            |v: Vec<(String, Scalar)>| values_view(v@),
        ),
        r matches Ok(v) ==> forall|j: int| 0 <= j < v@.len() ==> fits((#[trigger] v@[j]).1@),
{
    let ghost dv = crate::definition::fields_view(decl@);
    let mut acc: Vec<(String, Scalar)> = Vec::new();
    let mut i: usize = 0;
    assert(cs@.subrange(0, 0) =~= Seq::<Node>::empty());
    assert(values_view(acc@) =~= Seq::empty());
    assert(keys(dv) =~= names_of(decl@));
    while i < cs.len()
        invariant
            i <= cs.len(),
            dv == crate::definition::fields_view(decl@),
            keys(dv) == names_of(decl@),
            record_fields_of(cs@.subrange(0, i as int), dv) == Ok::<
                Seq<(Seq<char>, Scalar)>,
                (ErrorKind, Seq<char>, Span),
            >(values_view(acc@)),
            forall|j: int| 0 <= j < acc@.len() ==> fits((#[trigger] acc@[j]).1@),
        decreases cs.len() - i,
    {
        proof {
            assert(cs@.subrange(0, i + 1).drop_last() =~= cs@.subrange(0, i as int));
            assert(cs@.subrange(0, i + 1).last() == cs@[i as int]);
        }
        let c = &cs[i];
        let fail = match first_argument(&c.entries) {
            None => Some(
                ParseError::new(ErrorKind::Shape, FIELD_WITHOUT_VALUE, c.name_span),
            ),
            Some(e) => {
                proof {
                    crate::keyed::lemma_name_index(names_of(decl@), c.name@);
                }
                match crate::keyed::find_key(decl, c.name.as_str()) {
                    None => Some(
                        ParseError::new(
                            ErrorKind::Validation,
                            UNDECLARED_FIELD,
                            c.name_span,
                        ),
                    ),
                    Some(k) => {
                        assert(dv[k as int].1 == decl@[k as int].1@);
                        match decl[k].1.validate(&e.value) {
                            Ok(()) => {
                                let ghost before = acc@;
                                assert(names_of(before) =~= keys(values_view(before)));
                                proof {
                                    crate::keyed::lemma_name_index(names_of(before), c.name@);
                                }
                                set_key(&mut acc, c.name.clone(), e.value.duplicate());
                                assert(values_view(acc@) =~= upsert(values_view(before), c.name@, e.value));
                                None
                            },
                            Err(hint) => {
                                let mut msg = String::from_str(WRONG_KIND);
                                msg.append(hint.as_str());
                                Some(ParseError { kind: ErrorKind::Validation, message: msg, span: c.name_span })
                            },
                        }
                    },
                }
            },
        };
        if let Some(err) = fail {
            proof {
                lemma_record_fields_prefix(cs@, dv, i + 1, cs@.len() as int);
                assert(cs@.subrange(0, cs@.len() as int) =~= cs@);
            }
            return Err(err);
        }
        i = i + 1;
    }
    assert(cs@.subrange(0, cs@.len() as int) =~= cs@);
    Ok(acc)
}

/// Reads one record node, as `record_of` says.
fn record(n: &Node, store: &DefinitionStore) -> (r: Result<Record, ParseError>)
    requires
        store.wf(),
    ensures
        crate::definition::agrees(r, record_of(*n, store@), |x: Record| x@),
        r matches Ok(x) ==> x.wf(),
{
    let versions = match store.versions(n.name.as_str()) {
        Some(v) => v,
        None => return Err(ParseError::new(ErrorKind::Reference, UNKNOWN_RECORD_KIND, n.name_span)),
    };
    if versions.len() == 0 {
        return Err(ParseError::new(ErrorKind::Reference, NO_VERSION, n.name_span));
    }
    proof {
        crate::keyed::lemma_name_index(keys(store@), n.name@);
        let i = crate::keyed::name_index(keys(store@), n.name@)->Some_0;
        assert(sorted_by_since(store@[i].1));
    }
    let at_entry = match first_argument(&n.entries) {
        Some(e) => e,
        None => return Err(
            ParseError::new(
                ErrorKind::Shape,
                MISSING_INSTANT,
                n.name_span,
            ),
        ),
    };
    let at = match &at_entry.value {
        Scalar::String(s) => match parse_timestamp(s.as_str()) {
            Some(t) => t,
            None => return Err(
                ParseError::new(
                    ErrorKind::Temporal,
                    BAD_INSTANT,
                    at_entry.span,
                ),
            ),
        },
        _ => return Err(
            ParseError::new(
                ErrorKind::Type,
                BAD_INSTANT,
                at_entry.span,
            ),
        ),
    };
    let idx = active_version(versions, &at);
    let empty: Vec<Node> = Vec::new();
    let children = match &n.children {
        Some(c) => c,
        None => &empty,
    };
    assert(children@ == children_of(*n));
    match record_fields(children, &versions[idx].fields) {
        Ok(fields) => Ok(Record { kind: n.name.clone(), at, fields }),
        Err(e) => Err(e),
    }
}

/// Reads the records of a record document, in document order. Each node
/// names a known kind, holds its instant as its first argument, and assigns
/// fields that the version in effect at that instant declares, with values
/// its kinds accept. The first error ends the reading.
pub fn parse_record(doc: &Vec<Node>, store: &DefinitionStore) -> (r: Result<Vec<Record>, ParseError>)
    requires
        store.wf(),
    ensures
        crate::definition::agrees(r, records_of(doc@, store@), |v: Vec<Record>| records_view(v@)),
        r matches Ok(v) ==> forall|j: int| 0 <= j < v@.len() ==> (#[trigger] v@[j]).wf(),
{
    let mut acc: Vec<Record> = Vec::new();
    let mut i: usize = 0;
    assert(doc@.subrange(0, 0) =~= Seq::<Node>::empty());
    assert(records_view(acc@) =~= Seq::empty());
    while i < doc.len()
        invariant
            i <= doc.len(),
            store.wf(),
            records_of(doc@.subrange(0, i as int), store@) == Ok::<Seq<RecordView>, (ErrorKind, Seq<char>, Span)>(
                records_view(acc@),
            ),
            forall|j: int| 0 <= j < acc@.len() ==> (#[trigger] acc@[j]).wf(),
        decreases doc.len() - i,
    {
        proof {
            assert(doc@.subrange(0, i + 1).drop_last() =~= doc@.subrange(0, i as int));
        }
        match record(&doc[i], store) {
            Ok(rec) => {
                acc.push(rec);
                assert(records_view(acc@) =~= records_of(doc@.subrange(0, i as int), store@)->Ok_0.push(
                    acc@.last()@,
                ));
            },
            Err(e) => {
                proof {
                    lemma_records_prefix(doc@, store@, i + 1, doc@.len() as int);
                    assert(doc@.subrange(0, doc@.len() as int) =~= doc@);
                }
                return Err(e);
            },
        }
        i = i + 1;
    }
    assert(doc@.subrange(0, doc@.len() as int) =~= doc@);
    Ok(acc)
}

/// A field whose value its declared kind does not accept makes the fields
/// fail to read, never coerced; where the fields before it read, the error
/// is a validation error at that field's name.
pub proof fn lemma_violation_rejected(cs: Seq<Node>, decl: Seq<(Seq<char>, FieldKindView)>, i: int)
    requires
        0 <= i < cs.len(),
        argument_index(cs[i].entries@, 0) matches Some(a) && (lookup(decl, cs[i].name@) matches Some(
            k,
        ) && !accepts(k, cs[i].entries@[a].value)),
    ensures
        record_fields_of(cs, decl) is Err,
        record_fields_of(cs.subrange(0, i), decl) is Ok ==> record_fields_of(cs, decl) == Err::<
            Seq<(Seq<char>, Scalar)>,
            (ErrorKind, Seq<char>, Span),
        >((ErrorKind::Validation, WRONG_KIND@ + validation_hint(lookup(decl, cs[i].name@)->Some_0), cs[i].name_span)),
{
    let pre = cs.subrange(0, i + 1);
    assert(pre.drop_last() =~= cs.subrange(0, i));
    assert(pre.last() == cs[i]);
    lemma_record_fields_prefix(cs, decl, i + 1, cs.len() as int);
    assert(cs.subrange(0, cs.len() as int) =~= cs);
}

/// A record document with a record whose field value its kind, in the
/// version in effect at the record's instant, does not accept fails to read.
pub proof fn lemma_document_violation_rejected(
    doc: Seq<Node>,
    store: Seq<(Seq<char>, Seq<crate::definition::DefinitionView>)>,
    n: int,
    i: int,
)
    requires
        0 <= n < doc.len(),
        lookup(store, doc[n].name@) matches Some(vs) && vs.len() > 0 && (argument_index(
            doc[n].entries@,
            0,
        ) matches Some(a) && (doc[n].entries@[a].value matches Scalar::String(s) && (timestamp_of_text(
            s@,
        ) matches Some(t) && ({
            let cs = children_of(doc[n]);
            let decl = vs[active_index(vs, t)].fields;
            0 <= i < cs.len() && (argument_index(cs[i].entries@, 0) matches Some(b) && (lookup(
                decl,
                cs[i].name@,
            ) matches Some(k) && !accepts(k, cs[i].entries@[b].value)))
        })))),
    ensures
        records_of(doc, store) is Err,
{
    let vs = lookup(store, doc[n].name@)->Some_0;
    let a = argument_index(doc[n].entries@, 0)->Some_0;
    let s = doc[n].entries@[a].value->String_0;
    let t = timestamp_of_text(s@)->Some_0;
    lemma_violation_rejected(children_of(doc[n]), vs[active_index(vs, t)].fields, i);
    assert(record_of(doc[n], store) is Err);
    let pre = doc.subrange(0, n + 1);
    assert(pre.drop_last() =~= doc.subrange(0, n));
    assert(pre.last() == doc[n]);
    lemma_records_prefix(doc, store, n + 1, doc.len() as int);
    assert(doc.subrange(0, doc.len() as int) =~= doc);
}

/// Every field value of a record read from field assignments `cs` is the
/// scalar that one of those assignments gives that field, and rendering it as
/// an engine value and back gives it unchanged, with its kind.
pub proof fn lemma_record_round_trip(cs: Seq<Node>, decl: Seq<(Seq<char>, FieldKindView)>)
    requires
        record_fields_of(cs, decl) is Ok,
    ensures
        forall|i: int| 0 <= i < record_fields_of(cs, decl)->Ok_0.len() ==> {
            let f = #[trigger] record_fields_of(cs, decl)->Ok_0[i];
            &&& exists|j: int| 0 <= j < cs.len() && cs[j].name@ == f.0 && (argument_index(
                #[trigger] cs[j].entries@,
                0,
            ) matches Some(a) && cs[j].entries@[a].value == f.1)
            &&& crate::value::scalar_of_value(crate::value::value_of_scalar(f.1@)) == Some(f.1@)
        },
    decreases cs.len(),
{
    if cs.len() > 0 {
        let q = cs.drop_last();
        lemma_record_round_trip(q, decl);
        let acc = record_fields_of(q, decl)->Ok_0;
        let c = cs.last();
        let a = argument_index(c.entries@, 0)->Some_0;
        let fs = record_fields_of(cs, decl)->Ok_0;
        assert(fs == upsert(acc, c.name@, c.entries@[a].value));
        crate::keyed::lemma_name_index(keys(acc), c.name@);
        assert forall|i: int| 0 <= i < fs.len() implies {
            let f = #[trigger] fs[i];
            &&& exists|j: int| 0 <= j < cs.len() && cs[j].name@ == f.0 && (argument_index(
                #[trigger] cs[j].entries@,
                0,
            ) matches Some(a) && cs[j].entries@[a].value == f.1)
            &&& crate::value::scalar_of_value(crate::value::value_of_scalar(f.1@)) == Some(f.1@)
        } by {
            if i < acc.len() && fs[i] == acc[i] {
                let f = acc[i];
                let j = choose|j: int| 0 <= j < q.len() && q[j].name@ == f.0 && (argument_index(
                    #[trigger] q[j].entries@,
                    0,
                ) matches Some(a) && q[j].entries@[a].value == f.1);
                assert(cs[j] == q[j]);
            } else {
                assert(fs[i] == (c.name@, c.entries@[a].value));
                assert(cs[cs.len() - 1] == c);
            }
        }
    }
}

/// A field read from field assignments `cs` holds exactly the scalar of the
/// last assignment to its name, with its kind and value, never converted.
pub proof fn lemma_field_value_is_last_assignment(cs: Seq<Node>, decl: Seq<(Seq<char>, FieldKindView)>, j: int)
    requires
        record_fields_of(cs, decl) is Ok,
        0 <= j < cs.len(),
        forall|m: int| j < m < cs.len() ==> (#[trigger] cs[m]).name@ != cs[j].name@,
    ensures
        argument_index(cs[j].entries@, 0) matches Some(a) && lookup(record_fields_of(cs, decl)->Ok_0, cs[j].name@)
            == Some(cs[j].entries@[a].value),
    decreases cs.len(),
{
    let q = cs.drop_last();
    let c = cs.last();
    assert(cs[cs.len() - 1] == c);
    let acc = record_fields_of(q, decl)->Ok_0;
    let a = argument_index(c.entries@, 0)->Some_0;
    crate::keyed::lemma_upsert_lookup(acc, c.name@, c.entries@[a].value, cs[j].name@);
    if j < cs.len() - 1 {
        assert forall|m: int| j < m < q.len() implies (#[trigger] q[m]).name@ != q[j].name@ by {
            assert(q[m] == cs[m]);
        }
        assert(q[j] == cs[j]);
        lemma_field_value_is_last_assignment(q, decl, j);
    }
}

} // verus!
