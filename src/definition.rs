//! Versioned declarations of record kinds: for each kind, a list of field
//! shapes, each in effect from its `since` instant on.
use crate::document::{find_named, first_named, property, property_index, Node, Scalar, Span};
use crate::error::{
    ErrorKind, ParseError, BAD_SINCE, IS_NOT_STRING, MISSING_FIELDS, MISSING_SINCE, NO_FIELD_KIND, ONE_OF_ENTRY, QUOTE,
    RESERVED_FIELD, SINCE_NOT_STRING, UNKNOWN_FIELD_KIND, UNKNOWN_NODE, UNRECOGNIZED_FIELD,
};
use crate::keyed::{keys, lookup, names_of, set_key, upsert};
use crate::text::{ascii_lowercase, joined_with, owned, text_eq, to_ascii_lowercase};
use crate::timestamp::{parse_timestamp, timestamp_of_text, Timestamp};
use vstd::prelude::*;

verus! {

/// The constraint on a field's value.
#[derive(Debug)]
pub enum DefinitionKind {
    /// Any string.
    String,
    /// One of the listed strings, matched exactly.
    OneOf(Vec<String>),
}

/// The constraint on a field's value, as a mathematical value.
pub enum FieldKindView {
    Text,
    OneOf(Seq<Seq<char>>),
}

impl View for DefinitionKind {
    type V = FieldKindView;

    open spec fn view(&self) -> FieldKindView {
        match self {
            DefinitionKind::String => FieldKindView::Text,
            DefinitionKind::OneOf(v) => FieldKindView::OneOf(v@.map_values(|s: String| s@)),
        }
    }
}

/// Whether a value meets a field constraint: it must be a string, and for a
/// listed set one of its members.
pub open spec fn accepts(k: FieldKindView, v: Scalar) -> bool {
    match v.string_of() {
        None => false,
        Some(s) => match k {
            FieldKindView::Text => true,
            FieldKindView::OneOf(opts) => opts.contains(s),
        },
    }
}

/// The hint that a rejected value gets: a string is expected, or one of the
/// listed strings, joined by a comma and a space.
pub open spec fn validation_hint(k: FieldKindView) -> Seq<char> {
    match k {
        FieldKindView::Text => "Expected a string here"@,
        FieldKindView::OneOf(opts) => "Expected one of: "@ + joined_with(opts, ", "@),
    }
}

/// Whether two characters are equal once ASCII upper case is folded to lower.
pub open spec fn char_eq_ignore_ascii_case(a: char, b: char) -> bool {
    ||| a == b
    ||| ('A' <= a <= 'Z' && a as u32 + 32 == b as u32)
    ||| ('A' <= b <= 'Z' && b as u32 + 32 == a as u32)
}

/// Whether two texts are equal once ASCII upper case is folded to lower.
pub open spec fn eq_ignore_ascii_case(a: Seq<char>, b: Seq<char>) -> bool {
    &&& a.len() == b.len()
    &&& forall|i: int| 0 <= i < a.len() ==> char_eq_ignore_ascii_case(#[trigger] a[i], b[i])
}

fn chars_eq_ignore_ascii_case(a: char, b: char) -> (r: bool)
    ensures
        r == char_eq_ignore_ascii_case(a, b),
{
    a == b || ('A' <= a && a <= 'Z' && a as u32 + 32 == b as u32) || ('A' <= b && b <= 'Z' && b
        as u32 + 32 == a as u32)
}

fn text_eq_ignore_ascii_case(a: &str, b: &str) -> (r: bool)
    ensures
        r == eq_ignore_ascii_case(a@, b@),
{
    let n = a.unicode_len();
    if n != b.unicode_len() {
        return false;
    }
    let mut i: usize = 0;
    while i < n
        invariant
            n == a@.len(),
            n == b@.len(),
            i <= n,
            forall|j: int| 0 <= j < i ==> char_eq_ignore_ascii_case(#[trigger] a@[j], b@[j]),
        decreases n - i,
    {
        if !chars_eq_ignore_ascii_case(a.get_char(i), b.get_char(i)) {
            return false;
        }
        i = i + 1;
    }
    true
}

impl DefinitionKind {
    /// The scalar type that the query schema gives a field of this kind.
    pub fn trustfall_kind(&self) -> (r: String)
        ensures
            r@ == "String"@,
    {
        match self {
            DefinitionKind::String => owned("String"),
            DefinitionKind::OneOf(_) => owned("String"),
        }
    }

    /// Checks a value against this kind; the error holds a hint for the user.
    pub fn validate(&self, val: &Scalar) -> (r: Result<(), String>)
        ensures
            r is Ok <==> accepts(self@, *val),
            r matches Err(e) ==> e@ == validation_hint(self@),
    {
        match self {
            DefinitionKind::String => match val {
                Scalar::String(_) => Ok(()),
                _ => Err(owned("Expected a string here")),
            },
            DefinitionKind::OneOf(options) => {
                let found = match val {
                    Scalar::String(s) => contains_text(options, s.as_str()),
                    _ => false,
                };
                if found {
                    Ok(())
                } else {
                    let ghost opts = options@.map_values(|o: String| o@);
                    let mut msg = owned("Expected one of: ");
                    let mut i: usize = 0;
                    assert(opts.subrange(0, 0) =~= Seq::<Seq<char>>::empty());
                    while i < options.len()
                        invariant
                            i <= options.len(),
                            opts == options@.map_values(|o: String| o@),
                            msg@ == "Expected one of: "@ + joined_with(opts.subrange(0, i as int), ", "@),
                        decreases options.len() - i,
                    {
                        assert(opts.subrange(0, i + 1).drop_last() =~= opts.subrange(0, i as int));
                        if i > 0 {
                            msg.append(", ");
                        }
                        msg.append(options[i].as_str());
                        assert(msg@ =~= "Expected one of: "@ + joined_with(opts.subrange(0, i + 1), ", "@));
                        i = i + 1;
                    }
                    assert(opts.subrange(0, options.len() as int) =~= opts);
                    Err(msg)
                }
            },
        }
    }

    /// The kind that a field-kind name refers to; names are matched without
    /// regard to ASCII case, and only `string` is known.
    pub fn from_name(name: &str) -> (r: Result<DefinitionKind, String>)
        ensures
            r is Ok <==> eq_ignore_ascii_case(name@, "string"@),
            r matches Ok(k) ==> k@ == FieldKindView::Text,
            r matches Err(m) ==> m@ == UNKNOWN_FIELD_KIND@ + ascii_lowercase(name@) + QUOTE@,
    {
        if text_eq_ignore_ascii_case(name, "string") {
            Ok(DefinitionKind::String)
        } else {
            let mut msg = owned(UNKNOWN_FIELD_KIND);
            let lower = to_ascii_lowercase(name);
            msg.append(lower.as_str());
            msg.append(QUOTE);
            Err(msg)
        }
    }
}

/// Whether one of `options` equals `s`.
fn contains_text(options: &Vec<String>, s: &str) -> (r: bool)
    ensures
        r == options@.map_values(|o: String| o@).contains(s@),
{
    let ghost opts = options@.map_values(|o: String| o@);
    let mut i: usize = 0;
    while i < options.len()
        invariant
            i <= options.len(),
            opts == options@.map_values(|o: String| o@),
            forall|j: int| 0 <= j < i ==> opts[j] != s@,
        decreases options.len() - i,
    {
        if text_eq(options[i].as_str(), s) {
            assert(opts[i as int] == s@);
            return true;
        }
        i = i + 1;
    }
    false
}

/// One version of a record kind's field shape, in effect from `since` on.
#[derive(Debug)]
pub struct Definition {
    pub name: String,
    pub since: Timestamp,
    pub fields: Vec<(String, DefinitionKind)>,
}

/// A version of a record kind's field shape, as a mathematical value.
pub struct DefinitionView {
    pub name: Seq<char>,
    pub since: Timestamp,
    pub fields: Seq<(Seq<char>, FieldKindView)>,
}

/// The view of a list of declared fields.
pub open spec fn fields_view(v: Seq<(String, DefinitionKind)>) -> Seq<(Seq<char>, FieldKindView)> {
    v.map_values(|p: (String, DefinitionKind)| (p.0@, p.1@))
}

impl View for Definition {
    type V = DefinitionView;

    open spec fn view(&self) -> DefinitionView {
        DefinitionView { name: self.name@, since: self.since, fields: fields_view(self.fields@) }
    }
}

/// The kind declared for field `name`, if any.
pub open spec fn field_kind(s: Seq<(Seq<char>, FieldKindView)>, name: Seq<char>) -> Option<
    FieldKindView,
> {
    lookup(s, name)
}

/// Declares field `name` in `fields`: a field declared again keeps its
/// place and takes the new kind.
fn declare_field(fields: &mut Vec<(String, DefinitionKind)>, name: String, kind: DefinitionKind)
    ensures
        fields_view(final(fields)@) == upsert(fields_view(old(fields)@), name@, kind@),
{
    let ghost before = fields@;
    assert(keys(fields_view(before)) =~= names_of(before));
    proof {
        crate::keyed::lemma_name_index(names_of(before), name@);
    }
    set_key(fields, name, kind);
    assert(fields_view(fields@) =~= upsert(fields_view(before), name@, kind@));
}

/// The child nodes of a node; none when it has no child block.
pub open spec fn children_of(n: Node) -> Seq<Node> {
    match n.children {
        Some(v) => v@,
        None => Seq::empty(),
    }
}

/// The listed strings of a `oneOf` node, or the first entry that is no string.
pub open spec fn options_of(es: Seq<crate::document::Entry>) -> Result<Seq<Seq<char>>, (ErrorKind, Seq<char>, Span)>
    decreases es.len(),
{
    if es.len() == 0 {
        Ok(Seq::empty())
    } else {
        match options_of(es.drop_last()) {
            Err(e) => Err(e),
            Ok(acc) => match es.last().value {
                Scalar::String(s) => Ok(acc.push(s@)),
                _ => Err((ErrorKind::Type, ONE_OF_ENTRY@, es.last().span)),
            },
        }
    }
}

/// The kind that a field declaration gives: an `is` property naming a
/// field kind, or else a child `oneOf` node listing the allowed strings.
pub open spec fn declared_kind(field: Node) -> Result<FieldKindView, (ErrorKind, Seq<char>, Span)> {
    match property_index(field.entries@, "is"@) {
        Some(i) => match field.entries@[i].value {
            Scalar::String(s) => if eq_ignore_ascii_case(s@, "string"@) {
                Ok(FieldKindView::Text)
            } else {
                Err((ErrorKind::Reference, UNKNOWN_FIELD_KIND@ + ascii_lowercase(s@) + QUOTE@, field.span))
            },
            _ => Err((ErrorKind::Type, IS_NOT_STRING@, field.span)),
        },
        None => match field.children {
            None => Err((ErrorKind::Shape, NO_FIELD_KIND@, field.span)),
            Some(cs) => match first_named(cs@, "oneOf"@) {
                None => Err((ErrorKind::Shape, UNRECOGNIZED_FIELD@, field.span)),
                Some(j) => match options_of(cs@[j].entries@) {
                    Ok(opts) => Ok(FieldKindView::OneOf(opts)),
                    Err(e) => Err(e),
                },
            },
        },
    }
}

/// Whether a field name is reserved for the record itself.
pub open spec fn is_reserved(name: Seq<char>) -> bool {
    name == "at"@ || name == "kind"@
}

/// A field declaration, checked: its kind first, then its name.
pub open spec fn field_decl(field: Node) -> Result<FieldKindView, (ErrorKind, Seq<char>, Span)> {
    match declared_kind(field) {
        Err(e) => Err(e),
        Ok(k) => if is_reserved(field.name@) {
            Err((ErrorKind::Validation, RESERVED_FIELD@, field.name_span))
        } else {
            Ok(k)
        },
    }
}

/// The fields that a list of field declarations gives, or its first error.
pub open spec fn fields_of(ns: Seq<Node>) -> Result<Seq<(Seq<char>, FieldKindView)>, (ErrorKind, Seq<char>, Span)>
    decreases ns.len(),
{
    if ns.len() == 0 {
        Ok(Seq::empty())
    } else {
        match fields_of(ns.drop_last()) {
            Err(e) => Err(e),
            Ok(acc) => match field_decl(ns.last()) {
                Err(e) => Err(e),
                Ok(k) => Ok(upsert(acc, ns.last().name@, k)),
            },
        }
    }
}

/// The version that a `define` node declares for kind `name`, or its error.
pub open spec fn define_of(n: Node, name: Seq<char>) -> Result<DefinitionView, (ErrorKind, Seq<char>, Span)> {
    if n.name@ != "define"@ {
        Err((ErrorKind::Shape, UNKNOWN_NODE@, n.name_span))
    } else {
        match property_index(n.entries@, "since"@) {
            None => Err((ErrorKind::Shape, MISSING_SINCE@, n.name_span)),
            Some(i) => match n.entries@[i].value {
                Scalar::String(s) => match timestamp_of_text(s@) {
                    None => Err((ErrorKind::Temporal, BAD_SINCE@, n.entries@[i].span)),
                    Some(t) => match first_named(children_of(n), "fields"@) {
                        None => Err((ErrorKind::Shape, MISSING_FIELDS@, n.span)),
                        Some(j) => match fields_of(children_of(children_of(n)[j])) {
                            Err(e) => Err(e),
                            Ok(fs) => Ok(DefinitionView { name, since: t, fields: fs }),
                        },
                    },
                },
                _ => Err((ErrorKind::Type, SINCE_NOT_STRING@, n.entries@[i].span)),
            },
        }
    }
}

/// Where a version of instant `t` goes in a list ordered by `since`: after
/// every version whose `since` is not later than `t`.
pub open spec fn insertion_point(s: Seq<DefinitionView>, t: Timestamp) -> int
    decreases s.len(),
{
    if s.len() == 0 {
        0
    } else if s.last().since.total() > t.total() {
        insertion_point(s.drop_last(), t)
    } else {
        s.len() as int
    }
}

/// Inserts a version into a list ordered by `since`, after its equals.
pub open spec fn insert_by_since(s: Seq<DefinitionView>, d: DefinitionView) -> Seq<DefinitionView> {
    s.insert(insertion_point(s, d.since), d)
}

/// The versions that a definition document declares for kind `name`,
/// ordered by `since` with ties in document order, or its first error.
pub open spec fn definitions_of(ns: Seq<Node>, name: Seq<char>) -> Result<Seq<DefinitionView>, (ErrorKind, Seq<char>, Span)>
    decreases ns.len(),
{
    if ns.len() == 0 {
        Ok(Seq::empty())
    } else {
        match definitions_of(ns.drop_last(), name) {
            Err(e) => Err(e),
            Ok(acc) => match define_of(ns.last(), name) {
                Err(e) => Err(e),
                Ok(d) => Ok(insert_by_since(acc, d)),
            },
        }
    }
}

/// The versions are ordered by `since`.
pub open spec fn sorted_by_since(s: Seq<DefinitionView>) -> bool {
    forall|i: int, j: int| 0 <= i < j < s.len() ==> s[i].since.total() <= s[j].since.total()
}

/// The views of a list of versions.
pub open spec fn versions_view(v: Seq<Definition>) -> Seq<DefinitionView> {
    v.map_values(|d: Definition| d@)
}

/// Whether an exec result and a spec result agree: the same value, or an
/// error of the same class at the same place.
pub open spec fn agrees<T, V>(r: Result<T, ParseError>, s: Result<V, (ErrorKind, Seq<char>, Span)>, f: spec_fn(T) -> V) -> bool {
    match s {
        Ok(v) => r matches Ok(x) && f(x) == v,
        Err(e) => r matches Err(x) && x@ == e,
    }
}

proof fn lemma_options_prefix(es: Seq<crate::document::Entry>, i: int, j: int)
    requires
        0 <= i <= j <= es.len(),
        options_of(es.subrange(0, i)) is Err,
    ensures
        options_of(es.subrange(0, j)) == options_of(es.subrange(0, i)),
    decreases j - i,
{
    if j > i {
        lemma_options_prefix(es, i, j - 1);
        assert(es.subrange(0, j).drop_last() =~= es.subrange(0, j - 1));
    }
}

proof fn lemma_fields_prefix(ns: Seq<Node>, i: int, j: int)
    requires
        0 <= i <= j <= ns.len(),
        fields_of(ns.subrange(0, i)) is Err,
    ensures
        fields_of(ns.subrange(0, j)) == fields_of(ns.subrange(0, i)),
    decreases j - i,
{
    if j > i {
        lemma_fields_prefix(ns, i, j - 1);
        assert(ns.subrange(0, j).drop_last() =~= ns.subrange(0, j - 1));
    }
}

proof fn lemma_definitions_prefix(ns: Seq<Node>, name: Seq<char>, i: int, j: int)
    requires
        0 <= i <= j <= ns.len(),
        definitions_of(ns.subrange(0, i), name) is Err,
    ensures
        definitions_of(ns.subrange(0, j), name) == definitions_of(ns.subrange(0, i), name),
    decreases j - i,
{
    if j > i {
        lemma_definitions_prefix(ns, name, i, j - 1);
        assert(ns.subrange(0, j).drop_last() =~= ns.subrange(0, j - 1));
    }
}

/// The listed strings of a `oneOf` node.
fn options(es: &Vec<crate::document::Entry>) -> (r: Result<Vec<String>, ParseError>)
    ensures
        agrees(r, options_of(es@), |v: Vec<String>| v@.map_values(|s: String| s@)),
{
    let mut acc: Vec<String> = Vec::new();
    let mut i: usize = 0;
    assert(es@.subrange(0, 0) =~= Seq::<crate::document::Entry>::empty());
    assert(acc@.map_values(|s: String| s@) =~= Seq::<Seq<char>>::empty());
    while i < es.len()
        invariant
            i <= es.len(),
            options_of(es@.subrange(0, i as int)) == Ok::<Seq<Seq<char>>, (ErrorKind, Seq<char>, Span)>(
                acc@.map_values(|s: String| s@),
            ),
        decreases es.len() - i,
    {
        proof {
            assert(es@.subrange(0, i + 1).drop_last() =~= es@.subrange(0, i as int));
        }
        match &es[i].value {
            Scalar::String(s) => {
                acc.push(s.clone());
                assert(acc@.map_values(|s: String| s@) =~= options_of(es@.subrange(0, i as int))->Ok_0.push(s@));
            },
            _ => {
                proof {
                    lemma_options_prefix(es@, i + 1, es@.len() as int);
                    assert(es@.subrange(0, es@.len() as int) =~= es@);
                }
                return Err(ParseError::new(ErrorKind::Type, ONE_OF_ENTRY, es[i].span));
            },
        }
        i = i + 1;
    }
    assert(es@.subrange(0, es@.len() as int) =~= es@);
    Ok(acc)
}

/// The kind that a field declaration gives, as `declared_kind` says.
fn field_declared_kind(field: &Node) -> (r: Result<DefinitionKind, ParseError>)
    ensures
        agrees(r, declared_kind(*field), |k: DefinitionKind| k@),
{
    match property(&field.entries, "is") {
        Some(e) => match &e.value {
            Scalar::String(s) => match DefinitionKind::from_name(s.as_str()) {
                Ok(k) => Ok(k),
                Err(msg) => Err(ParseError { kind: ErrorKind::Reference, message: msg, span: field.span }),
            },
            _ => Err(ParseError::new(ErrorKind::Type, IS_NOT_STRING, field.span)),
        },
        None => match &field.children {
            None => Err(
                ParseError::new(
                    ErrorKind::Shape,
                    NO_FIELD_KIND,
                    field.span,
                ),
            ),
            Some(cs) => match find_named(cs, "oneOf") {
                None => Err(ParseError::new(ErrorKind::Shape, UNRECOGNIZED_FIELD, field.span)),
                Some(one_of) => match options(&one_of.entries) {
                    Ok(v) => Ok(DefinitionKind::OneOf(v)),
                    Err(e) => Err(e),
                },
            },
        },
    }
}

/// A field declaration, checked as `field_decl` says.
fn field_declaration(field: &Node) -> (r: Result<DefinitionKind, ParseError>)
    ensures
        agrees(r, field_decl(*field), |k: DefinitionKind| k@),
{
    let k = match field_declared_kind(field) {
        Ok(k) => k,
        Err(e) => return Err(e),
    };
    if text_eq(field.name.as_str(), "at") || text_eq(field.name.as_str(), "kind") {
        return Err(
            ParseError::new(
                ErrorKind::Validation,
                RESERVED_FIELD,
                field.name_span,
            ),
        );
    }
    Ok(k)
}

/// The fields that a list of field declarations gives, as `fields_of` says.
fn fields_from(ns: &Vec<Node>) -> (r: Result<Vec<(String, DefinitionKind)>, ParseError>)
    ensures
        agrees(r, fields_of(ns@), |v: Vec<(String, DefinitionKind)>| fields_view(v@)),
{
    let mut acc: Vec<(String, DefinitionKind)> = Vec::new();
    let mut i: usize = 0;
    assert(ns@.subrange(0, 0) =~= Seq::<Node>::empty());
    assert(fields_view(acc@) =~= Seq::empty());
    while i < ns.len()
        invariant
            i <= ns.len(),
            fields_of(ns@.subrange(0, i as int)) == Ok::<Seq<(Seq<char>, FieldKindView)>, (ErrorKind, Seq<char>, Span)>(
                fields_view(acc@),
            ),
        decreases ns.len() - i,
    {
        proof {
            assert(ns@.subrange(0, i + 1).drop_last() =~= ns@.subrange(0, i as int));
        }
        match field_declaration(&ns[i]) {
            Ok(k) => {
                declare_field(&mut acc, ns[i].name.clone(), k);
            },
            Err(e) => {
                proof {
                    lemma_fields_prefix(ns@, i + 1, ns@.len() as int);
                    assert(ns@.subrange(0, ns@.len() as int) =~= ns@);
                }
                return Err(e);
            },
        }
        i = i + 1;
    }
    assert(ns@.subrange(0, ns@.len() as int) =~= ns@);
    Ok(acc)
}

/// The version that a `define` node declares, as `define_of` says.
fn define(n: &Node, name: &str) -> (r: Result<Definition, ParseError>)
    ensures
        agrees(r, define_of(*n, name@), |d: Definition| d@),
{
    if !text_eq(n.name.as_str(), "define") {
        return Err(ParseError::new(ErrorKind::Shape, UNKNOWN_NODE, n.name_span));
    }
    let since_entry = match property(&n.entries, "since") {
        Some(e) => e,
        None => return Err(
            ParseError::new(
                ErrorKind::Shape,
                MISSING_SINCE,
                n.name_span,
            ),
        ),
    };
    let since = match &since_entry.value {
        Scalar::String(s) => match parse_timestamp(s.as_str()) {
            Some(t) => t,
            None => return Err(
                ParseError::new(
                    ErrorKind::Temporal,
                    BAD_SINCE,
                    since_entry.span,
                ),
            ),
        },
        _ => return Err(
            ParseError::new(
                ErrorKind::Type,
                SINCE_NOT_STRING,
                since_entry.span,
            ),
        ),
    };
    let empty: Vec<Node> = Vec::new();
    let children = match &n.children {
        Some(c) => c,
        None => &empty,
    };
    assert(children@ == children_of(*n));
    let fields_node = match find_named(children, "fields") {
        Some(f) => f,
        None => return Err(
            ParseError::new(
                ErrorKind::Shape,
                MISSING_FIELDS,
                n.span,
            ),
        ),
    };
    let field_nodes = match &fields_node.children {
        Some(c) => c,
        None => &empty,
    };
    assert(field_nodes@ == children_of(*fields_node));
    match fields_from(field_nodes) {
        Ok(fields) => Ok(Definition { name: owned(name), since, fields }),
        Err(e) => Err(e),
    }
}

pub proof fn lemma_insertion_point(s: Seq<DefinitionView>, t: Timestamp)
    requires
        sorted_by_since(s),
    ensures
        0 <= insertion_point(s, t) <= s.len(),
        forall|j: int| 0 <= j < insertion_point(s, t) ==> s[j].since.total() <= t.total(),
        forall|j: int| insertion_point(s, t) <= j < s.len() ==> s[j].since.total() > t.total(),
    decreases s.len(),
{
    if s.len() > 0 {
        let q = s.drop_last();
        assert(sorted_by_since(q));
        lemma_insertion_point(q, t);
        if s.last().since.total() > t.total() {
            assert forall|j: int| 0 <= j < insertion_point(s, t) implies s[j].since.total() <= t.total() by {
                assert(s[j] == q[j]);
            }
            assert forall|j: int| insertion_point(s, t) <= j < s.len() implies s[j].since.total() > t.total() by {
                if j < s.len() - 1 {
                    assert(s[j] == q[j]);
                }
            }
        } else {
            assert forall|j: int| 0 <= j < insertion_point(s, t) implies s[j].since.total() <= t.total() by {
                if j < s.len() - 1 {
                    assert(s[j].since.total() <= s[s.len() - 1].since.total());
                }
            }
        }
    }
}

proof fn lemma_insert_sorted(s: Seq<DefinitionView>, d: DefinitionView)
    requires
        sorted_by_since(s),
    ensures
        sorted_by_since(insert_by_since(s, d)),
{
    lemma_insertion_point(s, d.since);
    let p = insertion_point(s, d.since);
    let r = insert_by_since(s, d);
    assert forall|i: int, j: int| 0 <= i < j < r.len() implies r[i].since.total() <= r[j].since.total() by {
        if i < p && j < p {
        } else if i < p && j == p {
        } else if i < p {
            assert(r[j] == s[j - 1]);
        } else if i == p {
            assert(r[j] == s[j - 1]);
        } else {
            assert(r[i] == s[i - 1]);
            assert(r[j] == s[j - 1]);
        }
    }
}

/// Inserts a version after every version whose `since` is not later.
fn insert_version(defs: &mut Vec<Definition>, d: Definition)
    ensures
        versions_view(final(defs)@) == insert_by_since(versions_view(old(defs)@), d@),
{
    let ghost s = versions_view(defs@);
    let mut i: usize = defs.len();
    assert(s.subrange(0, i as int) =~= s);
    while i > 0 && defs[i - 1].since.is_after(&d.since)
        invariant
            i <= defs.len(),
            s == versions_view(defs@),
            insertion_point(s, d.since) == insertion_point(s.subrange(0, i as int), d.since),
        decreases i,
    {
        assert(s.subrange(0, i as int).drop_last() =~= s.subrange(0, i - 1));
        i = i - 1;
    }
    defs.insert(i, d);
    assert(versions_view(defs@) =~= insert_by_since(s, d@));
}

/// Reads the versions that a definition document declares for kind `name`:
/// every top-level node must be a `define` block; the versions come ordered
/// by `since`, ties in document order. The first error ends the reading.
pub fn parse_definition(name: &str, doc: &Vec<Node>) -> (r: Result<Vec<Definition>, ParseError>)
    ensures
        agrees(r, definitions_of(doc@, name@), |v: Vec<Definition>| versions_view(v@)),
        r matches Ok(v) ==> sorted_by_since(versions_view(v@)),
{
    let mut acc: Vec<Definition> = Vec::new();
    let mut i: usize = 0;
    assert(doc@.subrange(0, 0) =~= Seq::<Node>::empty());
    assert(versions_view(acc@) =~= Seq::empty());
    while i < doc.len()
        invariant
            i <= doc.len(),
            definitions_of(doc@.subrange(0, i as int), name@) == Ok::<Seq<DefinitionView>, (ErrorKind, Seq<char>, Span)>(
                versions_view(acc@),
            ),
            sorted_by_since(versions_view(acc@)),
        decreases doc.len() - i,
    {
        proof {
            assert(doc@.subrange(0, i + 1).drop_last() =~= doc@.subrange(0, i as int));
        }
        match define(&doc[i], name) {
            Ok(d) => {
                proof {
                    lemma_insert_sorted(versions_view(acc@), d@);
                }
                insert_version(&mut acc, d);
            },
            Err(e) => {
                proof {
                    lemma_definitions_prefix(doc@, name@, i + 1, doc@.len() as int);
                    assert(doc@.subrange(0, doc@.len() as int) =~= doc@);
                }
                return Err(e);
            },
        }
        i = i + 1;
    }
    assert(doc@.subrange(0, doc@.len() as int) =~= doc@);
    Ok(acc)
}

} // verus!
