//! Values as the query engine sees them, and their correspondence with the
//! scalar values of documents.
use crate::document::Scalar;
use vstd::prelude::*;

verus! {

/// A value handed to the query engine. A floating-point number is held as
/// its IEEE 754 bit pattern.
#[derive(Clone, Debug, PartialEq)]
pub enum FieldValue {
    Null,
    Boolean(bool),
    Int64(i64),
    Uint64(u64),
    Float64(u64),
    String(String),
}

/// A document scalar as a mathematical value.
pub enum ScalarView {
    Text(Seq<char>),
    Integer(i128),
    Float(u64),
    Bool(bool),
    Null,
}

/// An engine value as a mathematical value.
pub enum ValueView {
    Null,
    Boolean(bool),
    Int64(i64),
    Uint64(u64),
    Float64(u64),
    Text(Seq<char>),
}

impl View for Scalar {
    type V = ScalarView;

    open spec fn view(&self) -> ScalarView {
        match self {
            Scalar::String(s) => ScalarView::Text(s@),
            Scalar::Integer(i) => ScalarView::Integer(*i),
            Scalar::Float(b) => ScalarView::Float(*b),
            Scalar::Bool(b) => ScalarView::Bool(*b),
            Scalar::Null => ScalarView::Null,
        }
    }
}

impl View for FieldValue {
    type V = ValueView;

    open spec fn view(&self) -> ValueView {
        match self {
            FieldValue::Null => ValueView::Null,
            FieldValue::Boolean(b) => ValueView::Boolean(*b),
            FieldValue::Int64(i) => ValueView::Int64(*i),
            FieldValue::Uint64(u) => ValueView::Uint64(*u),
            FieldValue::Float64(b) => ValueView::Float64(*b),
            FieldValue::String(s) => ValueView::Text(s@),
        }
    }
}

/// A scalar has an engine value: an integer must fit in 64 signed bits.
pub open spec fn fits(s: ScalarView) -> bool {
    s matches ScalarView::Integer(i) ==> i64::MIN <= i <= i64::MAX
}

/// The engine value of a scalar: each kind maps to its counterpart.
pub open spec fn value_of_scalar(s: ScalarView) -> ValueView {
    match s {
        ScalarView::Text(t) => ValueView::Text(t),
        ScalarView::Integer(i) => ValueView::Int64(i as i64),
        ScalarView::Float(b) => ValueView::Float64(b),
        ScalarView::Bool(b) => ValueView::Boolean(b),
        ScalarView::Null => ValueView::Null,
    }
}

/// The scalar that an engine value renders back to, if any.
pub open spec fn scalar_of_value(v: ValueView) -> Option<ScalarView> {
    match v {
        ValueView::Text(t) => Some(ScalarView::Text(t)),
        ValueView::Int64(i) => Some(ScalarView::Integer(i as i128)),
        ValueView::Float64(b) => Some(ScalarView::Float(b)),
        ValueView::Boolean(b) => Some(ScalarView::Bool(b)),
        ValueView::Null => Some(ScalarView::Null),
        ValueView::Uint64(u) => if u <= i128::MAX {
            Some(ScalarView::Integer(u as i128))
        } else {
            None
        },
    }
}

impl FieldValue {
    /// The engine value of a scalar.
    pub fn from_scalar(s: &Scalar) -> (r: FieldValue)
        requires
            fits(s@),
        ensures
            r@ == value_of_scalar(s@),
    {
        match s {
            Scalar::String(t) => FieldValue::String(t.clone()),
            Scalar::Integer(i) => FieldValue::Int64(*i as i64),
            Scalar::Float(b) => FieldValue::Float64(*b),
            Scalar::Bool(b) => FieldValue::Boolean(*b),
            Scalar::Null => FieldValue::Null,
        }
    }

    /// The scalar that this value renders back to, if any.
    pub fn to_scalar(&self) -> (r: Option<Scalar>)
        ensures
            match scalar_of_value(self@) {
                Some(s) => r matches Some(x) && x@ == s,
                None => r is None,
            },
    {
        match self {
            FieldValue::String(t) => Some(Scalar::String(t.clone())),
            FieldValue::Int64(i) => Some(Scalar::Integer(*i as i128)),
            FieldValue::Float64(b) => Some(Scalar::Float(*b)),
            FieldValue::Boolean(b) => Some(Scalar::Bool(*b)),
            FieldValue::Null => Some(Scalar::Null),
            FieldValue::Uint64(u) => Some(Scalar::Integer(*u as i128)),
        }
    }
}

/// Rendering a scalar as an engine value and back gives the same scalar,
/// with its kind and its value.
pub proof fn lemma_scalar_round_trip(s: ScalarView)
    requires
        fits(s),
    ensures
        scalar_of_value(value_of_scalar(s)) == Some(s),
{
}

} // verus!
