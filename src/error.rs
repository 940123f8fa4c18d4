//! Errors met while reading definition and record documents.
use crate::document::Span;
use vstd::prelude::*;

verus! {

/// The class of a reading error.
#[derive(Clone, Copy, Debug, PartialEq, Eq, Structural)]
pub enum ErrorKind {
    /// An unknown node, or a required property or child block is missing.
    Shape,
    /// A value has the wrong scalar type.
    Type,
    /// A timestamp matches none of the accepted forms.
    Temporal,
    /// An unknown record kind or field kind name is referred to.
    Reference,
    /// A value breaks the constraint declared for it, or a name is reserved.
    Validation,
}

/// A reading error: its class, a message, and the place in the source that
/// caused it.
#[derive(Debug)]
pub struct ParseError {
    pub kind: ErrorKind,
    pub message: String,
    pub span: Span,
}

impl View for ParseError {
    type V = (ErrorKind, Seq<char>, Span);

    open spec fn view(&self) -> (ErrorKind, Seq<char>, Span) {
        (self.kind, self.message@, self.span)
    }
}

/// A `oneOf` entry that is no string.
pub const ONE_OF_ENTRY: &'static str = "Each `oneOf` entry needs to be a string.";

/// What precedes the unknown field-kind name in its message.
pub const UNKNOWN_FIELD_KIND: &'static str = "Did not recognize valid field kind: \"";

/// What follows the unknown field-kind name in its message.
pub const QUOTE: &'static str = "\"";

/// An `is` property that is no string.
pub const IS_NOT_STRING: &'static str = "The `is` field needs to be a string.";

/// A field declaration with neither an `is` property nor child nodes.
pub const NO_FIELD_KIND: &'static str = "Either set a `is` property, or a child with the given definition";

/// A field declaration whose child nodes hold no `oneOf`.
pub const UNRECOGNIZED_FIELD: &'static str = "Unrecognizable field definition";

/// A field declared under a reserved name.
pub const RESERVED_FIELD: &'static str = "Reserved field name.";

/// A top-level node of a definition document that is no `define`.
pub const UNKNOWN_NODE: &'static str = "Unknown node: allowed nodes are \"define\".";

/// A `define` block without `since`.
pub const MISSING_SINCE: &'static str = "Missing `since` property. Every `define` block requires one.";

/// A `since` text that reads as no instant.
pub const BAD_SINCE: &'static str = "Could not parse the `since` property as a valid RFC3339 time";

/// A `since` value that is no string.
pub const SINCE_NOT_STRING: &'static str = "The `since` property needs to be a string in RFC3339 format.";

/// A `define` block without `fields`.
pub const MISSING_FIELDS: &'static str = "Could not find `fields` child, which is a required child node.";

/// A field assignment without a value.
pub const FIELD_WITHOUT_VALUE: &'static str = "Every field needs a value as its first argument.";

/// A field assignment that the version in effect does not declare.
pub const UNDECLARED_FIELD: &'static str = "This field is not declared by the definition in effect.";

/// What precedes the kind's hint in the message of a rejected value.
pub const WRONG_KIND: &'static str = "This field has the wrong kind. ";

/// A record of a kind that has no definition file.
pub const UNKNOWN_RECORD_KIND: &'static str = "Unknown record kind";

/// A record of a kind whose definition file declares no version.
pub const NO_VERSION: &'static str = "This record kind has no definition";

/// A record without its instant.
pub const MISSING_INSTANT: &'static str = "Every record has to have a first argument with a datetime formatted as RFC3339.";

/// A record instant that is no string or reads as no instant.
pub const BAD_INSTANT: &'static str = "This datetime should be a string formatted as RFC3339.";

impl ParseError {
    /// A new error of class `kind` at `span`.
    pub fn new(kind: ErrorKind, message: &str, span: Span) -> (r: ParseError)
        ensures
            r@ == (kind, message@, span),
    {
        ParseError { kind, message: String::from_str(message), span }
    }
}

} // verus!
