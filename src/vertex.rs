//! The nodes of the query graph: filesystem entries, documents of the
//! external document service, and records.
use crate::record::{Record, RecordView};
use crate::synth::{kind_type_name, DIRECTORY_TYPE, DOCUMENT_TYPE, FILE_TYPE, KIND_TYPE_PREFIX, PATH_INTERFACE};
use crate::text::owned;
use vstd::prelude::*;

verus! {

/// A document as fetched from the external document service.
#[derive(Clone, Debug)]
pub struct ExternalDocument {
    pub id: u64,
    pub title: String,
    pub content: String,
    pub created: String,
    pub added: String,
    pub archive_serial_number: Option<String>,
}

/// A node of the query graph. Filesystem entries are paths that need not
/// exist.
#[derive(Clone, Debug)]
pub enum Vertex {
    Path(String),
    File(String),
    Directory(String),
    PaperlessDocument(ExternalDocument),
    Record(Record),
}

/// The local name of a vertex's runtime type: a record's is its kind's type.
pub open spec fn typename_of(v: Vertex) -> Seq<char> {
    match v {
        Vertex::Path(_) => PATH_INTERFACE@,
        Vertex::File(_) => FILE_TYPE@,
        Vertex::Directory(_) => DIRECTORY_TYPE@,
        Vertex::PaperlessDocument(_) => DOCUMENT_TYPE@,
        Vertex::Record(r) => kind_type_name(r.kind@),
    }
}

/// Whether a vertex is a filesystem entry.
pub open spec fn is_fs(v: Vertex) -> bool {
    v is Path || v is File || v is Directory
}

/// The path of a filesystem entry.
pub open spec fn path_of(v: Vertex) -> Seq<char> {
    match v {
        Vertex::Path(p) => p@,
        Vertex::File(p) => p@,
        Vertex::Directory(p) => p@,
        _ => Seq::empty(),
    }
}

impl Vertex {
    /// The local name of this vertex's runtime type.
    pub fn typename(&self) -> (r: String)
        ensures
            r@ == typename_of(*self),
    {
        match self {
            Vertex::Path(_) => owned(PATH_INTERFACE),
            Vertex::File(_) => owned(FILE_TYPE),
            Vertex::Directory(_) => owned(DIRECTORY_TYPE),
            Vertex::PaperlessDocument(_) => owned(DOCUMENT_TYPE),
            Vertex::Record(r) => {
                let mut s = owned(KIND_TYPE_PREFIX);
                s.append(r.kind.as_str());
                s
            },
        }
    }

    /// The path of a filesystem entry.
    pub fn as_path(&self) -> (r: Option<&String>)
        ensures
            is_fs(*self) <==> r is Some,
            r matches Some(p) ==> p@ == path_of(*self),
    {
        match self {
            Vertex::Path(p) => Some(p),
            Vertex::File(p) => Some(p),
            Vertex::Directory(p) => Some(p),
            _ => None,
        }
    }

    /// The record, if this vertex is one.
    pub fn as_record(&self) -> (r: Option<&Record>)
        ensures
            match *self {
                Vertex::Record(x) => r == Some(&x),
                _ => r is None,
            },
    {
        match self {
            Vertex::Record(x) => Some(x),
            _ => None,
        }
    }
}

} // verus!
