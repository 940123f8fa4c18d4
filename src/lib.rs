//! A personal structured-record store: versioned record kinds, time-stamped
//! records validated against the version in effect, schema synthesis for a
//! graph query engine, and the resolution logic that answers that engine.

pub mod adapter;
pub mod definition;
pub mod document;
pub mod error;
pub mod fs;
pub mod keyed;
pub mod parity;
pub mod record;
pub mod router;
pub mod schema;
pub mod store;
pub mod synth;
pub mod text;
pub mod timestamp;
pub mod value;
pub mod vertex;
