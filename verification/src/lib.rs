//! Row-oriented telemetry records (trace spans and structured log entries)
//! and their columnar form.
//!
//! Spans have a fixed shape and always encode to the same eight columns. Logs
//! carry an open set of attributes: the columns of a log batch are the six
//! fixed ones followed by one column per attribute key seen in the rows, typed
//! by inference over the values bound to that key. Decoding turns batches back
//! into row documents and typed rows, resolving columns by name.
//!
//! - `schema`, `datum`, `batch`: columns, cells and the batch itself.
//! - `span`, `log`, `infer`: the two encoders, with schema inference and merge.
//! - `decode`, `rows`: the decoder and the two row types it maps onto.
//! - `json`: what is taken on trust of the JSON writer and reader.
//! - `laws`, `conflicts`, `typing`: what holds of all of these together.

pub mod schema;
pub mod datum;
pub mod batch;
pub mod error;
pub mod json;
pub mod span;
pub mod infer;
pub mod log;
pub mod decode;
pub mod rows;
pub mod conflicts;
pub mod laws;
pub mod typing;
