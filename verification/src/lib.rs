//! Verified core of a marketplace-listing ingestion pipeline.
//!
//! The library decodes each listing's opaque item blob (base64 text, a
//! gzip-compressed binary tag tree) into a typed record, and flattens that
//! record together with its parent listing into one storage-ready row.
//! Decoding never panics: every malformed shape is reported as a
//! [`errors::DecodeError`], and normalization degrades a malformed sub-field
//! to absent instead of rejecting the whole row.

pub mod auction;
pub mod codec;
pub mod errors;
pub mod item;
pub mod laws;
pub mod models;
pub mod narrow;
pub mod pet;
pub mod text;
pub mod tree;
pub mod trusted;
