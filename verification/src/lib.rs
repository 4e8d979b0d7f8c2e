//! Snapshots of public space data: raw API documents are parsed into typed
//! models, normalized into canonical persisted shapes, and encoded as JSON
//! text for a blob store. All reshaping logic is verified; network and store
//! I/O live outside this crate and exchange plain values with it.
pub mod apimodels;
pub mod fetch;
pub mod fields;
pub mod json;
pub mod launches;
pub mod neo;
pub mod nums;
pub mod parse;
pub mod people;
pub mod persistencemodels;
pub mod roundtrip;
pub mod store;
mod text;
pub mod timestamp;
