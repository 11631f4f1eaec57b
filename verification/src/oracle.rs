//! The typed layer over the native call-level database interface: wire type
//! codes, status decoding, row metadata, parameter bindings, fetch-area
//! layout, the batched query iterator and the large-object copy protocol.
//!
//! The native driver itself is an outside capability reached only from the
//! unverified shell; what stands here is everything the engine decides or
//! computes around it.

pub mod bindings;
pub mod common;
pub mod meta;
pub mod errors;
pub mod lob;
pub mod oci;
pub mod query;
pub mod typed_query;
