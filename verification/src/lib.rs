//! Engine for copying a whole relational schema between two live database
//! instances: dependency-ordered recreation of source-code objects, a bulk
//! table-transfer pipeline with out-of-band large-object copy, and the typed
//! row-decoding / parameter-binding layer both are built on.
//!
//! Everything that decides or computes lives here, verified; the native
//! call-level driver is driven from a thin unverified shell that hands plain
//! values in and carries plain values out.

pub mod accessories;
pub mod catalog;
pub mod config;
pub mod foreign_keys;
pub mod grants;
pub mod indexes;
pub mod options;
pub mod oracle;
pub mod schemas;
pub mod snapshots;
pub mod sequences;
pub mod table;
pub mod table_executor;
pub mod table_loader;
pub mod text;
pub mod triggers;

use vstd::prelude::*;

verus! {

} // verus!
