//! The run's configuration values: connection descriptors for both sides,
//! the transfer buffer budget, the column-based partial-copy threshold,
//! the schema list, and the key-material locations of the companion
//! identity service.

use vstd::prelude::*;

verus! {

/// A connection descriptor: where, and as whom.
#[derive(Clone, Debug, PartialEq)]
pub struct Addr {
    pub uri: String,
    pub user: String,
    pub pw: String,
}

/// The whole run's configuration.
#[derive(Debug, PartialEq)]
pub struct Config {
    pub destination: Addr,
    pub source: Addr,
    pub buffer_size: u32,
    pub luna_calc: u32,
}

/// One schema to migrate: its name, an optional fixed password, whether
/// its objects are assumed to exist already, and table names excluded from
/// transfer.
#[derive(Debug, PartialEq)]
pub struct Schema {
    pub name: String,
    pub pw: Option<String>,
    pub assumexists: Option<bool>,
    pub exclusions: Option<Vec<String>>,
}

/// Where the transport-security key material lies.
#[derive(Debug, Default, PartialEq)]
pub struct SSLConfig {
    pub path: String,
    pub keyfile: String,
    pub certfile: String,
}

/// Whether a schema is taken as already existing at the destination.
pub fn assume_exists(schema: &Schema) -> (r: bool)
    ensures
        r == (schema.assumexists matches Some(true)),
{
    match schema.assumexists {
        Some(b) => b,
        None => false,
    }
}

/// The table name stands in the schema's exclusion list.
pub open spec fn spec_excluded(schema: Schema, t: Seq<char>) -> bool {
    match schema.exclusions {
        Some(ex) => exists|i: int| 0 <= i < ex@.len() && (#[trigger] ex@[i])@ == t,
        None => false,
    }
}

/// Whether a table name is excluded from transfer for this schema.
pub fn is_excluded(schema: &Schema, table_name: &String) -> (r: bool)
    ensures
        r == spec_excluded(*schema, table_name@),
{
    match &schema.exclusions {
        Some(ex) => {
            let mut i: usize = 0;
            while i < ex.len()
                invariant
                    schema.exclusions is Some && schema.exclusions->0 == *ex,
                    i <= ex@.len(),
                    forall|j: int| 0 <= j < i ==> (#[trigger] ex@[j])@ != table_name@,
                decreases ex@.len() - i,
            {
                if crate::text::str_eq(ex[i].as_str(), table_name.as_str()) {
                    proof {
                        let exx = schema.exclusions->0;
                        assert(exx@[i as int]@ == table_name@);
                        assert(spec_excluded(*schema, table_name@));
                    }
                    return true;
                }
                i = i + 1;
            }
            false
        },
        None => false,
    }
}

/// Whether a schema takes part in the migration at all: the system's own
/// schemas never do.
pub fn is_migrated(schema: &Schema) -> (r: bool)
    ensures
        r == (schema.name@ != "SYS"@ && schema.name@ != "SYSTEM"@),
{
    !crate::text::str_eq(schema.name.as_str(), "SYS") && !crate::text::str_eq(
        schema.name.as_str(),
        "SYSTEM",
    )
}

} // verus!
