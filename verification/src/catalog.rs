//! Whole-catalog table listing: the query over all owners except the
//! excluded ones, and the typed row records it decodes into, with the
//! descriptor layer a record type declares its columns through.

use vstd::prelude::*;
use crate::oracle::meta::MetaQuery;
use crate::oracle::meta::MetaType;
use crate::oracle::meta::ResultSet;
use crate::oracle::meta::string_meta;
use crate::text::join;
use crate::text::quoted;
use crate::text::spec_join;

verus! {

/// Logical type of a bound or fetched value.
#[derive(Clone, Copy, Debug, PartialEq, Eq, Structural)]
pub enum SqlType {
    Bool,
    Int16,
    Int32,
    Int64,
    Float,
    Date,
    Timestamp,
    Text,
}

/// One column's physical description: logical type, wire type code and
/// byte size.
#[derive(Clone, Copy, Debug, PartialEq, Eq, Structural)]
pub struct TypeDescriptor {
    pub sql_type: SqlType,
    pub dtype: u16,
    pub size: usize,
}

/// The descriptor of a character column holding up to `capacity` bytes,
/// with a two-byte reserve.
pub fn string_sqltype(capacity: usize) -> (r: TypeDescriptor)
    requires
        capacity + 2 <= usize::MAX,
    ensures
        r.sql_type == SqlType::Text,
        r.dtype == 1,
        r.size == capacity + 2,
{
    TypeDescriptor { sql_type: SqlType::Text, dtype: 1, size: capacity + 2 }
}

/// A record type that declares the column descriptors its rows are
/// fetched through.
pub trait DescriptorsProvider {
    fn sql_descriptors() -> Vec<TypeDescriptor>;
}

/// A value type that produces its own column descriptor, sized when the
/// type carries character data.
pub trait TypeDescriptorProducer<T> {
    fn produce_sized(capacity: usize) -> TypeDescriptor;
}

/// A record type decodable from one fetched row.
pub trait FromResultSet where Self: core::marker::Sized {
    fn from_resultset(rs: &ResultSet) -> Self;
}

/// One table of the whole-catalog listing.
#[derive(Clone, Debug)]
pub struct OraTable {
    pub owner: String,
    pub table_name: String,
}

impl DescriptorsProvider for OraTable {
    fn sql_descriptors() -> Vec<TypeDescriptor> {
        let mut v: Vec<TypeDescriptor> = Vec::new();
        v.push(string_sqltype(128));
        v.push(string_sqltype(128));
        v
    }
}

impl FromResultSet for OraTable {
    fn from_resultset(rs: &ResultSet) -> Self {
        let owner = if rs.len() > 0 && rs[0].len <= rs[0].data.len() {
            rs[0].to_text()
        } else {
            String::new()
        };
        let table_name = if rs.len() > 1 && rs[1].len <= rs[1].data.len() {
            rs[1].to_text()
        } else {
            String::new()
        };
        OraTable { owner, table_name }
    }
}

impl MetaQuery for OraTable {
    fn create(values: &ResultSet) -> Self {
        Self::from_resultset(values)
    }

    fn meta() -> Vec<MetaType> {
        let mut v: Vec<MetaType> = Vec::new();
        v.push(string_meta(128));
        v.push(string_meta(128));
        v
    }
}

/// The listing query: every table of every owner not excluded, in owner
/// and name order.
pub fn tables_query_sql(excludes: &Vec<String>) -> (r: String)
    ensures
        r@ == "SELECT OWNER, TABLE_NAME FROM SYS.ALL_TABLES WHERE OWNER NOT IN ("@ + spec_join(
            excludes@.map_values(|s: String| seq!['\''] + s@ + seq!['\'']),
            ","@,
        ) + ") ORDER BY OWNER, TABLE_NAME"@,
{
    let mut qs: Vec<String> = Vec::new();
    let mut i: usize = 0;
    while i < excludes.len()
        invariant
            i <= excludes@.len(),
            qs@.len() == i,
            forall|j: int|
                0 <= j < i ==> (#[trigger] qs@[j])@ == seq!['\''] + excludes@[j]@ + seq!['\''],
        decreases excludes@.len() - i,
    {
        qs.push(quoted(excludes[i].as_str()));
        i = i + 1;
    }
    proof {
        assert(qs@.map_values(|s: String| s@) =~= excludes@.map_values(
            |s: String| seq!['\''] + s@ + seq!['\''],
        ));
    }
    let mut r = String::from_str("SELECT OWNER, TABLE_NAME FROM SYS.ALL_TABLES WHERE OWNER NOT IN (");
    let list = join(&qs, ",");
    r.append(list.as_str());
    r.append(") ORDER BY OWNER, TABLE_NAME");
    r
}

/// Assembles the table records of the listing's fetched rows.
pub fn load(rows: &Vec<(String, String)>) -> (r: Vec<OraTable>)
    ensures
        r@.len() == rows@.len(),
        forall|k: int|
            0 <= k < rows@.len() ==> (#[trigger] r@[k]).owner@ == rows@[k].0@
                && r@[k].table_name@ == rows@[k].1@,
{
    let mut r: Vec<OraTable> = Vec::new();
    let mut k: usize = 0;
    while k < rows.len()
        invariant
            k <= rows@.len(),
            r@.len() == k,
            forall|k2: int|
                0 <= k2 < k ==> (#[trigger] r@[k2]).owner@ == rows@[k2].0@ && r@[k2].table_name@
                    == rows@[k2].1@,
        decreases rows@.len() - k,
    {
        r.push(OraTable { owner: rows[k].0.clone(), table_name: rows[k].1.clone() });
        k = k + 1;
    }
    r
}

} // verus!
