//! Table, column, key and index descriptors rebuilt from the source
//! catalog for every table, and the mapping from native column types to
//! the engine's logical types and transfer buffer widths.

use vstd::prelude::*;
use crate::oracle::common::OCIDataType;
use crate::text::str_eq;

verus! {

/// Logical type of a transferred column.
#[derive(Clone, Copy, Debug, PartialEq, Eq, Structural)]
pub enum ColumnType {
    Int32,
    Int64,
    Float64,
    Varchar,
    DateTime,
    Blob,
    Clob,
    Long,
    Unsupported,
}

/// One column of a table: name, logical and native type, declared length,
/// nullability, numeric precision and scale, and the per-row transfer
/// buffer width derived from them.
#[derive(Clone, Debug)]
pub struct ColumnInfo {
    pub name: String,
    pub col_type: ColumnType,
    pub col_type_name: String,
    pub oci_data_type: OCIDataType,
    pub col_len: u32,
    pub nullable: bool,
    pub data_precision: u32,
    pub data_scale: u32,
    pub buffer_len: u32,
}

/// A table's primary key: constraint name and ordered column list.
#[derive(Clone, Debug)]
pub struct PrimaryKey {
    pub name: String,
    pub columns: Vec<String>,
}

/// One column of an index, with its direction.
#[derive(Clone, Debug)]
pub struct IndexColumn {
    pub name: String,
    pub desc: bool,
}

/// A secondary index: name, uniqueness and ordered column list.
#[derive(Clone, Debug)]
pub struct Index {
    pub name: String,
    pub unique: bool,
    pub columns: Vec<IndexColumn>,
}

/// A table as the transfer pipeline sees it.
#[derive(Clone, Debug)]
pub struct TableInfo {
    pub name: String,
    pub temporary: bool,
    pub backed_up: bool,
    pub iot: bool,
    pub luna_calc: bool,
    pub has_blob: bool,
    pub unsupported: bool,
    pub no_iot: bool,
    pub columns: Vec<ColumnInfo>,
    pub primary_key: Option<PrimaryKey>,
    pub indexes: Vec<Index>,
}

/// The logical type a native column type maps to.
pub open spec fn spec_col_type(ctn: Seq<char>, scale: u32, precision: u32) -> ColumnType {
    if ctn == "CHAR"@ || ctn == "VARCHAR2"@ {
        ColumnType::Varchar
    } else if ctn == "LONG"@ {
        ColumnType::Long
    } else if ctn == "DATE"@ {
        ColumnType::DateTime
    } else if ctn == "NUMBER"@ {
        if scale == 0 {
            if precision == 0 || precision > 7 {
                ColumnType::Int64
            } else {
                ColumnType::Int32
            }
        } else {
            ColumnType::Float64
        }
    } else if ctn == "BLOB"@ {
        ColumnType::Blob
    } else if ctn == "CLOB"@ {
        ColumnType::Clob
    } else {
        ColumnType::Unsupported
    }
}

/// The wire type a native column type is fetched and bound as.
pub open spec fn spec_wire_type(ctn: Seq<char>, scale: u32, precision: u32) -> OCIDataType {
    if ctn == "CHAR"@ || ctn == "VARCHAR2"@ || ctn == "LONG"@ {
        OCIDataType::Char
    } else if ctn == "DATE"@ {
        OCIDataType::Timestamp
    } else if ctn == "NUMBER"@ {
        OCIDataType::Numeric
    } else if ctn == "BLOB"@ {
        OCIDataType::Blob
    } else if ctn == "CLOB"@ {
        OCIDataType::Clob
    } else {
        OCIDataType::Unsupported
    }
}

/// The transfer buffer width a column needs per row: the declared length
/// for character data, a bounded width for long character data, the packed
/// calendar width for dates, the numeric wire width for numbers, nothing
/// for large objects (copied out of band) and unsupported types.
pub open spec fn spec_buffer_len(ctn: Seq<char>, col_len: u32) -> u32 {
    if ctn == "CHAR"@ || ctn == "VARCHAR2"@ {
        col_len
    } else if ctn == "LONG"@ {
        4000
    } else if ctn == "DATE"@ {
        11
    } else if ctn == "NUMBER"@ {
        22
    } else {
        0
    }
}

/// The type name the destination column is declared with: an unconstrained
/// number becomes an integer, everything else keeps its native name.
pub open spec fn spec_dest_type_name(ctn: Seq<char>, scale: u32, precision: u32) -> Seq<char> {
    if ctn == "NUMBER"@ && scale == 0 && precision == 0 {
        "INTEGER"@
    } else {
        ctn
    }
}

/// Maps one fetched column row — name, native type name, length,
/// nullability flag, scale and precision (absent means zero) — to its
/// column descriptor.
pub fn map_column(
    name: String,
    col_type_name: String,
    col_len: u32,
    nullable_flag: &str,
    data_scale: Option<u32>,
    data_precision: Option<u32>,
) -> (c: ColumnInfo)
    ensures
        c.name@ == name@,
        c.nullable == (nullable_flag@ == "Y"@),
        c.col_len == col_len,
        c.data_scale == (match data_scale {
            Some(v) => v,
            None => 0,
        }),
        c.data_precision == (match data_precision {
            Some(v) => v,
            None => 0,
        }),
        c.col_type == spec_col_type(col_type_name@, c.data_scale, c.data_precision),
        c.oci_data_type == spec_wire_type(col_type_name@, c.data_scale, c.data_precision),
        c.buffer_len == spec_buffer_len(col_type_name@, col_len),
        c.col_type_name@ == spec_dest_type_name(col_type_name@, c.data_scale, c.data_precision),
{
    let nullable = str_eq(nullable_flag, "Y");
    let scale = match data_scale {
        Some(v) => v,
        None => 0,
    };
    let precision = match data_precision {
        Some(v) => v,
        None => 0,
    };
    let is_number = str_eq(col_type_name.as_str(), "NUMBER");
    let col_type = if str_eq(col_type_name.as_str(), "CHAR") || str_eq(
        col_type_name.as_str(),
        "VARCHAR2",
    ) {
        ColumnType::Varchar
    } else if str_eq(col_type_name.as_str(), "LONG") {
        ColumnType::Long
    } else if str_eq(col_type_name.as_str(), "DATE") {
        ColumnType::DateTime
    } else if is_number {
        if scale == 0 {
            if precision == 0 || precision > 7 {
                ColumnType::Int64
            } else {
                ColumnType::Int32
            }
        } else {
            ColumnType::Float64
        }
    } else if str_eq(col_type_name.as_str(), "BLOB") {
        ColumnType::Blob
    } else if str_eq(col_type_name.as_str(), "CLOB") {
        ColumnType::Clob
    } else {
        ColumnType::Unsupported
    };
    let oci_data_type = if str_eq(col_type_name.as_str(), "CHAR") || str_eq(
        col_type_name.as_str(),
        "VARCHAR2",
    ) || str_eq(col_type_name.as_str(), "LONG") {
        OCIDataType::Char
    } else if str_eq(col_type_name.as_str(), "DATE") {
        OCIDataType::Timestamp
    } else if is_number {
        OCIDataType::Numeric
    } else if str_eq(col_type_name.as_str(), "BLOB") {
        OCIDataType::Blob
    } else if str_eq(col_type_name.as_str(), "CLOB") {
        OCIDataType::Clob
    } else {
        OCIDataType::Unsupported
    };
    let buffer_len = if str_eq(col_type_name.as_str(), "CHAR") || str_eq(
        col_type_name.as_str(),
        "VARCHAR2",
    ) {
        col_len
    } else if str_eq(col_type_name.as_str(), "LONG") {
        4000
    } else if str_eq(col_type_name.as_str(), "DATE") {
        11
    } else if is_number {
        22
    } else {
        0
    };
    let dest_name = if is_number && scale == 0 && precision == 0 {
        String::from_str("INTEGER")
    } else {
        col_type_name
    };
    ColumnInfo {
        name,
        col_type,
        col_type_name: dest_name,
        oci_data_type,
        col_len,
        nullable,
        data_precision: precision,
        data_scale: scale,
        buffer_len,
    }
}

/// Some column's logical type is unsupported.
pub open spec fn any_unsupported(cols: Seq<ColumnInfo>) -> bool {
    exists|i: int| 0 <= i < cols.len() && (#[trigger] cols[i]).col_type == ColumnType::Unsupported
}

/// Some column needs a transfer buffer too wide for index-organized
/// storage.
pub open spec fn any_wide(cols: Seq<ColumnInfo>) -> bool {
    exists|i: int| 0 <= i < cols.len() && (#[trigger] cols[i]).buffer_len > 1000
}

/// Some column holds a large object.
pub open spec fn any_lob(cols: Seq<ColumnInfo>) -> bool {
    exists|i: int|
        0 <= i < cols.len() && ((#[trigger] cols[i]).col_type == ColumnType::Blob || cols[i].col_type
            == ColumnType::Clob)
}

/// Some column carries the partial-copy filter name.
pub open spec fn any_filter_column(cols: Seq<ColumnInfo>) -> bool {
    exists|i: int| 0 <= i < cols.len() && (#[trigger] cols[i]).name@ == "LUNA_CALC"@
}

fn has_unsupported(cols: &Vec<ColumnInfo>) -> (r: bool)
    ensures
        r == any_unsupported(cols@),
{
    let mut i: usize = 0;
    while i < cols.len()
        invariant
            i <= cols@.len(),
            forall|j: int|
                0 <= j < i ==> (#[trigger] cols@[j]).col_type != ColumnType::Unsupported,
        decreases cols@.len() - i,
    {
        if cols[i].col_type == ColumnType::Unsupported {
            return true;
        }
        i = i + 1;
    }
    false
}

fn has_wide(cols: &Vec<ColumnInfo>) -> (r: bool)
    ensures
        r == any_wide(cols@),
{
    let mut i: usize = 0;
    while i < cols.len()
        invariant
            i <= cols@.len(),
            forall|j: int| 0 <= j < i ==> (#[trigger] cols@[j]).buffer_len <= 1000,
        decreases cols@.len() - i,
    {
        if cols[i].buffer_len > 1000 {
            return true;
        }
        i = i + 1;
    }
    false
}

fn has_lob(cols: &Vec<ColumnInfo>) -> (r: bool)
    ensures
        r == any_lob(cols@),
{
    let mut i: usize = 0;
    while i < cols.len()
        invariant
            i <= cols@.len(),
            forall|j: int|
                0 <= j < i ==> (#[trigger] cols@[j]).col_type != ColumnType::Blob && cols@[j].col_type
                    != ColumnType::Clob,
        decreases cols@.len() - i,
    {
        if cols[i].col_type == ColumnType::Blob || cols[i].col_type == ColumnType::Clob {
            return true;
        }
        i = i + 1;
    }
    false
}

fn has_filter_column(cols: &Vec<ColumnInfo>) -> (r: bool)
    ensures
        r == any_filter_column(cols@),
{
    let mut i: usize = 0;
    while i < cols.len()
        invariant
            i <= cols@.len(),
            forall|j: int| 0 <= j < i ==> (#[trigger] cols@[j]).name@ != "LUNA_CALC"@,
        decreases cols@.len() - i,
    {
        if str_eq(cols[i].name.as_str(), "LUNA_CALC") {
            return true;
        }
        i = i + 1;
    }
    false
}

/// Assembles a table descriptor from the fetched table row — name and the
/// temporariness, index-organization and backup flags as the catalog spells
/// them — its columns, primary key and indexes, deriving the transfer
/// flags.
pub fn build_table_info(
    name: String,
    temporary_flag: &str,
    iot_type: &str,
    backed_up_flag: &str,
    columns: Vec<ColumnInfo>,
    primary_key: Option<PrimaryKey>,
    indexes: Vec<Index>,
) -> (t: TableInfo)
    ensures
        t.name@ == name@,
        t.temporary == (temporary_flag@ == "Y"@),
        t.iot == (iot_type@ == "IOT"@),
        t.backed_up == (backed_up_flag@ == "Y"@),
        t.unsupported == any_unsupported(columns@),
        t.no_iot == any_wide(columns@),
        t.has_blob == any_lob(columns@),
        t.luna_calc == (!t.temporary && !t.iot && any_filter_column(columns@)),
        t.columns == columns,
        t.primary_key == primary_key,
        t.indexes == indexes,
{
    let temporary = str_eq(temporary_flag, "Y");
    let iot = str_eq(iot_type, "IOT");
    let backed_up = str_eq(backed_up_flag, "Y");
    let unsupported = has_unsupported(&columns);
    let no_iot = has_wide(&columns);
    let has_blob = has_lob(&columns);
    let luna_calc = if temporary || iot {
        false
    } else {
        has_filter_column(&columns)
    };
    TableInfo {
        name,
        temporary,
        backed_up,
        iot,
        luna_calc,
        has_blob,
        unsupported,
        no_iot,
        columns,
        primary_key,
        indexes,
    }
}

/// Maps fetched (column, direction) rows to index columns: anything not
/// marked ascending is descending.
pub fn index_columns(rows: Vec<(String, String)>) -> (r: Vec<IndexColumn>)
    ensures
        r@.len() == rows@.len(),
        forall|k: int|
            0 <= k < rows@.len() ==> (#[trigger] r@[k]).name@ == rows@[k].0@ && r@[k].desc == (
            rows@[k].1@ != "ASC"@),
{
    let mut r: Vec<IndexColumn> = Vec::new();
    let mut k: usize = 0;
    while k < rows.len()
        invariant
            k <= rows@.len(),
            r@.len() == k,
            forall|k2: int|
                0 <= k2 < k ==> (#[trigger] r@[k2]).name@ == rows@[k2].0@ && r@[k2].desc == (
                rows@[k2].1@ != "ASC"@),
        decreases rows@.len() - k,
    {
        let desc = !str_eq(rows[k].1.as_str(), "ASC");
        r.push(IndexColumn { name: rows[k].0.clone(), desc });
        k = k + 1;
    }
    r
}

/// Whether an index is the backing index of the primary key and is left
/// out of the secondary index list.
pub fn is_pk_index(name: &String, primary_key: &Option<PrimaryKey>) -> (r: bool)
    ensures
        r == (primary_key matches Some(pk) && pk.name@ == name@),
{
    match primary_key {
        Some(pk) => str_eq(pk.name.as_str(), name.as_str()),
        None => false,
    }
}

} // verus!
