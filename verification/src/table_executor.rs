//! Statement generation for the table transfer: the destination table's
//! creation statement, the source read and destination write statements,
//! and the lazily decided index-organized storage form.

use vstd::prelude::*;
use crate::oracle::errors::OracleError;
use crate::oracle::errors::spec_error_text;
use crate::table::ColumnInfo;
use crate::table::TableInfo;
use crate::text::dec_digits;
use crate::text::join;
use crate::text::spec_join;
use crate::text::u32_to_string;

verus! {

/// What a failed table creation means: an already-existing table is a
/// skip, not an error; a missing destination user and anything else are
/// reported for that table.
pub fn create_table_error(table_name: &str, schema_name: &str, err: &OracleError) -> (r: Option<
    String,
>)
    ensures
        (r is None) <==> err.code == 955,
        err.code == 1918 ==> (r matches Some(t) && t@ == "can not create table: "@ + table_name@
            + " because user "@ + schema_name@ + " does not exists"@),
        err.code != 955 && err.code != 1918 ==> (r matches Some(t) && t@
            == "can not create table: "@ + table_name@ + " with error: "@ + spec_error_text(
            err.code as int,
            err.message@,
            err.location@,
        )),
{
    if err.code == 955 {
        None
    } else if err.code == 1918 {
        let mut t = String::from_str("can not create table: ");
        t.append(table_name);
        t.append(" because user ");
        t.append(schema_name);
        t.append(" does not exists");
        Some(t)
    } else {
        let mut t = String::from_str("can not create table: ");
        t.append(table_name);
        t.append(" with error: ");
        let e = err.text();
        t.append(e.as_str());
        Some(t)
    }
}

/// The clause declaring one destination column: quoted name, rendered type
/// per its native family — character types with explicit length, long
/// character data widened to a bounded character type, numbers with
/// precision and scale when constrained — and nullability.
pub open spec fn spec_column_clause(c: ColumnInfo) -> Seq<char> {
    let base = "\""@ + c.name@ + "\" "@;
    let tn = c.col_type_name@;
    let typed = if tn == "CHAR"@ || tn == "VARCHAR2"@ {
        base + tn + "("@ + dec_digits(c.col_len as nat) + ")"@
    } else if tn == "LONG"@ {
        base + "VARCHAR2(4000)"@
    } else if tn == "NUMBER"@ {
        if c.data_precision > 0 {
            base + tn + "("@ + dec_digits(c.data_precision as nat) + ","@ + dec_digits(
                c.data_scale as nat,
            ) + ")"@
        } else {
            base
        }
    } else {
        base + tn
    };
    if !c.nullable {
        typed + " not null"@
    } else {
        typed
    }
}

/// The quoted column-name list of a table.
pub open spec fn spec_column_list(cols: Seq<ColumnInfo>) -> Seq<char> {
    spec_join(cols.map_values(|c: ColumnInfo| "\""@ + c.name@ + "\""@), ","@)
}

/// The positional parameter list `:1,...,:n`.
pub open spec fn spec_placeholders(n: nat) -> Seq<char> {
    spec_join(Seq::new(n, |i: int| ":"@ + dec_digits((i + 1) as nat)), ","@)
}

/// The closing clause of a table creation statement: the primary-key-backed
/// index organization when chosen, the commit behaviour for temporary
/// tables, the data tablespace otherwise.
pub open spec fn spec_table_suffix(t: TableInfo, iot: bool) -> Seq<char> {
    if iot {
        match t.primary_key {
            Some(pk) => ", constraint "@ + pk.name@ + " primary key ("@ + spec_join(
                pk.columns@.map_values(|s: String| s@),
                ","@,
            ) + ")\n) organization index"@,
            None => ") tablespace \"DATA\""@,
        }
    } else if t.temporary {
        ") on commit "@ + (if t.backed_up {
            "preserve rows"@
        } else {
            "delete rows"@
        })
    } else {
        ") tablespace \"DATA\""@
    }
}

/// The whole creation statement of the destination table.
pub open spec fn spec_create_table(schema: Seq<char>, t: TableInfo, iot: bool) -> Seq<char> {
    "create "@ + (if t.temporary {
        " global temporary "@
    } else {
        Seq::<char>::empty()
    }) + "table "@ + schema + "."@ + t.name@ + " ("@ + spec_join(
        t.columns@.map_values(|c: ColumnInfo| spec_column_clause(c)),
        ","@,
    ) + "\n"@ + spec_table_suffix(t, iot)
}

/// The read statement against the source: all columns, fetched in bulk.
pub open spec fn spec_create_read(schema: Seq<char>, t: TableInfo) -> Seq<char> {
    "select /*+ ALL_ROWS */ "@ + spec_column_list(t.columns@) + " from "@ + schema + "."@ + t.name@
}

/// The write statement against the destination: a positional-parameter
/// insert of all columns.
pub open spec fn spec_create_write(schema: Seq<char>, t: TableInfo) -> Seq<char> {
    "insert /*+ APPEND_VALUES */ into "@ + schema + "."@ + t.name@ + " ("@ + spec_column_list(
        t.columns@,
    ) + ") values ("@ + spec_placeholders(t.columns@.len()) + ")"@
}

fn column_clause(c: &ColumnInfo) -> (r: String)
    ensures
        r@ == spec_column_clause(*c),
{
    let mut s = String::from_str("\"");
    s.append(c.name.as_str());
    s.append("\" ");
    let is_char = crate::text::str_eq(c.col_type_name.as_str(), "CHAR") || crate::text::str_eq(
        c.col_type_name.as_str(),
        "VARCHAR2",
    );
    if is_char {
        s.append(c.col_type_name.as_str());
        s.append("(");
        let len_digits = u32_to_string(c.col_len);
        s.append(len_digits.as_str());
        s.append(")");
    } else if crate::text::str_eq(c.col_type_name.as_str(), "LONG") {
        s.append("VARCHAR2(4000)");
    } else if crate::text::str_eq(c.col_type_name.as_str(), "NUMBER") {
        if c.data_precision > 0 {
            s.append(c.col_type_name.as_str());
            s.append("(");
            let p_digits = u32_to_string(c.data_precision);
            s.append(p_digits.as_str());
            s.append(",");
            let s_digits = u32_to_string(c.data_scale);
            s.append(s_digits.as_str());
            s.append(")");
        }
    } else {
        s.append(c.col_type_name.as_str());
    }
    if !c.nullable {
        s.append(" not null");
    }
    s
}

fn column_clauses(cols: &Vec<ColumnInfo>) -> (r: Vec<String>)
    ensures
        r@.map_values(|s: String| s@) == cols@.map_values(|c: ColumnInfo| spec_column_clause(c)),
{
    let mut r: Vec<String> = Vec::new();
    let mut i: usize = 0;
    while i < cols.len()
        invariant
            i <= cols@.len(),
            r@.len() == i,
            forall|j: int| 0 <= j < i ==> (#[trigger] r@[j])@ == spec_column_clause(cols@[j]),
        decreases cols@.len() - i,
    {
        r.push(column_clause(&cols[i]));
        i = i + 1;
    }
    proof {
        assert(r@.map_values(|s: String| s@) =~= cols@.map_values(
            |c: ColumnInfo| spec_column_clause(c),
        ));
    }
    r
}

fn quoted_names(cols: &Vec<ColumnInfo>) -> (r: Vec<String>)
    ensures
        r@.map_values(|s: String| s@) == cols@.map_values(
            |c: ColumnInfo| "\""@ + c.name@ + "\""@,
        ),
{
    let mut r: Vec<String> = Vec::new();
    let mut i: usize = 0;
    while i < cols.len()
        invariant
            i <= cols@.len(),
            r@.len() == i,
            forall|j: int| 0 <= j < i ==> (#[trigger] r@[j])@ == "\""@ + cols@[j].name@ + "\""@,
        decreases cols@.len() - i,
    {
        let mut s = String::from_str("\"");
        s.append(cols[i].name.as_str());
        s.append("\"");
        r.push(s);
        i = i + 1;
    }
    proof {
        assert(r@.map_values(|s: String| s@) =~= cols@.map_values(
            |c: ColumnInfo| "\""@ + c.name@ + "\""@,
        ));
    }
    r
}

/// The quoted column-name list of a table's columns.
pub fn join_columns(table: &TableInfo) -> (r: String)
    ensures
        r@ == spec_column_list(table.columns@),
{
    let names = quoted_names(&table.columns);
    join(&names, ",")
}

/// The positional parameter list matching a table's column count.
pub fn join_placeholders(table: &TableInfo) -> (r: String)
    ensures
        r@ == spec_placeholders(table.columns@.len()),
{
    let n = table.columns.len();
    let mut parts: Vec<String> = Vec::new();
    let mut i: usize = 0;
    while i < n
        invariant
            i <= n,
            parts@.len() == i,
            forall|j: int| 0 <= j < i ==> (#[trigger] parts@[j])@ == ":"@ + dec_digits((j + 1) as nat),
        decreases n - i,
    {
        let mut s = String::from_str(":");
        let digits = crate::text::u64_to_string((i as u64) + 1);
        s.append(digits.as_str());
        parts.push(s);
        i = i + 1;
    }
    let r = join(&parts, ",");
    proof {
        assert(parts@.map_values(|s: String| s@) =~= Seq::new(
            n as nat,
            |j: int| ":"@ + dec_digits((j + 1) as nat),
        ));
    }
    r
}

/// Builds the read statement for one table's bulk transfer.
pub fn create_read_sql(schema_name: &str, table: &TableInfo) -> (r: String)
    ensures
        r@ == spec_create_read(schema_name@, *table),
{
    let mut r = String::from_str("select /*+ ALL_ROWS */ ");
    let cols = join_columns(table);
    r.append(cols.as_str());
    r.append(" from ");
    r.append(schema_name);
    r.append(".");
    r.append(table.name.as_str());
    r
}

/// Builds the write statement for one table's bulk transfer.
pub fn create_write_sql(schema_name: &str, table: &TableInfo) -> (r: String)
    ensures
        r@ == spec_create_write(schema_name@, *table),
{
    let mut r = String::from_str("insert /*+ APPEND_VALUES */ into ");
    r.append(schema_name);
    r.append(".");
    r.append(table.name.as_str());
    r.append(" (");
    let cols = join_columns(table);
    r.append(cols.as_str());
    r.append(") values (");
    let ph = join_placeholders(table);
    r.append(ph.as_str());
    r.append(")");
    r
}

/// Builds the creation statement for the destination table, in the chosen
/// storage form.
pub fn create_table_sql(schema_name: &str, table: &TableInfo, iot: bool) -> (r: String)
    ensures
        r@ == spec_create_table(schema_name@, *table, iot),
{
    let mut r = String::from_str("create ");
    if table.temporary {
        r.append(" global temporary ");
    }
    r.append("table ");
    r.append(schema_name);
    r.append(".");
    r.append(table.name.as_str());
    r.append(" (");
    let clauses = column_clauses(&table.columns);
    let cols = join(&clauses, ",");
    r.append(cols.as_str());
    r.append("\n");
    if iot {
        match &table.primary_key {
            Some(pk) => {
                r.append(", constraint ");
                r.append(pk.name.as_str());
                r.append(" primary key (");
                let pk_cols = join(&pk.columns, ",");
                r.append(pk_cols.as_str());
                r.append(")\n) organization index");
            },
            None => {
                r.append(") tablespace \"DATA\"");
            },
        }
    } else if table.temporary {
        r.append(") on commit ");
        if table.backed_up {
            r.append("preserve rows");
        } else {
            r.append("delete rows");
        }
    } else {
        r.append(") tablespace \"DATA\"");
    }
    r
}

/// Whether a table qualifies for index-organized storage, decided lazily
/// on the first fetched batch: not temporary, no unsupported or wide
/// columns, no large objects, no secondary indexes, fewer than six columns,
/// a primary key, and a first batch under five thousand rows.  A table the
/// catalog already stores index-organized keeps that form.
pub fn decide_iot(table: &TableInfo, first_batch_rows: u32) -> (r: bool)
    ensures
        r == (table.iot || (!table.no_iot && table.primary_key is Some && !table.temporary
            && !table.has_blob && first_batch_rows < 5000 && table.indexes@.len() == 0
            && table.columns@.len() < 6)),
{
    if table.iot {
        return true;
    }
    let has_pk = match &table.primary_key {
        Some(_) => true,
        None => false,
    };
    !table.no_iot && has_pk && !table.temporary && !table.has_blob && first_batch_rows < 5000
        && table.indexes.len() == 0 && table.columns.len() < 6
}

} // verus!
