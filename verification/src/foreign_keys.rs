//! Foreign key replication: each enabled referential constraint of the
//! source is added again at the destination once both tables stand.

use vstd::prelude::*;
use crate::text::join;
use crate::text::spec_join;

verus! {

/// The statement adding one foreign key, from the constraint's own columns
/// to the referenced table's key columns.
pub open spec fn spec_create_fk(
    owner: Seq<char>,
    table: Seq<char>,
    constraint: Seq<char>,
    columns: Seq<Seq<char>>,
    r_owner: Seq<char>,
    r_table: Seq<char>,
    r_columns: Seq<Seq<char>>,
) -> Seq<char> {
    "alter table "@ + owner + "."@ + table + " add constraint "@ + constraint + " foreign key ("@
        + spec_join(columns, ","@) + ") references  "@ + r_owner + "."@ + r_table + " ("@
        + spec_join(r_columns, ","@) + ")"@
}

/// Builds the statement adding one foreign key.
pub fn create_fk_sql(
    owner: &str,
    table: &str,
    constraint: &str,
    columns: &Vec<String>,
    r_owner: &str,
    r_table: &str,
    r_columns: &Vec<String>,
) -> (r: String)
    ensures
        r@ == spec_create_fk(
            owner@,
            table@,
            constraint@,
            columns@.map_values(|s: String| s@),
            r_owner@,
            r_table@,
            r_columns@.map_values(|s: String| s@),
        ),
{
    let mut r = String::from_str("alter table ");
    r.append(owner);
    r.append(".");
    r.append(table);
    r.append(" add constraint ");
    r.append(constraint);
    r.append(" foreign key (");
    let cols = join(columns, ",");
    r.append(cols.as_str());
    r.append(") references  ");
    r.append(r_owner);
    r.append(".");
    r.append(r_table);
    r.append(" (");
    let rcols = join(r_columns, ",");
    r.append(rcols.as_str());
    r.append(")");
    r
}

/// Whether a foreign-key failure counts as already satisfied: the
/// constraint name already used, or the referenced key not yet unique
/// there; anything else is reported.
pub fn fk_error_tolerated(code: i64) -> (r: bool)
    ensures
        r == (code == 2264 || code == 2275),
{
    code == 2264 || code == 2275
}

} // verus!
