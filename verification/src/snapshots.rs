//! Materialized view replication: each one is rebuilt immediately from its
//! stored query.

use vstd::prelude::*;

verus! {

/// The creation statement of one materialized view.
pub fn mview_sql(owner: &str, name: &str, query_text: &str) -> (r: String)
    ensures
        r@ == "create materialized view "@ + owner@ + "."@ + name@ + " build immediate as "@
            + query_text@,
{
    let mut r = String::from_str("create materialized view ");
    r.append(owner);
    r.append(".");
    r.append(name);
    r.append(" build immediate as ");
    r.append(query_text);
    r
}

/// The error-log line for a materialized view whose creation failed.
pub fn mview_error_line(
    owner: &str,
    name: &str,
    err: &crate::oracle::errors::OracleError,
    sql: &str,
) -> (r: String)
    ensures
        r@ == "can not create materialized view: "@ + owner@ + "."@ + name@ + " with error: "@
            + crate::oracle::errors::spec_error_text(err.code as int, err.message@, err.location@)
            + ", sql: "@ + sql@,
{
    let mut r = String::from_str("can not create materialized view: ");
    r.append(owner);
    r.append(".");
    r.append(name);
    r.append(" with error: ");
    let e = err.text();
    r.append(e.as_str());
    r.append(", sql: ");
    r.append(sql);
    r
}

} // verus!
