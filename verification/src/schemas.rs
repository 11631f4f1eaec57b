//! Destination schema lifecycle: dropping and recreating a user with its
//! baseline grants, and the final whole-schema compilation.

use vstd::prelude::*;
use crate::config::Schema;
use crate::oracle::errors::OracleError;
use crate::oracle::errors::spec_error_text;

verus! {

/// The statement dropping a destination user with everything it owns.
pub fn drop_user_sql(schema: &str) -> (r: String)
    ensures
        r@ == "DROP USER "@ + schema@ + " CASCADE"@,
{
    let mut r = String::from_str("DROP USER ");
    r.append(schema);
    r.append(" CASCADE");
    r
}

/// What a failed drop means: a user that never existed is fine, a user
/// still connected or any other failure is reported.
pub fn drop_error_text(schema: &str, err: &OracleError) -> (r: Option<String>)
    ensures
        (r is None) <==> err.code == 1918,
        err.code == 1940 ==> (r matches Some(t) && t@ == "can not drop user: "@ + schema@
            + " what is currently connected"@),
        err.code != 1918 && err.code != 1940 ==> (r matches Some(t) && t@
            == "can not drop user: "@ + schema@ + " with error: "@ + spec_error_text(
            err.code as int,
            err.message@,
            err.location@,
        )),
{
    if err.code == 1918 {
        None
    } else if err.code == 1940 {
        let mut t = String::from_str("can not drop user: ");
        t.append(schema);
        t.append(" what is currently connected");
        Some(t)
    } else {
        let mut t = String::from_str("can not drop user: ");
        t.append(schema);
        t.append(" with error: ");
        let e = err.text();
        t.append(e.as_str());
        Some(t)
    }
}

/// The baseline grants a freshly created schema receives, in order.
pub open spec fn spec_baseline_grant(i: int) -> Seq<char> {
    if i == 0 {
        "CONNECT, RESOURCE, UNLIMITED TABLESPACE"@
    } else if i == 1 {
        "CREATE TABLE"@
    } else if i == 2 {
        "CREATE VIEW"@
    } else if i == 3 {
        "CREATE MATERIALIZED VIEW"@
    } else if i == 4 {
        "EXECUTE ON SYS.DBMS_AQ"@
    } else if i == 5 {
        "EXECUTE ON SYS.DBMS_AQADM"@
    } else if i == 6 {
        "DEBUG CONNECT SESSION"@
    } else {
        "DEBUG ANY PROCEDURE"@
    }
}

/// The statements that create a destination user and give it its baseline
/// grants: the user first — identified by its fixed password, or by its
/// own name when none is set — then one grant statement per baseline
/// privilege.
pub fn create(schema: &Schema) -> (r: Vec<String>)
    ensures
        r@.len() == 9,
        r@[0]@ == "CREATE USER "@ + schema.name@ + " IDENTIFIED BY "@ + (match schema.pw {
            Some(p) => p@,
            None => schema.name@,
        }) + " DEFAULT TABLESPACE \"DATA\" TEMPORARY TABLESPACE \"TEMP\""@,
        forall|i: int|
            1 <= i < 9 ==> (#[trigger] r@[i])@ == "GRANT "@ + spec_baseline_grant(i - 1) + " TO "@
                + schema.name@,
{
    let mut r: Vec<String> = Vec::new();
    let mut user_sql = String::from_str("CREATE USER ");
    user_sql.append(schema.name.as_str());
    user_sql.append(" IDENTIFIED BY ");
    match &schema.pw {
        Some(p) => user_sql.append(p.as_str()),
        None => user_sql.append(schema.name.as_str()),
    }
    user_sql.append(" DEFAULT TABLESPACE \"DATA\" TEMPORARY TABLESPACE \"TEMP\"");
    r.push(user_sql);
    let grants: [&'static str; 8] = [
        "CONNECT, RESOURCE, UNLIMITED TABLESPACE",
        "CREATE TABLE",
        "CREATE VIEW",
        "CREATE MATERIALIZED VIEW",
        "EXECUTE ON SYS.DBMS_AQ",
        "EXECUTE ON SYS.DBMS_AQADM",
        "DEBUG CONNECT SESSION",
        "DEBUG ANY PROCEDURE",
    ];
    let mut i: usize = 0;
    while i < 8
        invariant
            i <= 8,
            r@.len() == i + 1,
            r@[0]@ == "CREATE USER "@ + schema.name@ + " IDENTIFIED BY "@ + (match schema.pw {
                Some(p) => p@,
                None => schema.name@,
            }) + " DEFAULT TABLESPACE \"DATA\" TEMPORARY TABLESPACE \"TEMP\""@,
            grants@.len() == 8,
            forall|j: int| 0 <= j < 8 ==> (#[trigger] grants@[j])@ == spec_baseline_grant(j),
            forall|j: int|
                1 <= j < i + 1 ==> (#[trigger] r@[j])@ == "GRANT "@ + spec_baseline_grant(j - 1)
                    + " TO "@ + schema.name@,
        decreases 8 - i,
    {
        let mut g = String::from_str("GRANT ");
        g.append(grants[i]);
        g.append(" TO ");
        g.append(schema.name.as_str());
        r.push(g);
        i = i + 1;
    }
    r
}

/// The block that recompiles everything in a schema at the end of the run.
pub fn compile(schema: &str) -> (r: String)
    ensures
        r@ == "BEGIN DBMS_UTILITY.COMPILE_SCHEMA('"@ + schema@ + "'); END;"@,
{
    let mut r = String::from_str("BEGIN DBMS_UTILITY.COMPILE_SCHEMA('");
    r.append(schema);
    r.append("'); END;");
    r
}

} // verus!
