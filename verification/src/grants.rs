//! Grant propagation: after an object or table is created at the
//! destination, every privilege recorded for it at the source is granted
//! again, keeping the grant option where it was grantable.

use vstd::prelude::*;

verus! {

/// The grant statement for one recorded privilege row.
pub open spec fn spec_grant(
    privilege: Seq<char>,
    schema: Seq<char>,
    object: Seq<char>,
    grantee: Seq<char>,
    grantable: bool,
) -> Seq<char> {
    "grant "@ + privilege + " on "@ + schema + "."@ + object + " to "@ + grantee + (if grantable {
        " with grant option"@
    } else {
        Seq::<char>::empty()
    })
}

/// Builds the grant statement for one privilege row; the grant option is
/// kept exactly when the source marked the privilege grantable.
pub fn grant_sql(
    privilege: &str,
    schema: &str,
    object: &str,
    grantee: &str,
    grantable_flag: &str,
) -> (r: String)
    ensures
        r@ == spec_grant(privilege@, schema@, object@, grantee@, grantable_flag@ == "Y"@),
{
    let mut r = String::from_str("grant ");
    r.append(privilege);
    r.append(" on ");
    r.append(schema);
    r.append(".");
    r.append(object);
    r.append(" to ");
    r.append(grantee);
    if crate::text::str_eq(grantable_flag, "Y") {
        r.append(" with grant option");
    }
    r
}

} // verus!
