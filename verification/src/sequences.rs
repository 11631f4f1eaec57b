//! Sequence replication: the creation statement rebuilt from the source
//! catalog's row, starting each sequence at its last used number.

use vstd::prelude::*;
use crate::text::dec_digits;
use crate::text::u32_to_string;
use crate::text::u64_to_string;

verus! {

/// The creation statement of one sequence.  The maximum value is carried
/// as text, wider than any machine integer.
pub open spec fn spec_create_sequence(
    schema: Seq<char>,
    name: Seq<char>,
    min_value: u64,
    max_value: Seq<char>,
    increment_by: u32,
    cycle: bool,
    last_number: u64,
) -> Seq<char> {
    "create sequence "@ + schema + "."@ + name + " minvalue "@ + dec_digits(min_value as nat)
        + " maxvalue "@ + max_value + " increment by "@ + dec_digits(increment_by as nat) + " "@
        + (if cycle {
        "cycle"@
    } else {
        "nocycle"@
    }) + " start with "@ + dec_digits(last_number as nat)
}

/// Builds the creation statement of one sequence from its catalog row.
pub fn create_sequence_sql(
    schema: &str,
    name: &str,
    min_value: u64,
    max_value: &str,
    increment_by: u32,
    cycle: bool,
    last_number: u64,
) -> (r: String)
    ensures
        r@ == spec_create_sequence(
            schema@,
            name@,
            min_value,
            max_value@,
            increment_by,
            cycle,
            last_number,
        ),
{
    let mut r = String::from_str("create sequence ");
    r.append(schema);
    r.append(".");
    r.append(name);
    r.append(" minvalue ");
    let min_digits = u64_to_string(min_value);
    r.append(min_digits.as_str());
    r.append(" maxvalue ");
    r.append(max_value);
    r.append(" increment by ");
    let inc_digits = u32_to_string(increment_by);
    r.append(inc_digits.as_str());
    r.append(" ");
    if cycle {
        r.append("cycle");
    } else {
        r.append("nocycle");
    }
    r.append(" start with ");
    let last_digits = u64_to_string(last_number);
    r.append(last_digits.as_str());
    r
}

/// Whether a sequence-creation failure aborts the phase: an existing
/// sequence is skipped, anything else is fatal.
pub fn sequence_error_fatal(code: i64) -> (r: bool)
    ensures
        r == (code != 955),
{
    code != 955
}

} // verus!
