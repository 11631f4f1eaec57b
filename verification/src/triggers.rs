//! Trigger replication: the stored trigger description is split into its
//! timing and scope words, the body is re-attached under the destination
//! owner, and triggers reaching through database links are skipped.

use vstd::prelude::*;
use crate::oracle::errors::OracleError;
use crate::oracle::errors::spec_error_text;
use crate::text::contains_sub;
use crate::text::is_space;
use crate::text::to_upper;
use crate::text::upper_seq;

verus! {

/// The first position at or after `j` holding a non-space character.
pub open spec fn next_non_space(s: Seq<char>, j: int) -> int
    decreases s.len() - j,
{
    if j < 0 || j >= s.len() {
        s.len() as int
    } else if !is_space(s[j]) {
        j
    } else {
        next_non_space(s, j + 1)
    }
}

/// The first position at or after `j` holding a space character.
pub open spec fn next_space(s: Seq<char>, j: int) -> int
    decreases s.len() - j,
{
    if j < 0 || j >= s.len() {
        s.len() as int
    } else if is_space(s[j]) {
        j
    } else {
        next_space(s, j + 1)
    }
}

fn find_non_space(s: &str, from: usize) -> (r: usize)
    requires
        from <= s@.len(),
    ensures
        r as int == next_non_space(s@, from as int),
        from <= r <= s@.len(),
        r < s@.len() ==> !is_space(s@[r as int]),
{
    let n = s.unicode_len();
    let mut j = from;
    while j < n
        invariant
            from <= j <= n,
            n == s@.len(),
            next_non_space(s@, from as int) == next_non_space(s@, j as int),
        decreases n - j,
    {
        let c = s.get_char(j);
        if !(c == ' ' || c == '\t' || c == '\n' || c == '\r') {
            return j;
        }
        j = j + 1;
    }
    n
}

fn find_space(s: &str, from: usize) -> (r: usize)
    requires
        from <= s@.len(),
    ensures
        r as int == next_space(s@, from as int),
        from <= r <= s@.len(),
{
    let n = s.unicode_len();
    let mut j = from;
    while j < n
        invariant
            from <= j <= n,
            n == s@.len(),
            next_space(s@, from as int) == next_space(s@, j as int),
        decreases n - j,
    {
        let c = s.get_char(j);
        if c == ' ' || c == '\t' || c == '\n' || c == '\r' {
            return j;
        }
        j = j + 1;
    }
    n
}

/// A description with at least two whitespace-separated words.
pub open spec fn has_two_words(s: Seq<char>) -> bool {
    next_non_space(s, 0) < s.len() && next_non_space(s, next_space(s, next_non_space(s, 0)))
        < s.len()
}

/// The scope clause the trigger's description calls for: the second word
/// and the third where one stands, nothing otherwise.
pub open spec fn spec_trigger_scope(s: Seq<char>) -> Seq<char> {
    let b1 = next_non_space(s, 0);
    let e1 = next_space(s, b1);
    let b2 = next_non_space(s, e1);
    let e2 = next_space(s, b2);
    let b3 = next_non_space(s, e2);
    if b3 < s.len() {
        "for "@ + s.subrange(b2, e2) + " "@ + s.subrange(b3, next_space(s, b3))
    } else {
        Seq::empty()
    }
}

/// The timing word of the trigger's description.
pub open spec fn spec_trigger_timing(s: Seq<char>) -> Seq<char> {
    let b1 = next_non_space(s, 0);
    s.subrange(b1, next_space(s, b1))
}

/// Splits a trigger description into its timing word and its scope clause.
pub fn trigger_parts(trigger_type: &str) -> (r: (String, String))
    requires
        has_two_words(trigger_type@),
    ensures
        r.0@ == spec_trigger_timing(trigger_type@),
        r.1@ == spec_trigger_scope(trigger_type@),
{
    let n = trigger_type.unicode_len();
    let b1 = find_non_space(trigger_type, 0);
    let e1 = find_space(trigger_type, b1);
    let timing = crate::text::substring(trigger_type, b1, e1);
    let b2 = find_non_space(trigger_type, e1);
    let e2 = find_space(trigger_type, b2);
    let b3 = find_non_space(trigger_type, e2);
    let scope: String;
    if b3 < n {
        let e3 = find_space(trigger_type, b3);
        let mut s = String::from_str("for ");
        let second = crate::text::substring(trigger_type, b2, e2);
        s.append(second.as_str());
        s.append(" ");
        let third = crate::text::substring(trigger_type, b3, e3);
        s.append(third.as_str());
        scope = s;
    } else {
        scope = String::new();
    }
    (timing, scope)
}

/// Whether a trigger is skipped because its body reaches its table through
/// a database link.
pub fn trigger_skipped(text: &str, table_name: &str) -> (r: bool)
    ensures
        r == contains_sub(upper_seq(text@), table_name@ + "@"@),
{
    let upper = to_upper(text);
    let mut pat = String::from_str(table_name);
    crate::text::push_char(&mut pat, '@');
    proof {
        reveal_strlit("@");
        assert(pat@ =~= table_name@ + "@"@);
    }
    crate::text::has_sub(upper.as_str(), pat.as_str())
}

/// The statement recreating one trigger under the destination owner.
pub fn trigger_sql(
    owner: &str,
    trigger_name: &str,
    timing: &str,
    trigger_event: &str,
    table_name: &str,
    scope: &str,
    text: &str,
) -> (r: String)
    ensures
        r@ == "create or replace trigger "@ + owner@ + "."@ + trigger_name@ + "\n "@ + timing@
            + " "@ + trigger_event@ + " on "@ + owner@ + "."@ + table_name@ + "\n "@ + scope@
            + "\n"@ + text@,
{
    let mut r = String::from_str("create or replace trigger ");
    r.append(owner);
    r.append(".");
    r.append(trigger_name);
    r.append("\n ");
    r.append(timing);
    r.append(" ");
    r.append(trigger_event);
    r.append(" on ");
    r.append(owner);
    r.append(".");
    r.append(table_name);
    r.append("\n ");
    r.append(scope);
    r.append("\n");
    r.append(text);
    r
}

/// The error-log line for a trigger whose creation failed: a compilation
/// failure is reported short, anything else with the full error and the
/// statement.
pub fn trigger_error_line(
    owner: &str,
    trigger_name: &str,
    table_name: &str,
    err: &OracleError,
    sql: &str,
) -> (r: String)
    ensures
        err.code == 24344 ==> r@ == "create trigger: "@ + owner@ + "."@ + trigger_name@ + " on "@
            + table_name@ + ": compilation with error"@,
        err.code != 24344 ==> r@ == "can not create trigger: "@ + owner@ + "."@ + trigger_name@
            + " on "@ + table_name@ + " with error: "@ + spec_error_text(
            err.code as int,
            err.message@,
            err.location@,
        ) + ", sql: "@ + sql@,
{
    if err.code == 24344 {
        let mut r = String::from_str("create trigger: ");
        r.append(owner);
        r.append(".");
        r.append(trigger_name);
        r.append(" on ");
        r.append(table_name);
        r.append(": compilation with error");
        r
    } else {
        let mut r = String::from_str("can not create trigger: ");
        r.append(owner);
        r.append(".");
        r.append(trigger_name);
        r.append(" on ");
        r.append(table_name);
        r.append(" with error: ");
        let e = err.text();
        r.append(e.as_str());
        r.append(", sql: ");
        r.append(sql);
        r
    }
}

} // verus!
