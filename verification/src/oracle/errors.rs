//! Decoding of the driver's numeric call status into an error value.
//!
//! Every native primitive returns a numeric status; status 0 is success, a
//! fixed small set of non-zero codes has a specific meaning, and the rest
//! are resolved through the driver's "get last error" call, whose result the
//! shell hands in as an already-fetched error value.

use vstd::prelude::*;
use crate::text::dec_digits_signed;
use crate::text::i64_to_string;

verus! {

/// An error of the native layer: the driver's numeric code, its message and
/// the call site that observed it.
#[derive(Clone, Debug)]
pub struct OracleError {
    /// The driver's error code.
    pub code: i64,
    /// Message text.
    pub message: String,
    /// Function where the error occurred.
    pub location: String,
}

/// The rendering `text` returns for an error.
pub open spec fn spec_error_text(code: int, message: Seq<char>, location: Seq<char>) -> Seq<char> {
    "\n\n  Error code: "@ + dec_digits_signed(code) + "\n  Error message: "@ + message
        + "\n  Where: "@ + location + "\n\n"@
}

impl OracleError {
    /// The error spelled out for the progress and error logs.
    pub fn text(&self) -> (r: String)
        ensures
            r@ == spec_error_text(self.code as int, self.message@, self.location@),
    {
        let mut r = String::from_str("\n\n  Error code: ");
        let code_digits = i64_to_string(self.code);
        r.append(code_digits.as_str());
        r.append("\n  Error message: ");
        r.append(self.message.as_str());
        r.append("\n  Where: ");
        r.append(self.location.as_str());
        r.append("\n\n");
        r
    }
}

/// The call statuses this engine understands; any other value from the
/// driver is outside its contract.
pub open spec fn known_status(code: int) -> bool {
    code == 0 || code == 100 || code == -2 || code == 99 || code == -3123 || code == -1 || code
        == 1
}

/// How a fetched error is adjusted before it is reported: the
/// aggregate-over-null code gets its short message put in.
pub fn adjust_fetched(e: OracleError) -> (r: OracleError)
    ensures
        r.code == e.code,
        r.location@ == e.location@,
        e.code != 24347 ==> r.message@ == e.message@,
        e.code == 24347 ==> r.message@ == "NULL column in a aggregate function"@,
{
    if e.code == 24347 {
        OracleError {
            code: e.code,
            message: String::from_str("NULL column in a aggregate function"),
            location: e.location,
        }
    } else {
        e
    }
}

/// Decodes a call status: `None` on success, otherwise the error value.
/// Codes with a fixed meaning get their fixed message; for the generic error
/// and success-with-info statuses the error fetched from the driver stands,
/// when one was fetched.
pub fn check_error(code: i64, fetched: Option<OracleError>, location: &str) -> (r: Option<
    OracleError,
>)
    requires
        known_status(code as int),
    ensures
        (code == 0) <==> (r is None),
        code == 100 ==> (r matches Some(e) && e.code == 100 && e.message@ == "No data"@
            && e.location@ == location@),
        code == -2 ==> (r matches Some(e) && e.code == -2 && e.message@ == "Invalid handle"@
            && e.location@ == location@),
        code == 99 ==> (r matches Some(e) && e.code == 99 && e.message@ == "Need data"@
            && e.location@ == location@),
        code == -3123 ==> (r matches Some(e) && e.code == -3123 && e.message@
            == "Still executing"@ && e.location@ == location@),
        (code == -1 || code == 1) && fetched is Some ==> (r matches Some(e) && e.code
            == fetched.unwrap().code && (fetched.unwrap().code != 24347 ==> e.message@
            == fetched.unwrap().message@) && (fetched.unwrap().code == 24347 ==> e.message@
            == "NULL column in a aggregate function"@)),
        code == -1 && fetched is None ==> (r matches Some(e) && e.code == -1 && e.message@
            == "Error with no details"@ && e.location@ == location@),
        code == 1 && fetched is None ==> (r matches Some(e) && e.code == 1 && e.message@
            == "Success with info"@ && e.location@ == location@),
{
    if code == 0 {
        None
    } else if code == 100 {
        Some(
            OracleError {
                code: 100,
                message: String::from_str("No data"),
                location: String::from_str(location),
            },
        )
    } else if code == -2 {
        Some(
            OracleError {
                code: -2,
                message: String::from_str("Invalid handle"),
                location: String::from_str(location),
            },
        )
    } else if code == 99 {
        Some(
            OracleError {
                code: 99,
                message: String::from_str("Need data"),
                location: String::from_str(location),
            },
        )
    } else if code == -3123 {
        Some(
            OracleError {
                code: -3123,
                message: String::from_str("Still executing"),
                location: String::from_str(location),
            },
        )
    } else {
        match fetched {
            Some(e) => Some(adjust_fetched(e)),
            None => {
                if code == -1 {
                    Some(
                        OracleError {
                            code: -1,
                            message: String::from_str("Error with no details"),
                            location: String::from_str(location),
                        },
                    )
                } else {
                    Some(
                        OracleError {
                            code: 1,
                            message: String::from_str("Success with info"),
                            location: String::from_str(location),
                        },
                    )
                }
            },
        }
    }
}

} // verus!
