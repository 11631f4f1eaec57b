//! The older status convention of the native layer: the same numeric call
//! statuses decoded into a `Result`, with the unknown-code case excluded by
//! contract instead of a run-time abort.

use vstd::prelude::*;

verus! {

/// An error of the native layer under the `Result` convention.
#[derive(Clone, Debug)]
pub struct OracleError {
    /// The driver's error code.
    pub errcode: i32,
    /// Message text.
    pub message: String,
    /// Function where the error occurred.
    pub location: String,
}

/// Decodes a call status under the `Result` convention: `Ok` on success,
/// otherwise the error value, with the fetched driver error standing for
/// the generic error and success-with-info statuses.
pub fn check_error(errcode: i32, fetched: Option<OracleError>, location: &str) -> (r: Result<
    (),
    OracleError,
>)
    requires
        crate::oracle::errors::known_status(errcode as int),
    ensures
        (errcode == 0) <==> (r is Ok),
        errcode == 100 ==> (r matches Err(e) && e.errcode == 100 && e.message@ == "No data"@),
        errcode == -2 ==> (r matches Err(e) && e.errcode == -2 && e.message@
            == "Invalid handle"@),
        errcode == 99 ==> (r matches Err(e) && e.errcode == 99 && e.message@ == "Need data"@),
        errcode == -3123 ==> (r matches Err(e) && e.errcode == -3123 && e.message@
            == "Still executing"@),
        (errcode == -1 || errcode == 1) && fetched is Some ==> (r matches Err(e) && e.errcode
            == fetched.unwrap().errcode && (fetched.unwrap().errcode != 24347 ==> e.message@
            == fetched.unwrap().message@) && (fetched.unwrap().errcode == 24347 ==> e.message@
            == "NULL column in a aggregate function"@)),
        errcode == -1 && fetched is None ==> (r matches Err(e) && e.errcode == -1 && e.message@
            == "Error with no details"@),
        errcode == 1 && fetched is None ==> (r matches Err(e) && e.errcode == 1 && e.message@
            == "Success with info"@),
{
    if errcode == 0 {
        Ok(())
    } else if errcode == -1 || errcode == 1 {
        match fetched {
            Some(e) => {
                if e.errcode == 24347 {
                    Err(
                        OracleError {
                            errcode: e.errcode,
                            message: String::from_str("NULL column in a aggregate function"),
                            location: e.location,
                        },
                    )
                } else {
                    Err(e)
                }
            },
            None => {
                if errcode == -1 {
                    Err(
                        OracleError {
                            errcode: -1,
                            message: String::from_str("Error with no details"),
                            location: String::from_str(location),
                        },
                    )
                } else {
                    Err(
                        OracleError {
                            errcode: 1,
                            message: String::from_str("Success with info"),
                            location: String::from_str(location),
                        },
                    )
                }
            },
        }
    } else if errcode == 100 {
        Err(
            OracleError {
                errcode: 100,
                message: String::from_str("No data"),
                location: String::from_str(location),
            },
        )
    } else if errcode == -2 {
        Err(
            OracleError {
                errcode: -2,
                message: String::from_str("Invalid handle"),
                location: String::from_str(location),
            },
        )
    } else if errcode == 99 {
        Err(
            OracleError {
                errcode: 99,
                message: String::from_str("Need data"),
                location: String::from_str(location),
            },
        )
    } else {
        Err(
            OracleError {
                errcode: -3123,
                message: String::from_str("Still executing"),
                location: String::from_str(location),
            },
        )
    }
}

} // verus!
