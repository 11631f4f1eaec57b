//! The import tool's invocation parameters: what was asked for on the
//! command line, validated and filled with its defaults.

#![allow(non_snake_case)]

use vstd::prelude::*;

verus! {

/// What one invocation does: list available export files, or import a set
/// of tables from one.
pub enum Variants {
    ListParams,
    ImportParams {
        file_time: String,
        src_schema: String,
        tables: Vec<String>,
        dst_schema: String,
        log_option: Option<String>,
        only_import: bool,
        all: bool,
    },
}

/// The validated invocation: the export file date, whether the file is
/// read from local storage, and the chosen action.
pub struct Params {
    pub file_date: String,
    pub fromLocal: bool,
    pub variants: Variants,
}

impl Params {
    /// Validates and assembles the invocation from its parsed options:
    /// local and remote storage exclude each other, a listing needs only
    /// its pattern, an import needs a source schema, table names, and —
    /// unless importing without unpacking — the export file's date and
    /// time; the destination schema defaults.
    pub fn build(
        file_date: Option<String>,
        file_time: Option<String>,
        src_schema: Option<String>,
        list: Option<String>,
        is_local: bool,
        is_remote: bool,
        only_import: bool,
        all: bool,
        log_option: Option<String>,
        destination: Option<String>,
        tables: Vec<String>,
    ) -> (r: Option<Params>)
        ensures
            is_local && is_remote ==> r is None,
            !(is_local && is_remote) && list is Some ==> (r matches Some(p) && p.file_date
                == list.unwrap() && p.fromLocal == (is_local || !is_remote) && p.variants
                is ListParams),
            !(is_local && is_remote) && list is None && src_schema is None ==> r is None,
            !(is_local && is_remote) && list is None && src_schema is Some && !only_import && (
            file_date is None || file_time is None) ==> r is None,
            !(is_local && is_remote) && list is None && src_schema is Some && tables@.len() == 0
                && (only_import || (file_date is Some && file_time is Some)) ==> r is None,
            !(is_local && is_remote) && list is None && src_schema is Some && tables@.len() > 0
                && (only_import || (file_date is Some && file_time is Some)) ==> (r matches Some(
                p,
            ) && p.fromLocal == (is_local || !is_remote) && (p.variants matches
                Variants::ImportParams {
                    file_time: ft,
                    src_schema: ss,
                    tables: tt,
                    dst_schema: ds,
                    log_option: lo,
                    only_import: oi,
                    all: aa,
                } && ss == src_schema.unwrap() && tt == tables && lo == log_option && oi
                == only_import && aa == all && (only_import ==> p.file_date@ == Seq::<
                char,
            >::empty() && ft@ == Seq::<char>::empty()) && (!only_import ==> p.file_date
                == file_date.unwrap() && ft == file_time.unwrap()) && (destination is Some ==> ds
                == destination.unwrap()) && (destination is None ==> ds@ == "COPIE"@))),
    {
        if is_local && is_remote {
            return None;
        }
        let fromLocal = if is_local {
            true
        } else if is_remote {
            false
        } else {
            true
        };
        if let Some(list_str) = list {
            return Some(Params { file_date: list_str, fromLocal, variants: Variants::ListParams });
        }
        if let Some(src_schema) = src_schema {
            let date_and_time: (String, String);
            if only_import {
                date_and_time = (String::new(), String::new());
            } else {
                match (file_date, file_time) {
                    (Some(d), Some(t)) => {
                        date_and_time = (d, t);
                    },
                    _ => {
                        return None;
                    },
                }
            }
            let dst_schema = match destination {
                Some(x) => x,
                None => String::from_str("COPIE"),
            };
            if tables.len() == 0 {
                return None;
            }
            Some(
                Params {
                    file_date: date_and_time.0,
                    fromLocal,
                    variants: Variants::ImportParams {
                        file_time: date_and_time.1,
                        src_schema,
                        tables,
                        dst_schema,
                        log_option,
                        only_import,
                        all,
                    },
                },
            )
        } else {
            None
        }
    }
}

} // verus!
