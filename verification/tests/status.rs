//! Status decoding, text rendering, invocation parameters and the run's
//! configuration helpers.

use migration::config::Schema;
use migration::config::assume_exists;
use migration::config::is_excluded;
use migration::config::is_migrated;
use migration::catalog::load;
use migration::catalog::OraTable;
use migration::oracle::bindings::RowBinding;
use migration::oracle::common::OCIDataType;
use migration::oracle::meta::encode_text;
use migration::oracle::meta::MetaQuery;
use migration::oracle::meta::ResultItem;
use migration::oracle::typed_query::QueryBuilder;
use migration::catalog::string_sqltype;
use migration::catalog::tables_query_sql;
use migration::options::Params;
use migration::options::Variants;
use migration::oracle::errors::OracleError;
use migration::oracle::oci;
use migration::oracle::errors::adjust_fetched;
use migration::oracle::errors::check_error;
use migration::schemas::drop_error_text;
use migration::text::i64_to_string;
use migration::text::join;
use migration::text::lpad;
use migration::text::replace_first;
use migration::text::rpad;
use migration::text::to_upper;
use migration::text::trim_start;
use migration::text::u64_to_string;

fn fetched(code: i64) -> OracleError {
    OracleError { code, message: "driver says so".to_string(), location: "call".to_string() }
}

#[test]
fn success_status_is_none() {
    assert!(check_error(0, None, "here").is_none());
}

#[test]
fn fixed_statuses_have_fixed_messages() {
    let e = check_error(100, None, "fetch").unwrap();
    assert_eq!(e.code, 100);
    assert_eq!(e.message, "No data");
    assert_eq!(e.location, "fetch");
    assert_eq!(check_error(-2, None, "x").unwrap().message, "Invalid handle");
    assert_eq!(check_error(99, None, "x").unwrap().message, "Need data");
    assert_eq!(check_error(-3123, None, "x").unwrap().message, "Still executing");
}

#[test]
fn generic_status_takes_fetched_error() {
    let e = check_error(-1, Some(fetched(955)), "exec").unwrap();
    assert_eq!(e.code, 955);
    assert_eq!(e.message, "driver says so");
    let d = check_error(-1, None, "exec").unwrap();
    assert_eq!(d.code, -1);
    assert_eq!(d.message, "Error with no details");
    let w = check_error(1, None, "exec").unwrap();
    assert_eq!(w.message, "Success with info");
}

#[test]
fn aggregate_null_message_replaced() {
    let e = adjust_fetched(fetched(24347));
    assert_eq!(e.message, "NULL column in a aggregate function");
    let f = adjust_fetched(fetched(24344));
    assert_eq!(f.message, "driver says so");
}

#[test]
fn result_style_status_decoding() {
    assert!(oci::check_error(0, None, "x").is_ok());
    let e = oci::check_error(100, None, "x").unwrap_err();
    assert_eq!(e.errcode, 100);
    assert_eq!(e.message, "No data");
    let s = oci::check_error(-3123, None, "x").unwrap_err();
    assert_eq!(s.message, "Still executing");
    let f = oci::check_error(
        -1,
        Some(oci::OracleError {
            errcode: 24347,
            message: "raw".to_string(),
            location: "l".to_string(),
        }),
        "x",
    )
    .unwrap_err();
    assert_eq!(f.message, "NULL column in a aggregate function");
}

#[test]
fn error_text_rendering() {
    let e = fetched(-913);
    let t = e.text();
    assert_eq!(
        t,
        "\n\n  Error code: -913\n  Error message: driver says so\n  Where: call\n\n"
    );
}

#[test]
fn drop_outcomes() {
    assert!(drop_error_text("APP", &fetched(1918)).is_none());
    assert_eq!(
        drop_error_text("APP", &fetched(1940)).unwrap(),
        "can not drop user: APP what is currently connected"
    );
    assert!(drop_error_text("APP", &fetched(604)).unwrap().starts_with(
        "can not drop user: APP with error: "
    ));
}

#[test]
fn decimal_rendering() {
    assert_eq!(u64_to_string(0), "0");
    assert_eq!(u64_to_string(907), "907");
    assert_eq!(u64_to_string(u64::MAX), "18446744073709551615");
    assert_eq!(i64_to_string(-42), "-42");
    assert_eq!(i64_to_string(7), "7");
    assert_eq!(i64_to_string(i64::MIN), "-9223372036854775808");
}

#[test]
fn text_helpers() {
    assert_eq!(join(&vec!["A".to_string(), "B".to_string(), "C".to_string()], ","), "A,B,C");
    assert_eq!(join(&vec!["X".to_string()], ","), "X");
    assert_eq!(join(&vec![], ","), "");
    assert_eq!(rpad("AB", 5), "AB   ");
    assert_eq!(rpad("ABCDEF", 3), "ABCDEF");
    assert_eq!(lpad("42", 5), "   42");
    assert_eq!(to_upper("Select * frOm t"), "SELECT * FROM T");
    assert_eq!(trim_start("  \t hello "), "hello ");
    assert_eq!(replace_first("NAME and NAME", "NAME", "S.NAME"), "S.NAME and NAME");
    assert_eq!(replace_first("abc", "zz", "q"), "abc");
}

#[test]
fn schema_helpers() {
    let s = Schema {
        name: "APP".to_string(),
        pw: None,
        assumexists: Some(true),
        exclusions: Some(vec!["BIG_TABLE".to_string()]),
    };
    assert!(assume_exists(&s));
    assert!(is_excluded(&s, &"BIG_TABLE".to_string()));
    assert!(!is_excluded(&s, &"SMALL_TABLE".to_string()));
    assert!(is_migrated(&s));
    let sys = Schema {
        name: "SYS".to_string(),
        pw: None,
        assumexists: None,
        exclusions: None,
    };
    assert!(!assume_exists(&sys));
    assert!(!is_migrated(&sys));
}

#[test]
fn catalog_listing() {
    let sql = tables_query_sql(&vec!["SYS".to_string(), "SYSTEM".to_string()]);
    assert_eq!(
        sql,
        "SELECT OWNER, TABLE_NAME FROM SYS.ALL_TABLES WHERE OWNER NOT IN ('SYS','SYSTEM') ORDER BY OWNER, TABLE_NAME"
    );
    let tables = load(&vec![("A".to_string(), "T1".to_string())]);
    assert_eq!(tables.len(), 1);
    assert_eq!(tables[0].owner, "A");
    assert_eq!(tables[0].table_name, "T1");
    let d = string_sqltype(128);
    assert_eq!(d.size, 130);
    assert_eq!(d.dtype, 1);
}

#[test]
fn import_parameters_validated() {
    // Local and remote storage exclude each other.
    assert!(Params::build(
        None, None, None, None, true, true, false, false, None, None, vec![]
    )
    .is_none());
    // A listing needs only its pattern.
    let p = Params::build(
        None,
        None,
        None,
        Some("2024-05".to_string()),
        false,
        false,
        false,
        false,
        None,
        None,
        vec![],
    )
    .unwrap();
    assert_eq!(p.file_date, "2024-05");
    assert!(p.fromLocal);
    assert!(matches!(p.variants, Variants::ListParams));
    // An import without date or time is refused unless import-only.
    assert!(Params::build(
        None,
        None,
        Some("SRC".to_string()),
        None,
        false,
        false,
        false,
        false,
        None,
        None,
        vec!["T1".to_string()],
    )
    .is_none());
    // A full import, with the destination defaulting.
    let q = Params::build(
        Some("2024-05-17".to_string()),
        Some("03_00".to_string()),
        Some("SRC".to_string()),
        None,
        true,
        false,
        false,
        true,
        Some("log.txt".to_string()),
        None,
        vec!["T1".to_string(), "T2".to_string()],
    )
    .unwrap();
    assert_eq!(q.file_date, "2024-05-17");
    match q.variants {
        Variants::ImportParams { file_time, src_schema, tables, dst_schema, log_option, only_import, all } => {
            assert_eq!(file_time, "03_00");
            assert_eq!(src_schema, "SRC");
            assert_eq!(tables, vec!["T1".to_string(), "T2".to_string()]);
            assert_eq!(dst_schema, "COPIE");
            assert_eq!(log_option, Some("log.txt".to_string()));
            assert!(!only_import);
            assert!(all);
        }
        _ => panic!("expected an import"),
    }
    // No tables named: refused.
    assert!(Params::build(
        Some("d".to_string()),
        Some("t".to_string()),
        Some("SRC".to_string()),
        None,
        false,
        false,
        false,
        false,
        None,
        None,
        vec![],
    )
    .is_none());
    // Import-only needs no file date or time.
    let r = Params::build(
        None,
        None,
        Some("SRC".to_string()),
        None,
        false,
        false,
        true,
        false,
        None,
        Some("DEST".to_string()),
        vec!["T1".to_string()],
    )
    .unwrap();
    assert_eq!(r.file_date, "");
    match r.variants {
        Variants::ImportParams { file_time, dst_schema, only_import, .. } => {
            assert_eq!(file_time, "");
            assert_eq!(dst_schema, "DEST");
            assert!(only_import);
        }
        _ => panic!("expected an import"),
    }
}

#[test]
fn record_decodes_from_fetched_row() {
    let owner = encode_text("APP");
    let name = encode_text("CLIENTS");
    let rs = vec![
        ResultItem::new(owner, true, 3),
        ResultItem::new(name, true, 7),
    ];
    let t = OraTable::create(&rs);
    assert_eq!(t.owner, "APP");
    assert_eq!(t.table_name, "CLIENTS");
    let meta = OraTable::meta();
    assert_eq!(meta.len(), 2);
    assert_eq!(meta[0].size, 514);
}

#[test]
fn builder_accepts_bindings() {
    let binding = RowBinding::new(OCIDataType::Char, vec![0u8; 20], 0, 20, 0);
    let b = QueryBuilder::new("select 1".to_string())
        .bind(Some(vec![("owner".to_string(), binding)]))
        .prefetch(50);
    assert_eq!(b.prefetch_rows, 50);
    let binds = b.bindmap.unwrap();
    assert_eq!(binds.len(), 1);
    assert_eq!(binds[0].0, "owner");
    assert_eq!(binds[0].1.max_size, 20);
}
