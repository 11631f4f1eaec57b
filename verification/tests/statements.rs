//! Statement generation: table creation in both storage forms, the read
//! and write sides of the transfer, and the satellite replicators'
//! statements.

use migration::config::Schema;
use migration::oracle::errors::OracleError;
use migration::table_executor::create_table_error;
use migration::foreign_keys::create_fk_sql;
use migration::foreign_keys::fk_error_tolerated;
use migration::grants::grant_sql;
use migration::indexes::IndexesService;
use migration::indexes::create_index_sql;
use migration::indexes::create_pk_sql;
use migration::indexes::index_error_tolerated;
use migration::indexes::pk_name_already_used;
use migration::indexes::should_finalize;
use migration::schemas::compile;
use migration::schemas::create;
use migration::schemas::drop_user_sql;
use migration::sequences::create_sequence_sql;
use migration::sequences::sequence_error_fatal;
use migration::snapshots::mview_sql;
use migration::table::Index;
use migration::table::IndexColumn;
use migration::table::PrimaryKey;
use migration::table::build_table_info;
use migration::table::map_column;
use migration::table_executor::create_read_sql;
use migration::table_executor::create_table_sql;
use migration::table_executor::create_write_sql;
use migration::table_executor::decide_iot;
use migration::table_executor::join_columns;
use migration::table_executor::join_placeholders;
use migration::triggers::trigger_parts;
use migration::triggers::trigger_skipped;
use migration::triggers::trigger_sql;

fn two_column_table() -> migration::table::TableInfo {
    let id = map_column("ID".to_string(), "NUMBER".to_string(), 22, "N", Some(0), Some(5));
    let name = map_column("NAME".to_string(), "VARCHAR2".to_string(), 20, "Y", None, None);
    let pk = PrimaryKey { name: "PK_T".to_string(), columns: vec!["ID".to_string()] };
    build_table_info("T".to_string(), "N", "NO", "N", vec![id, name], Some(pk), vec![])
}

#[test]
fn heap_table_statement() {
    let t = two_column_table();
    let sql = create_table_sql("S", &t, false);
    assert_eq!(
        sql,
        "create table S.T (\"ID\" NUMBER(5,0) not null,\"NAME\" VARCHAR2(20)\n) tablespace \"DATA\""
    );
}

#[test]
fn index_organized_statement() {
    let t = two_column_table();
    let sql = create_table_sql("S", &t, true);
    assert_eq!(
        sql,
        "create table S.T (\"ID\" NUMBER(5,0) not null,\"NAME\" VARCHAR2(20)\n, constraint PK_T primary key (ID)\n) organization index"
    );
}

#[test]
fn temporary_table_statement() {
    let id = map_column("ID".to_string(), "NUMBER".to_string(), 22, "Y", Some(0), Some(3));
    let t = build_table_info("TMP".to_string(), "Y", "NO", "Y", vec![id], None, vec![]);
    let sql = create_table_sql("S", &t, false);
    assert_eq!(
        sql,
        "create  global temporary table S.TMP (\"ID\" NUMBER(3,0)\n) on commit preserve rows"
    );
}

#[test]
fn long_column_widened() {
    let c = map_column("TXT".to_string(), "LONG".to_string(), 0, "Y", None, None);
    assert_eq!(c.buffer_len, 4000);
    let t = build_table_info("L".to_string(), "N", "NO", "N", vec![c], None, vec![]);
    let sql = create_table_sql("S", &t, false);
    assert_eq!(sql, "create table S.L (\"TXT\" VARCHAR2(4000)\n) tablespace \"DATA\"");
}

#[test]
fn unconstrained_number_becomes_integer() {
    let c = map_column("N1".to_string(), "NUMBER".to_string(), 22, "Y", Some(0), None);
    assert_eq!(c.col_type_name, "INTEGER");
    assert_eq!(c.col_type, migration::table::ColumnType::Int64);
    let t = build_table_info("N".to_string(), "N", "NO", "N", vec![c], None, vec![]);
    let sql = create_table_sql("S", &t, false);
    assert_eq!(sql, "create table S.N (\"N1\" INTEGER\n) tablespace \"DATA\"");
}

#[test]
fn read_and_write_statements() {
    let t = two_column_table();
    assert_eq!(create_read_sql("S", &t), "select /*+ ALL_ROWS */ \"ID\",\"NAME\" from S.T");
    assert_eq!(
        create_write_sql("S", &t),
        "insert /*+ APPEND_VALUES */ into S.T (\"ID\",\"NAME\") values (:1,:2)"
    );
    assert_eq!(join_columns(&t), "\"ID\",\"NAME\"");
    assert_eq!(join_placeholders(&t), ":1,:2");
}

#[test]
fn storage_form_decided_on_first_batch() {
    let t = two_column_table();
    assert!(decide_iot(&t, 4999));
    assert!(!decide_iot(&t, 5000));
    let mut with_index = two_column_table();
    with_index.indexes.push(Index {
        name: "I1".to_string(),
        unique: false,
        columns: vec![],
    });
    assert!(!decide_iot(&with_index, 10));
    let mut already = two_column_table();
    already.iot = true;
    assert!(decide_iot(&already, 1_000_000));
}

#[test]
fn secondary_index_statement() {
    let idx = Index {
        name: "I_T_1".to_string(),
        unique: true,
        columns: vec![
            IndexColumn { name: "A".to_string(), desc: false },
            IndexColumn { name: "B".to_string(), desc: true },
        ],
    };
    assert_eq!(
        create_index_sql("S", "T", &idx, false),
        "create unique index S.I_T_1 on S.T(\"A\",\"B\" DESC) tablespace GRAND_INDEX NOLOGGING"
    );
    assert_eq!(
        create_index_sql("S", "T", &idx, true),
        "create unique index S.I_T_1 on S.T(\"A\",\"B\" DESC)"
    );
}

#[test]
fn primary_key_statement() {
    let pk = PrimaryKey {
        name: "PK_T".to_string(),
        columns: vec!["A".to_string(), "B".to_string()],
    };
    assert_eq!(
        create_pk_sql("S", "T", &pk),
        "alter table S.T add constraint PK_T primary key (A,B) using index tablespace GRAND_INDEX"
    );
}

#[test]
fn builder_queue_drains_in_order() {
    let mut svc = IndexesService::new();
    let t = two_column_table();
    svc.finalize("S".to_string(), t.clone());
    svc.finalize("S2".to_string(), t);
    assert!(!svc.closed);
    svc.quit();
    assert!(svc.closed);
    assert_eq!(svc.queue.len(), 2);
    assert_eq!(svc.queue[0].0, "S");
    assert_eq!(svc.queue[1].0, "S2");
}

#[test]
fn builder_submission_rules() {
    assert!(should_finalize(false, false, false));
    assert!(!should_finalize(true, false, false));
    assert!(!should_finalize(false, true, false));
    assert!(!should_finalize(false, false, true));
    assert!(index_error_tolerated(955));
    assert!(index_error_tolerated(1408));
    assert!(index_error_tolerated(2264));
    assert!(!index_error_tolerated(942));
    assert!(pk_name_already_used(2264));
    assert!(!pk_name_already_used(955));
}

#[test]
fn sequence_statement() {
    let sql = create_sequence_sql("S", "SEQ1", 1, "999999999999999999999999999", 5, false, 1041);
    assert_eq!(
        sql,
        "create sequence S.SEQ1 minvalue 1 maxvalue 999999999999999999999999999 increment by 5 nocycle start with 1041"
    );
    let sql2 = create_sequence_sql("S", "SEQ2", 0, "100", 1, true, 7);
    assert_eq!(
        sql2,
        "create sequence S.SEQ2 minvalue 0 maxvalue 100 increment by 1 cycle start with 7"
    );
    assert!(!sequence_error_fatal(955));
    assert!(sequence_error_fatal(1031));
}

#[test]
fn grant_statement() {
    assert_eq!(
        grant_sql("SELECT", "S", "T", "APP", "Y"),
        "grant SELECT on S.T to APP with grant option"
    );
    assert_eq!(grant_sql("UPDATE", "S", "T", "APP", "N"), "grant UPDATE on S.T to APP");
}

#[test]
fn foreign_key_statement() {
    let sql = create_fk_sql(
        "S",
        "CHILD",
        "FK_C",
        &vec!["PARENT_ID".to_string()],
        "S",
        "PARENT",
        &vec!["ID".to_string()],
    );
    assert_eq!(
        sql,
        "alter table S.CHILD add constraint FK_C foreign key (PARENT_ID) references  S.PARENT (ID)"
    );
    assert!(fk_error_tolerated(2264));
    assert!(fk_error_tolerated(2275));
    assert!(!fk_error_tolerated(942));
}

#[test]
fn materialized_view_statement() {
    assert_eq!(
        mview_sql("S", "MV", "select * from t"),
        "create materialized view S.MV build immediate as select * from t"
    );
}

#[test]
fn schema_lifecycle_statements() {
    assert_eq!(drop_user_sql("APP"), "DROP USER APP CASCADE");
    assert_eq!(compile("APP"), "BEGIN DBMS_UTILITY.COMPILE_SCHEMA('APP'); END;");
    let schema = Schema {
        name: "APP".to_string(),
        pw: None,
        assumexists: None,
        exclusions: None,
    };
    let stmts = create(&schema);
    assert_eq!(stmts.len(), 9);
    assert_eq!(
        stmts[0],
        "CREATE USER APP IDENTIFIED BY APP DEFAULT TABLESPACE \"DATA\" TEMPORARY TABLESPACE \"TEMP\""
    );
    assert_eq!(stmts[1], "GRANT CONNECT, RESOURCE, UNLIMITED TABLESPACE TO APP");
    assert_eq!(stmts[8], "GRANT DEBUG ANY PROCEDURE TO APP");
    let fixed = Schema {
        name: "APP".to_string(),
        pw: Some("secret".to_string()),
        assumexists: None,
        exclusions: None,
    };
    assert!(create(&fixed)[0].contains("IDENTIFIED BY secret"));
}

#[test]
fn trigger_description_split() {
    let (timing, scope) = trigger_parts("BEFORE EACH ROW");
    assert_eq!(timing, "BEFORE");
    assert_eq!(scope, "for EACH ROW");
    let (timing2, scope2) = trigger_parts("AFTER STATEMENT");
    assert_eq!(timing2, "AFTER");
    assert_eq!(scope2, "");
}

#[test]
fn trigger_statement_and_link_skip() {
    let sql = trigger_sql(
        "S",
        "TRG",
        "BEFORE",
        "INSERT",
        "T",
        "for EACH ROW",
        "begin null; end;",
    );
    assert_eq!(
        sql,
        "create or replace trigger S.TRG\n BEFORE INSERT on S.T\n for EACH ROW\nbegin null; end;"
    );
    assert!(trigger_skipped("update t@remote set x = 1", "T"));
    assert!(!trigger_skipped("update t set x = 1", "T"));
}

#[test]
fn table_creation_outcomes() {
    let mk = |code: i64| OracleError {
        code,
        message: "driver says so".to_string(),
        location: "execute".to_string(),
    };
    assert!(create_table_error("T", "S", &mk(955)).is_none());
    assert_eq!(
        create_table_error("T", "S", &mk(1918)).unwrap(),
        "can not create table: T because user S does not exists"
    );
    assert!(create_table_error("T", "S", &mk(604))
        .unwrap()
        .starts_with("can not create table: T with error: "));
}
