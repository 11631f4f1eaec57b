//! The object replay planner: dependency order, cycle tolerance,
//! idempotence against an already-populated destination, and failure
//! classification.

use migration::accessories::DbObject;
use migration::accessories::DbObjectType;
use migration::accessories::Key;
use migration::accessories::ObjectAction;
use migration::accessories::SourceRow;
use migration::accessories::creation_error_line;
use migration::accessories::ddl_error_text;
use migration::accessories::dependency_keys;
use migration::accessories::get_object_type;
use migration::accessories::load;
use migration::accessories::load_existing_sources;
use migration::accessories::load_sources;
use migration::accessories::object_action;
use migration::accessories::synonym_object;
use migration::accessories::view_object;
use migration::oracle::errors::OracleError;

fn key(owner: &str, name: &str, t: DbObjectType) -> Key {
    Key { owner: owner.to_string(), name: name.to_string(), object_type: t }
}

fn obj(owner: &str, name: &str, t: DbObjectType, refs: Vec<Key>) -> DbObject {
    DbObject {
        owner: owner.to_string(),
        name: name.to_string(),
        object_type: t,
        sql: format!("create thing {}.{}", owner, name),
        references: refs,
    }
}

fn position_of(steps: &Vec<migration::accessories::ReplayStep>, index: usize) -> usize {
    for (m, s) in steps.iter().enumerate() {
        if s.index == index {
            return m;
        }
    }
    panic!("object {} not planned", index);
}

#[test]
fn view_before_its_reader() {
    // V1 (view) references V2 (view); V2 references nothing.
    let v2 = obj("S", "V2", DbObjectType::View, vec![]);
    let v1 = obj("S", "V1", DbObjectType::View, vec![key("S", "V2", DbObjectType::View)]);
    let objects = vec![v1, v2];
    let plan = load(&objects, &vec![]);
    assert_eq!(plan.steps.len(), 2);
    assert_eq!(plan.forced_from, 2);
    let p_v1 = position_of(&plan.steps, 0);
    let p_v2 = position_of(&plan.steps, 1);
    assert!(p_v2 < p_v1, "V2 must be created before V1");
}

#[test]
fn chain_is_linearised() {
    // C -> B -> A: creation order must be A, B, C.
    let a = obj("S", "A", DbObjectType::Procedure, vec![]);
    let b = obj("S", "B", DbObjectType::Procedure, vec![key("S", "A", DbObjectType::Procedure)]);
    let c = obj("S", "C", DbObjectType::Procedure, vec![key("S", "B", DbObjectType::Procedure)]);
    let objects = vec![c, b, a];
    let plan = load(&objects, &vec![]);
    assert_eq!(plan.forced_from, 3);
    assert!(position_of(&plan.steps, 2) < position_of(&plan.steps, 1));
    assert!(position_of(&plan.steps, 1) < position_of(&plan.steps, 0));
}

#[test]
fn cycle_processed_exactly_once() {
    // A references B and B references A: the planner must still terminate
    // and plan each exactly once.
    let a = obj("S", "A", DbObjectType::View, vec![key("S", "B", DbObjectType::View)]);
    let b = obj("S", "B", DbObjectType::View, vec![key("S", "A", DbObjectType::View)]);
    let objects = vec![a, b];
    let plan = load(&objects, &vec![]);
    assert_eq!(plan.steps.len(), 2);
    assert_eq!(plan.forced_from, 0, "a pure cycle stalls the first pass");
    let mut seen = vec![false, false];
    for s in &plan.steps {
        assert!(!seen[s.index], "object planned twice");
        seen[s.index] = true;
    }
    assert!(seen[0] && seen[1]);
}

#[test]
fn unresolved_reference_is_forced() {
    // X references an object outside the set: one clean pass, then force.
    let ok = obj("S", "OK", DbObjectType::View, vec![]);
    let x = obj("S", "X", DbObjectType::View, vec![key("OTHER", "GONE", DbObjectType::View)]);
    let objects = vec![x, ok];
    let plan = load(&objects, &vec![]);
    assert_eq!(plan.steps.len(), 2);
    assert_eq!(plan.forced_from, 1);
    assert_eq!(plan.steps[0].index, 1);
    assert_eq!(plan.steps[1].index, 0);
}

#[test]
fn rerun_grants_only() {
    // Every object already exists at the destination: zero executions,
    // full grant propagation.
    let v2 = obj("S", "V2", DbObjectType::View, vec![]);
    let v1 = obj("S", "V1", DbObjectType::View, vec![key("S", "V2", DbObjectType::View)]);
    let objects = vec![v1, v2];
    let existing = vec!["S.V1".to_string(), "S.V2".to_string()];
    let plan = load(&objects, &existing);
    assert_eq!(plan.steps.len(), 2);
    for s in &plan.steps {
        assert_eq!(s.action, ObjectAction::Grant);
    }
}

#[test]
fn fresh_destination_executes_all() {
    let v = obj("S", "V", DbObjectType::View, vec![]);
    let plan = load(&vec![v], &vec!["S.OTHER".to_string()]);
    assert_eq!(plan.steps.len(), 1);
    assert_eq!(plan.steps[0].action, ObjectAction::Execute);
}

#[test]
fn action_decision_matches_existing_names() {
    let v = obj("S", "V", DbObjectType::View, vec![]);
    assert_eq!(object_action(&v, &vec!["S.V".to_string()]), ObjectAction::Grant);
    assert_eq!(object_action(&v, &vec!["S.W".to_string()]), ObjectAction::Execute);
    assert_eq!(object_action(&v, &vec![]), ObjectAction::Execute);
}

#[test]
fn name_already_used_is_classified() {
    // Native code 955 during replay must be logged as already used, and
    // classification never aborts anything.
    let err = OracleError {
        code: 955,
        message: "name is already used".to_string(),
        location: "execute".to_string(),
    };
    let text = ddl_error_text(&err, "create view S.V as select 1 from dual");
    assert_eq!(text, "name is already being used by existing object");
    let v = obj("S", "V", DbObjectType::View, vec![]);
    let line = creation_error_line(&v, &err);
    assert_eq!(line, "can not create View: S.V name is already being used by existing object");
}

#[test]
fn known_codes_have_short_reasons() {
    let mk = |code: i64| OracleError {
        code,
        message: String::new(),
        location: "execute".to_string(),
    };
    assert_eq!(ddl_error_text(&mk(904), ""), "invalid identifier");
    assert_eq!(ddl_error_text(&mk(942), ""), "table or view does not exists");
    assert_eq!(ddl_error_text(&mk(980), ""), "synonym translation is no longer valid");
    assert_eq!(ddl_error_text(&mk(995), ""), "missing or invalid synonym identifier");
    assert_eq!(ddl_error_text(&mk(1031), ""), "insufficient privileges");
    assert_eq!(
        ddl_error_text(&mk(2019), ""),
        "connection description for remote database not found"
    );
    assert_eq!(ddl_error_text(&mk(6575), ""), "package or function is in an invalid state");
    assert_eq!(ddl_error_text(&mk(24344), ""), "compilation errors");
}

#[test]
fn unknown_code_carries_error_and_statement() {
    let err = OracleError {
        code: 1234,
        message: "mystery".to_string(),
        location: "execute".to_string(),
    };
    let text = ddl_error_text(&err, "create view V");
    assert!(text.starts_with("with error: "));
    assert!(text.contains("Error code: 1234"));
    assert!(text.contains("mystery"));
    assert!(text.ends_with(", sql: create view V"));
}

#[test]
fn object_kinds_from_catalog_names() {
    assert_eq!(get_object_type("FUNCTION"), DbObjectType::Function);
    assert_eq!(get_object_type("PACKAGE"), DbObjectType::Package);
    assert_eq!(get_object_type("PACKAGE BODY"), DbObjectType::PackageBody);
    assert_eq!(get_object_type("PROCEDURE"), DbObjectType::Procedure);
    assert_eq!(get_object_type("SYNONYM"), DbObjectType::Synonym);
    assert_eq!(get_object_type("TYPE"), DbObjectType::Type);
    assert_eq!(get_object_type("VIEW"), DbObjectType::View);
    assert_eq!(get_object_type("TABLE"), DbObjectType::Unsupported);
}

#[test]
fn view_and_synonym_statements() {
    let v = view_object("S".to_string(), "V".to_string(), "select 1 from dual", vec![]);
    assert_eq!(v.sql, "create or replace view S.V as select 1 from dual");
    assert_eq!(v.object_type, DbObjectType::View);
    let s = synonym_object("S".to_string(), "SYN".to_string(), "T", "TAB", vec![]);
    assert_eq!(s.sql, "create synonym S.SYN for T.TAB");
    assert_eq!(s.object_type, DbObjectType::Synonym);
}

#[test]
fn existing_sources_are_qualified_names() {
    let rows = vec![
        ("A".to_string(), "X".to_string()),
        ("B".to_string(), "Y".to_string()),
    ];
    let names = load_existing_sources(&rows);
    assert_eq!(names, vec!["A.X".to_string(), "B.Y".to_string()]);
}

#[test]
fn dependency_rows_become_keys() {
    let rows = vec![
        ("S".to_string(), "V".to_string(), "VIEW".to_string()),
        ("S".to_string(), "Q".to_string(), "SEQUENCE".to_string()),
    ];
    let keys = dependency_keys(&rows);
    assert_eq!(keys.len(), 2);
    assert_eq!(keys[0].object_type, DbObjectType::View);
    assert_eq!(keys[0].owner, "S");
    assert_eq!(keys[1].object_type, DbObjectType::Unsupported);
}

fn source_row(owner: &str, name: &str, t: &str, line: u32, text: &str) -> SourceRow {
    SourceRow {
        owner: owner.to_string(),
        name: name.to_string(),
        obj_type: t.to_string(),
        line,
        text: text.to_string(),
        references: vec![],
    }
}

#[test]
fn source_lines_grouped_into_objects() {
    let rows = vec![
        source_row("S", "MYPROC", "PROCEDURE", 1, "  procedure MYPROC is\n"),
        source_row("S", "MYPROC", "PROCEDURE", 2, "begin null; end;\n"),
        source_row("S", "OBJ1", "TYPE", 1, "type OBJ1 as object (x number)"),
    ];
    let objects = load_sources(&rows);
    assert_eq!(objects.len(), 2);
    assert_eq!(objects[0].name, "MYPROC");
    assert_eq!(objects[0].object_type, DbObjectType::Procedure);
    assert_eq!(objects[0].sql, "create PROCEDURE S.MYPROC IS\nbegin null; end;\n");
    assert_eq!(objects[1].name, "OBJ1");
    assert_eq!(objects[1].object_type, DbObjectType::Type);
    assert_eq!(objects[1].sql, "create or replace type S.OBJ1 AS OBJECT (X NUMBER)");
}

#[test]
fn unsupported_source_kind_is_dropped() {
    let rows = vec![
        source_row("S", "J1", "JAVA SOURCE", 1, "class J1 {}"),
        source_row("S", "F1", "FUNCTION", 1, "function F1 return number is begin return 1; end;"),
    ];
    let objects = load_sources(&rows);
    assert_eq!(objects.len(), 1);
    assert_eq!(objects[0].name, "F1");
    assert_eq!(objects[0].object_type, DbObjectType::Function);
}

#[test]
fn duplicate_keys_keep_the_last_loaded() {
    // Loading phases overwrite earlier objects with later ones of the
    // same key; the dedup hands the planner a set with no key twice.
    let first = obj("S", "V", DbObjectType::View, vec![]);
    let mut second = obj("S", "V", DbObjectType::View, vec![]);
    second.sql = "create or replace view S.V as select 2 from dual".to_string();
    let other = obj("S", "W", DbObjectType::View, vec![]);
    let deduped = migration::accessories::dedup_objects(vec![first, other, second]);
    assert_eq!(deduped.len(), 2);
    assert_eq!(deduped[0].name, "W");
    assert_eq!(deduped[1].name, "V");
    assert_eq!(deduped[1].sql, "create or replace view S.V as select 2 from dual");
}

#[test]
fn same_name_different_kind_both_stay() {
    let package = obj("S", "P", DbObjectType::Package, vec![]);
    let body = obj("S", "P", DbObjectType::PackageBody, vec![]);
    let deduped = migration::accessories::dedup_objects(vec![package, body]);
    assert_eq!(deduped.len(), 2);
}

#[test]
fn type_sources_checked_for_their_cut_point() {
    let good = vec![source_row("S", "OBJ1", "TYPE", 1, "type OBJ1 as object (x number)")];
    assert!(migration::accessories::sources_well_formed(&good));
    let bad = vec![source_row("S", "OBJ2", "TYPE", 1, "type OBJ2 is table of number")];
    assert!(!migration::accessories::sources_well_formed(&bad));
    let harmless = vec![source_row("S", "F1", "FUNCTION", 1, "function F1 return number")];
    assert!(migration::accessories::sources_well_formed(&harmless));
}
