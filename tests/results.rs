use sqratch::batch::BatchRun;
use sqratch::error::{DbError, DriverFailure};
use sqratch::result::{
    affected_result, build_row, plan_query, rows_result, value_kind, value_kind_for_lowercase, CellValue,
    ColumnDefinition, ExecutionPlan, QueryResult, Row, ValueKind, create_query_result,
};

fn col(name: &str, ty: &str) -> ColumnDefinition {
    ColumnDefinition::from_result_set(name.to_string(), ty.to_string(), true)
}

#[test]
fn select_with_no_rows_keeps_columns() {
    assert_eq!(plan_query("  select * from t where false"), ExecutionPlan::FetchRows);
    let r = rows_result("select * from t".to_string(), vec![col("a", "int4")], Vec::new(), 3);
    assert!(r.rows.is_empty());
    assert_eq!(r.columns.len(), 1);
    assert_eq!(r.rows_affected, None);
    assert_eq!(r.execution_time_ms, 3);
}

#[test]
fn update_reports_affected_rows() {
    assert_eq!(plan_query("UPDATE t SET a = 1"), ExecutionPlan::Execute);
    let r = affected_result("UPDATE t SET a = 1".to_string(), 7, 1);
    assert!(r.rows.is_empty());
    assert!(r.columns.is_empty());
    assert_eq!(r.rows_affected, Some(7));
}

#[test]
fn created_result_keeps_fields() {
    let r = create_query_result("q".to_string(), Vec::new(), Vec::new(), Some(2), 9, 4);
    assert_eq!(r.query, "q");
    assert_eq!(r.rows_affected, Some(2));
    assert_eq!(r.execution_time_ms, 9);
    assert_eq!(r.result_index, 4);
    assert!(r.warnings.is_empty());
    assert!(r.timestamp > 1_600_000_000);
}

#[test]
fn result_set_columns_are_best_effort() {
    let c = col("id", "int8");
    assert!(!c.from_catalog);
    assert!(!c.primary_key);
    assert!(c.default_value.is_none());
}

#[test]
fn duplicate_column_names_collide() {
    let cols = vec![col("id", "int4"), col("name", "text"), col("id", "int4")];
    let row = build_row(&cols, vec![CellValue::Integer(1), CellValue::Text("x".to_string()), CellValue::Integer(2)]);
    assert!(matches!(row.get("id"), Some(CellValue::Integer(2))));
    assert!(matches!(row.get("name"), Some(CellValue::Text(t)) if t == "x"));
    assert!(row.get("missing").is_none());
}

#[test]
fn row_insert_replaces() {
    let mut row = Row::new();
    row.insert("a".to_string(), CellValue::Null);
    row.insert("a".to_string(), CellValue::Boolean(true));
    assert!(matches!(row.get("a"), Some(CellValue::Boolean(true))));
}

#[test]
fn value_kinds_by_type_name() {
    assert_eq!(value_kind("INT4"), ValueKind::Integer);
    assert_eq!(value_kind("Float8"), ValueKind::Float);
    assert_eq!(value_kind("BOOL"), ValueKind::Boolean);
    assert_eq!(value_kind("varchar"), ValueKind::Text);
    assert_eq!(value_kind("TIMESTAMPTZ"), ValueKind::Timestamp);
    assert_eq!(value_kind("jsonb"), ValueKind::Json);
    assert_eq!(value_kind("UUID"), ValueKind::Uuid);
    assert_eq!(value_kind("bytea"), ValueKind::Binary);
    assert_eq!(value_kind("inet"), ValueKind::Fallback);
    assert_eq!(value_kind_for_lowercase("INT4"), ValueKind::Fallback);
}

#[test]
fn cell_display_text() {
    assert_eq!(CellValue::Binary(1024).display_text(), "<binary data: 1024 bytes>");
    assert_eq!(CellValue::Binary(0).display_text(), "<binary data: 0 bytes>");
    assert_eq!(CellValue::Null.display_text(), "NULL");
    assert_eq!(CellValue::Integer(-42).display_text(), "-42");
    assert_eq!(CellValue::Integer(i64::MIN).display_text(), "-9223372036854775808");
    assert_eq!(CellValue::Integer(1234567890).display_text(), "1234567890");
    assert_eq!(CellValue::Boolean(false).display_text(), "false");
    assert_eq!(CellValue::Text("hi".to_string()).display_text(), "hi");
}

fn ok_result(q: &str) -> Result<QueryResult, DbError> {
    Ok(affected_result(q.to_string(), 1, 0))
}

#[test]
fn batch_numbers_results() {
    let mut run = BatchRun::start("INSERT INTO t VALUES (1); INSERT INTO t VALUES (2);").unwrap();
    while let Some(stmt) = run.next_statement() {
        let stmt = stmt.clone();
        run = run.record(ok_result(&stmt)).unwrap();
    }
    let results = run.finish();
    assert_eq!(results.len(), 2);
    assert_eq!(results[0].result_index, 0);
    assert_eq!(results[1].result_index, 1);
    assert_eq!(results[1].query, "INSERT INTO t VALUES (2);");
}

#[test]
fn batch_aborts_on_failure() {
    let mut run = BatchRun::start("SELECT 1; SELECT bad; SELECT 3;").unwrap();
    let mut executed = Vec::new();
    let outcome = loop {
        let stmt = match run.next_statement() {
            Some(s) => s.clone(),
            None => break Ok(run.finish()),
        };
        executed.push(stmt.clone());
        let result = if stmt.contains("bad") { Err(DbError::Query("boom".to_string())) } else { ok_result(&stmt) };
        match run.record(result) {
            Ok(next) => run = next,
            Err(e) => break Err(e),
        }
    };
    assert!(matches!(outcome, Err(DbError::Query(m)) if m == "boom"));
    assert_eq!(executed, vec!["SELECT 1;", "SELECT bad;"]);
}

#[test]
fn batch_reports_split_failure() {
    assert!(matches!(BatchRun::start("SELECT 'x"), Err(DbError::Parsing(m)) if m == "Unclosed string literal in SQL statement"));
}

#[test]
fn driver_failures_are_classified() {
    assert!(matches!(DbError::from_driver(DriverFailure::Database("syntax".to_string())), DbError::Query(m) if m == "syntax"));
    assert!(matches!(DbError::from_driver(DriverFailure::RowNotFound), DbError::NotFound(m) if m == "Row not found"));
    assert!(matches!(DbError::from_driver(DriverFailure::PoolTimedOut), DbError::Connection(m) if m == "Connection pool timeout"));
    assert!(matches!(DbError::from_driver(DriverFailure::PoolClosed), DbError::Connection(_)));
    assert!(matches!(DbError::from_driver(DriverFailure::WorkerCrashed), DbError::Connection(_)));
    assert!(matches!(DbError::from_driver(DriverFailure::Other("x".to_string())), DbError::Other(m) if m == "x"));
}
