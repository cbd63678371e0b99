use sqratch::error::DbError;
use sqratch::splitter::split_sql_statements;
use sqratch::statement::{classify_uppercase, get_statement_type, StatementType};

fn split(s: &str) -> Vec<String> {
    split_sql_statements(s).expect("script splits")
}

#[test]
fn comments_are_stripped() {
    assert_eq!(split("SELECT 1; -- comment\nSELECT 2;"), vec!["SELECT 1;", "SELECT 2;"]);
}

#[test]
fn block_comments_are_stripped() {
    assert_eq!(split("SELECT /* a; b */ 1; SELECT 2"), vec!["SELECT  1;", "SELECT 2"]);
}

#[test]
fn semicolon_inside_string_is_kept() {
    let out = split("SELECT ';' ; SELECT 1;");
    assert_eq!(out.len(), 2);
    assert_eq!(out[0], "SELECT ';' ;");
    assert_eq!(out[1], "SELECT 1;");
}

#[test]
fn semicolon_inside_identifier_is_kept() {
    assert_eq!(split("SELECT \"a;b\" FROM t; SELECT 2;"), vec!["SELECT \"a;b\" FROM t;", "SELECT 2;"]);
}

#[test]
fn unterminated_string_fails() {
    match split_sql_statements("SELECT 'unterminated") {
        Err(DbError::Parsing(m)) => assert!(m.contains("string literal"), "{}", m),
        other => panic!("unexpected {:?}", other),
    }
}

#[test]
fn unterminated_identifier_fails() {
    match split_sql_statements("SELECT \"col") {
        Err(DbError::Parsing(m)) => assert_eq!(m, "Unclosed quoted identifier in SQL statement"),
        other => panic!("unexpected {:?}", other),
    }
}

#[test]
fn unterminated_block_comment_fails() {
    match split_sql_statements("SELECT 1; /* open") {
        Err(DbError::Parsing(m)) => assert_eq!(m, "Unclosed block comment in SQL statement"),
        other => panic!("unexpected {:?}", other),
    }
}

#[test]
fn unterminated_line_comment_is_fine() {
    assert_eq!(split("SELECT 1; -- trailing"), vec!["SELECT 1;"]);
}

#[test]
fn empty_statements_are_dropped() {
    assert_eq!(split(" ; ;\n;SELECT 1;; "), vec!["SELECT 1;"]);
    assert!(split("").is_empty());
    assert!(split("   \n\t").is_empty());
}

#[test]
fn trailing_statement_without_terminator() {
    assert_eq!(split("SELECT 1;\n  SELECT 2  "), vec!["SELECT 1;", "SELECT 2"]);
}

#[test]
fn escaped_quote_stays_in_string() {
    assert_eq!(split("SELECT 'it\\'s;'; SELECT 2;"), vec!["SELECT 'it\\'s;';", "SELECT 2;"]);
}

#[test]
fn resplitting_joined_statements_gives_the_same_list() {
    let first = split("SELECT 1;  INSERT INTO t VALUES ('a;b');\nUPDATE t SET x = 1");
    let joined = first.join(";");
    assert_eq!(split(&joined), first);
}

#[test]
fn statement_types_by_leading_keyword() {
    assert_eq!(get_statement_type("  select * from t"), StatementType::Select);
    assert_eq!(get_statement_type("Insert into t values (1)"), StatementType::Insert);
    assert_eq!(get_statement_type("update t set a = 1"), StatementType::Update);
    assert_eq!(get_statement_type("DELETE FROM t"), StatementType::Delete);
    assert_eq!(get_statement_type("create table t (a int)"), StatementType::CreateTable);
    assert_eq!(get_statement_type("alter table t add b int"), StatementType::AlterTable);
    assert_eq!(get_statement_type("drop table t"), StatementType::DropTable);
    assert_eq!(get_statement_type("create view v as select 1"), StatementType::CreateView);
    assert_eq!(get_statement_type("create procedure p()"), StatementType::CreateFunction);
    assert_eq!(get_statement_type("start transaction"), StatementType::BeginTransaction);
    assert_eq!(get_statement_type("commit"), StatementType::CommitTransaction);
    assert_eq!(get_statement_type("rollback"), StatementType::RollbackTransaction);
    assert_eq!(get_statement_type("vacuum"), StatementType::Other);
    assert_eq!(get_statement_type(""), StatementType::Other);
}

#[test]
fn statement_type_groups() {
    assert!(StatementType::Select.returns_rows());
    assert!(!StatementType::Insert.returns_rows());
    assert!(StatementType::Delete.is_dml());
    assert!(!StatementType::Select.is_dml());
    assert!(StatementType::CreateView.is_ddl());
    assert!(!StatementType::Update.is_ddl());
    assert!(StatementType::CommitTransaction.is_transaction_control());
    assert!(!StatementType::Other.is_transaction_control());
}

#[test]
fn classify_uppercase_is_exact() {
    assert_eq!(classify_uppercase("SELECT 1"), StatementType::Select);
    assert_eq!(classify_uppercase("select 1"), StatementType::Other);
    assert_eq!(classify_uppercase("CREATE FUNCTION f()"), StatementType::CreateFunction);
    assert_eq!(classify_uppercase("BEGIN"), StatementType::BeginTransaction);
}
