use sqratch::catalog::{group_columns, ColumnInfo, ColumnRow};
use sqratch::error::DbError;

fn row(schema: &str, table: &str, column: &str, position: i32) -> ColumnRow {
    ColumnRow {
        schema: schema.to_string(),
        table: table.to_string(),
        column: ColumnInfo {
            name: column.to_string(),
            position,
            data_type: "text".to_string(),
            char_max_length: None,
            nullable: true,
            default_value: None,
            comment: None,
            is_primary_key: position == 1,
            foreign_key_ref: None,
        },
    }
}

#[test]
fn sorted_stream_groups_into_tables() {
    let rows = vec![
        row("public", "a", "id", 1),
        row("public", "a", "name", 2),
        row("public", "b", "id", 1),
        row("sales", "a", "id", 1),
    ];
    let tables = group_columns(rows).unwrap();
    assert_eq!(tables.len(), 3);
    assert_eq!(tables[0].name, "a");
    assert_eq!(tables[0].schema.as_deref(), Some("public"));
    let names: Vec<&str> = tables[0].columns.iter().map(|c| c.name.as_str()).collect();
    assert_eq!(names, vec!["id", "name"]);
    assert_eq!(tables[1].name, "b");
    assert_eq!(tables[2].schema.as_deref(), Some("sales"));
    assert!(tables[2].row_count.is_none());
}

#[test]
fn empty_stream_gives_no_tables() {
    assert!(group_columns(Vec::new()).unwrap().is_empty());
}

#[test]
fn interleaved_stream_fails() {
    let rows = vec![row("public", "a", "id", 1), row("public", "b", "id", 1), row("public", "a", "name", 2)];
    assert!(matches!(group_columns(rows), Err(DbError::Other(m)) if m == "Column rows are not grouped by schema and table"));
}
