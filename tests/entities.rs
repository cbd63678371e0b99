use sqratch::entity::{build_entities, DbEntity, RelationRow, SchemaRow};
use sqratch::env::{database_url_from_env, env_reference, env_value};
use sqratch::project::{default_connection_variable, default_save_queries, hash_str, infer_project_name, parse_cli_args, ProjectId, ProjectPath};

fn schema(id: &str, name: &str) -> SchemaRow {
    SchemaRow { id: id.to_string(), name: name.to_string(), is_system: false, extension_name: None }
}

fn rel(id: &str, kind: &str, schema_id: &str) -> RelationRow {
    RelationRow {
        id: id.to_string(),
        name: format!("rel{}", id),
        kind: kind.to_string(),
        schema_id: schema_id.to_string(),
        is_system: false,
        extension_name: None,
    }
}

#[test]
fn forest_from_catalog_rows() {
    let schemas = vec![schema("1", "public"), schema("2", "audit")];
    let rels = vec![rel("10", "r", "1"), rel("11", "v", "1"), rel("12", "m", "2"), rel("13", "f", "2"), rel("14", "S", "1"), rel("15", "r", "99")];
    let es = build_entities(&schemas, &rels);
    assert_eq!(es.len(), 6);
    match &es[0] {
        DbEntity::Schema(s) => assert_eq!(s.children, vec!["10", "11"]),
        _ => panic!(),
    }
    match &es[1] {
        DbEntity::Schema(s) => assert_eq!(s.children, vec!["12", "13"]),
        _ => panic!(),
    }
    assert!(matches!(&es[2], DbEntity::Table(t) if t.id == "10"));
    assert!(matches!(&es[3], DbEntity::View(t) if t.id == "11"));
    assert!(matches!(&es[4], DbEntity::MaterializedView(t) if t.id == "12"));
    assert!(matches!(&es[5], DbEntity::ForeignTable(t) if t.id == "13"));
    for e in &es {
        let sid = match e {
            DbEntity::Schema(_) => continue,
            DbEntity::Table(t) | DbEntity::View(t) | DbEntity::MaterializedView(t) | DbEntity::ForeignTable(t) => &t.schema_id,
        };
        assert!(es.iter().any(|x| matches!(x, DbEntity::Schema(s) if &s.id == sid)));
    }
}

#[test]
fn empty_catalog_gives_empty_forest() {
    assert!(build_entities(&[], &[]).is_empty());
    assert!(build_entities(&[], &[rel("1", "r", "1")]).is_empty());
}

#[test]
fn env_file_lookup() {
    let content = "# comment\nOTHER=1\n  DATABASE_URL = \"postgres://h/db\"  \nDATABASE_URL=second\n";
    assert_eq!(database_url_from_env(content, ".env").unwrap(), "postgres://h/db");
    assert_eq!(database_url_from_env("X=1", "/p/.env").unwrap_err(), "Database URL not found in file: /p/.env");
    assert_eq!(database_url_from_env("DATABASE_URL=''", ".env").unwrap_err(), "Empty connection string");
    assert_eq!(env_value("#DB=1\nDB='x'\r\n", "DB").as_deref(), Some("x"));
    assert_eq!(env_value("DB", "DB"), None);
}

#[test]
fn hash_labels() {
    assert_eq!(hash_str(""), "e3b0c442-98fc-1c14");
    assert_eq!(hash_str("abc"), "ba7816bf-8f01-cfea");
    assert_eq!(ProjectPath::new("abc".to_string()).to_window_label(), "prj-ba7816bf-8f01-cfea");
}

#[test]
fn project_labels_and_names() {
    let url = ProjectId::Url("postgres://h/db".to_string());
    assert!(url.to_window_label().starts_with("project_url_"));
    assert_eq!(url.to_window_label(), ProjectId::Url("postgres://h/db".to_string()).to_window_label());
    assert_ne!(url.to_window_label(), ProjectId::Directory("postgres://h/db".to_string()).to_window_label());
    assert_eq!(url.window_label_from_hash(255), "project_url_ff");
    assert_eq!(ProjectId::Directory("/x".to_string()).window_label_from_hash(0), "project_dir_0");
    assert_eq!(url.display_name(), "postgres://h/db");
    let long = "p".repeat(60);
    assert_eq!(ProjectId::Url(long).display_name(), format!("{}...", "p".repeat(47)));
    let wide = format!("a{}", "\u{e9}".repeat(30));
    assert_eq!(ProjectId::Url(wide).display_name(), format!("a{}...", "\u{e9}".repeat(23)));
    let fifty = "p".repeat(50);
    assert_eq!(ProjectId::Url(fifty.clone()).display_name(), fifty);
    assert_eq!(ProjectId::Directory("/home/me/proj".to_string()).display_name(), "proj");
    assert_eq!(ProjectId::File("/home/me/proj/.env".to_string()).display_name(), "proj/.env");
    assert_eq!(ProjectId::File(".env".to_string()).display_name(), ".env");
    assert_eq!(url.direct_url().as_deref(), Some("postgres://h/db"));
    assert_eq!(ProjectId::File("a".to_string()).direct_url(), None);
}

#[test]
fn cli_args_and_defaults() {
    assert_eq!(parse_cli_args(&vec!["proj".to_string()]).project_path.as_deref(), Some("proj"));
    assert_eq!(parse_cli_args(&vec!["--help".to_string()]).project_path, None);
    assert_eq!(parse_cli_args(&Vec::new()).project_path, None);
    assert_eq!(default_connection_variable(), "DATABASE_URL");
    assert!(default_save_queries());
}

#[test]
fn env_references() {
    let (path, var) = env_reference(" ../.env | DB_URL ");
    assert_eq!(path, "../.env");
    assert_eq!(var, "DB_URL");
    let (path, var) = env_reference(".env ");
    assert_eq!(path, ".env");
    assert_eq!(var, "DATABASE_URL");
}

#[test]
fn project_names_are_inferred() {
    assert_eq!(infer_project_name(true, "postgres://h:5432/shop", None).unwrap(), "shop");
    assert_eq!(infer_project_name(true, "postgres://h:5432/", None).unwrap(), "DB on h");
    assert_eq!(infer_project_name(false, "postgres://h/shop", Some("proj".to_string())).unwrap(), "proj");
    assert_eq!(infer_project_name(false, "postgres://h/shop", None).unwrap_err(), "Unable to determine parent directory name");
    assert!(infer_project_name(true, "not a url", None).is_err());
}
