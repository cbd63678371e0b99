use sqratch::tables::{extract_table_names, extract_table_names_lowercase};

fn sorted(mut v: Vec<String>) -> Vec<String> {
    v.sort();
    v
}

#[test]
fn names_after_from_and_join() {
    let names = extract_table_names("SELECT * FROM users u JOIN orders o ON u.id = o.user_id WHERE u.id = 1");
    assert_eq!(sorted(names), vec!["orders", "users"]);
}

#[test]
fn comma_separated_from_list_with_schema() {
    let names = extract_table_names("select a.x from public.a, b bb order by 1");
    assert_eq!(sorted(names), vec!["a", "b"]);
}

#[test]
fn update_and_insert_targets() {
    assert_eq!(extract_table_names("UPDATE public.accounts SET a = 1"), vec!["accounts"]);
    assert_eq!(extract_table_names("INSERT INTO logs VALUES (1)"), vec!["logs"]);
}

#[test]
fn qualified_join_keyword_reads_the_next_word() {
    let names = extract_table_names_lowercase("select * from a inner join b on a.x = b.x");
    assert_eq!(sorted(names), vec!["a", "b", "join"]);
}

#[test]
fn no_tables() {
    assert!(extract_table_names("SELECT 1").is_empty());
}

#[test]
fn each_name_once() {
    let names = extract_table_names("select * from t join t on true");
    assert_eq!(names, vec!["t"]);
}
