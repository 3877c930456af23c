use file_sync::table::Table;

#[test]
fn rows_are_found_replaced_and_removed() {
    let mut t: Table<u64> = Table::new();
    assert!(t.get("a").is_none());
    t.insert("a".to_string(), 1);
    t.insert("b".to_string(), 2);
    t.insert("a".to_string(), 3);
    assert_eq!(t.get("a"), Some(&3));
    assert_eq!(t.get("b"), Some(&2));
    let mut keys = t.keys().clone();
    keys.sort();
    assert_eq!(keys, vec!["a", "b"]);
    t.remove("a");
    t.remove("missing");
    assert!(t.get("a").is_none());
    assert_eq!(t.keys(), &vec!["b".to_string()]);
}
