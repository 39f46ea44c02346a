use rustcraft_mappings::NameTable;

#[test]
fn a_table_keeps_the_order_in_which_names_came() {
    let mut t: NameTable<String> = NameTable::new();
    assert_eq!(t.len(), 0);
    t.insert("b".to_string(), "1".to_string());
    t.insert("a".to_string(), "2".to_string());
    t.insert("c".to_string(), "3".to_string());
    assert_eq!(t.len(), 3);
    assert_eq!(t.key_at(0), "b");
    assert_eq!(t.key_at(1), "a");
    assert_eq!(t.key_at(2), "c");
    assert_eq!(t.position("a"), Some(1));
    assert_eq!(t.position("d"), None);
    assert!(t.contains_key("c"));
    assert!(!t.contains_key(""));
}

#[test]
fn storing_under_a_name_again_keeps_its_place() {
    let mut t: NameTable<String> = NameTable::new();
    t.insert("b".to_string(), "1".to_string());
    t.insert("a".to_string(), "2".to_string());
    t.insert("b".to_string(), "3".to_string());
    assert_eq!(t.len(), 2);
    assert_eq!(t.key_at(0), "b");
    assert_eq!(t.value_at(0), "3");
    assert_eq!(t.get("b").unwrap(), "3");
    assert_eq!(t.get("a").unwrap(), "2");
    assert!(t.get("c").is_none());
}

#[test]
fn a_value_is_replaced_in_its_place() {
    let mut t: NameTable<String> = NameTable::new();
    t.insert("b".to_string(), "1".to_string());
    t.insert("a".to_string(), "2".to_string());
    let previous = t.replace_at(1, "9".to_string());
    assert_eq!(previous, "2");
    assert_eq!(t.value_at(1), "9");
    assert_eq!(t.key_at(1), "a");
    assert_eq!(t.value_at(0), "1");
    let copy = t.clone();
    assert_eq!(copy.len(), 2);
    assert_eq!(copy.get("a").unwrap(), "9");
}
