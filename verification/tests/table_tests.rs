use chrysocolle::table::NamedTable;

fn names(t: &NamedTable<u32>) -> Vec<String> {
    (0..t.len()).map(|i| t.entry_at(i).0.clone()).collect()
}

#[test]
fn insert_then_get() {
    let mut t: NamedTable<u32> = NamedTable::new();
    assert_eq!(t.len(), 0);
    t.insert("a".to_string(), 1);
    t.insert("b".to_string(), 2);
    assert_eq!(t.get(&"a".to_string()), Some(&1));
    assert_eq!(t.get(&"b".to_string()), Some(&2));
    assert_eq!(t.get(&"c".to_string()), None);
    assert!(t.contains_key(&"a".to_string()));
    assert!(!t.contains_key(&"c".to_string()));
}

#[test]
fn insert_existing_name_keeps_its_place() {
    let mut t: NamedTable<u32> = NamedTable::new();
    t.insert("a".to_string(), 1);
    t.insert("b".to_string(), 2);
    t.insert("a".to_string(), 3);
    assert_eq!(t.len(), 2);
    assert_eq!(names(&t), vec!["a".to_string(), "b".to_string()]);
    assert_eq!(t.get(&"a".to_string()), Some(&3));
}

#[test]
fn remove_hands_back_value_and_keeps_order() {
    let mut t: NamedTable<u32> = NamedTable::new();
    t.insert("a".to_string(), 1);
    t.insert("b".to_string(), 2);
    t.insert("c".to_string(), 3);
    assert_eq!(t.remove(&"b".to_string()), Some(2));
    assert_eq!(t.remove(&"b".to_string()), None);
    assert_eq!(names(&t), vec!["a".to_string(), "c".to_string()]);
    assert_eq!(*t.entry_at(1).1, 3);
}
