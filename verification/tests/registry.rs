use terminal_forwarder::registry::Registry;

#[test]
fn new_registry_is_empty() {
    let registry: Registry<u32> = Registry::new();
    assert_eq!(registry.len(), 0);
    assert!(!registry.contains_key("a"));
    assert_eq!(registry.get("a"), None);
}

#[test]
fn insert_then_get() {
    let mut registry: Registry<u32> = Registry::new();
    registry.insert("a".to_string(), 1);
    registry.insert("b".to_string(), 2);
    assert_eq!(registry.len(), 2);
    assert_eq!(registry.get("a"), Some(&1));
    assert_eq!(registry.get("b"), Some(&2));
    assert_eq!(registry.get("c"), None);
    assert!(registry.contains_key("b"));
}

#[test]
fn insert_replaces_the_value_of_a_stored_key() {
    let mut registry: Registry<u32> = Registry::new();
    registry.insert("a".to_string(), 1);
    registry.insert("b".to_string(), 2);
    registry.insert("a".to_string(), 3);
    assert_eq!(registry.len(), 2);
    assert_eq!(registry.get("a"), Some(&3));
    assert_eq!(registry.key_at(0), "a");
    assert_eq!(registry.key_at(1), "b");
}

#[test]
fn remove_returns_the_value_and_forgets_the_key() {
    let mut registry: Registry<u32> = Registry::new();
    registry.insert("a".to_string(), 1);
    registry.insert("b".to_string(), 2);
    registry.insert("c".to_string(), 3);
    assert_eq!(registry.remove("b"), Some(2));
    assert_eq!(registry.len(), 2);
    assert_eq!(registry.get("b"), None);
    assert_eq!(registry.remove("b"), None);
    assert_eq!(registry.len(), 2);
    assert_eq!(registry.key_at(0), "a");
    assert_eq!(registry.key_at(1), "c");
    assert_eq!(registry.value_at(0), &1);
    assert_eq!(registry.value_at(1), &3);
}

#[test]
fn get_mut_changes_the_stored_value() {
    let mut registry: Registry<Vec<u8>> = Registry::new();
    registry.insert("a".to_string(), vec![1]);
    if let Some(value) = registry.get_mut("a") {
        value.push(2);
    }
    assert_eq!(registry.get("a"), Some(&vec![1, 2]));
    assert!(registry.get_mut("b").is_none());
}

#[test]
fn keys_are_told_apart_by_their_characters() {
    let mut registry: Registry<u32> = Registry::new();
    registry.insert("id".to_string(), 1);
    registry.insert("ID".to_string(), 2);
    registry.insert("id ".to_string(), 3);
    registry.insert("".to_string(), 4);
    assert_eq!(registry.len(), 4);
    assert_eq!(registry.get("id"), Some(&1));
    assert_eq!(registry.get("ID"), Some(&2));
    assert_eq!(registry.get("id "), Some(&3));
    assert_eq!(registry.get(""), Some(&4));
}
