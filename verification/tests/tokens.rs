use whatsapp_dispatch::tokens::TokenMap;

#[test]
fn new_map_is_empty() {
    let map = TokenMap::new();
    assert!(map.is_empty());
    assert_eq!(map.len(), 0);
    assert!(map.get("name").is_none());
    assert!(!map.contains_key("name"));
}

#[test]
fn insert_then_get() {
    let mut map = TokenMap::new();
    map.insert("name".to_string(), "Ana".to_string());
    map.insert("amount".to_string(), "50".to_string());
    assert_eq!(map.len(), 2);
    assert!(!map.is_empty());
    assert_eq!(map.get("name").map(|v| v.as_str()), Some("Ana"));
    assert_eq!(map.get("amount").map(|v| v.as_str()), Some("50"));
    assert!(map.get("Name").is_none());
    assert!(map.contains_key("amount"));
}

#[test]
fn insert_replaces_the_value_under_a_name() {
    let mut map = TokenMap::new();
    map.insert("name".to_string(), "Ana".to_string());
    map.insert("other".to_string(), "x".to_string());
    map.insert("name".to_string(), "Bob".to_string());
    assert_eq!(map.len(), 2);
    assert_eq!(map.get("name").map(|v| v.as_str()), Some("Bob"));
    assert_eq!(map.get("other").map(|v| v.as_str()), Some("x"));
}

#[test]
fn names_are_compared_character_by_character() {
    let mut map = TokenMap::new();
    map.insert("ñ".to_string(), "1".to_string());
    map.insert("n".to_string(), "2".to_string());
    map.insert("".to_string(), "3".to_string());
    assert_eq!(map.len(), 3);
    assert_eq!(map.get("ñ").map(|v| v.as_str()), Some("1"));
    assert_eq!(map.get("n").map(|v| v.as_str()), Some("2"));
    assert_eq!(map.get("").map(|v| v.as_str()), Some("3"));
    assert!(map.get("ñn").is_none());
}

#[test]
fn pairs_hold_each_name_once() {
    let mut map = TokenMap::new();
    map.insert("a".to_string(), "1".to_string());
    map.insert("b".to_string(), "2".to_string());
    map.insert("a".to_string(), "3".to_string());
    let mut pairs = map.pairs();
    pairs.sort();
    assert_eq!(pairs, vec![("a".to_string(), "3".to_string()), ("b".to_string(), "2".to_string())]);
    assert!(TokenMap::new().pairs().is_empty());
}

#[test]
fn insertion_order_of_different_names_does_not_show() {
    let mut one = TokenMap::new();
    one.insert("a".to_string(), "1".to_string());
    one.insert("b".to_string(), "2".to_string());
    let mut other = TokenMap::new();
    other.insert("b".to_string(), "2".to_string());
    other.insert("a".to_string(), "1".to_string());
    for name in ["a", "b", "c"] {
        assert_eq!(one.get(name), other.get(name));
    }
    assert_eq!(one.len(), other.len());
}
