use prismarine_anchor::nbt::ordered_map::OrderedMap;

fn sample() -> OrderedMap<i32> {
    let mut map = OrderedMap::new();
    assert_eq!(map.insert("b".to_string(), 1), None);
    assert_eq!(map.insert("a".to_string(), 2), None);
    assert_eq!(map.insert("c".to_string(), 3), None);
    map
}

#[test]
fn ordered_map_keeps_insertion_order() {
    let map = sample();
    assert_eq!(map.len(), 3);
    assert!(!map.is_empty());
    let keys: Vec<&str> = map.keys().into_iter().map(|k| k.as_str()).collect();
    assert_eq!(keys, vec!["b", "a", "c"]);
    let values: Vec<i32> = map.values().into_iter().copied().collect();
    assert_eq!(values, vec![1, 2, 3]);
}

#[test]
fn ordered_map_insert_existing_key_keeps_place() {
    let mut map = sample();
    assert_eq!(map.insert("a".to_string(), 20), Some(2));
    assert_eq!(map.len(), 3);
    assert_eq!(map.get("a"), Some(&20));
    assert_eq!(*map.index("a"), 20);
    let pairs: Vec<(String, i32)> = map.into_pairs();
    assert_eq!(
        pairs,
        vec![("b".to_string(), 1), ("a".to_string(), 20), ("c".to_string(), 3)]
    );
}

#[test]
fn ordered_map_lookups() {
    let map = sample();
    assert_eq!(map.get("c"), Some(&3));
    assert_eq!(map.get("d"), None);
    assert!(map.contains_key("b"));
    assert!(!map.contains_key(""));
    let iter: Vec<(String, i32)> =
        map.iter().into_iter().map(|(k, v)| (k.clone(), *v)).collect();
    assert_eq!(iter, vec![("b".to_string(), 1), ("a".to_string(), 2), ("c".to_string(), 3)]);
}

#[test]
fn ordered_map_extend_and_from_pairs() {
    let mut map = sample();
    map.extend(vec![("d".to_string(), 4), ("b".to_string(), 10), ("d".to_string(), 40)]);
    assert_eq!(map.into_keys(), vec!["b", "a", "c", "d"]);
    let map = OrderedMap::from_pairs(vec![
        ("x".to_string(), 1),
        ("y".to_string(), 2),
        ("x".to_string(), 3),
    ]);
    assert_eq!(map.into_values(), vec![3, 2]);
}

#[test]
fn ordered_map_clear_and_clone() {
    let mut map = sample();
    let copy = map.clone();
    map.clear();
    assert!(map.is_empty());
    assert_eq!(map.get("a"), None);
    assert_eq!(copy.len(), 3);
    assert_eq!(copy.get("a"), Some(&2));
}
