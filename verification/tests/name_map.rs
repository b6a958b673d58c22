use afc_finder::name_map::NameMap;

#[test]
fn insertion_and_lookup() {
    let mut map: NameMap<u32> = NameMap::new();
    assert!(map.is_empty());
    assert_eq!(map.len(), 0);
    assert_eq!(map.get("a"), None);
    map.insert("a".to_string(), 1);
    map.insert("b".to_string(), 2);
    assert!(!map.is_empty());
    assert_eq!(map.len(), 2);
    assert_eq!(map.get("a"), Some(&1));
    assert_eq!(map.get("b"), Some(&2));
    assert_eq!(map.get("c"), None);
    assert!(map.contains_name("a"));
    assert!(!map.contains_name("A"));
}

#[test]
fn a_later_value_replaces_an_earlier_one() {
    let mut map: NameMap<u32> = NameMap::new();
    map.insert("a".to_string(), 1);
    map.insert("b".to_string(), 2);
    map.insert("a".to_string(), 3);
    assert_eq!(map.len(), 2);
    assert_eq!(map.get("a"), Some(&3));
    assert_eq!(map.get("b"), Some(&2));
    assert_eq!(map.name(0), "a");
    assert_eq!(*map.value(0), 3);
    assert_eq!(map.name(1), "b");
    assert_eq!(*map.value(1), 2);
}

#[test]
fn the_empty_name_is_a_name() {
    let mut map: NameMap<u32> = NameMap::new();
    assert!(!map.contains_name(""));
    map.insert(String::new(), 7);
    assert_eq!(map.get(""), Some(&7));
}
