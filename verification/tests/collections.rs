use cargo_udeps::collections::{IdMap, PairSet, StrMap, StrSet};

fn contents(set: &StrSet) -> Vec<String> {
    (0..set.len()).map(|i| set.get(i).clone()).collect()
}

#[test]
fn str_set_keeps_its_strings_in_order_and_once() {
    let mut set = StrSet::new();
    assert!(set.is_empty());
    assert!(set.insert("matches".to_string()));
    assert!(set.insert("if_chain".to_string()));
    assert!(set.insert("maplit".to_string()));
    assert!(!set.insert("if_chain".to_string()));
    assert_eq!(contents(&set), ["if_chain", "maplit", "matches"]);
    assert_eq!(set.len(), 3);
    assert!(set.contains("maplit"));
    assert!(!set.contains("map"));
    assert!(!set.is_empty());
    assert_eq!(contents(&set.clone()), contents(&set));
}

#[test]
fn id_map_keeps_its_keys_in_order() {
    let mut map: IdMap<&str> = IdMap::new();
    assert_eq!(map.insert(7, "seven"), None);
    assert_eq!(map.insert(3, "three"), None);
    assert_eq!(map.insert(5, "five"), None);
    assert_eq!(map.insert(3, "drei"), Some("three"));
    assert_eq!(map.len(), 3);
    assert_eq!((0..3).map(|i| map.key_at(i)).collect::<Vec<_>>(), [3, 5, 7]);
    assert_eq!(*map.value_at(0), "drei");
    assert_eq!(map.get(5), Some(&"five"));
    assert_eq!(map.get(6), None);
    assert!(map.contains_key(7));
    assert_eq!(map.remove(5), Some("five"));
    assert_eq!(map.remove(5), None);
    assert!(!map.contains_key(5));
    assert_eq!(map.len(), 2);
}

#[test]
fn str_map_replaces_the_value_of_a_key() {
    let mut map: StrMap<u64> = StrMap::new();
    assert_eq!(map.insert("libfoo-1".to_string(), 1), None);
    assert_eq!(map.insert("libbar-2".to_string(), 2), None);
    assert_eq!(map.insert("libfoo-1".to_string(), 3), Some(1));
    assert_eq!(map.len(), 2);
    assert_eq!(map.get("libfoo-1"), Some(&3));
    assert_eq!(map.get("libfoo"), None);
    assert_eq!(map.key_at(0), "libfoo-1");
    assert_eq!(*map.value_at(1), 2);
    assert!(map.contains_key("libbar-2"));
    assert_eq!(map.remove("libfoo-1"), Some(3));
    assert!(!map.contains_key("libfoo-1"));
    assert_eq!(map.remove("libfoo-1"), None);
}

#[test]
fn pair_set_holds_each_pair_once() {
    let mut set = PairSet::new();
    assert!(set.insert(1, "a".to_string()));
    assert!(set.insert(2, "a".to_string()));
    assert!(!set.insert(1, "a".to_string()));
    assert_eq!(set.len(), 2);
    assert!(set.contains(2, "a"));
    assert!(!set.contains(2, "b"));
    assert_eq!((set.id_at(1), set.name_at(1).as_str()), (2, "a"));
}
