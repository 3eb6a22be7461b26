use engine::field_map::{precedes, FieldMap};

fn names<V>(map: &FieldMap<V>) -> Vec<String> {
    (0..map.len()).map(|i| map.name(i).clone()).collect()
}

#[test]
fn new_map_is_empty() {
    let map: FieldMap<u32> = FieldMap::new();
    assert_eq!(map.len(), 0);
    assert_eq!(map.get(&"a".to_string()), None);
    assert!(!map.contains_key(&"a".to_string()));
}

#[test]
fn insert_then_get() {
    let mut map: FieldMap<u32> = FieldMap::new();
    map.insert("a".to_string(), 1);
    map.insert("b".to_string(), 2);
    assert_eq!(map.len(), 2);
    assert_eq!(map.get(&"a".to_string()), Some(&1));
    assert_eq!(map.get(&"b".to_string()), Some(&2));
    assert_eq!(map.get(&"c".to_string()), None);
    assert!(map.contains_key(&"b".to_string()));
}

#[test]
fn insert_replaces_the_value() {
    let mut map: FieldMap<u32> = FieldMap::new();
    map.insert("a".to_string(), 1);
    map.insert("b".to_string(), 2);
    map.insert("a".to_string(), 3);
    assert_eq!(map.len(), 2);
    assert_eq!(map.name(0), "a");
    assert_eq!(*map.value(0), 3);
    assert_eq!(map.name(1), "b");
    assert_eq!(*map.value(1), 2);
}

#[test]
fn entries_stand_in_the_order_of_their_names() {
    let mut map: FieldMap<u32> = FieldMap::new();
    for (i, name) in ["title", "_id", "body", "Title", "", "títle", "tit", "zz", "_42"]
        .iter()
        .enumerate()
    {
        map.insert(name.to_string(), i as u32);
    }
    let mut expected: Vec<String> =
        ["title", "_id", "body", "Title", "", "títle", "tit", "zz", "_42"]
            .iter()
            .map(|n| n.to_string())
            .collect();
    expected.sort();
    assert_eq!(names(&map), expected);
    assert_eq!(map.get(&"body".to_string()), Some(&2));
    assert_eq!(map.get(&"".to_string()), Some(&4));
}

#[test]
fn maps_with_the_same_entries_are_equal() {
    let mut one: FieldMap<u32> = FieldMap::new();
    one.insert("a".to_string(), 1);
    one.insert("b".to_string(), 2);
    let mut other: FieldMap<u32> = FieldMap::new();
    other.insert("b".to_string(), 2);
    other.insert("a".to_string(), 0);
    other.insert("a".to_string(), 1);
    assert_eq!(one, other);
}

#[test]
fn remove_takes_the_entry_out() {
    let mut map: FieldMap<u32> = FieldMap::new();
    map.insert("c".to_string(), 3);
    map.insert("a".to_string(), 1);
    map.insert("b".to_string(), 2);
    assert_eq!(map.remove(&"b".to_string()), Some(2));
    assert_eq!(map.remove(&"b".to_string()), None);
    assert_eq!(map.len(), 2);
    assert_eq!(names(&map), vec!["a".to_string(), "c".to_string()]);
    assert_eq!(map.get(&"c".to_string()), Some(&3));
}

#[test]
fn names_are_ordered_as_strings_are() {
    let samples = ["", "a", "ab", "b", "B", "_", "_1", "title", "títle", "日本", "z", "ab\u{0}"];
    for a in samples {
        for b in samples {
            assert_eq!(precedes(&a.to_string(), &b.to_string()), a < b);
        }
    }
}
