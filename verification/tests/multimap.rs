use hasheimer::oom::OneOrMany;
use hasheimer::Hasheimer;

fn values_of(group: &OneOrMany<i32>) -> Vec<i32> {
    match group {
        OneOrMany::Single(v) => vec![*v],
        OneOrMany::Many(values) => values.clone(),
    }
}

fn is_single(group: &OneOrMany<i32>) -> bool {
    matches!(group, OneOrMany::Single(_))
}

#[test]
fn new_map_holds_nothing() {
    let map: Hasheimer<String, i32> = Hasheimer::new();
    assert!(map.get("a").is_none());
    assert!(map.get_if_single("a").is_none());
    assert!(map.get_if_multiple("a").is_none());
    assert_eq!(map.iter().count(), 0);
    assert_eq!(map.0.len(), 0);
}

#[test]
fn default_map_holds_nothing() {
    let map: Hasheimer<u64, i32> = Hasheimer::default();
    assert!(map.get(&1).is_none());
    assert_eq!(map.iter().count(), 0);
}

#[test]
fn single_insert_is_found_as_single() {
    let mut map: Hasheimer<u64, i32> = Hasheimer::new();
    map.insert(7, 42);
    assert_eq!(map.get_if_single(&7), Some(&42));
    assert_eq!(map.get_if_multiple(&7), None);
    assert!(matches!(map.get(&7), Some(OneOrMany::Single(42))));
}

#[test]
fn second_insert_promotes_to_many() {
    let mut map: Hasheimer<u64, i32> = Hasheimer::new();
    map.insert(7, 1);
    map.insert(7, 2);
    assert_eq!(map.get_if_multiple(&7), Some(&vec![1, 2]));
    assert_eq!(map.get_if_single(&7), None);
}

#[test]
fn values_accumulate_in_insertion_order() {
    let mut map: Hasheimer<u64, i32> = Hasheimer::new();
    map.insert(7, 30);
    map.insert(7, 10);
    map.insert(7, 20);
    assert_eq!(map.get_if_multiple(&7), Some(&vec![30, 10, 20]));
    map.insert(7, 5);
    assert_eq!(map.get_if_multiple(&7), Some(&vec![30, 10, 20, 5]));
}

#[test]
fn equal_values_are_all_kept() {
    let mut map: Hasheimer<u64, i32> = Hasheimer::new();
    map.insert(7, 4);
    map.insert(7, 4);
    map.insert(7, 4);
    assert_eq!(map.get_if_multiple(&7), Some(&vec![4, 4, 4]));
}

#[test]
fn insert_returns_the_previous_group() {
    let mut map: Hasheimer<u64, i32> = Hasheimer::new();
    let first = map.insert(7, 1);
    assert!(first.is_none());
    let second = map.insert(7, 2);
    assert!(matches!(second, Some(OneOrMany::Single(1))));
    let third = map.insert(7, 3);
    match third {
        Some(OneOrMany::Many(values)) => assert_eq!(values, vec![1, 2]),
        _ => panic!("the third insert returns the group of the first two values"),
    }
    let fourth = map.insert(7, 4);
    match fourth {
        Some(OneOrMany::Many(values)) => assert_eq!(values, vec![1, 2, 3]),
        _ => panic!("the fourth insert returns the group of the first three values"),
    }
    assert_eq!(map.get_if_multiple(&7), Some(&vec![1, 2, 3, 4]));
}

#[test]
fn keys_do_not_share_groups() {
    let mut map: Hasheimer<u64, i32> = Hasheimer::new();
    map.insert(1, 10);
    map.insert(2, 20);
    map.insert(1, 11);
    assert_eq!(map.get_if_multiple(&1), Some(&vec![10, 11]));
    assert_eq!(map.get_if_single(&2), Some(&20));
    assert!(map.get(&3).is_none());
}

#[test]
fn remove_returns_the_group_and_clears_the_key() {
    let mut map: Hasheimer<u64, i32> = Hasheimer::new();
    map.insert(7, 1);
    map.insert(7, 2);
    let removed = map.remove(&7);
    match removed {
        Some(OneOrMany::Many(values)) => assert_eq!(values, vec![1, 2]),
        _ => panic!("remove returns the group of the key"),
    }
    assert!(map.get(&7).is_none());
    assert!(map.get_if_single(&7).is_none());
    assert!(map.get_if_multiple(&7).is_none());
}

#[test]
fn insert_after_remove_is_a_first_insert() {
    let mut map: Hasheimer<u64, i32> = Hasheimer::new();
    map.insert(7, 1);
    map.insert(7, 2);
    map.remove(&7);
    let previous = map.insert(7, 3);
    assert!(previous.is_none());
    assert_eq!(map.get_if_single(&7), Some(&3));
    assert_eq!(map.get_if_multiple(&7), None);
}

#[test]
fn remove_of_an_absent_key_returns_nothing() {
    let mut map: Hasheimer<u64, i32> = Hasheimer::new();
    map.insert(1, 10);
    assert!(map.remove(&2).is_none());
    assert_eq!(map.get_if_single(&1), Some(&10));
}

#[test]
fn raw_insert_overwrites_and_returns_the_previous_group() {
    let mut map: Hasheimer<u64, i32> = Hasheimer::new();
    assert!(map.raw_insert(7, OneOrMany::Single(1)).is_none());
    let previous = map.raw_insert(7, OneOrMany::Many(vec![8, 9]));
    assert!(matches!(previous, Some(OneOrMany::Single(1))));
    assert_eq!(map.get_if_multiple(&7), Some(&vec![8, 9]));
    let previous = map.raw_insert(7, OneOrMany::Single(5));
    match previous {
        Some(OneOrMany::Many(values)) => assert_eq!(values, vec![8, 9]),
        _ => panic!("raw_insert returns the group that it replaced"),
    }
    assert_eq!(map.get_if_single(&7), Some(&5));
}

#[test]
fn insert_appends_to_a_raw_group_of_any_length() {
    let mut map: Hasheimer<u64, i32> = Hasheimer::new();
    map.raw_insert(1, OneOrMany::Many(vec![]));
    map.raw_insert(2, OneOrMany::Many(vec![6]));
    let previous = map.insert(1, 5);
    match previous {
        Some(OneOrMany::Many(values)) => assert!(values.is_empty()),
        _ => panic!("insert returns the empty group that the key had"),
    }
    map.insert(2, 7);
    assert_eq!(map.get_if_multiple(&1), Some(&vec![5]));
    assert_eq!(map.get_if_multiple(&2), Some(&vec![6, 7]));
}

#[test]
fn get_mut_changes_the_group_in_place() {
    let mut map: Hasheimer<u64, i32> = Hasheimer::new();
    map.insert(1, 10);
    map.insert(2, 20);
    match map.get_mut(&1) {
        Some(group) => *group = OneOrMany::Many(vec![1, 2, 3]),
        None => panic!("the key is in the map"),
    }
    assert_eq!(map.get_if_multiple(&1), Some(&vec![1, 2, 3]));
    assert_eq!(map.get_if_single(&2), Some(&20));
    assert!(map.get_mut(&3).is_none());
    assert_eq!(map.iter().count(), 2);
}

#[test]
fn a_group_of_many_cut_to_one_value_stays_a_group_of_many() {
    let mut map: Hasheimer<u64, i32> = Hasheimer::new();
    map.insert(1, 10);
    map.insert(1, 11);
    if let Some(OneOrMany::Many(values)) = map.get_mut(&1) {
        values.pop();
    }
    assert_eq!(map.get_if_single(&1), None);
    assert_eq!(map.get_if_multiple(&1), Some(&vec![10]));
    map.insert(1, 12);
    assert_eq!(map.get_if_multiple(&1), Some(&vec![10, 12]));
}

#[test]
fn lookup_by_a_borrowed_form_of_the_key() {
    let mut map: Hasheimer<String, i32> = Hasheimer::new();
    map.insert(String::from("one"), 1);
    map.insert(String::from("two"), 2);
    map.insert(String::from("two"), 22);
    assert_eq!(map.get_if_single("one"), Some(&1));
    assert_eq!(map.get_if_multiple("two"), Some(&vec![2, 22]));
    assert!(map.get("three").is_none());
    if let Some(group) = map.get_mut("one") {
        group[0] = 100;
    }
    assert_eq!(map.get_if_single("one"), Some(&100));
    assert_eq!(map.get_if_single(&String::from("one")), Some(&100));
}

#[test]
fn iter_yields_each_key_with_its_group_once() {
    let mut map: Hasheimer<u64, i32> = Hasheimer::new();
    map.insert(1, 10);
    map.insert(2, 20);
    map.insert(2, 21);
    map.insert(3, 30);
    map.remove(&3);
    let mut seen: Vec<(u64, bool, Vec<i32>)> =
        map.iter().map(|(k, g)| (*k, is_single(g), values_of(g))).collect();
    seen.sort();
    assert_eq!(seen, vec![(1, true, vec![10]), (2, false, vec![20, 21])]);
    let again = map.iter().count();
    assert_eq!(again, 2);
}

#[test]
fn into_iter_yields_each_key_with_its_group_once() {
    let mut map: Hasheimer<u64, i32> = Hasheimer::new();
    map.insert(1, 10);
    map.insert(2, 20);
    map.insert(2, 21);
    let mut seen: Vec<(u64, bool, Vec<i32>)> =
        map.into_iter().map(|(k, g)| (k, is_single(&g), values_of(&g))).collect();
    seen.sort();
    assert_eq!(seen, vec![(1, true, vec![10]), (2, false, vec![20, 21])]);
}

#[test]
fn a_for_loop_uses_the_map_up() {
    let mut map: Hasheimer<String, i32> = Hasheimer::new();
    map.insert(String::from("a"), 1);
    map.insert(String::from("b"), 2);
    map.insert(String::from("b"), 3);
    let mut keys: Vec<String> = Vec::new();
    let mut total = 0;
    for (key, group) in map {
        keys.push(key);
        total += values_of(&group).iter().sum::<i32>();
    }
    keys.sort();
    assert_eq!(keys, vec!["a", "b"]);
    assert_eq!(total, 6);
}

#[test]
fn extend_replaces_the_group_of_a_present_key() {
    let mut map: Hasheimer<u64, i32> = Hasheimer::new();
    map.insert(1, 10);
    map.insert(1, 11);
    map.insert(2, 20);
    map.extend(vec![(1, OneOrMany::Single(99))]);
    assert_eq!(map.get_if_single(&1), Some(&99));
    assert_eq!(map.get_if_multiple(&1), None);
    assert_eq!(map.get_if_single(&2), Some(&20));
}

#[test]
fn extend_keeps_the_last_pair_of_a_key() {
    let mut map: Hasheimer<u64, i32> = Hasheimer::new();
    map.insert(3, 30);
    map.extend(vec![
        (1, OneOrMany::Single(1)),
        (2, OneOrMany::Many(vec![2, 2])),
        (1, OneOrMany::Many(vec![7, 8, 9])),
    ]);
    assert_eq!(map.get_if_multiple(&1), Some(&vec![7, 8, 9]));
    assert_eq!(map.get_if_multiple(&2), Some(&vec![2, 2]));
    assert_eq!(map.get_if_single(&3), Some(&30));
    assert_eq!(map.iter().count(), 3);
    map.extend(Vec::new());
    assert_eq!(map.iter().count(), 3);
}

#[test]
fn extend_with_the_pairs_of_another_map() {
    let mut left: Hasheimer<u64, i32> = Hasheimer::new();
    left.insert(1, 10);
    left.insert(2, 20);
    let mut right: Hasheimer<u64, i32> = Hasheimer::new();
    right.insert(2, 21);
    right.insert(2, 22);
    right.insert(3, 30);
    left.extend(right.into_iter().collect());
    assert_eq!(left.get_if_single(&1), Some(&10));
    assert_eq!(left.get_if_multiple(&2), Some(&vec![21, 22]));
    assert_eq!(left.get_if_single(&3), Some(&30));
}
