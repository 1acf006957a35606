use hasheimer::oom::OneOrMany;

#[test]
fn index_zero_of_a_single_group_is_its_value() {
    let group = OneOrMany::Single(5);
    assert_eq!(group[0], 5);
}

#[test]
fn index_of_a_group_of_many_is_by_position() {
    let group = OneOrMany::Many(vec![4, 6]);
    assert_eq!(group[0], 4);
    assert_eq!(group[1], 6);
}

#[test]
fn index_mut_of_a_single_group_changes_its_value() {
    let mut group = OneOrMany::Single(5);
    group[0] = 9;
    assert!(matches!(group, OneOrMany::Single(9)));
}

#[test]
fn index_mut_of_a_group_of_many_changes_one_position() {
    let mut group = OneOrMany::Many(vec![4, 6, 8]);
    group[1] = 7;
    group[2] += 1;
    match group {
        OneOrMany::Many(values) => assert_eq!(values, vec![4, 7, 9]),
        OneOrMany::Single(_) => panic!("the group stays a group of many"),
    }
}

#[test]
fn clone_copies_kind_and_values() {
    let single = OneOrMany::Single(String::from("a"));
    assert!(matches!(single.clone(), OneOrMany::Single(s) if s == "a"));
    let many = OneOrMany::Many(vec![String::from("a"), String::from("b")]);
    match many.clone() {
        OneOrMany::Many(values) => assert_eq!(values, vec!["a", "b"]),
        OneOrMany::Single(_) => panic!("the copy of a group of many is a group of many"),
    }
}
