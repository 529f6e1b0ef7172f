use property_preview::differ::{apply_edits, diff_properties, update_grouped_properties, Op};
use property_preview::model::{is_equal_property, is_equal_value, PropertyInformation};
use property_preview::value::{PropertyValue, PropertyValueKind};

fn create_test_property(name: &str, value: &str) -> PropertyInformation {
    PropertyInformation {
        name: name.into(),
        display_priority: 1000,
        ty_name: "Sometype".into(),
        value: PropertyValue {
            kind: PropertyValueKind::String,
            value_string: value.into(),
            code: value.into(),
            ..Default::default()
        },
    }
}

fn older() -> Vec<PropertyInformation> {
    vec![
        create_test_property("aaa", "AAA"),
        create_test_property("bbb", "BBB"),
        create_test_property("ccc", "CCC"),
        create_test_property("ddd", "DDD"),
        create_test_property("eee", "EEE"),
    ]
}

fn newer() -> Vec<PropertyInformation> {
    vec![
        create_test_property("aaa", "AAA"),
        create_test_property("aab", "AAB"),
        create_test_property("abb", "ABB"),
        create_test_property("bbb", "BBBX"),
        create_test_property("ddd", "DDD"),
    ]
}

#[test]
fn test_property_date_update() {
    let mut current = older();
    let next = newer();

    update_grouped_properties(&mut current, &next);

    let mut it = current.iter();

    let t = it.next().unwrap();
    assert_eq!(t.name.as_str(), "aaa");
    assert_eq!(t.value.code.as_str(), "AAA");

    let t = it.next().unwrap();
    assert_eq!(t.name.as_str(), "aab");
    assert_eq!(t.value.code.as_str(), "AAB");

    let t = it.next().unwrap();
    assert_eq!(t.name.as_str(), "abb");
    assert_eq!(t.value.code.as_str(), "ABB");

    let t = it.next().unwrap();
    assert_eq!(t.name.as_str(), "bbb");
    assert_eq!(t.value.code.as_str(), "BBBX");

    let t = it.next().unwrap();
    assert_eq!(t.name.as_str(), "ddd");
    assert_eq!(t.value.code.as_str(), "DDD");

    assert!(it.next().is_none());
}

#[test]
fn the_edits_come_in_the_order_of_the_walk() {
    let to_do = diff_properties(&older(), &newer());
    assert_eq!(
        to_do,
        vec![
            Op::Insert((1, 1)),
            Op::Insert((2, 2)),
            Op::Copy((3, 3)),
            Op::Remove(4),
            Op::Remove(5),
        ]
    );
    let mut current = older();
    apply_edits(&mut current, &newer(), &to_do);
    assert_eq!(current, newer());
}

#[test]
fn a_table_compared_with_itself_needs_no_edit() {
    assert_eq!(diff_properties(&older(), &older()), vec![]);
    assert_eq!(diff_properties(&vec![], &vec![]), vec![]);
    let mut current = newer();
    update_grouped_properties(&mut current, &newer());
    assert_eq!(current, newer());
}

#[test]
fn rows_that_did_not_change_are_not_touched() {
    // The presentation of a row is no part of what tells it from another.
    let mut shown = create_test_property("aaa", "AAA");
    shown.value.value_string = "edited".into();
    shown.display_priority = 7;
    let mut current = vec![shown, create_test_property("zzz", "ZZZ")];
    let next = vec![create_test_property("aaa", "AAA"), create_test_property("mmm", "MMM")];
    assert_eq!(diff_properties(&current, &next), vec![Op::Insert((1, 1)), Op::Remove(2)]);
    update_grouped_properties(&mut current, &next);
    assert_eq!(current.len(), 2);
    assert_eq!(current[0].value.value_string, "edited");
    assert_eq!(current[0].display_priority, 7);
    assert_eq!(current[1], next[1]);
}

#[test]
fn an_empty_table_is_filled_and_a_full_one_is_emptied() {
    let mut current = vec![];
    assert_eq!(
        diff_properties(&current, &newer()),
        vec![Op::PushBack(0), Op::PushBack(1), Op::PushBack(2), Op::PushBack(3), Op::PushBack(4)]
    );
    update_grouped_properties(&mut current, &newer());
    assert_eq!(current, newer());

    assert_eq!(
        diff_properties(&current, &vec![]),
        vec![Op::Remove(0), Op::Remove(0), Op::Remove(0), Op::Remove(0), Op::Remove(0)]
    );
    update_grouped_properties(&mut current, &vec![]);
    assert!(current.is_empty());
}

#[test]
fn a_changed_type_name_replaces_the_row() {
    let mut changed = create_test_property("aaa", "AAA");
    changed.ty_name = "Othertype".into();
    assert!(!is_equal_property(&create_test_property("aaa", "AAA"), &changed));
    assert!(is_equal_value(&create_test_property("aaa", "AAA").value, &changed.value));
    let mut current = vec![create_test_property("aaa", "AAA")];
    let next = vec![changed];
    assert_eq!(diff_properties(&current, &next), vec![Op::Copy((0, 0))]);
    update_grouped_properties(&mut current, &next);
    assert_eq!(current, next);
}

#[test]
fn names_are_ordered_by_code_point() {
    // "Z" sorts before "a", and a prefix before what it starts.
    let mut current = vec![create_test_property("a", "1"), create_test_property("ab", "2")];
    let next = vec![create_test_property("Z", "0"), create_test_property("ab", "2")];
    assert_eq!(diff_properties(&current, &next), vec![Op::Insert((0, 0)), Op::Remove(1)]);
    update_grouped_properties(&mut current, &next);
    assert_eq!(current, next);
}

#[test]
fn tables_out_of_order_still_come_to_the_newer_one() {
    let mut current = vec![
        create_test_property("ccc", "C"),
        create_test_property("aaa", "A"),
        create_test_property("bbb", "B"),
    ];
    let next = vec![
        create_test_property("bbb", "B2"),
        create_test_property("ccc", "C"),
        create_test_property("aaa", "A2"),
    ];
    update_grouped_properties(&mut current, &next);
    assert_eq!(current, next);
}
