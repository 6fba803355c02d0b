use name_filter::prepare_test_data;

#[test]
fn seed_names_count_from_one() {
    let names = prepare_test_data(3);
    assert_eq!(names, vec!["test1".to_owned(), "test2".to_owned(), "test3".to_owned()]);
}

#[test]
fn seed_names_empty_for_zero() {
    assert!(prepare_test_data(0).is_empty());
}

#[test]
fn seed_names_carry_multi_digit_numbers() {
    let names = prepare_test_data(12);
    assert_eq!(names.len(), 12);
    assert_eq!(names[9], "test10");
    assert_eq!(names[11], "test12");
}
