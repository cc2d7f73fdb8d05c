use record_store::{compare_and_display, process_numbers};

#[test]
fn process_numbers_doubles_positives_only() {
    assert_eq!(process_numbers(&[1, -2, 3, 0, 4]), 16);
}

#[test]
fn process_numbers_empty_is_zero() {
    assert_eq!(process_numbers(&[]), 0);
    assert_eq!(process_numbers(&[-5, -1]), 0);
}

#[test]
fn compare_and_display_less() {
    assert_eq!(compare_and_display(-3, 5), "-3 < 5");
}

#[test]
fn compare_and_display_not_less() {
    assert_eq!(compare_and_display(7, 7), "7 >= 7");
    assert_eq!(compare_and_display(i64::MIN, i64::MAX), "-9223372036854775808 < 9223372036854775807");
}
