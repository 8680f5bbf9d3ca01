use engine_string::{checked_length, saturating_length, MAX_ENGINE_LENGTH};

#[test]
fn checked_length_keeps_what_fits() {
    assert_eq!(checked_length(0), Some(0));
    assert_eq!(checked_length(1), Some(1));
    assert_eq!(checked_length(6), Some(6));
    assert_eq!(checked_length(2147483646), Some(2147483646));
    assert_eq!(checked_length(2147483647), Some(i32::MAX));
}

#[test]
fn checked_length_refuses_what_does_not_fit() {
    assert_eq!(checked_length(2147483648), None);
    assert_eq!(checked_length(4294967295), None);
    assert_eq!(checked_length(usize::MAX), None);
}

#[test]
fn saturating_length_clamps() {
    assert_eq!(saturating_length(0), 0);
    assert_eq!(saturating_length(17), 17);
    assert_eq!(saturating_length(2147483647), i32::MAX);
    assert_eq!(saturating_length(2147483648), i32::MAX);
    assert_eq!(saturating_length(usize::MAX), i32::MAX);
}

#[test]
fn the_largest_engine_length_is_the_largest_i32() {
    assert_eq!(MAX_ENGINE_LENGTH, i32::MAX);
}

#[test]
fn the_two_guards_agree_below_the_limit_and_part_above() {
    for len in [0usize, 1, 255, 65536, 2147483647] {
        assert_eq!(checked_length(len), Some(saturating_length(len)));
    }
    for len in [2147483648usize, usize::MAX] {
        assert_eq!(checked_length(len), None);
        assert_eq!(saturating_length(len), i32::MAX);
    }
}
