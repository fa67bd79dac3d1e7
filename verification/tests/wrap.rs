use selection_list::wrap::wrap_index;

#[test]
fn wrap_identity_in_range() {
    for id in 0..=5u8 {
        assert_eq!(wrap_index(id as i32, 5), id);
    }
}

#[test]
fn wrap_nonnegative_values() {
    assert_eq!(wrap_index(6, 5), 0);
    assert_eq!(wrap_index(7, 5), 1);
    assert_eq!(wrap_index(12, 5), 0);
    assert_eq!(wrap_index(17, 5), 5);
}

#[test]
fn wrap_negative_values() {
    assert_eq!(wrap_index(-1, 5), 5);
    assert_eq!(wrap_index(-2, 5), 4);
    assert_eq!(wrap_index(-6, 5), 0);
    assert_eq!(wrap_index(-7, 5), 5);
    assert_eq!(wrap_index(-12, 5), 0);
}

#[test]
fn wrap_count_zero() {
    for raw in [-3i32, -1, 0, 1, 2, 100] {
        assert_eq!(wrap_index(raw, 0), 0);
    }
}

#[test]
fn wrap_count_max() {
    assert_eq!(wrap_index(0, 255), 0);
    assert_eq!(wrap_index(255, 255), 255);
    assert_eq!(wrap_index(256, 255), 0);
    assert_eq!(wrap_index(511, 255), 255);
    assert_eq!(wrap_index(-1, 255), 255);
    assert_eq!(wrap_index(-256, 255), 0);
}

#[test]
fn wrap_extreme_raw() {
    assert_eq!(wrap_index(i32::MAX, 5), 1);
    assert_eq!(wrap_index(i32::MIN, 5), 4);
    assert_eq!(wrap_index(i32::MIN, 0), 0);
    assert_eq!(wrap_index(i32::MAX, 255), 255);
    assert_eq!(wrap_index(i32::MIN, 255), 0);
}

#[test]
fn wrap_always_in_range() {
    for count in [0u8, 1, 2, 5, 254, 255] {
        for raw in -600..600i32 {
            assert!(wrap_index(raw, count) <= count);
        }
    }
}
