use ray_tracer::checker::checker_is_even;

#[test]
fn checker_origin_cell_is_even() {
    assert!(checker_is_even(0, 0, 0));
}

#[test]
fn checker_alternates_along_each_axis() {
    for axis in 0..3 {
        for step in -4i32..4 {
            let (x, y, z) = match axis {
                0 => (step, 0, 0),
                1 => (0, step, 0),
                _ => (0, 0, step),
            };
            let even = step % 2 == 0;
            assert_eq!(checker_is_even(x, y, z), even);
            assert_ne!(checker_is_even(x, y, z), checker_is_even(x + 1, y, z));
        }
    }
}

#[test]
fn checker_negative_cells() {
    assert!(!checker_is_even(-1, 0, 0));
    assert!(checker_is_even(-1, -1, 0));
    assert!(checker_is_even(2, 3, -5));
    assert!(!checker_is_even(-3, -3, -3));
}

#[test]
fn checker_extreme_coordinates_do_not_overflow() {
    assert!(!checker_is_even(i32::MAX, i32::MAX, i32::MAX));
    assert!(checker_is_even(i32::MIN, i32::MIN, 0));
}
