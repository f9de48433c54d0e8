use ray_tracer::rng::random_int;

#[test]
fn random_int_stays_in_range() {
    for _ in 0..1000 {
        let r = random_int(-3, 4);
        assert!((-3..=4).contains(&r));
    }
}

#[test]
fn random_int_single_value() {
    assert_eq!(random_int(7, 7), 7);
    assert_eq!(random_int(i32::MAX, i32::MAX), i32::MAX);
}

#[test]
fn random_int_reaches_both_ends() {
    let mut lo = false;
    let mut hi = false;
    for _ in 0..2000 {
        match random_int(0, 3) {
            0 => lo = true,
            3 => hi = true,
            _ => {}
        }
    }
    assert!(lo && hi);
}
