use image_filters::border::border;

#[test]
fn in_range_indices_are_kept() {
    for p in 0..5usize {
        assert_eq!(border(p as i128, 5), p);
    }
}

#[test]
fn one_step_left_of_the_image_maps_to_index_one() {
    assert_eq!(border(-1, 5), 1);
    assert_eq!(border(-1, 3), 1);
    assert_eq!(border(-1, 2), 1);
}

#[test]
fn one_step_right_of_the_image_maps_to_second_to_last() {
    assert_eq!(border(5, 5), 3);
    assert_eq!(border(3, 3), 1);
    assert_eq!(border(2, 2), 0);
}

#[test]
fn edge_sample_is_not_repeated() {
    // ... 2 1 | 0 1 2 3 4 | 3 2 ...
    assert_eq!(border(-2, 5), 2);
    assert_eq!(border(-1, 5), 1);
    assert_eq!(border(0, 5), 0);
    assert_eq!(border(4, 5), 4);
    assert_eq!(border(5, 5), 3);
    assert_eq!(border(6, 5), 2);
}

#[test]
fn reflection_continues_with_period_twice_len_minus_two() {
    let expected: Vec<usize> = vec![
        4, 3, 2, 1, 0, 1, 2, 3, 4, 3, 2, 1, 0, 1, 2, 3, 4, 3, 2, 1, 0, 1, 2, 3, 4,
    ];
    let mut got: Vec<usize> = Vec::new();
    for p in -12..13i128 {
        got.push(border(p, 5));
    }
    assert_eq!(got, expected);
}

#[test]
fn axis_of_two_samples_alternates() {
    let expected: Vec<usize> = vec![1, 0, 1, 0, 1, 0, 1, 0, 1, 0, 1];
    let mut got: Vec<usize> = Vec::new();
    for p in -5..6i128 {
        got.push(border(p, 2));
    }
    assert_eq!(got, expected);
}

#[test]
fn axis_of_one_sample_always_resolves_to_it() {
    for p in -3..4i128 {
        assert_eq!(border(p, 1), 0);
    }
    assert_eq!(border(i128::MIN, 1), 0);
    assert_eq!(border(i128::MAX, 1), 0);
}

#[test]
fn extreme_indices_stay_in_range() {
    assert!(border(i128::MIN, 7) < 7);
    assert!(border(i128::MAX, 7) < 7);
    // i128::MAX = 2^127 - 1 is 7 modulo 12
    assert_eq!(border(i128::MAX, 7), 5);
    // i128::MIN = -2^127 is 4 modulo 12
    assert_eq!(border(i128::MIN, 7), 4);
}

#[test]
fn reflection_is_symmetric_about_the_first_sample() {
    for p in 0..40i128 {
        assert_eq!(border(-p, 6), border(p, 6));
    }
}

#[test]
fn axis_without_samples_resolves_to_zero() {
    assert_eq!(border(0, 0), 0);
    assert_eq!(border(-4, 0), 0);
    assert_eq!(border(9, 0), 0);
}
