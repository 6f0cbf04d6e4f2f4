use composite_cone::indexing::to_zero_based;

#[test]
fn one_based_indices_are_shifted_down() {
    assert_eq!(to_zero_based(&[1, 3, 5]), Some(vec![0, 2, 4]));
}

#[test]
fn column_pointers_of_a_two_by_two_identity() {
    // host side: colptr = [1, 2, 3], rowval = [1, 2]
    assert_eq!(to_zero_based(&[1, 2, 3]), Some(vec![0, 1, 2]));
    assert_eq!(to_zero_based(&[1, 2]), Some(vec![0, 1]));
}

#[test]
fn no_indices() {
    assert_eq!(to_zero_based(&[]), Some(vec![]));
}

#[test]
fn zero_is_not_one_based() {
    assert_eq!(to_zero_based(&[1, 0, 2]), None);
}

#[test]
fn negative_is_not_one_based() {
    assert_eq!(to_zero_based(&[-1]), None);
    assert_eq!(to_zero_based(&[2, i64::MIN]), None);
}

#[test]
fn largest_index() {
    if usize::BITS == 64 {
        assert_eq!(to_zero_based(&[i64::MAX]), Some(vec![(i64::MAX - 1) as usize]));
    }
}
