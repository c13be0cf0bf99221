use radiacode::delta::{delta_counts, interval_row_counts};

#[test]
fn delta_subtracts_previous() {
    assert_eq!(delta_counts(&[10, 20], &[15, 18]), vec![5, 0]);
}

#[test]
fn delta_never_increases_on_drop() {
    assert_eq!(delta_counts(&[100, 200], &[90, 210]), vec![0, 10]);
}

#[test]
fn interval_uses_delta_when_cumulative() {
    assert_eq!(interval_row_counts(&[10, 20], &[15, 25]), vec![5, 5]);
}

#[test]
fn interval_uses_current_when_device_resets() {
    assert_eq!(interval_row_counts(&[1000, 2000], &[5, 8]), vec![5, 8]);
}

#[test]
fn delta_is_as_long_as_the_shorter_spectrum() {
    assert_eq!(delta_counts(&[1, 2, 3], &[4, 5]), vec![3, 3]);
    assert_eq!(delta_counts(&[], &[4, 5]), Vec::<u32>::new());
}

#[test]
fn delta_from_zero_is_current() {
    assert_eq!(delta_counts(&[0, 0, 0], &[7, 0, 9]), vec![7, 0, 9]);
}

#[test]
fn delta_plus_previous_restores_current() {
    let previous = [3u32, 40, 7];
    let current = [5u32, 40, 100];
    let delta = delta_counts(&previous, &current);
    for i in 0..3 {
        assert_eq!(previous[i] + delta[i], current[i]);
    }
}

#[test]
fn interval_with_equal_totals_uses_delta() {
    assert_eq!(interval_row_counts(&[10, 20], &[20, 10]), vec![10, 0]);
}
