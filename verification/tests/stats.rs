use dns_speed::stats::mean;

const MS: u64 = 1_000_000;

#[test]
fn mean_of_nothing_is_none() {
    assert_eq!(mean(&vec![]), None);
}

#[test]
fn mean_of_one_is_itself() {
    assert_eq!(mean(&vec![42]), Some(42));
}

#[test]
fn mean_of_ten_twelve_eleven_is_eleven() {
    assert_eq!(mean(&vec![10 * MS, 12 * MS, 11 * MS]), Some(11 * MS));
}

#[test]
fn mean_of_five_six_seven_is_six() {
    assert_eq!(mean(&vec![5 * MS, 6 * MS, 7 * MS]), Some(6 * MS));
}

#[test]
fn mean_rounds_down() {
    assert_eq!(mean(&vec![1, 2]), Some(1));
    assert_eq!(mean(&vec![1, 1, 2]), Some(1));
    assert_eq!(mean(&vec![0, 0, 5]), Some(1));
    assert_eq!(mean(&vec![7, 8]), Some(7));
}

#[test]
fn mean_of_zeros_is_zero() {
    assert_eq!(mean(&vec![0, 0, 0, 0, 0]), Some(0));
}

#[test]
fn mean_of_largest_values_does_not_overflow() {
    assert_eq!(mean(&vec![u64::MAX, u64::MAX, u64::MAX]), Some(u64::MAX));
    assert_eq!(mean(&vec![u64::MAX, 0]), Some(u64::MAX / 2));
    assert_eq!(mean(&vec![u64::MAX, u64::MAX - 1]), Some(u64::MAX - 1));
}

#[test]
fn mean_agrees_with_division_of_durations() {
    let samples = vec![1_234_567u64, 7_654_321, 999, 3_000_000_001, 12];
    let total: std::time::Duration =
        samples.iter().map(|nanos| std::time::Duration::from_nanos(*nanos)).sum();
    let expected = (total / samples.len() as u32).as_nanos() as u64;
    assert_eq!(mean(&samples), Some(expected));
    assert_eq!(mean(&samples), Some(601_777_980));
}
