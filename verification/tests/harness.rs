use fastmatmul::bench::{build_variable_inputs, series_min, series_total};
use fastmatmul::element_add;
use fastmatmul::nested::{chain3, multiply_borrowed};

fn nested(rows: &[&[i64]]) -> Vec<Vec<i64>> {
    rows.iter().map(|r| r.to_vec()).collect()
}

#[test]
fn chain3_with_identity_matches_single_multiply() {
    let a = nested(&[&[1, 2, 3], &[4, 5, 6], &[7, 8, 9]]);
    let b = nested(&[&[9, 8, 7], &[6, 5, 4], &[3, 2, 1]]);
    let c = nested(&[&[1, 0, 0], &[0, 1, 0], &[0, 0, 1]]);
    let chained = chain3(&a, &b, &c);
    let single = multiply_borrowed(&a, &b);
    assert_eq!(chained, single);
    assert_eq!(chained, nested(&[&[30, 24, 18], &[84, 69, 54], &[138, 114, 90]]));
}

#[test]
fn variable_inputs_are_uniformly_filled() {
    let (a, b) = build_variable_inputs(5, 2, 3);
    assert_eq!(a.len(), 25);
    assert_eq!(b.len(), 25);
    assert!(a.iter().all(|&x| x == 2));
    assert!(b.iter().all(|&x| x == 3));
}

#[test]
fn series_min_picks_smallest_sample() {
    let samples: Vec<u64> = vec![42, 17, 99, 17, 58];
    assert_eq!(series_min(&samples), Some(17));
    let empty: Vec<u64> = Vec::new();
    assert_eq!(series_min(&empty), None);
}

#[test]
fn series_total_sums_all_samples() {
    let samples: Vec<u64> = vec![1, 2, 3, 4];
    assert_eq!(series_total(&samples), 10);
    let big: Vec<u64> = vec![u64::MAX, u64::MAX];
    assert_eq!(series_total(&big), 2 * (u64::MAX as u128));
    let empty: Vec<u64> = Vec::new();
    assert_eq!(series_total(&empty), 0);
}

#[test]
fn element_add_is_plain_addition() {
    assert_eq!(element_add(2, 3), 5);
    assert_eq!(element_add(-7, 7), 0);
}
