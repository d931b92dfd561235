use fastmatmul::bench::build_variable_inputs;
use fastmatmul::flat::{multiply_flat, multiply_flat_transposed};
use fastmatmul::nested::multiply_borrowed;

#[test]
fn scale_uniform_flat() {
    let n = 1024;
    let (a, b) = build_variable_inputs(n, 2, 3);
    let mut out: Vec<i64> = vec![0; n * n];
    assert!(multiply_flat(&a, &b, &mut out, n).is_ok());
    assert!(out.iter().all(|&x| x == 6144));
}

#[test]
fn scale_uniform_transposed() {
    let n = 1024;
    let (a, b) = build_variable_inputs(n, 2, 3);
    let mut out: Vec<i64> = vec![0; n * n];
    assert!(multiply_flat_transposed(&a, &b, &mut out, n).is_ok());
    assert!(out.iter().all(|&x| x == 6144));
}

#[test]
fn uniform_agreement_across_variants() {
    // the same uniform fill at a size where every variant can run quickly
    let n = 64;
    let (a, b) = build_variable_inputs(n, 2, 3);
    let mut out_plain: Vec<i64> = vec![0; n * n];
    let mut out_trans: Vec<i64> = vec![0; n * n];
    assert!(multiply_flat(&a, &b, &mut out_plain, n).is_ok());
    assert!(multiply_flat_transposed(&a, &b, &mut out_trans, n).is_ok());
    let an: Vec<Vec<i64>> = (0..n).map(|_| vec![2i64; n]).collect();
    let bn: Vec<Vec<i64>> = (0..n).map(|_| vec![3i64; n]).collect();
    let cn = multiply_borrowed(&an, &bn);
    let expected = 2 * 3 * (n as i64);
    for i in 0..n {
        for j in 0..n {
            assert_eq!(out_plain[i * n + j], expected);
            assert_eq!(out_trans[i * n + j], expected);
            assert_eq!(cn[i][j], expected);
        }
    }
}
