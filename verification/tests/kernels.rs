use fastmatmul::fixed::{build_fixed_inputs, multiply_fixed3, Fixed3x3};
use fastmatmul::flat::{multiply_flat, multiply_flat_transposed};
use fastmatmul::nested::{multiply_borrowed, multiply_into, multiply_owned};
use fastmatmul::DimensionMismatch;

fn nested(rows: &[&[i64]]) -> Vec<Vec<i64>> {
    rows.iter().map(|r| r.to_vec()).collect()
}

#[test]
fn it_works() {
}

#[test]
fn borrowed_matches_expected_product() {
    let a = nested(&[&[1, 2, 3], &[4, 5, 6], &[7, 8, 9]]);
    let b = nested(&[&[9, 8, 7], &[6, 5, 4], &[3, 2, 1]]);
    let c = multiply_borrowed(&a, &b);
    let expected = nested(&[&[30, 24, 18], &[84, 69, 54], &[138, 114, 90]]);
    assert_eq!(c, expected);
}

#[test]
fn owned_matches_borrowed() {
    let a = nested(&[&[1, 2, 3], &[4, 5, 6], &[7, 8, 9]]);
    let b = nested(&[&[9, 8, 7], &[6, 5, 4], &[3, 2, 1]]);
    let via_borrow = multiply_borrowed(&a, &b);
    let via_own = multiply_owned(a, b);
    assert_eq!(via_own, via_borrow);
}

#[test]
fn into_accumulates_onto_buffer() {
    let a = nested(&[&[1, 2], &[3, 4]]);
    let b = nested(&[&[5, 6], &[7, 8]]);
    let mut out = nested(&[&[0, 0], &[0, 0]]);
    multiply_into(&a, &b, &mut out);
    assert_eq!(out, nested(&[&[19, 22], &[43, 50]]));
    // a second call onto the now non-zero buffer adds the product again
    multiply_into(&a, &b, &mut out);
    assert_eq!(out, nested(&[&[38, 44], &[86, 100]]));
}

#[test]
fn identity_multiplication_returns_operand() {
    let m = nested(&[&[1, 2, 3], &[4, 5, 6], &[7, 8, 9]]);
    let id = nested(&[&[1, 0, 0], &[0, 1, 0], &[0, 0, 1]]);
    assert_eq!(multiply_borrowed(&m, &id), m);
    assert_eq!(multiply_borrowed(&id, &m), m);
}

#[test]
fn flat_matches_expected_product() {
    let a: Vec<i64> = vec![1, 2, 3, 4, 5, 6, 7, 8, 9];
    let b: Vec<i64> = vec![9, 8, 7, 6, 5, 4, 3, 2, 1];
    let mut out: Vec<i64> = vec![0; 9];
    let r = multiply_flat(&a, &b, &mut out, 3);
    assert!(r.is_ok());
    assert_eq!(out, vec![30, 24, 18, 84, 69, 54, 138, 114, 90]);
}

#[test]
fn flat_accumulates_onto_nonzero_buffer() {
    let a: Vec<i64> = vec![2];
    let b: Vec<i64> = vec![3];
    let mut out: Vec<i64> = vec![5];
    let r = multiply_flat(&a, &b, &mut out, 1);
    assert!(r.is_ok());
    assert_eq!(out, vec![11]);
}

#[test]
fn transposed_matches_flat() {
    let a: Vec<i64> = vec![1, -2, 3, 4, 5, -6, 7, 8, 9, -1, 0, 2, 5, 5, 5, 5];
    let b: Vec<i64> = vec![2, 0, -1, 3, 1, 1, 4, -4, 0, 9, 2, 2, 7, 7, -7, 1];
    let mut out_plain: Vec<i64> = vec![0; 16];
    let mut out_trans: Vec<i64> = vec![0; 16];
    assert!(multiply_flat(&a, &b, &mut out_plain, 4).is_ok());
    assert!(multiply_flat_transposed(&a, &b, &mut out_trans, 4).is_ok());
    assert_eq!(out_trans, out_plain);
}

#[test]
fn dimension_mismatch_leaves_output_untouched() {
    let a: Vec<i64> = vec![0; 9];
    let b: Vec<i64> = vec![0; 9];
    let mut out: Vec<i64> = vec![7; 8];
    let r = multiply_flat(&a, &b, &mut out, 3);
    assert_eq!(r, Err(DimensionMismatch));
    assert_eq!(out, vec![7; 8]);
    let r2 = multiply_flat_transposed(&a, &b, &mut out, 3);
    assert_eq!(r2, Err(DimensionMismatch));
    assert_eq!(out, vec![7; 8]);
}

#[test]
fn order_zero_flat_product_is_ok() {
    let a: Vec<i64> = Vec::new();
    let b: Vec<i64> = Vec::new();
    let mut out: Vec<i64> = Vec::new();
    assert!(multiply_flat(&a, &b, &mut out, 0).is_ok());
    assert!(out.is_empty());
}

#[test]
fn fixed_kernel_matches_expected_product() {
    let (a, b, _) = build_fixed_inputs();
    let mut out: Fixed3x3 = [0; 9];
    multiply_fixed3(&a, &b, &mut out);
    assert_eq!(out, [30, 24, 18, 84, 69, 54, 138, 114, 90]);
}

#[test]
fn fixed_inputs_are_the_documented_literals() {
    let (a, b, c) = build_fixed_inputs();
    assert_eq!(a, [1, 2, 3, 4, 5, 6, 7, 8, 9]);
    assert_eq!(b, [9, 8, 7, 6, 5, 4, 3, 2, 1]);
    assert_eq!(c, [1, 0, 0, 0, 1, 0, 0, 0, 1]);
}

#[test]
fn representations_agree_elementwise() {
    // the same logical matrices in nested, flat and fixed form
    let an = nested(&[&[1, 2, 3], &[4, 5, 6], &[7, 8, 9]]);
    let bn = nested(&[&[9, 8, 7], &[6, 5, 4], &[3, 2, 1]]);
    let af: Vec<i64> = vec![1, 2, 3, 4, 5, 6, 7, 8, 9];
    let bf: Vec<i64> = vec![9, 8, 7, 6, 5, 4, 3, 2, 1];
    let (ax, bx, _) = build_fixed_inputs();

    let cn = multiply_borrowed(&an, &bn);
    let mut cf: Vec<i64> = vec![0; 9];
    assert!(multiply_flat(&af, &bf, &mut cf, 3).is_ok());
    let mut cx: Fixed3x3 = [0; 9];
    multiply_fixed3(&ax, &bx, &mut cx);

    for i in 0..3 {
        for j in 0..3 {
            assert_eq!(cn[i][j], cf[i * 3 + j]);
            assert_eq!(cn[i][j], cx[i * 3 + j]);
        }
    }
}
