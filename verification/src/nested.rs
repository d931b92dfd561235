//! Kernels over the nested representation — a vector of independently
//! allocated row vectors — in both ownership modes, plus the accumulate-into
//! variant and the chained-multiplication driver.
#![allow(unused_imports)]
use vstd::math::abs;
use vstd::prelude::*;

use crate::model::{
    dot_mat, dot_mat_abs, entry_mat, ints, lemma_dot_mat_abs_bounds, lemma_dot_mat_abs_mono,
    mat_fits, mat_fits_onto, mat_product, mat_wf, rows,
};

verus! {

/// Borrows two square matrices of the same order and returns their freshly
/// allocated product, `c[i][j] = sum over k of a[i][k] * b[k][j]`.
#[verifier::loop_isolation(false)]
pub fn multiply_borrowed(a: &Vec<Vec<i64>>, b: &Vec<Vec<i64>>) -> (c: Vec<Vec<i64>>)
    requires
        mat_wf(rows(a@), a@.len() as int),
        mat_wf(rows(b@), a@.len() as int),
        mat_fits(rows(a@), rows(b@), a@.len() as int),
    ensures
        rows(c@) == mat_product(rows(a@), rows(b@), a@.len() as int),
{
    let n = a.len();
    let mut result: Vec<Vec<i64>> = Vec::new();
    let mut i: usize = 0;
    while i < n
        invariant
            i <= n,
            result@.len() == i,
            forall|r: int|
                0 <= r < i ==> #[trigger] rows(result@)[r] == mat_product(
                    rows(a@),
                    rows(b@),
                    n as int,
                )[r],
        decreases n - i,
    {
        let mut row: Vec<i64> = Vec::new();
        let mut j: usize = 0;
        while j < n
            invariant
                i < n,
                j <= n,
                row@.len() == j,
                forall|c2: int|
                    0 <= c2 < j ==> #[trigger] ints(row@)[c2] == entry_mat(
                        rows(a@),
                        rows(b@),
                        n as int,
                        i as int,
                        c2,
                    ),
            decreases n - j,
        {
            let mut acc: i64 = 0;
            let mut k: usize = 0;
            while k < n
                invariant
                    i < n,
                    j < n,
                    k <= n,
                    acc as int == dot_mat(rows(a@), rows(b@), i as int, j as int, k as int),
                decreases n - k,
            {
                proof {
                    lemma_dot_mat_abs_bounds(rows(a@), rows(b@), i as int, j as int, k as int);
                    lemma_dot_mat_abs_bounds(rows(a@), rows(b@), i as int, j as int, k + 1 as int);
                    lemma_dot_mat_abs_mono(
                        rows(a@),
                        rows(b@),
                        i as int,
                        j as int,
                        k + 1 as int,
                        n as int,
                    );
                    assert(dot_mat_abs(rows(a@), rows(b@), i as int, j as int, n as int)
                        <= i64::MAX);
                }
                let aik = a[i][k];
                let bkj = b[k][j];
                acc = acc + aik * bkj;
                k = k + 1;
            }
            let ghost row0 = row@;
            row.push(acc);
            proof {
                assert forall|c2: int| 0 <= c2 < j + 1 implies #[trigger] ints(row@)[c2]
                    == entry_mat(rows(a@), rows(b@), n as int, i as int, c2) by {
                    if c2 < j {
                        assert(ints(row0)[c2] == entry_mat(rows(a@), rows(b@), n as int, i as int, c2));
                        assert(row@[c2] == row0[c2]);
                    } else {
                        assert(row@[c2] == acc);
                    }
                }
            }
            j = j + 1;
        }
        proof {
            assert(ints(row@) =~= mat_product(rows(a@), rows(b@), n as int)[i as int]);
        }
        let ghost res0 = result@;
        result.push(row);
        proof {
            assert forall|r: int| 0 <= r < i + 1 implies #[trigger] rows(result@)[r]
                == mat_product(rows(a@), rows(b@), n as int)[r] by {
                if r < i {
                    assert(rows(res0)[r] == mat_product(rows(a@), rows(b@), n as int)[r]);
                    assert(result@[r] == res0[r]);
                } else {
                    assert(result@[r] == row);
                }
            }
        }
        i = i + 1;
    }
    proof {
        assert(rows(result@) =~= mat_product(rows(a@), rows(b@), n as int));
    }
    result
}

/// Consumes both operands and returns their freshly allocated product; the
/// result is the same product `multiply_borrowed` is pinned to.
pub fn multiply_owned(a: Vec<Vec<i64>>, b: Vec<Vec<i64>>) -> (c: Vec<Vec<i64>>)
    requires
        mat_wf(rows(a@), a@.len() as int),
        mat_wf(rows(b@), a@.len() as int),
        mat_fits(rows(a@), rows(b@), a@.len() as int),
    ensures
        rows(c@) == mat_product(rows(a@), rows(b@), a@.len() as int),
{
    multiply_borrowed(&a, &b)
}

/// Accumulates the product of `a` and `b` onto the caller-supplied buffer:
/// `out[i][j] += sum over k of a[i][k] * b[k][j]`. A caller that wants the
/// plain product must hand in a zeroed buffer.
#[verifier::loop_isolation(false)]
pub fn multiply_into(a: &Vec<Vec<i64>>, b: &Vec<Vec<i64>>, out: &mut Vec<Vec<i64>>)
    requires
        mat_wf(rows(a@), a@.len() as int),
        mat_wf(rows(b@), a@.len() as int),
        mat_wf(rows(old(out)@), a@.len() as int),
        mat_fits_onto(rows(a@), rows(b@), rows(old(out)@), a@.len() as int),
    ensures
        mat_wf(rows(final(out)@), a@.len() as int),
        forall|i: int, j: int|
            0 <= i < a@.len() && 0 <= j < a@.len() ==> rows(final(out)@)[i][j] == rows(
                old(out)@,
            )[i][j] + #[trigger] entry_mat(rows(a@), rows(b@), a@.len() as int, i, j),
{
    let n = a.len();
    let mut result: Vec<Vec<i64>> = Vec::new();
    let mut i: usize = 0;
    while i < n
        invariant
            i <= n,
            result@.len() == i,
            forall|r: int, c2: int|
                0 <= r < i && 0 <= c2 < n ==> #[trigger] rows(result@)[r][c2] == rows(
                    old(out)@,
                )[r][c2] + entry_mat(rows(a@), rows(b@), n as int, r, c2),
            forall|r: int| 0 <= r < i ==> (#[trigger] rows(result@)[r]).len() == n,
        decreases n - i,
    {
        let mut row: Vec<i64> = Vec::new();
        let mut j: usize = 0;
        while j < n
            invariant
                i < n,
                j <= n,
                row@.len() == j,
                forall|c2: int|
                    0 <= c2 < j ==> #[trigger] ints(row@)[c2] == rows(old(out)@)[i as int][c2]
                        + entry_mat(rows(a@), rows(b@), n as int, i as int, c2),
            decreases n - j,
        {
            proof {
                assert(out@.len() == n);
                assert(rows(old(out)@)[i as int].len() == n);
                assert(out@[i as int]@.len() == n);
            }
            let mut acc: i64 = out[i][j];
            let mut k: usize = 0;
            while k < n
                invariant
                    i < n,
                    j < n,
                    k <= n,
                    acc as int == rows(old(out)@)[i as int][j as int] + dot_mat(
                        rows(a@),
                        rows(b@),
                        i as int,
                        j as int,
                        k as int,
                    ),
                decreases n - k,
            {
                proof {
                    lemma_dot_mat_abs_bounds(rows(a@), rows(b@), i as int, j as int, k as int);
                    lemma_dot_mat_abs_bounds(rows(a@), rows(b@), i as int, j as int, k + 1 as int);
                    lemma_dot_mat_abs_mono(
                        rows(a@),
                        rows(b@),
                        i as int,
                        j as int,
                        k + 1 as int,
                        n as int,
                    );
                    assert(abs(rows(old(out)@)[i as int][j as int]) + dot_mat_abs(
                        rows(a@),
                        rows(b@),
                        i as int,
                        j as int,
                        n as int,
                    ) <= i64::MAX);
                }
                let aik = a[i][k];
                let bkj = b[k][j];
                acc = acc + aik * bkj;
                k = k + 1;
            }
            let ghost row0 = row@;
            row.push(acc);
            proof {
                assert forall|c2: int| 0 <= c2 < j + 1 implies #[trigger] ints(row@)[c2]
                    == rows(old(out)@)[i as int][c2] + entry_mat(
                    rows(a@),
                    rows(b@),
                    n as int,
                    i as int,
                    c2,
                ) by {
                    if c2 < j {
                        assert(ints(row0)[c2] == rows(old(out)@)[i as int][c2] + entry_mat(
                            rows(a@),
                            rows(b@),
                            n as int,
                            i as int,
                            c2,
                        ));
                        assert(row@[c2] == row0[c2]);
                    } else {
                        assert(row@[c2] == acc);
                    }
                }
            }
            j = j + 1;
        }
        let ghost res0 = result@;
        result.push(row);
        proof {
            assert forall|r: int, c2: int| 0 <= r < i + 1 && 0 <= c2 < n implies #[trigger] rows(
                result@,
            )[r][c2] == rows(old(out)@)[r][c2] + entry_mat(rows(a@), rows(b@), n as int, r, c2) by {
                if r < i {
                    assert(rows(res0)[r][c2] == rows(old(out)@)[r][c2] + entry_mat(
                        rows(a@),
                        rows(b@),
                        n as int,
                        r,
                        c2,
                    ));
                    assert(result@[r] == res0[r]);
                } else {
                    assert(result@[r] == row);
                    assert(rows(result@)[r] == ints(row@));
                    assert(ints(row@)[c2] == rows(old(out)@)[r][c2] + entry_mat(
                        rows(a@),
                        rows(b@),
                        n as int,
                        r,
                        c2,
                    ));
                }
            }
            assert forall|r: int| 0 <= r < i + 1 implies (#[trigger] rows(result@)[r]).len() == n by {
                if r < i {
                    assert(result@[r] == res0[r]);
                    assert(rows(res0)[r].len() == n);
                } else {
                    assert(result@[r] == row);
                }
            }
        }
        i = i + 1;
    }
    *out = result;
}

/// Chained-multiplication driver: computes `(a * b) * c` through two calls
/// of the borrowing kernel, as a slightly larger workload than one multiply.
pub fn chain3(a: &Vec<Vec<i64>>, b: &Vec<Vec<i64>>, c: &Vec<Vec<i64>>) -> (d: Vec<Vec<i64>>)
    requires
        mat_wf(rows(a@), a@.len() as int),
        mat_wf(rows(b@), a@.len() as int),
        mat_wf(rows(c@), a@.len() as int),
        mat_fits(rows(a@), rows(b@), a@.len() as int),
        mat_fits(mat_product(rows(a@), rows(b@), a@.len() as int), rows(c@), a@.len() as int),
    ensures
        rows(d@) == mat_product(
            mat_product(rows(a@), rows(b@), a@.len() as int),
            rows(c@),
            a@.len() as int,
        ),
{
    let ghost n = a@.len() as int;
    let ab = multiply_borrowed(a, b);
    proof {
        assert(rows(ab@).len() == n);
        assert forall|i: int| 0 <= i < n implies (#[trigger] rows(ab@)[i]).len() == n by {
            assert(rows(ab@)[i] == mat_product(rows(a@), rows(b@), n)[i]);
        }
        assert(mat_wf(rows(ab@), ab@.len() as int));
    }
    multiply_borrowed(&ab, c)
}

} // verus!
