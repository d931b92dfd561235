//! Kernels over the flat representation: one contiguous row-major buffer of
//! `n * n` elements per matrix, with the order `n` passed alongside.
#![allow(unused_imports)]
use vstd::math::abs;
use vstd::prelude::*;

use crate::model::{
    dot_flat, dot_flat_abs, entry_flat, flat_dims, flat_fits, flat_idx, ints,
    lemma_dot_flat_abs_bounds, lemma_dot_flat_abs_mono, lemma_flat_idx_injective,
    lemma_flat_idx_range,
};
use crate::DimensionMismatch;

verus! {

/// Accumulates the product of the flat matrices `a` and `b` of order `n`
/// onto `out`: `out[i*n + j] += sum over k of a[i*n + k] * b[k*n + j]`,
/// with the reduction running in row-major order over `a` and in
/// column-stride order over `b`. Inconsistent buffer lengths are rejected
/// before anything is written.
#[verifier::loop_isolation(false)]
pub fn multiply_flat(a: &Vec<i64>, b: &Vec<i64>, out: &mut Vec<i64>, n: usize) -> (r: Result<
    (),
    DimensionMismatch,
>)
    requires
        flat_dims(a@.len() as int, b@.len() as int, old(out)@.len() as int, n as int)
            ==> flat_fits(ints(a@), ints(b@), ints(old(out)@), n as int),
    ensures
        r is Ok <==> flat_dims(a@.len() as int, b@.len() as int, old(out)@.len() as int, n as int),
        final(out)@.len() == old(out)@.len(),
        r is Err ==> final(out)@ == old(out)@,
        r is Ok ==> forall|i: int, j: int|
            0 <= i < n && 0 <= j < n ==> ints(final(out)@)[i * n + j] == ints(old(out)@)[i * n + j]
                + #[trigger] entry_flat(ints(a@), ints(b@), n as int, i, j),
{
    let la = a.len();
    let lb = b.len();
    let lo = out.len();
    let dims_ok = match n.checked_mul(n) {
        Some(nn) => la == nn && lb == nn && lo == nn,
        None => false,
    };
    if !dims_ok {
        return Err(DimensionMismatch);
    }
    let mut i: usize = 0;
    while i < n
        invariant
            i <= n,
            out@.len() == n * n,
            forall|r: int, c: int|
                #![trigger flat_idx(n as int, r, c)]
                0 <= r < n && 0 <= c < n ==> ints(out@)[flat_idx(n as int, r, c)] == ints(
                    old(out)@,
                )[flat_idx(n as int, r, c)] + (if r < i {
                    entry_flat(ints(a@), ints(b@), n as int, r, c)
                } else {
                    0
                }),
        decreases n - i,
    {
        let mut j: usize = 0;
        while j < n
            invariant
                i < n,
                j <= n,
                out@.len() == n * n,
                forall|r: int, c: int|
                    #![trigger flat_idx(n as int, r, c)]
                    0 <= r < n && 0 <= c < n ==> ints(out@)[flat_idx(n as int, r, c)] == ints(
                        old(out)@,
                    )[flat_idx(n as int, r, c)] + (if r < i || (r == i && c < j) {
                        entry_flat(ints(a@), ints(b@), n as int, r, c)
                    } else {
                        0
                    }),
            decreases n - j,
        {
            let mut k: usize = 0;
            while k < n
                invariant
                    i < n,
                    j < n,
                    k <= n,
                    out@.len() == n * n,
                    ints(out@)[flat_idx(n as int, i as int, j as int)] == ints(old(out)@)[flat_idx(
                        n as int,
                        i as int,
                        j as int,
                    )] + dot_flat(ints(a@), ints(b@), n as int, i as int, j as int, k as int),
                    forall|r: int, c: int|
                        #![trigger flat_idx(n as int, r, c)]
                        0 <= r < n && 0 <= c < n && !(r == i && c == j) ==> ints(out@)[flat_idx(
                            n as int,
                            r,
                            c,
                        )] == ints(old(out)@)[flat_idx(n as int, r, c)] + (if r < i || (r == i && c
                            < j) {
                            entry_flat(ints(a@), ints(b@), n as int, r, c)
                        } else {
                            0
                        }),
                decreases n - k,
            {
                proof {
                    lemma_flat_idx_range(n as int, i as int, j as int);
                    lemma_flat_idx_range(n as int, i as int, k as int);
                    lemma_flat_idx_range(n as int, k as int, j as int);
                    lemma_dot_flat_abs_bounds(
                        ints(a@),
                        ints(b@),
                        n as int,
                        i as int,
                        j as int,
                        k as int,
                    );
                    lemma_dot_flat_abs_bounds(
                        ints(a@),
                        ints(b@),
                        n as int,
                        i as int,
                        j as int,
                        k + 1 as int,
                    );
                    lemma_dot_flat_abs_mono(
                        ints(a@),
                        ints(b@),
                        n as int,
                        i as int,
                        j as int,
                        k + 1 as int,
                        n as int,
                    );
                    assert(abs(ints(old(out)@)[flat_idx(n as int, i as int, j as int)])
                        + dot_flat_abs(ints(a@), ints(b@), n as int, i as int, j as int, n as int)
                        <= i64::MAX);
                }
                let idx = i * n + j;
                let aik = a[i * n + k];
                let bkj = b[k * n + j];
                let cur = out[idx];
                out[idx] = cur + aik * bkj;
                proof {
                    assert forall|r: int, c: int|
                        0 <= r < n && 0 <= c < n && !(r == i && c == j) implies ints(out@)[
                        #[trigger] flat_idx(n as int, r, c)] == ints(old(out)@)[flat_idx(
                        n as int,
                        r,
                        c,
                    )] + (if r < i || (r == i && c < j) {
                        entry_flat(ints(a@), ints(b@), n as int, r, c)
                    } else {
                        0
                    }) by {
                        lemma_flat_idx_range(n as int, r, c);
                        if flat_idx(n as int, r, c) == flat_idx(n as int, i as int, j as int) {
                            lemma_flat_idx_injective(n as int, r, c, i as int, j as int);
                        }
                    }
                }
                k = k + 1;
            }
            j = j + 1;
        }
        i = i + 1;
    }
    proof {
        assert forall|i2: int, j2: int| 0 <= i2 < n && 0 <= j2 < n implies ints(out@)[i2 * n + j2]
            == ints(old(out)@)[i2 * n + j2] + #[trigger] entry_flat(
            ints(a@),
            ints(b@),
            n as int,
            i2,
            j2,
        ) by {
            lemma_flat_idx_range(n as int, i2, j2);
            assert(flat_idx(n as int, i2, j2) == i2 * n + j2);
        }
    }
    Ok(())
}

/// Computes exactly the product `multiply_flat` does — the contract pins
/// both kernels to the same accumulated entries — but first builds a
/// transposed copy of `b` (`bt[j*n + i] = b[i*n + j]`) so that the inner
/// reduction walks both operands sequentially in memory.
#[verifier::loop_isolation(false)]
pub fn multiply_flat_transposed(a: &Vec<i64>, b: &Vec<i64>, out: &mut Vec<i64>, n: usize) -> (r:
    Result<(), DimensionMismatch>)
    requires
        flat_dims(a@.len() as int, b@.len() as int, old(out)@.len() as int, n as int)
            ==> flat_fits(ints(a@), ints(b@), ints(old(out)@), n as int),
    ensures
        r is Ok <==> flat_dims(a@.len() as int, b@.len() as int, old(out)@.len() as int, n as int),
        final(out)@.len() == old(out)@.len(),
        r is Err ==> final(out)@ == old(out)@,
        r is Ok ==> forall|i: int, j: int|
            0 <= i < n && 0 <= j < n ==> ints(final(out)@)[i * n + j] == ints(old(out)@)[i * n + j]
                + #[trigger] entry_flat(ints(a@), ints(b@), n as int, i, j),
{
    let la = a.len();
    let lb = b.len();
    let lo = out.len();
    let dims_ok = match n.checked_mul(n) {
        Some(nn) => la == nn && lb == nn && lo == nn,
        None => false,
    };
    if !dims_ok {
        return Err(DimensionMismatch);
    }
    let mut bt: Vec<i64> = Vec::new();
    let mut jt: usize = 0;
    while jt < n
        invariant
            jt <= n,
            bt@.len() == jt * n,
            forall|r: int, c: int|
                #![trigger flat_idx(n as int, c, r)]
                0 <= r < n && 0 <= c < jt ==> ints(bt@)[flat_idx(n as int, c, r)] == ints(
                    b@,
                )[flat_idx(n as int, r, c)],
        decreases n - jt,
    {
        let mut it: usize = 0;
        while it < n
            invariant
                jt < n,
                it <= n,
                bt@.len() == jt * n + it,
                forall|r: int, c: int|
                    #![trigger flat_idx(n as int, c, r)]
                    0 <= r < n && 0 <= c < n && (c < jt || (c == jt && r < it)) ==> ints(bt@)[
                    flat_idx(n as int, c, r)] == ints(b@)[flat_idx(n as int, r, c)],
            decreases n - it,
        {
            proof {
                lemma_flat_idx_range(n as int, it as int, jt as int);
                lemma_flat_idx_range(n as int, jt as int, it as int);
                assert(jt * n + it < n * n) by (nonlinear_arith)
                    requires
                        0 <= jt < n,
                        0 <= it < n,
                ;
            }
            let v = b[it * n + jt];
            bt.push(v);
            proof {
                assert forall|r: int, c: int|
                    0 <= r < n && 0 <= c < n && (c < jt || (c == jt && r < it + 1)) implies ints(
                    bt@,
                )[#[trigger] flat_idx(n as int, c, r)] == ints(b@)[flat_idx(n as int, r, c)] by {
                    lemma_flat_idx_range(n as int, c, r);
                    lemma_flat_idx_range(n as int, r, c);
                    if c == jt && r == it {
                        assert(flat_idx(n as int, c, r) == jt * n + it);
                    } else {
                        assert(c * n + r < jt * n + it) by (nonlinear_arith)
                            requires
                                0 <= r < n,
                                0 <= c < n,
                                c < jt || (c == jt && r < it),
                        ;
                    }
                }
            }
            it = it + 1;
        }
        proof {
            assert((jt + 1) * n == jt * n + n) by (nonlinear_arith);
        }
        jt = jt + 1;
    }
    let mut i: usize = 0;
    while i < n
        invariant
            i <= n,
            out@.len() == n * n,
            forall|r: int, c: int|
                #![trigger flat_idx(n as int, r, c)]
                0 <= r < n && 0 <= c < n ==> ints(out@)[flat_idx(n as int, r, c)] == ints(
                    old(out)@,
                )[flat_idx(n as int, r, c)] + (if r < i {
                    entry_flat(ints(a@), ints(b@), n as int, r, c)
                } else {
                    0
                }),
        decreases n - i,
    {
        let mut j: usize = 0;
        while j < n
            invariant
                i < n,
                j <= n,
                out@.len() == n * n,
                forall|r: int, c: int|
                    #![trigger flat_idx(n as int, r, c)]
                    0 <= r < n && 0 <= c < n ==> ints(out@)[flat_idx(n as int, r, c)] == ints(
                        old(out)@,
                    )[flat_idx(n as int, r, c)] + (if r < i || (r == i && c < j) {
                        entry_flat(ints(a@), ints(b@), n as int, r, c)
                    } else {
                        0
                    }),
            decreases n - j,
        {
            let mut k: usize = 0;
            while k < n
                invariant
                    i < n,
                    j < n,
                    k <= n,
                    out@.len() == n * n,
                    ints(out@)[flat_idx(n as int, i as int, j as int)] == ints(old(out)@)[flat_idx(
                        n as int,
                        i as int,
                        j as int,
                    )] + dot_flat(ints(a@), ints(b@), n as int, i as int, j as int, k as int),
                    forall|r: int, c: int|
                        #![trigger flat_idx(n as int, r, c)]
                        0 <= r < n && 0 <= c < n && !(r == i && c == j) ==> ints(out@)[flat_idx(
                            n as int,
                            r,
                            c,
                        )] == ints(old(out)@)[flat_idx(n as int, r, c)] + (if r < i || (r == i && c
                            < j) {
                            entry_flat(ints(a@), ints(b@), n as int, r, c)
                        } else {
                            0
                        }),
                decreases n - k,
            {
                proof {
                    lemma_flat_idx_range(n as int, i as int, j as int);
                    lemma_flat_idx_range(n as int, i as int, k as int);
                    lemma_flat_idx_range(n as int, j as int, k as int);
                    lemma_flat_idx_range(n as int, k as int, j as int);
                    lemma_dot_flat_abs_bounds(
                        ints(a@),
                        ints(b@),
                        n as int,
                        i as int,
                        j as int,
                        k as int,
                    );
                    lemma_dot_flat_abs_bounds(
                        ints(a@),
                        ints(b@),
                        n as int,
                        i as int,
                        j as int,
                        k + 1 as int,
                    );
                    lemma_dot_flat_abs_mono(
                        ints(a@),
                        ints(b@),
                        n as int,
                        i as int,
                        j as int,
                        k + 1 as int,
                        n as int,
                    );
                    assert(abs(ints(old(out)@)[flat_idx(n as int, i as int, j as int)])
                        + dot_flat_abs(ints(a@), ints(b@), n as int, i as int, j as int, n as int)
                        <= i64::MAX);
                    assert(ints(bt@)[flat_idx(n as int, j as int, k as int)] == ints(b@)[flat_idx(
                        n as int,
                        k as int,
                        j as int,
                    )]);
                }
                let idx = i * n + j;
                let aik = a[i * n + k];
                let btjk = bt[j * n + k];
                let cur = out[idx];
                out[idx] = cur + aik * btjk;
                proof {
                    assert forall|r: int, c: int|
                        0 <= r < n && 0 <= c < n && !(r == i && c == j) implies ints(out@)[
                        #[trigger] flat_idx(n as int, r, c)] == ints(old(out)@)[flat_idx(
                        n as int,
                        r,
                        c,
                    )] + (if r < i || (r == i && c < j) {
                        entry_flat(ints(a@), ints(b@), n as int, r, c)
                    } else {
                        0
                    }) by {
                        lemma_flat_idx_range(n as int, r, c);
                        if flat_idx(n as int, r, c) == flat_idx(n as int, i as int, j as int) {
                            lemma_flat_idx_injective(n as int, r, c, i as int, j as int);
                        }
                    }
                }
                k = k + 1;
            }
            j = j + 1;
        }
        i = i + 1;
    }
    proof {
        assert forall|i2: int, j2: int| 0 <= i2 < n && 0 <= j2 < n implies ints(out@)[i2 * n + j2]
            == ints(old(out)@)[i2 * n + j2] + #[trigger] entry_flat(
            ints(a@),
            ints(b@),
            n as int,
            i2,
            j2,
        ) by {
            lemma_flat_idx_range(n as int, i2, j2);
            assert(flat_idx(n as int, i2, j2) == i2 * n + j2);
        }
    }
    Ok(())
}

} // verus!

