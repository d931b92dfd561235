//! The fixed-size kernel: a stack-resident, flattened 3×3 block with no heap
//! allocation, for the small demonstration case, plus its deterministic
//! literal fixtures.
#![allow(unused_imports)]
use vstd::math::abs;
use vstd::prelude::*;

use crate::model::{
    dot_flat, dot_flat_abs, entry_flat, flat_fits, flat_idx, ints, lemma_dot_flat_abs_bounds,
    lemma_dot_flat_abs_mono,
};

verus! {

/// A 3×3 matrix as a flattened row-major stack block: element `(i, j)` at
/// position `i*3 + j`.
pub type Fixed3x3 = [i64; 9];

/// Accumulates the product of two 3×3 stack blocks onto `out`:
/// `out[i*3 + j] += sum over k of a[i*3 + k] * b[k*3 + j]`.
#[verifier::loop_isolation(false)]
pub fn multiply_fixed3(a: &Fixed3x3, b: &Fixed3x3, out: &mut Fixed3x3)
    requires
        flat_fits(ints(a@), ints(b@), ints(old(out)@), 3),
    ensures
        forall|i: int, j: int|
            0 <= i < 3 && 0 <= j < 3 ==> ints(final(out)@)[i * 3 + j] == ints(old(out)@)[i * 3 + j]
                + #[trigger] entry_flat(ints(a@), ints(b@), 3, i, j),
{
    let mut i: usize = 0;
    while i < 3
        invariant
            i <= 3,
            forall|r: int, c: int|
                #![trigger flat_idx(3, r, c)]
                0 <= r < 3 && 0 <= c < 3 ==> ints(out@)[flat_idx(3, r, c)] == ints(old(out)@)[
                    flat_idx(3, r, c)] + (if r < i {
                    entry_flat(ints(a@), ints(b@), 3, r, c)
                } else {
                    0
                }),
        decreases 3 - i,
    {
        let mut j: usize = 0;
        while j < 3
            invariant
                i < 3,
                j <= 3,
                forall|r: int, c: int|
                    #![trigger flat_idx(3, r, c)]
                    0 <= r < 3 && 0 <= c < 3 ==> ints(out@)[flat_idx(3, r, c)] == ints(old(out)@)[
                        flat_idx(3, r, c)] + (if r < i || (r == i && c < j) {
                        entry_flat(ints(a@), ints(b@), 3, r, c)
                    } else {
                        0
                    }),
            decreases 3 - j,
        {
            let mut k: usize = 0;
            while k < 3
                invariant
                    i < 3,
                    j < 3,
                    k <= 3,
                    ints(out@)[flat_idx(3, i as int, j as int)] == ints(old(out)@)[flat_idx(
                        3,
                        i as int,
                        j as int,
                    )] + dot_flat(ints(a@), ints(b@), 3, i as int, j as int, k as int),
                    forall|r: int, c: int|
                        #![trigger flat_idx(3, r, c)]
                        0 <= r < 3 && 0 <= c < 3 && !(r == i && c == j) ==> ints(out@)[flat_idx(
                            3,
                            r,
                            c,
                        )] == ints(old(out)@)[flat_idx(3, r, c)] + (if r < i || (r == i && c < j) {
                            entry_flat(ints(a@), ints(b@), 3, r, c)
                        } else {
                            0
                        }),
                decreases 3 - k,
            {
                proof {
                    lemma_dot_flat_abs_bounds(ints(a@), ints(b@), 3, i as int, j as int, k as int);
                    lemma_dot_flat_abs_bounds(
                        ints(a@),
                        ints(b@),
                        3,
                        i as int,
                        j as int,
                        k + 1 as int,
                    );
                    lemma_dot_flat_abs_mono(
                        ints(a@),
                        ints(b@),
                        3,
                        i as int,
                        j as int,
                        k + 1 as int,
                        3,
                    );
                    assert(abs(ints(old(out)@)[flat_idx(3, i as int, j as int)]) + dot_flat_abs(
                        ints(a@),
                        ints(b@),
                        3,
                        i as int,
                        j as int,
                        3,
                    ) <= i64::MAX);
                }
                let idx = i * 3 + j;
                let aik = a[i * 3 + k];
                let bkj = b[k * 3 + j];
                let cur = out[idx];
                out[idx] = cur + aik * bkj;
                k = k + 1;
            }
            j = j + 1;
        }
        i = i + 1;
    }
    proof {
        assert forall|i2: int, j2: int| 0 <= i2 < 3 && 0 <= j2 < 3 implies ints(out@)[i2 * 3 + j2]
            == ints(old(out)@)[i2 * 3 + j2] + #[trigger] entry_flat(
            ints(a@),
            ints(b@),
            3,
            i2,
            j2,
        ) by {
            assert(flat_idx(3, i2, j2) == i2 * 3 + j2);
        }
    }
}

/// Deterministic 3×3 fixtures used identically across the fixed-size
/// comparisons: two literal matrices and the identity.
pub fn build_fixed_inputs() -> (r: (Fixed3x3, Fixed3x3, Fixed3x3))
    ensures
        r.0@ == seq![1i64, 2, 3, 4, 5, 6, 7, 8, 9],
        r.1@ == seq![9i64, 8, 7, 6, 5, 4, 3, 2, 1],
        r.2@ == seq![1i64, 0, 0, 0, 1, 0, 0, 0, 1],
{
    let a: Fixed3x3 = [1, 2, 3, 4, 5, 6, 7, 8, 9];
    let b: Fixed3x3 = [9, 8, 7, 6, 5, 4, 3, 2, 1];
    let c: Fixed3x3 = [1, 0, 0, 0, 1, 0, 0, 0, 1];
    proof {
        assert(a@ =~= seq![1i64, 2, 3, 4, 5, 6, 7, 8, 9]);
        assert(b@ =~= seq![9i64, 8, 7, 6, 5, 4, 3, 2, 1]);
        assert(c@ =~= seq![1i64, 0, 0, 0, 1, 0, 0, 0, 1]);
    }
    (a, b, c)
}

} // verus!
