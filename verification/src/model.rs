//! The mathematical model shared by every kernel variant: integer views of
//! the concrete buffers, the partial dot products the loops accumulate, and
//! the laws that relate the layouts to one another.
#![allow(unused_imports)]
use vstd::math::abs;
use vstd::prelude::*;

verus! {

/// Integer view of a flat buffer of elements.
pub open spec fn ints(s: Seq<i64>) -> Seq<int> {
    Seq::new(s.len(), |t: int| s[t] as int)
}

/// Integer view of a nested (row-vector) matrix.
pub open spec fn rows(m: Seq<Vec<i64>>) -> Seq<Seq<int>> {
    Seq::new(m.len(), |i: int| ints(m[i]@))
}

/// A flat buffer holds exactly the `n * n` elements of a matrix of order `n`.
pub open spec fn flat_wf(f: Seq<int>, n: int) -> bool {
    f.len() == n * n
}

/// A nested matrix of order `n`: `n` rows of `n` elements each.
pub open spec fn mat_wf(m: Seq<Seq<int>>, n: int) -> bool {
    &&& m.len() == n
    &&& forall|i: int| 0 <= i < n ==> (#[trigger] m[i]).len() == n
}

/// Row-major position of element `(r, c)` in a flat buffer of order `n`.
pub open spec fn flat_idx(n: int, r: int, c: int) -> int {
    r * n + c
}

/// Flat operand and output lengths consistent with order `n`.
pub open spec fn flat_dims(la: int, lb: int, lo: int, n: int) -> bool {
    la == n * n && lb == n * n && lo == n * n
}

/// Row-major positions of in-range elements stay inside the buffer.
pub proof fn lemma_flat_idx_range(n: int, r: int, c: int)
    requires
        0 <= r < n,
        0 <= c < n,
    ensures
        0 <= flat_idx(n, r, c) < n * n,
        flat_idx(n, r, c) == r * n + c,
{
    assert(0 <= r * n + c < n * n) by (nonlinear_arith)
        requires
            0 <= r < n,
            0 <= c < n,
    ;
}

/// Distinct in-range elements occupy distinct row-major positions.
pub proof fn lemma_flat_idx_injective(n: int, r: int, c: int, i: int, j: int)
    requires
        0 <= r,
        0 <= c < n,
        0 <= i,
        0 <= j < n,
        flat_idx(n, r, c) == flat_idx(n, i, j),
    ensures
        r == i && c == j,
{
    assert(r == i && c == j) by (nonlinear_arith)
        requires
            0 <= r,
            0 <= c < n,
            0 <= i,
            0 <= j < n,
            r * n + c == i * n + j,
    ;
}

/// Partial dot product of row `i` of flat `a` and column `j` of flat `b`
/// after the first `k` reduction steps.
pub open spec fn dot_flat(a: Seq<int>, b: Seq<int>, n: int, i: int, j: int, k: int) -> int
    decreases k,
{
    if k <= 0 {
        0
    } else {
        dot_flat(a, b, n, i, j, k - 1) + a[i * n + (k - 1)] * b[(k - 1) * n + j]
    }
}

/// Sum of the magnitudes of the first `k` terms of the same dot product;
/// it bounds every intermediate value the kernels accumulate.
pub open spec fn dot_flat_abs(a: Seq<int>, b: Seq<int>, n: int, i: int, j: int, k: int) -> int
    decreases k,
{
    if k <= 0 {
        0
    } else {
        dot_flat_abs(a, b, n, i, j, k - 1) + abs(a[i * n + (k - 1)] * b[(k - 1) * n + j])
    }
}

/// Element `(i, j)` of the product of flat matrices `a` and `b` of order `n`.
pub open spec fn entry_flat(a: Seq<int>, b: Seq<int>, n: int, i: int, j: int) -> int {
    dot_flat(a, b, n, i, j, n)
}

/// Partial dot product of row `i` of nested `a` and column `j` of nested `b`.
pub open spec fn dot_mat(a: Seq<Seq<int>>, b: Seq<Seq<int>>, i: int, j: int, k: int) -> int
    decreases k,
{
    if k <= 0 {
        0
    } else {
        dot_mat(a, b, i, j, k - 1) + a[i][k - 1] * b[k - 1][j]
    }
}

/// Sum of the magnitudes of the first `k` terms of the nested dot product.
pub open spec fn dot_mat_abs(a: Seq<Seq<int>>, b: Seq<Seq<int>>, i: int, j: int, k: int) -> int
    decreases k,
{
    if k <= 0 {
        0
    } else {
        dot_mat_abs(a, b, i, j, k - 1) + abs(a[i][k - 1] * b[k - 1][j])
    }
}

/// Element `(i, j)` of the product of nested matrices `a` and `b` of order `n`.
pub open spec fn entry_mat(a: Seq<Seq<int>>, b: Seq<Seq<int>>, n: int, i: int, j: int) -> int {
    dot_mat(a, b, i, j, n)
}

/// The full product of two nested matrices of order `n`.
pub open spec fn mat_product(a: Seq<Seq<int>>, b: Seq<Seq<int>>, n: int) -> Seq<Seq<int>> {
    Seq::new(n as nat, |i: int| Seq::new(n as nat, |j: int| entry_mat(a, b, n, i, j)))
}

/// Every accumulator of a flat multiplication that adds onto `o` stays
/// representable in an `i64`.
pub open spec fn flat_fits(a: Seq<int>, b: Seq<int>, o: Seq<int>, n: int) -> bool {
    forall|i: int, j: int|
        0 <= i < n && 0 <= j < n ==> abs(o[i * n + j]) + #[trigger] dot_flat_abs(a, b, n, i, j, n)
            <= i64::MAX
}

/// Every accumulator of a nested multiplication that adds onto `o` stays
/// representable in an `i64`.
pub open spec fn mat_fits_onto(a: Seq<Seq<int>>, b: Seq<Seq<int>>, o: Seq<Seq<int>>, n: int) -> bool {
    forall|i: int, j: int|
        0 <= i < n && 0 <= j < n ==> abs(o[i][j]) + #[trigger] dot_mat_abs(a, b, i, j, n)
            <= i64::MAX
}

/// Every accumulator of a nested multiplication that starts from zero stays
/// representable in an `i64`.
pub open spec fn mat_fits(a: Seq<Seq<int>>, b: Seq<Seq<int>>, n: int) -> bool {
    forall|i: int, j: int|
        0 <= i < n && 0 <= j < n ==> #[trigger] dot_mat_abs(a, b, i, j, n) <= i64::MAX
}

/// The identity matrix of order `n`.
pub open spec fn identity_mat(n: int) -> Seq<Seq<int>> {
    Seq::new(n as nat, |i: int| Seq::new(n as nat, |j: int| if i == j { 1 } else { 0 }))
}

/// A flat buffer and a nested matrix carry the same logical content: the
/// element at row-major position `i*n + j` of the one is element `(i, j)`
/// of the other.
pub open spec fn flat_matches_mat(f: Seq<int>, m: Seq<Seq<int>>, n: int) -> bool {
    &&& flat_wf(f, n)
    &&& mat_wf(m, n)
    &&& forall|i: int, j: int|
        0 <= i < n && 0 <= j < n ==> f[flat_idx(n, i, j)] == #[trigger] m[i][j]
}

proof fn lemma_dot_identity_right(a: Seq<Seq<int>>, n: int, i: int, j: int, k: int)
    requires
        mat_wf(a, n),
        0 <= i < n,
        0 <= j < n,
        0 <= k <= n,
    ensures
        dot_mat(a, identity_mat(n), i, j, k) == if j < k {
            a[i][j]
        } else {
            0
        },
    decreases k,
{
    if k > 0 {
        lemma_dot_identity_right(a, n, i, j, k - 1);
        assert(identity_mat(n)[k - 1][j] == if k - 1 == j {
            1int
        } else {
            0int
        });
    }
}

/// Identity law: multiplying any square matrix on the right by the identity
/// matrix of the same order returns it unchanged.
pub proof fn lemma_identity_right(a: Seq<Seq<int>>, n: int)
    requires
        mat_wf(a, n),
    ensures
        mat_product(a, identity_mat(n), n) == a,
{
    assert forall|i: int, j: int| 0 <= i < n && 0 <= j < n implies #[trigger] entry_mat(
        a,
        identity_mat(n),
        n,
        i,
        j,
    ) == a[i][j] by {
        lemma_dot_identity_right(a, n, i, j, n);
    }
    assert(mat_product(a, identity_mat(n), n) =~~= a);
}

proof fn lemma_dot_identity_left(a: Seq<Seq<int>>, n: int, i: int, j: int, k: int)
    requires
        mat_wf(a, n),
        0 <= i < n,
        0 <= j < n,
        0 <= k <= n,
    ensures
        dot_mat(identity_mat(n), a, i, j, k) == if i < k {
            a[i][j]
        } else {
            0
        },
    decreases k,
{
    if k > 0 {
        lemma_dot_identity_left(a, n, i, j, k - 1);
        assert(identity_mat(n)[i][k - 1] == if i == k - 1 {
            1int
        } else {
            0int
        });
    }
}

/// Identity law, left-hand form: multiplying any square matrix on the left
/// by the identity matrix of the same order returns it unchanged.
pub proof fn lemma_identity_left(a: Seq<Seq<int>>, n: int)
    requires
        mat_wf(a, n),
    ensures
        mat_product(identity_mat(n), a, n) == a,
{
    assert forall|i: int, j: int| 0 <= i < n && 0 <= j < n implies #[trigger] entry_mat(
        identity_mat(n),
        a,
        n,
        i,
        j,
    ) == a[i][j] by {
        lemma_dot_identity_left(a, n, i, j, n);
    }
    assert(mat_product(identity_mat(n), a, n) =~~= a);
}

proof fn lemma_dot_repr(
    fa: Seq<int>,
    fb: Seq<int>,
    ma: Seq<Seq<int>>,
    mb: Seq<Seq<int>>,
    n: int,
    i: int,
    j: int,
    k: int,
)
    requires
        flat_matches_mat(fa, ma, n),
        flat_matches_mat(fb, mb, n),
        0 <= i < n,
        0 <= j < n,
        0 <= k <= n,
    ensures
        dot_flat(fa, fb, n, i, j, k) == dot_mat(ma, mb, i, j, k),
    decreases k,
{
    if k > 0 {
        lemma_dot_repr(fa, fb, ma, mb, n, i, j, k - 1);
        assert(fa[flat_idx(n, i, k - 1)] == ma[i][k - 1]);
        assert(fb[flat_idx(n, k - 1, j)] == mb[k - 1][j]);
        assert(flat_idx(n, i, k - 1) == i * n + (k - 1));
        assert(flat_idx(n, k - 1, j) == (k - 1) * n + j);
    }
}

/// Representation-equivalence law: two matrices with the same logical
/// content in flat and in nested form have products with the same logical
/// content, element by element.
pub proof fn lemma_representation_equivalence(
    fa: Seq<int>,
    fb: Seq<int>,
    ma: Seq<Seq<int>>,
    mb: Seq<Seq<int>>,
    n: int,
)
    requires
        flat_matches_mat(fa, ma, n),
        flat_matches_mat(fb, mb, n),
    ensures
        forall|i: int, j: int|
            0 <= i < n && 0 <= j < n ==> entry_flat(fa, fb, n, i, j) == #[trigger] entry_mat(
                ma,
                mb,
                n,
                i,
                j,
            ),
{
    assert forall|i: int, j: int| 0 <= i < n && 0 <= j < n implies entry_flat(fa, fb, n, i, j)
        == #[trigger] entry_mat(ma, mb, n, i, j) by {
        lemma_dot_repr(fa, fb, ma, mb, n, i, j, n);
    }
}

proof fn lemma_dot_flat_uniform(
    a: Seq<int>,
    b: Seq<int>,
    n: int,
    x: int,
    y: int,
    i: int,
    j: int,
    k: int,
)
    requires
        flat_wf(a, n),
        flat_wf(b, n),
        forall|t: int| 0 <= t < n * n ==> a[t] == x,
        forall|t: int| 0 <= t < n * n ==> b[t] == y,
        0 <= i < n,
        0 <= j < n,
        0 <= k <= n,
    ensures
        dot_flat(a, b, n, i, j, k) == k * x * y,
    decreases k,
{
    if k <= 0 {
        assert(k * x * y == 0) by (nonlinear_arith)
            requires
                k <= 0 && 0 <= k,
        ;
    } else {
        lemma_dot_flat_uniform(a, b, n, x, y, i, j, k - 1);
        lemma_flat_idx_range(n, i, k - 1);
        lemma_flat_idx_range(n, k - 1, j);
        assert(a[i * n + (k - 1)] == x);
        assert(b[(k - 1) * n + j] == y);
        assert(a[i * n + (k - 1)] * b[(k - 1) * n + j] == x * y);
        assert(dot_flat(a, b, n, i, j, k) == dot_flat(a, b, n, i, j, k - 1) + x * y);
        assert((k - 1) * x * y + x * y == k * x * y) by (nonlinear_arith);
    }
}

/// Uniform-fill law: if every element of `a` is `x` and every element of
/// `b` is `y`, every element of their product of order `n` is `n * x * y`.
pub proof fn lemma_uniform_product(a: Seq<int>, b: Seq<int>, n: int, x: int, y: int)
    requires
        flat_wf(a, n),
        flat_wf(b, n),
        forall|t: int| 0 <= t < n * n ==> a[t] == x,
        forall|t: int| 0 <= t < n * n ==> b[t] == y,
    ensures
        forall|i: int, j: int|
            0 <= i < n && 0 <= j < n ==> #[trigger] entry_flat(a, b, n, i, j) == n * x * y,
{
    assert forall|i: int, j: int| 0 <= i < n && 0 <= j < n implies #[trigger] entry_flat(
        a,
        b,
        n,
        i,
        j,
    ) == n * x * y by {
        lemma_dot_flat_uniform(a, b, n, x, y, i, j, n);
    }
}

/// The magnitude sum is nonnegative, bounds the partial dot product, and
/// grows monotonically with the number of reduction steps taken.
pub proof fn lemma_dot_flat_abs_bounds(a: Seq<int>, b: Seq<int>, n: int, i: int, j: int, k: int)
    ensures
        0 <= dot_flat_abs(a, b, n, i, j, k),
        abs(dot_flat(a, b, n, i, j, k)) <= dot_flat_abs(a, b, n, i, j, k),
    decreases k,
{
    if k > 0 {
        lemma_dot_flat_abs_bounds(a, b, n, i, j, k - 1);
    }
}

/// Taking more reduction steps can only grow the magnitude sum.
pub proof fn lemma_dot_flat_abs_mono(
    a: Seq<int>,
    b: Seq<int>,
    n: int,
    i: int,
    j: int,
    k1: int,
    k2: int,
)
    requires
        k1 <= k2,
    ensures
        dot_flat_abs(a, b, n, i, j, k1) <= dot_flat_abs(a, b, n, i, j, k2),
    decreases k2 - k1,
{
    if k1 < k2 {
        lemma_dot_flat_abs_mono(a, b, n, i, j, k1, k2 - 1);
    }
}

/// Nested counterpart of `lemma_dot_flat_abs_bounds`.
pub proof fn lemma_dot_mat_abs_bounds(a: Seq<Seq<int>>, b: Seq<Seq<int>>, i: int, j: int, k: int)
    ensures
        0 <= dot_mat_abs(a, b, i, j, k),
        abs(dot_mat(a, b, i, j, k)) <= dot_mat_abs(a, b, i, j, k),
    decreases k,
{
    if k > 0 {
        lemma_dot_mat_abs_bounds(a, b, i, j, k - 1);
    }
}

/// Nested counterpart of `lemma_dot_flat_abs_mono`.
pub proof fn lemma_dot_mat_abs_mono(
    a: Seq<Seq<int>>,
    b: Seq<Seq<int>>,
    i: int,
    j: int,
    k1: int,
    k2: int,
)
    requires
        k1 <= k2,
    ensures
        dot_mat_abs(a, b, i, j, k1) <= dot_mat_abs(a, b, i, j, k2),
    decreases k2 - k1,
{
    if k1 < k2 {
        lemma_dot_mat_abs_mono(a, b, i, j, k1, k2 - 1);
    }
}

} // verus!
