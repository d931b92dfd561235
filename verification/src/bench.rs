//! Pure support for the benchmark harness: deterministic variable-size input
//! construction and the aggregation of a recorded series of per-iteration
//! costs. The timed loop itself lives outside the library and hands its
//! measurements in as plain numbers.
#![allow(unused_imports)]
use vstd::prelude::*;

verus! {

/// Sum of a recorded series of per-iteration costs.
pub open spec fn sum_series(s: Seq<u64>) -> int
    decreases s.len(),
{
    if s.len() == 0 {
        0
    } else {
        sum_series(s.drop_last()) + s.last()
    }
}

/// The sum of a series is bounded by its length times the largest cost a
/// single entry can record.
pub proof fn lemma_sum_series_bounds(s: Seq<u64>)
    ensures
        0 <= sum_series(s) <= s.len() * u64::MAX,
    decreases s.len(),
{
    if s.len() > 0 {
        lemma_sum_series_bounds(s.drop_last());
    }
}

/// Two uniformly filled flat matrices of order `n`, for large-size timing
/// where only the size matters: every element of the first is `fill_a`,
/// every element of the second is `fill_b`.
#[verifier::loop_isolation(false)]
pub fn build_variable_inputs(n: usize, fill_a: i64, fill_b: i64) -> (r: (Vec<i64>, Vec<i64>))
    requires
        n * n <= usize::MAX,
    ensures
        r.0@.len() == n * n,
        r.1@.len() == n * n,
        forall|t: int| 0 <= t < n * n ==> r.0@[t] == fill_a,
        forall|t: int| 0 <= t < n * n ==> r.1@[t] == fill_b,
{
    let nn = n * n;
    let mut a: Vec<i64> = Vec::new();
    let mut t: usize = 0;
    while t < nn
        invariant
            t <= nn,
            a@.len() == t,
            forall|q: int| 0 <= q < t ==> a@[q] == fill_a,
        decreases nn - t,
    {
        a.push(fill_a);
        t = t + 1;
    }
    let mut b: Vec<i64> = Vec::new();
    let mut u: usize = 0;
    while u < nn
        invariant
            u <= nn,
            b@.len() == u,
            forall|q: int| 0 <= q < u ==> b@[q] == fill_b,
        decreases nn - u,
    {
        b.push(fill_b);
        u = u + 1;
    }
    (a, b)
}

/// Smallest cost in a recorded series; `None` exactly when the series is
/// empty.
#[verifier::loop_isolation(false)]
pub fn series_min(samples: &Vec<u64>) -> (r: Option<u64>)
    ensures
        r is None <==> samples@.len() == 0,
        r is Some ==> samples@.contains(r.unwrap()),
        r is Some ==> forall|t: int| 0 <= t < samples@.len() ==> r.unwrap() <= #[trigger] samples@[t],
{
    if samples.len() == 0 {
        return None;
    }
    let mut cur: u64 = samples[0];
    let mut i: usize = 1;
    while i < samples.len()
        invariant
            1 <= i <= samples@.len(),
            exists|w: int| 0 <= w < i && samples@[w] == cur,
            forall|t: int| 0 <= t < i ==> cur <= #[trigger] samples@[t],
        decreases samples@.len() - i,
    {
        let s = samples[i];
        if s < cur {
            cur = s;
        }
        i = i + 1;
    }
    proof {
        let w = choose|w: int| 0 <= w < samples@.len() && samples@[w] == cur;
        assert(samples@.contains(cur));
    }
    Some(cur)
}

/// Total cost of a recorded series, widened so that no series a vector can
/// hold overflows the accumulator.
#[verifier::loop_isolation(false)]
pub fn series_total(samples: &Vec<u64>) -> (t: u128)
    ensures
        t == sum_series(samples@),
{
    let mut total: u128 = 0;
    let mut i: usize = 0;
    while i < samples.len()
        invariant
            i <= samples@.len(),
            total == sum_series(samples@.take(i as int)),
        decreases samples@.len() - i,
    {
        proof {
            lemma_sum_series_bounds(samples@.take(i as int));
            assert(i * u64::MAX < u128::MAX - u64::MAX) by (nonlinear_arith)
                requires
                    0 <= i < 0x1_0000_0000_0000_0000,
            ;
            assert(samples@.take(i + 1 as int).drop_last() =~= samples@.take(i as int));
            assert(samples@.take(i + 1 as int).last() == samples@[i as int]);
        }
        total = total + samples[i] as u128;
        i = i + 1;
    }
    proof {
        assert(samples@.take(samples@.len() as int) =~= samples@);
    }
    total
}

} // verus!
