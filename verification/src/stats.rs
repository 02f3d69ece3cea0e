//! Arithmetic over the measurements of one probe.
//!
//! A measurement is an elapsed time in whole nanoseconds, held in a `u64`.

use vstd::prelude::*;

verus! {

/// The sum of all measurements, in nanoseconds.
pub open spec fn total(samples: Seq<u64>) -> nat
    decreases samples.len(),
{
    if samples.len() == 0 {
        0
    } else {
        total(samples.drop_last()) + samples.last() as nat
    }
}

/// The arithmetic mean of the measurements, rounded down to a whole
/// nanosecond. Meaningful for a non-empty sequence only.
pub open spec fn mean_of(samples: Seq<u64>) -> nat
    recommends
        samples.len() > 0,
{
    total(samples) / samples.len()
}

/// The mean of the measurements where there is one: an empty sequence has
/// no mean.
pub open spec fn average(samples: Seq<u64>) -> Option<u64> {
    if samples.len() == 0 {
        None
    } else {
        Some(mean_of(samples) as u64)
    }
}

/// No measurement exceeds `u64::MAX`, so neither does their mean, and their
/// sum stays below `len * 2^64`.
pub proof fn lemma_total_bounded(samples: Seq<u64>)
    ensures
        total(samples) <= samples.len() * u64::MAX,
        samples.len() > 0 ==> mean_of(samples) <= u64::MAX,
    decreases samples.len(),
{
    if samples.len() > 0 {
        lemma_total_bounded(samples.drop_last());
        let n = samples.len() as int;
        let m = u64::MAX as int;
        assert((n - 1) * m + m == n * m) by (nonlinear_arith);
        assert(total(samples) as int / n <= m) by (nonlinear_arith)
            requires
                total(samples) as int <= n * m,
                n > 0,
        ;
    }
}

/// Computes the arithmetic mean of `samples`, rounded down to a whole
/// nanosecond, or `None` for an empty list.
pub fn mean(samples: &Vec<u64>) -> (avg: Option<u64>)
    ensures
        avg == average(samples@),
        samples@.len() == 0 <==> avg is None,
        avg matches Some(m) ==> m as nat * samples@.len() <= total(samples@) < (m as nat + 1)
            * samples@.len(),
{
    let n: usize = samples.len();
    if n == 0 {
        return None;
    }
    let mut sum: u128 = 0;
    let mut i: usize = 0;
    while i < n
        invariant
            i <= n,
            n == samples@.len(),
            sum as nat == total(samples@.take(i as int)),
        decreases n - i,
    {
        proof {
            let next = samples@.take(i + 1);
            assert(next.drop_last() == samples@.take(i as int));
            lemma_total_bounded(next);
            assert(next.len() * u64::MAX <= usize::MAX * u64::MAX) by (nonlinear_arith)
                requires
                    next.len() <= usize::MAX,
            ;
        }
        sum = sum + samples[i] as u128;
        i = i + 1;
    }
    proof {
        assert(samples@.take(n as int) == samples@);
        lemma_total_bounded(samples@);
        let t = total(samples@) as int;
        let d = n as int;
        assert((t / d) * d <= t < (t / d + 1) * d) by (nonlinear_arith)
            requires
                d > 0,
                t >= 0,
        ;
    }
    let m: u128 = sum / (n as u128);
    Some(m as u64)
}

} // verus!
