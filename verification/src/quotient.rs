//! The quotient: the domain it is evaluated on, its split into chunks, and
//! how its value at a point is put together again from the chunks.

use vstd::prelude::*;
use crate::config::StarkConfig;
use crate::field::{pow, Field};

verus! {

/// The number of chunks that the quotient is split into: the constraints have
/// degree two, and the quotient domain is four times the trace domain.
pub const QUOTIENT_DEGREE: usize = 4;

/// The domain on which the quotient of a trace over `trace_domain` is
/// evaluated: disjoint from it and exactly [`QUOTIENT_DEGREE`] times its size.
pub open spec fn quotient_domain_spec<SC: StarkConfig>(
    config: &SC,
    trace_domain: SC::Domain,
) -> Option<SC::Domain> {
    let n = config.domain_size_spec(trace_domain);
    if n * QUOTIENT_DEGREE > usize::MAX {
        None
    } else {
        match config.disjoint_domain_spec(trace_domain, n * QUOTIENT_DEGREE as nat) {
            Some(q) => if config.domain_size_spec(q) == n * QUOTIENT_DEGREE {
                Some(q)
            } else {
                None
            },
            None => None,
        }
    }
}

/// Makes the quotient domain of `trace_domain`, or `None` where the
/// configuration has none of the right size.
pub fn quotient_domain<SC: StarkConfig>(config: &SC, trace_domain: &SC::Domain) -> (q: Option<
    SC::Domain,
>)
    ensures
        q == quotient_domain_spec(config, *trace_domain),
{
    let n: usize = config.domain_size(trace_domain);
    if n > usize::MAX / QUOTIENT_DEGREE {
        return None;
    }
    let size: usize = n * QUOTIENT_DEGREE;
    match config.disjoint_domain(trace_domain, size) {
        Some(q) => {
            if config.domain_size(&q) == size {
                Some(q)
            } else {
                None
            }
        },
        None => None,
    }
}

/// The value `v_0 + v_1 * base + v_2 * base^2 + ..`, summed from the left.
pub open spec fn recombine_chunks<F: Field>(values: Seq<F>, base: F) -> F
    decreases values.len(),
{
    if values.len() == 0 {
        F::zero_spec()
    } else {
        F::add_spec(
            recombine_chunks(values.drop_last(), base),
            F::mul_spec(values.last(), pow(base, (values.len() - 1) as nat)),
        )
    }
}

/// Puts the value of the quotient together from the values of its chunks,
/// with one term for each chunk; see [`recombine_chunks`].
pub fn reconstruct_quotient<F: Field>(values: &Vec<F>, base: &F) -> (q: F)
    ensures
        q == recombine_chunks(values@, *base),
{
    let mut q: F = F::zero();
    let mut power: F = F::one();
    let mut i: usize = 0;
    while i < values.len()
        invariant
            i <= values@.len(),
            power == pow(*base, i as nat),
            q == recombine_chunks(values@.take(i as int), *base),
        decreases values@.len() - i,
    {
        let term: F = values[i].mul(&power);
        q = q.add(&term);
        power = power.mul(base);
        i += 1;
        assert(values@.take(i as int).drop_last() =~= values@.take(i - 1));
    }
    assert(values@.take(i as int) =~= values@);
    q
}

} // verus!
