//! What holds of the engine as a whole.

use vstd::prelude::*;
use crate::air::MultiTraceAir;
use crate::config::{StarkConfig, TranscriptEvent};
use crate::field::{descending_powers, pow, Field};
use crate::folder::{horner, weighted_sum};
use crate::proof_data::Proof;
use crate::proving::{commitment_of, proof_of, prover_log, run_spec, ProveError, Run};
use crate::quotient::QUOTIENT_DEGREE;
use crate::transcript::{
    challenges_drawn,
    commitments_observed,
    log_after_aux,
    log_after_main,
    samples,
    values_observed,
};
use crate::verifying::{
    expected_verdict,
    structure_fault,
    verifier_log,
    VerificationError,
    MISSING_AUX,
    UNEXPECTED_AUX,
};

verus! {

/// Whether every element of `values` is valid.
pub open spec fn all_valid<F: Field>(values: Seq<F>) -> bool {
    forall|i: int| 0 <= i < values.len() ==> (#[trigger] values[i]).valid()
}

/// Every fold is valid.
pub proof fn lemma_horner_valid<F: Field>(alpha: F, values: Seq<F>)
    ensures
        horner(alpha, values).valid(),
    decreases values.len(),
{
    if values.len() == 0 {
        F::lemma_closed(alpha, alpha);
    } else {
        F::lemma_closed(F::mul_spec(horner(alpha, values.drop_last()), alpha), values.last());
    }
}

/// The weighted sum over the first `j` of `n` descending powers is the fold
/// of those `j` values, times the power that the folder has yet to apply.
proof fn lemma_partial_fold<F: Field>(alpha: F, values: Seq<F>, n: nat)
    requires
        values.len() <= n,
        all_valid(values),
    ensures
        weighted_sum(descending_powers(alpha, n), values) == F::mul_spec(
            pow(alpha, (n - values.len()) as nat),
            horner(alpha, values),
        ),
    decreases values.len(),
{
    let weights = descending_powers(alpha, n);
    let j = values.len();
    if j == 0 {
        F::lemma_zero(pow(alpha, n));
    } else {
        let init = values.drop_last();
        let last = values.last();
        assert(all_valid(init)) by {
            assert forall|i: int| 0 <= i < init.len() implies (#[trigger] init[i]).valid() by {
                assert(init[i] == values[i]);
            }
        }
        lemma_partial_fold(alpha, init, n);
        // the weight of the last value, and the power left over before it
        let rest = pow(alpha, (n - j) as nat);
        let h = horner(alpha, init);
        assert(weights[j - 1] == rest);
        assert(pow(alpha, (n - (j - 1)) as nat) == F::mul_spec(rest, alpha));
        // (rest * alpha) * h + rest * last == rest * (h * alpha + last)
        F::lemma_mul_associates(rest, alpha, h);
        F::lemma_mul_commutes(alpha, h);
        F::lemma_mul_distributes(rest, F::mul_spec(h, alpha), last);
    }
}

/// The two folders agree: with a table of exactly as many descending powers
/// of `alpha` as there are assertions, the weighted sum of the proving side
/// is the fold of the verifying side.
pub proof fn lemma_folders_agree<F: Field>(alpha: F, values: Seq<F>)
    requires
        all_valid(values),
    ensures
        weighted_sum(descending_powers(alpha, values.len()), values) == horner(alpha, values),
{
    lemma_partial_fold(alpha, values, values.len());
    lemma_horner_valid(alpha, values);
    F::lemma_one(horner(alpha, values));
}

/// The events of a history that observe something, in order.
pub open spec fn observed<V, C>(log: Seq<TranscriptEvent<V, C>>) -> Seq<TranscriptEvent<V, C>> {
    log.filter(|e: TranscriptEvent<V, C>| !(e is Sample))
}

/// Draws leave what was observed as it is.
proof fn lemma_observed_ignores_samples<V, C>(log: Seq<TranscriptEvent<V, C>>, n: nat)
    ensures
        observed(log + samples::<V, C>(n)) == observed(log),
    decreases n,
{
    let keep = |e: TranscriptEvent<V, C>| !(e is Sample);
    if n == 0 {
        assert(log + samples::<V, C>(0) =~= log);
    } else {
        lemma_observed_ignores_samples(log, (n - 1) as nat);
        let shorter = log + samples::<V, C>((n - 1) as nat);
        assert(log + samples::<V, C>(n) =~= shorter.push(TranscriptEvent::Sample));
        lemma_filter_push(shorter, TranscriptEvent::Sample);
    }
}

/// What is observed of a history with one more event.
proof fn lemma_filter_push<V, C>(log: Seq<TranscriptEvent<V, C>>, e: TranscriptEvent<V, C>)
    ensures
        observed(log.push(e)) == if e is Sample {
            observed(log)
        } else {
            observed(log).push(e)
        },
{
    reveal(Seq::filter);
    assert(log.push(e).drop_last() =~= log);
}

/// What is observed of two histories, one after the other.
proof fn lemma_observed_concat<V, C>(
    a: Seq<TranscriptEvent<V, C>>,
    b: Seq<TranscriptEvent<V, C>>,
)
    ensures
        observed(a + b) == observed(a) + observed(b),
    decreases b.len(),
{
    if b.len() == 0 {
        reveal(Seq::filter);
        assert(a + b =~= a);
        assert(observed(b) =~= Seq::<TranscriptEvent<V, C>>::empty());
        assert(observed(a) + observed(b) =~= observed(a));
    } else {
        lemma_observed_concat(a, b.drop_last());
        assert(a + b =~= (a + b.drop_last()).push(b.last()));
        assert(b =~= b.drop_last().push(b.last()));
        lemma_filter_push(a + b.drop_last(), b.last());
        lemma_filter_push(b.drop_last(), b.last());
        if b.last() is Sample {
        } else {
            assert((observed(a) + observed(b.drop_last())).push(b.last()) =~= observed(a)
                + observed(b.drop_last()).push(b.last()));
        }
    }
}

/// Both sides observe the same values in the same order: the main
/// commitment, the public values, the auxiliary commitment where there is
/// one, and the quotient commitments.  They differ only in when they draw.
pub proof fn lemma_same_observations<SC: StarkConfig, A: MultiTraceAir<SC::Val, SC::Challenge>>(
    air: &A,
    proof: &Proof<SC>,
    public_values: Seq<SC::Val>,
)
    ensures
        observed(verifier_log(air, proof, public_values)) == observed(
            prover_log(
                proof.main_commit,
                public_values,
                proof.aux_commit,
                air.num_challenges_spec(),
                proof.quotient_commits@,
            ),
        ),
{
    let after_aux = log_after_aux(
        proof.main_commit,
        public_values,
        proof.aux_commit,
        air.num_challenges_spec(),
    );
    let commits = commitments_observed::<SC::Val, SC::Commitment>(proof.quotient_commits@);
    lemma_observed_concat(after_aux, commits);
    lemma_observed_concat(after_aux.push(TranscriptEvent::Sample), commits);
    lemma_filter_push(after_aux, TranscriptEvent::Sample);
}

/// Where the proof has no auxiliary commitment, the verifier draws nothing
/// before the out-of-domain point: its history up to there is made of
/// observations only.
pub proof fn lemma_no_aux_no_draws<SC: StarkConfig, A: MultiTraceAir<SC::Val, SC::Challenge>>(
    air: &A,
    proof: &Proof<SC>,
    public_values: Seq<SC::Val>,
)
    requires
        proof.aux_commit is None,
    ensures
        verifier_log(air, proof, public_values) == seq![
            TranscriptEvent::Commitment(proof.main_commit),
        ] + values_observed(public_values) + commitments_observed(proof.quotient_commits@),
        observed(verifier_log(air, proof, public_values)) == verifier_log(
            air,
            proof,
            public_values,
        ),
{
    let log = verifier_log(air, proof, public_values);
    assert forall|i: int| 0 <= i < log.len() implies !(#[trigger] log[i] is Sample) by {}
    lemma_filter_keeps_all(log);
}

/// A history without draws is all observation.
proof fn lemma_filter_keeps_all<V, C>(log: Seq<TranscriptEvent<V, C>>)
    requires
        forall|i: int| 0 <= i < log.len() ==> !(#[trigger] log[i] is Sample),
    ensures
        observed(log) == log,
    decreases log.len(),
{
    reveal(Seq::filter);
    if log.len() > 0 {
        lemma_filter_keeps_all(log.drop_last());
        assert(log =~= log.drop_last().push(log.last()));
    }
}

/// A proof without an auxiliary commitment is rejected as invalid for a
/// computation that declares an auxiliary trace, and a proof with one for a
/// computation that declares none, whatever else the proof holds.
pub proof fn lemma_aux_presence_checked_first<
    SC: StarkConfig,
    A: MultiTraceAir<SC::Val, SC::Challenge>,
>(config: &SC, air: &A, proof: &Proof<SC>, public_values: Seq<SC::Val>)
    ensures
        air.aux_width_spec() > 0 && proof.aux_commit is None ==> expected_verdict(
            config,
            air,
            proof,
            public_values,
        ) == Err::<(), _>(VerificationError::InvalidProof(MISSING_AUX)),
        air.aux_width_spec() == 0 && proof.aux_commit is Some ==> expected_verdict(
            config,
            air,
            proof,
            public_values,
        ) == Err::<(), _>(VerificationError::InvalidProof(UNEXPECTED_AUX)),
        expected_verdict(config, air, proof, public_values) is Ok ==> (proof.aux_commit is Some
            <==> air.aux_width_spec() > 0),
{
}

/// A run commits to an auxiliary trace exactly when the computation
/// declares one, and draws challenges for it only then.
pub proof fn lemma_aux_committed_iff_declared<
    SC: StarkConfig,
    A: MultiTraceAir<SC::Val, SC::Challenge>,
>(config: &SC, air: &A, main: (Seq<SC::Val>, nat), public_values: Seq<SC::Val>)
    ensures
        run_spec(config, air, main, public_values) matches Ok(run) ==> {
            &&& run.aux is Some <==> air.aux_width_spec() > 0
            &&& proof_of(run).aux_commit is Some <==> air.aux_width_spec() > 0
            &&& air.aux_width_spec() == 0 ==> run.challenges.len() == 0
            &&& air.aux_width_spec() > 0 ==> run.challenges.len() == air.num_challenges_spec()
        },
{
}

/// A run commits to exactly [`QUOTIENT_DEGREE`] chunks, a proof that is
/// accepted holds as many, and the quotient is put together from one value
/// for each.
pub proof fn lemma_chunk_count<SC: StarkConfig, A: MultiTraceAir<SC::Val, SC::Challenge>>(
    config: &SC,
    air: &A,
    main: (Seq<SC::Val>, nat),
    proof: &Proof<SC>,
    public_values: Seq<SC::Val>,
)
    ensures
        run_spec(config, air, main, public_values) matches Ok(run) ==> proof_of(
            run,
        ).quotient_commits.len() == QUOTIENT_DEGREE && proof_of(run).quotient_chunks.len()
            == QUOTIENT_DEGREE,
        expected_verdict(config, air, proof, public_values) is Ok ==> proof.quotient_commits@.len()
            == QUOTIENT_DEGREE && crate::verifying::chunk_values(proof).len() == QUOTIENT_DEGREE,
{
}

/// What a run draws is decided by what its transcript has observed: the
/// challenges by the main commitment and the public values, `alpha` by the
/// auxiliary commitment as well, and the out-of-domain point by the
/// quotient commitments as well.
pub proof fn lemma_challenges_from_transcript<
    SC: StarkConfig,
    A: MultiTraceAir<SC::Val, SC::Challenge>,
>(config: &SC, air: &A, main: (Seq<SC::Val>, nat), public_values: Seq<SC::Val>)
    ensures
        run_spec(config, air, main, public_values) matches Ok(run) ==> {
            &&& air.aux_width_spec() > 0 ==> run.challenges == challenges_drawn(
                config,
                log_after_main(run.main_commit, public_values),
                air.num_challenges_spec(),
            )
            &&& run.alpha == config.sample_spec(
                log_after_aux(
                    run.main_commit,
                    public_values,
                    commitment_of(run.aux),
                    air.num_challenges_spec(),
                ),
            )
            &&& run.zeta == config.sample_spec(
                prover_log(
                    run.main_commit,
                    public_values,
                    commitment_of(run.aux),
                    air.num_challenges_spec(),
                    run.quotient_commits,
                ),
            )
        },
{
}

/// Two runs on the same configuration, computation, trace and public values
/// fail alike or draw the same challenges, the same `alpha` and the same
/// out-of-domain point, and assemble the same proof.
pub proof fn lemma_runs_agree<SC: StarkConfig, A: MultiTraceAir<SC::Val, SC::Challenge>>(
    config: &SC,
    air: &A,
    first: (Seq<SC::Val>, nat),
    second: (Seq<SC::Val>, nat),
    first_values: Seq<SC::Val>,
    second_values: Seq<SC::Val>,
)
    requires
        first.0 =~= second.0,
        first.1 == second.1,
        first_values =~= second_values,
    ensures
        run_spec(config, air, first, first_values) == run_spec(config, air, second, second_values),
        match (
            run_spec(config, air, first, first_values),
            run_spec(config, air, second, second_values),
        ) {
            (Ok(a), Ok(b)) => a.challenges == b.challenges && a.alpha == b.alpha && a.zeta
                == b.zeta && proof_of(a) == proof_of(b),
            (Err(a), Err(b)) => a == b,
            _ => false,
        },
{
}

} // verus!
