//! The verifying side: replay the transcript, check the openings, and check
//! that the folded constraints equal the vanishing polynomial times the
//! quotient at the out-of-domain point.

use vstd::prelude::*;
use crate::air::MultiTraceAir;
use crate::config::{claims_view, rows_view, OpeningClaim, Selectors, StarkConfig, TranscriptEvent};
use crate::field::{
    combine_coordinates,
    exp_power_of_two,
    recombine,
    recombine_row,
    recombined_row,
    repeated_square,
    ExtensionField,
    Field,
};
use crate::folder::{horner, AuxBuilder, EvalContext, VerifierFolder};
use crate::proof_data::Proof;
use crate::quotient::{
    quotient_domain,
    quotient_domain_spec,
    recombine_chunks,
    reconstruct_quotient,
    QUOTIENT_DEGREE,
};
use crate::util::copy_of;
use crate::transcript::{
    commitments_observed,
    log_after_aux,
    observe_commitments,
    observe_values,
    sample_challenges,
};

verus! {

/// Why a proof was not accepted.
#[derive(Debug)]
pub enum VerificationError {
    /// The commitment scheme rejected the opened values.
    PcsVerificationFailed,
    /// The folded constraints differ from the vanishing polynomial times the quotient.
    ConstraintVerificationFailed,
    /// The proof does not have the shape that the computation asks for.
    InvalidProof(&'static str),
}

pub const MISSING_AUX: &'static str = "AIR requires auxiliary trace but proof has none";

pub const UNEXPECTED_AUX: &'static str = "AIR has no auxiliary trace but proof includes one";

pub const UNSUPPORTED_HEIGHT: &'static str = "trace height is not supported by the configuration";

pub const WRONG_WIDTH: &'static str = "opened values do not match the declared trace widths";

pub const WRONG_CHUNKS: &'static str = "quotient chunks do not match the quotient degree";

/// Whether every chunk of the quotient is opened with one value for each coordinate.
pub open spec fn chunks_well_formed<SC: StarkConfig>(proof: &Proof<SC>) -> bool {
    forall|i: int|
        0 <= i < proof.quotient_chunks@.len() ==> (#[trigger] proof.quotient_chunks@[i])@.len()
            == SC::Challenge::dimension_spec()
}

/// The first fault in the shape of a proof, if it has one.  The presence of
/// the auxiliary commitment is checked before anything else.
pub open spec fn structure_fault<SC: StarkConfig, A: MultiTraceAir<SC::Val, SC::Challenge>>(
    config: &SC,
    air: &A,
    proof: &Proof<SC>,
) -> Option<&'static str> {
    let dim = SC::Challenge::dimension_spec();
    if air.aux_width_spec() > 0 && proof.aux_commit is None {
        Some(MISSING_AUX)
    } else if air.aux_width_spec() == 0 && proof.aux_commit is Some {
        Some(UNEXPECTED_AUX)
    } else if proof.log_degree > config.max_log_height_spec() || quotient_domain_spec(
        config,
        config.natural_domain_spec(proof.log_degree as nat),
    ) is None {
        Some(UNSUPPORTED_HEIGHT)
    } else if proof.main_local@.len() != air.width_spec() || proof.main_next@.len()
        != air.width_spec() || proof.aux_local@.len() != air.aux_width_spec() * dim
        || proof.aux_next@.len() != air.aux_width_spec() * dim {
        Some(WRONG_WIDTH)
    } else if proof.quotient_commits@.len() != QUOTIENT_DEGREE || proof.quotient_chunks@.len()
        != QUOTIENT_DEGREE || !chunks_well_formed(proof) {
        Some(WRONG_CHUNKS)
    } else {
        None
    }
}

/// The history of the verifier's transcript when it draws the out-of-domain
/// point: the main commitment, the public values, the auxiliary phase where
/// there is one, and every quotient commitment.
pub open spec fn verifier_log<SC: StarkConfig, A: MultiTraceAir<SC::Val, SC::Challenge>>(
    air: &A,
    proof: &Proof<SC>,
    public_values: Seq<SC::Val>,
) -> Seq<TranscriptEvent<SC::Val, SC::Commitment>> {
    log_after_aux(
        proof.main_commit,
        public_values,
        proof.aux_commit,
        air.num_challenges_spec(),
    ) + commitments_observed(proof.quotient_commits@)
}

/// What the proof claims of each commitment: the main trace and, where there
/// is one, the auxiliary trace at the point and the one after it, then each
/// chunk of the quotient at the point.
pub open spec fn opening_claims<SC: StarkConfig>(
    proof: &Proof<SC>,
    trace_domain: SC::Domain,
    chunk_domains: Seq<SC::Domain>,
    zeta: SC::Challenge,
    zeta_next: SC::Challenge,
) -> Seq<(SC::Commitment, SC::Domain, Seq<SC::Challenge>, Seq<Seq<SC::Challenge>>)> {
    let main = seq![
        (
            proof.main_commit,
            trace_domain,
            seq![zeta, zeta_next],
            seq![proof.main_local@, proof.main_next@],
        ),
    ];
    let aux = match proof.aux_commit {
        Some(c) => seq![
            (c, trace_domain, seq![zeta, zeta_next], seq![proof.aux_local@, proof.aux_next@]),
        ],
        None => Seq::empty(),
    };
    let chunks = Seq::new(
        proof.quotient_commits@.len(),
        |i: int|
            (
                proof.quotient_commits@[i],
                chunk_domains[i],
                seq![zeta],
                seq![proof.quotient_chunks@[i]@],
            ),
    );
    main + aux + chunks
}

/// The value of each chunk of the quotient, recombined from its coordinates.
pub open spec fn chunk_values<SC: StarkConfig>(proof: &Proof<SC>) -> Seq<SC::Challenge> {
    Seq::new(
        proof.quotient_chunks@.len(),
        |i: int| combine_coordinates::<SC::Val, SC::Challenge>(proof.quotient_chunks@[i]@),
    )
}

/// What the constraints are evaluated against on the verifying side.
pub open spec fn verifier_context<SC: StarkConfig, A: MultiTraceAir<SC::Val, SC::Challenge>>(
    air: &A,
    proof: &Proof<SC>,
    selectors: Selectors<SC::Challenge>,
) -> EvalContext<SC::Challenge> {
    EvalContext {
        main_local: proof.main_local@,
        main_next: proof.main_next@,
        aux_local: recombined_row::<SC::Val, SC::Challenge>(
            proof.aux_local@,
            air.aux_width_spec(),
        ),
        aux_next: recombined_row::<SC::Val, SC::Challenge>(proof.aux_next@, air.aux_width_spec()),
        is_first_row: selectors.is_first_row,
        is_last_row: selectors.is_last_row,
        is_transition: selectors.is_transition,
    }
}

/// Whether the folded constraints at `zeta` equal the vanishing polynomial
/// times the quotient there.  The quotient is put together from its chunks
/// with the powers of `zeta` raised to the size of a chunk's domain.
pub open spec fn identity_holds<SC: StarkConfig, A: MultiTraceAir<SC::Val, SC::Challenge>>(
    config: &SC,
    air: &A,
    proof: &Proof<SC>,
    trace_domain: SC::Domain,
    zeta: SC::Challenge,
    alpha: SC::Challenge,
) -> bool {
    match config.selectors_at_spec(trace_domain, zeta) {
        None => false,
        Some(selectors) => {
            let constraints = horner(
                alpha,
                air.constraints(verifier_context(air, proof, selectors)),
            );
            let quotient = recombine_chunks(
                chunk_values(proof),
                repeated_square(zeta, proof.log_degree as nat),
            );
            constraints == SC::Challenge::mul_spec(
                config.vanishing_spec(trace_domain, zeta),
                quotient,
            )
        },
    }
}

/// What verifying a proof returns.
pub open spec fn expected_verdict<SC: StarkConfig, A: MultiTraceAir<SC::Val, SC::Challenge>>(
    config: &SC,
    air: &A,
    proof: &Proof<SC>,
    public_values: Seq<SC::Val>,
) -> Result<(), VerificationError> {
    match structure_fault(config, air, proof) {
        Some(reason) => Err(VerificationError::InvalidProof(reason)),
        None => {
            let trace_domain = config.natural_domain_spec(proof.log_degree as nat);
            let quotient_domain = quotient_domain_spec(config, trace_domain).unwrap();
            let log = verifier_log(air, proof, public_values);
            let zeta = config.sample_spec(log);
            let zeta_next = config.next_point_spec(trace_domain, zeta).unwrap();
            let alpha = config.sample_spec(log.push(TranscriptEvent::Sample));
            let claims = opening_claims(
                proof,
                trace_domain,
                config.split_domains_spec(quotient_domain, QUOTIENT_DEGREE as nat),
                zeta,
                zeta_next,
            );
            if !config.verify_spec(
                claims,
                proof.opening_proof,
                log.push(TranscriptEvent::Sample).push(TranscriptEvent::Sample),
            ) {
                Err(VerificationError::PcsVerificationFailed)
            } else if identity_holds(config, air, proof, trace_domain, zeta, alpha) {
                Ok(())
            } else {
                Err(VerificationError::ConstraintVerificationFailed)
            }
        },
    }
}

/// Accepts exactly when the folded constraints equal the vanishing polynomial
/// times the quotient.
pub fn check_quotient_identity<F: Field>(constraints: &F, vanishing: &F, quotient: &F) -> (r:
    Result<(), VerificationError>)
    ensures
        r == (if *constraints == F::mul_spec(*vanishing, *quotient) {
            Ok::<(), VerificationError>(())
        } else {
            Err(VerificationError::ConstraintVerificationFailed)
        }),
{
    let expected: F = vanishing.mul(quotient);
    if constraints.equals(&expected) {
        Ok(())
    } else {
        Err(VerificationError::ConstraintVerificationFailed)
    }
}

/// Checks the shape of a proof; see [`structure_fault`].
pub fn check_structure<SC: StarkConfig, A: MultiTraceAir<SC::Val, SC::Challenge>>(
    config: &SC,
    air: &A,
    proof: &Proof<SC>,
) -> (fault: Option<&'static str>)
    ensures
        fault == structure_fault(config, air, proof),
{
    let aux_width: usize = air.aux_width();
    if aux_width > 0 && proof.aux_commit.is_none() {
        return Some(MISSING_AUX);
    }
    if aux_width == 0 && proof.aux_commit.is_some() {
        return Some(UNEXPECTED_AUX);
    }
    let log_degree: usize = proof.log_degree as usize;
    if log_degree > config.max_log_height() {
        return Some(UNSUPPORTED_HEIGHT);
    }
    let trace_domain: SC::Domain = config.natural_domain(log_degree);
    if quotient_domain(config, &trace_domain).is_none() {
        return Some(UNSUPPORTED_HEIGHT);
    }
    let dim: usize = SC::Challenge::dimension();
    let width: usize = air.width();
    if proof.main_local.len() != width || proof.main_next.len() != width {
        return Some(WRONG_WIDTH);
    }
    let aux_local_len: usize = proof.aux_local.len();
    if aux_width > usize::MAX / dim {
        proof {
            assert(aux_width * dim > usize::MAX) by (nonlinear_arith)
                requires
                    aux_width > usize::MAX / dim,
                    dim >= 1,
            ;
        }
        return Some(WRONG_WIDTH);
    }
    proof {
        assert(aux_width * dim <= usize::MAX) by (nonlinear_arith)
            requires
                aux_width <= usize::MAX / dim,
                dim >= 1,
        ;
    }
    let raw_aux_width: usize = aux_width * dim;
    if proof.aux_local.len() != raw_aux_width || proof.aux_next.len() != raw_aux_width {
        return Some(WRONG_WIDTH);
    }
    if proof.quotient_commits.len() != QUOTIENT_DEGREE || proof.quotient_chunks.len()
        != QUOTIENT_DEGREE {
        return Some(WRONG_CHUNKS);
    }
    if !chunks_have_dimension(proof) {
        return Some(WRONG_CHUNKS);
    }
    None
}

/// Checks that every chunk is opened with one value for each coordinate.
fn chunks_have_dimension<SC: StarkConfig>(proof: &Proof<SC>) -> (ok: bool)
    ensures
        ok == chunks_well_formed(proof),
{
    let dim: usize = SC::Challenge::dimension();
    let mut i: usize = 0;
    while i < proof.quotient_chunks.len()
        invariant
            i <= proof.quotient_chunks@.len(),
            dim == SC::Challenge::dimension_spec(),
            forall|j: int|
                0 <= j < i ==> (#[trigger] proof.quotient_chunks@[j])@.len() == dim,
        decreases proof.quotient_chunks@.len() - i,
    {
        if proof.quotient_chunks[i].len() != dim {
            return false;
        }
        i += 1;
    }
    true
}

/// Verifies a proof against a computation and its public values.
///
/// The transcript observes the main commitment, the public values, then,
/// where the proof has an auxiliary commitment, draws the computation's
/// challenges and observes that commitment, then observes every quotient
/// commitment.  It then draws the out-of-domain point and, after it, the
/// scalar that combines the constraints.
pub fn verify<SC, A>(config: &SC, air: &A, proof: &Proof<SC>, public_values: &[SC::Val]) -> (r:
    Result<(), VerificationError>) where SC: StarkConfig, A: MultiTraceAir<SC::Val, SC::Challenge>
    ensures
        r == expected_verdict(config, air, proof, public_values@),
        r is Ok ==> (proof.aux_commit is Some <==> air.aux_width_spec() > 0),
        r is Ok ==> proof.quotient_commits@.len() == QUOTIENT_DEGREE,
{
    match check_structure(config, air, proof) {
        Some(reason) => {
            return Err(VerificationError::InvalidProof(reason));
        },
        None => {},
    }
    let log_degree: usize = proof.log_degree as usize;
    let trace_domain: SC::Domain = config.natural_domain(log_degree);
    let quotient_domain: SC::Domain = match quotient_domain(config, &trace_domain) {
        Some(q) => q,
        None => {
            proof {
                assert(false);
            }
            return Err(VerificationError::InvalidProof(UNSUPPORTED_HEIGHT));
        },
    };
    let mut challenger: SC::Challenger = config.challenger();

    config.observe_commitment(&mut challenger, &proof.main_commit);
    observe_values(config, &mut challenger, public_values);
    match &proof.aux_commit {
        Some(aux_commit) => {
            let _ = sample_challenges(config, &mut challenger, air.num_challenges());
            config.observe_commitment(&mut challenger, aux_commit);
        },
        None => {},
    }
    observe_commitments(config, &mut challenger, &proof.quotient_commits);
    let ghost log = verifier_log(air, proof, public_values@);
    assert(SC::transcript(&challenger) =~= log);

    let zeta: SC::Challenge = config.sample(&mut challenger);
    let zeta_next: SC::Challenge = match config.next_point(&trace_domain, &zeta) {
        Some(z) => z,
        None => {
            proof {
                assert(false);
            }
            return Err(VerificationError::InvalidProof(UNSUPPORTED_HEIGHT));
        },
    };
    let alpha: SC::Challenge = config.sample(&mut challenger);

    let chunk_domains: Vec<SC::Domain> = config.split_domains(&quotient_domain, QUOTIENT_DEGREE);
    let mut claims: Vec<OpeningClaim<'_, SC::Commitment, SC::Domain, SC::Challenge>> = Vec::new();
    let mut two_points: Vec<SC::Challenge> = Vec::new();
    two_points.push(zeta);
    two_points.push(zeta_next);
    let mut main_values: Vec<Vec<SC::Challenge>> = Vec::new();
    main_values.push(copy_of(&proof.main_local));
    main_values.push(copy_of(&proof.main_next));
    claims.push(
        OpeningClaim {
            commitment: &proof.main_commit,
            domain: trace_domain,
            points: copy_of(&two_points),
            values: main_values,
        },
    );
    match &proof.aux_commit {
        Some(aux_commit) => {
            let mut aux_values: Vec<Vec<SC::Challenge>> = Vec::new();
            aux_values.push(copy_of(&proof.aux_local));
            aux_values.push(copy_of(&proof.aux_next));
            claims.push(
                OpeningClaim {
                    commitment: aux_commit,
                    domain: trace_domain,
                    points: two_points,
                    values: aux_values,
                },
            );
        },
        None => {},
    }
    let ghost head = claims@;
    let ghost expected = opening_claims(proof, trace_domain, chunk_domains@, zeta, zeta_next);
    assert(claims_view(head) =~= expected.take(head.len() as int)) by {
        assert forall|i: int| 0 <= i < head.len() implies claims_view(head)[i] == expected[i] by {
            assert(rows_view(head[i].values@) =~= expected[i].3);
        }
    }
    let mut i: usize = 0;
    while i < QUOTIENT_DEGREE
        invariant
            i <= QUOTIENT_DEGREE,
            proof.quotient_commits@.len() == QUOTIENT_DEGREE,
            proof.quotient_chunks@.len() == QUOTIENT_DEGREE,
            chunk_domains@.len() == QUOTIENT_DEGREE,
            head.len() <= 2,
            expected.len() == head.len() + QUOTIENT_DEGREE,
            expected == opening_claims(proof, trace_domain, chunk_domains@, zeta, zeta_next),
            claims@.len() == head.len() + i,
            claims_view(claims@) =~= expected.take(head.len() + i),
        decreases QUOTIENT_DEGREE - i,
    {
        let mut point: Vec<SC::Challenge> = Vec::new();
        point.push(zeta);
        let mut values: Vec<Vec<SC::Challenge>> = Vec::new();
        values.push(copy_of(&proof.quotient_chunks[i]));
        let ghost before = claims@;
        claims.push(
            OpeningClaim {
                commitment: &proof.quotient_commits[i],
                domain: chunk_domains[i],
                points: point,
                values,
            },
        );
        i += 1;
        proof {
            let k = head.len() + i - 1;
            assert(rows_view(claims@[k].values@) =~= expected[k].3);
            assert(claims@[k].points@ =~= expected[k].2);
            assert forall|j: int| 0 <= j < claims@.len() implies claims_view(claims@)[j]
                == expected.take(head.len() + i)[j] by {
                if j < k {
                    assert(claims@[j] == before[j]);
                    assert(claims_view(before)[j] == expected.take(k)[j]);
                }
            }
        }
    }
    assert(expected.take(head.len() + i) =~= expected);
    let opened_ok: bool = config.verify_openings(claims, &proof.opening_proof, &mut challenger);
    if !opened_ok {
        return Err(VerificationError::PcsVerificationFailed);
    }
    let selectors: Selectors<SC::Challenge> = match config.selectors_at_point(
        &trace_domain,
        &zeta,
    ) {
        Some(s) => s,
        None => {
            return Err(VerificationError::ConstraintVerificationFailed);
        },
    };
    let aux_local: Vec<SC::Challenge> = recombine_row::<SC::Val, SC::Challenge>(
        &proof.aux_local,
        air.aux_width(),
    );
    let aux_next: Vec<SC::Challenge> = recombine_row::<SC::Val, SC::Challenge>(
        &proof.aux_next,
        air.aux_width(),
    );
    let mut folder: VerifierFolder<'_, SC> = VerifierFolder::new(
        proof.main_local.as_slice(),
        proof.main_next.as_slice(),
        aux_local.as_slice(),
        aux_next.as_slice(),
        selectors.is_first_row,
        selectors.is_last_row,
        selectors.is_transition,
        alpha,
    );
    air.eval(&mut folder);
    let constraints_at_zeta: SC::Challenge = folder.accumulator();
    proof {
        assert(folder.asserted() =~= air.constraints(verifier_context(air, proof, selectors)));
    }

    let mut values: Vec<SC::Challenge> = Vec::new();
    let mut j: usize = 0;
    while j < proof.quotient_chunks.len()
        invariant
            j <= proof.quotient_chunks@.len(),
            chunks_well_formed(proof),
            values@ == chunk_values(proof).take(j as int),
        decreases proof.quotient_chunks@.len() - j,
    {
        let v: SC::Challenge = recombine::<SC::Val, SC::Challenge>(&proof.quotient_chunks[j]);
        values.push(v);
        j += 1;
        assert(values@ =~= chunk_values(proof).take(j as int));
    }
    assert(chunk_values(proof).take(j as int) =~= chunk_values(proof));
    let base: SC::Challenge = exp_power_of_two(&zeta, log_degree);
    let quotient_at_zeta: SC::Challenge = reconstruct_quotient(&values, &base);
    let vanishing: SC::Challenge = config.vanishing_at_point(&trace_domain, &zeta);
    check_quotient_identity(&constraints_at_zeta, &vanishing, &quotient_at_zeta)
}

} // verus!
