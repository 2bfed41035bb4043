//! The proving side: commit to the traces, fold the constraints at every
//! point of the quotient domain, commit to the quotient in chunks, and open
//! everything at the out-of-domain point.

use vstd::arithmetic::power2::pow2;
use vstd::prelude::*;
use crate::air::MultiTraceAir;
use crate::config::{
    requests_view,
    tables_view,
    OpeningRequest,
    Selectors,
    StarkConfig,
    TranscriptEvent,
};
use crate::field::{
    descending_power_table,
    descending_powers,
    recombine_row,
    recombined_row,
    ExtensionField,
    Field,
};
use crate::folder::{weighted_sum, AuxBuilder, EvalContext, ProverFolder};
use crate::matrix::Matrix;
use crate::proof_data::Proof;
use crate::quotient::{quotient_domain, quotient_domain_spec, QUOTIENT_DEGREE};
use crate::transcript::{
    challenges_drawn,
    commitments_observed,
    log_after_aux,
    log_after_main,
    observe_commitments,
    observe_values,
    sample_challenges,
};
use crate::util::{flat_table, flatten_matrix, lift_row, lifted, log2_strict, is_power_of_two};

verus! {

/// Why no proof was produced.
#[derive(Debug, PartialEq, Eq, Structural)]
pub enum ProveError {
    /// The configuration has no domains for a trace of this height.
    UnsupportedHeight,
    /// The commitment scheme did not take a table.
    CommitFailed,
    /// The auxiliary trace does not have the declared width, or not the
    /// height of the main trace.
    AuxTraceShape,
    /// The evaluations handed back by the commitment scheme, or the quotient
    /// made from them, do not have the expected shape.
    EvaluationShape,
    /// The commitment scheme did not open the tables.
    OpeningFailed,
}

/// The number of rows of a table with `len` entries in `cols` columns.
pub open spec fn rows_of(len: nat, cols: nat) -> nat {
    if cols == 0 {
        0
    } else {
        len / cols
    }
}

/// Row `r` of a table with `cols` columns.
pub open spec fn row_of<T>(entries: Seq<T>, cols: nat, r: int) -> Seq<T> {
    entries.subrange(r * cols, r * cols + cols)
}

/// What the constraints are evaluated against at point `i` of a quotient
/// domain of `size` points: row `i` and, as its next row, the row after it,
/// the first row following the last.
pub open spec fn prover_context<SC: StarkConfig>(
    selectors: Selectors<Seq<SC::Val>>,
    main: (Seq<SC::Val>, nat),
    aux: Option<(Seq<SC::Val>, nat)>,
    aux_width: nat,
    i: int,
    size: int,
) -> EvalContext<SC::Challenge> {
    let next = (i + 1) % size;
    EvalContext {
        main_local: lifted::<SC::Val, SC::Challenge>(row_of(main.0, main.1, i)),
        main_next: lifted::<SC::Val, SC::Challenge>(row_of(main.0, main.1, next)),
        aux_local: match aux {
            Some(t) => recombined_row::<SC::Val, SC::Challenge>(
                lifted::<SC::Val, SC::Challenge>(row_of(t.0, t.1, i)),
                aux_width,
            ),
            None => Seq::empty(),
        },
        aux_next: match aux {
            Some(t) => recombined_row::<SC::Val, SC::Challenge>(
                lifted::<SC::Val, SC::Challenge>(row_of(t.0, t.1, next)),
                aux_width,
            ),
            None => Seq::empty(),
        },
        is_first_row: SC::Challenge::lift_spec(selectors.is_first_row[i]),
        is_last_row: SC::Challenge::lift_spec(selectors.is_last_row[i]),
        is_transition: SC::Challenge::lift_spec(selectors.is_transition[i]),
    }
}

/// The value of the quotient at one point: the constraints, the first
/// weighted by the highest power of `alpha` and the last by one, times the
/// inverse of the vanishing polynomial.
pub open spec fn quotient_value<SC: StarkConfig, A: MultiTraceAir<SC::Val, SC::Challenge>>(
    air: &A,
    ctx: EvalContext<SC::Challenge>,
    alpha: SC::Challenge,
    inv_vanishing: SC::Val,
) -> SC::Challenge {
    SC::Challenge::mul_spec(
        weighted_sum(descending_powers(alpha, air.constraint_count()), air.constraints(ctx)),
        SC::Challenge::lift_spec(inv_vanishing),
    )
}

/// The values of the quotient at every point of the quotient domain.
pub open spec fn quotient_values<SC: StarkConfig, A: MultiTraceAir<SC::Val, SC::Challenge>>(
    air: &A,
    selectors: Selectors<Seq<SC::Val>>,
    main: (Seq<SC::Val>, nat),
    aux: Option<(Seq<SC::Val>, nat)>,
    alpha: SC::Challenge,
    size: nat,
) -> Seq<SC::Challenge> {
    Seq::new(
        size,
        |i: int|
            quotient_value::<SC, A>(
                air,
                prover_context::<SC>(selectors, main, aux, air.aux_width_spec(), i, size as int),
                alpha,
                selectors.inv_vanishing[i],
            ),
    )
}

/// Whether `quotient` is the quotient domain of the natural domain `trace`.
pub open spec fn domains_fit<SC: StarkConfig>(
    config: &SC,
    trace: SC::Domain,
    quotient: SC::Domain,
) -> bool {
    exists|k: nat|
        k <= config.max_log_height_spec() && trace == #[trigger] config.natural_domain_spec(k)
            && quotient_domain_spec(config, trace) == Some(quotient)
}

/// Evaluates the constraints at every point of the quotient domain and
/// divides by the vanishing polynomial there.
fn compute_quotient_values<SC, A>(
    config: &SC,
    air: &A,
    trace_domain: &SC::Domain,
    quotient_domain: &SC::Domain,
    main_on_quotient: &Matrix<SC::Val>,
    aux_on_quotient: Option<&Matrix<SC::Val>>,
    alpha: &SC::Challenge,
) -> (values: Vec<SC::Challenge>) where SC: StarkConfig, A: MultiTraceAir<SC::Val, SC::Challenge>
    requires
        domains_fit(config, *trace_domain, *quotient_domain),
        main_on_quotient.cols() == air.width_spec(),
        main_on_quotient.rows() == config.domain_size_spec(*quotient_domain),
        match aux_on_quotient {
            Some(m) => m.cols() == air.aux_width_spec() * SC::Challenge::dimension_spec()
                && m.rows() == config.domain_size_spec(*quotient_domain),
            None => air.aux_width_spec() == 0,
        },
    ensures
        values@ == quotient_values::<SC, A>(
            air,
            config.selectors_on_spec(*trace_domain, *quotient_domain),
            (main_on_quotient.entries(), main_on_quotient.cols()),
            match aux_on_quotient {
                Some(m) => Some((m.entries(), m.cols())),
                None => None,
            },
            *alpha,
            config.domain_size_spec(*quotient_domain),
        ),
{
    let size: usize = config.domain_size(quotient_domain);
    proof {
        let k = choose|k: nat|
            k <= config.max_log_height_spec() && *trace_domain == #[trigger] config.natural_domain_spec(k)
                && quotient_domain_spec(config, *trace_domain) == Some(*quotient_domain);
        let n = config.domain_size_spec(*trace_domain);
        assert(n <= n * QUOTIENT_DEGREE) by (nonlinear_arith)
            requires
                n >= 0,
        ;
        assert(config.disjoint_domain_spec(*trace_domain, n * QUOTIENT_DEGREE as nat) == Some(
            *quotient_domain,
        ));
    }
    let selectors: Selectors<Vec<SC::Val>> = config.selectors_on_coset(
        trace_domain,
        quotient_domain,
    );
    let ghost sel = config.selectors_on_spec(*trace_domain, *quotient_domain);
    let ghost main = (main_on_quotient.entries(), main_on_quotient.cols());
    let ghost aux: Option<(Seq<SC::Val>, nat)> = match aux_on_quotient {
        Some(m) => Some((m.entries(), m.cols())),
        None => None,
    };
    let alpha_powers: Vec<SC::Challenge> = descending_power_table(alpha, air.num_constraints());
    let aux_width: usize = air.aux_width();
    let mut values: Vec<SC::Challenge> = Vec::new();
    let mut i: usize = 0;
    while i < size
        invariant
            i <= size,
            size == config.domain_size_spec(*quotient_domain),
            sel == config.selectors_on_spec(*trace_domain, *quotient_domain),
            selectors.is_first_row@ == sel.is_first_row,
            selectors.is_last_row@ == sel.is_last_row,
            selectors.is_transition@ == sel.is_transition,
            selectors.inv_vanishing@ == sel.inv_vanishing,
            sel.is_first_row.len() == size,
            sel.is_last_row.len() == size,
            sel.is_transition.len() == size,
            sel.inv_vanishing.len() == size,
            main == (main_on_quotient.entries(), main_on_quotient.cols()),
            main_on_quotient.cols() == air.width_spec(),
            main_on_quotient.rows() == size,
            aux_width == air.aux_width_spec(),
            match aux_on_quotient {
                Some(m) => m.cols() == air.aux_width_spec() * SC::Challenge::dimension_spec()
                    && m.rows() == size && aux == Some((m.entries(), m.cols())),
                None => air.aux_width_spec() == 0 && aux is None,
            },
            alpha_powers@ == descending_powers(*alpha, air.constraint_count()),
            values@ == quotient_values::<SC, A>(air, sel, main, aux, *alpha, size as nat).take(
                i as int,
            ),
        decreases size - i,
    {
        let next: usize = (i + 1) % size;
        let main_local: Vec<SC::Challenge> = lift_row::<SC::Val, SC::Challenge>(
            &main_on_quotient.row_vec(i),
        );
        let main_next: Vec<SC::Challenge> = lift_row::<SC::Val, SC::Challenge>(
            &main_on_quotient.row_vec(next),
        );
        let mut aux_local: Vec<SC::Challenge> = Vec::new();
        let mut aux_next: Vec<SC::Challenge> = Vec::new();
        match aux_on_quotient {
            Some(m) => {
                let raw_local: Vec<SC::Challenge> = lift_row::<SC::Val, SC::Challenge>(
                    &m.row_vec(i),
                );
                let raw_next: Vec<SC::Challenge> = lift_row::<SC::Val, SC::Challenge>(
                    &m.row_vec(next),
                );
                aux_local = recombine_row::<SC::Val, SC::Challenge>(&raw_local, aux_width);
                aux_next = recombine_row::<SC::Val, SC::Challenge>(&raw_next, aux_width);
            },
            None => {},
        }
        let ghost ctx = prover_context::<SC>(sel, main, aux, air.aux_width_spec(), i as int, size as int);
        let mut folder: ProverFolder<'_, SC> = ProverFolder::new(
            main_local.as_slice(),
            main_next.as_slice(),
            aux_local.as_slice(),
            aux_next.as_slice(),
            SC::Challenge::lift(&selectors.is_first_row[i]),
            SC::Challenge::lift(&selectors.is_last_row[i]),
            SC::Challenge::lift(&selectors.is_transition[i]),
            alpha_powers.as_slice(),
        );
        proof {
            assert(folder.context().aux_local =~= ctx.aux_local);
            assert(folder.context().aux_next =~= ctx.aux_next);
            assert(folder.context() == ctx);
        }
        air.eval(&mut folder);
        proof {
            assert(folder.asserted() =~= air.constraints(ctx));
        }
        let constraints: SC::Challenge = folder.accumulator();
        let inv_vanishing: SC::Challenge = SC::Challenge::lift(&selectors.inv_vanishing[i]);
        let value: SC::Challenge = constraints.mul(&inv_vanishing);
        values.push(value);
        i += 1;
        assert(values@ =~= quotient_values::<SC, A>(air, sel, main, aux, *alpha, size as nat).take(
            i as int,
        ));
    }
    assert(quotient_values::<SC, A>(air, sel, main, aux, *alpha, size as nat).take(i as int)
        =~= quotient_values::<SC, A>(air, sel, main, aux, *alpha, size as nat));
    values
}

} // verus!

verus! {

/// Everything that a proving run commits to, draws and opens.
pub struct Run<SC: StarkConfig> {
    pub log_degree: nat,
    pub main_commit: SC::Commitment,
    pub main_data: SC::ProverData,
    pub challenges: Seq<SC::Challenge>,
    pub aux: Option<(SC::Commitment, SC::ProverData)>,
    pub alpha: SC::Challenge,
    pub quotient: Seq<SC::Challenge>,
    pub quotient_commits: Seq<SC::Commitment>,
    pub quotient_data: Seq<SC::ProverData>,
    pub zeta: SC::Challenge,
    pub zeta_next: SC::Challenge,
    pub opened: Seq<Seq<Seq<SC::Challenge>>>,
    pub opening_proof: SC::OpeningProof,
}

/// The challenges that a proving run drew.
pub struct Challenges<SC: StarkConfig> {
    /// The challenges that the auxiliary trace was built from; none where
    /// the computation has no such trace.
    pub challenges: Vec<SC::Challenge>,
    /// The scalar that combines the constraints.
    pub alpha: SC::Challenge,
    /// The out-of-domain point.
    pub zeta: SC::Challenge,
}

/// The auxiliary phase: where the computation has an auxiliary trace, draw
/// its challenges from a transcript with history `log`, build the trace,
/// and commit to its coordinates over the base field.
pub open spec fn aux_phase<SC: StarkConfig, A: MultiTraceAir<SC::Val, SC::Challenge>>(
    config: &SC,
    air: &A,
    trace_domain: SC::Domain,
    main: (Seq<SC::Val>, nat),
    log: Seq<TranscriptEvent<SC::Val, SC::Commitment>>,
) -> Result<(Seq<SC::Challenge>, Option<(SC::Commitment, SC::ProverData)>), ProveError> {
    if air.aux_width_spec() == 0 {
        Ok((Seq::empty(), None))
    } else {
        let challenges = challenges_drawn(config, log, air.num_challenges_spec());
        let aux = air.aux_trace_spec(main.0, main.1, challenges);
        if aux.1 != air.aux_width_spec() || rows_of(aux.0.len(), aux.1) != rows_of(
            main.0.len(),
            main.1,
        ) {
            Err(ProveError::AuxTraceShape)
        } else {
            match flat_table::<SC::Val, SC::Challenge>(aux.0, aux.1) {
                None => Err(ProveError::AuxTraceShape),
                Some(flat) => match config.commit_spec(trace_domain, flat.0, flat.1) {
                    None => Err(ProveError::CommitFailed),
                    Some(committed) => Ok((challenges, Some(committed))),
                },
            }
        }
    }
}

/// The quotient phase: evaluate both traces over the quotient domain and
/// compute the quotient there.
pub open spec fn quotient_phase<SC: StarkConfig, A: MultiTraceAir<SC::Val, SC::Challenge>>(
    config: &SC,
    air: &A,
    trace_domain: SC::Domain,
    quotient_domain: SC::Domain,
    main_data: SC::ProverData,
    aux_data: Option<SC::ProverData>,
    alpha: SC::Challenge,
) -> Result<Seq<SC::Challenge>, ProveError> {
    let size = config.domain_size_spec(quotient_domain);
    let main = config.evaluations_spec(main_data, quotient_domain);
    let aux = match aux_data {
        Some(d) => Some(config.evaluations_spec(d, quotient_domain)),
        None => None,
    };
    let aux_fits = match aux {
        Some(t) => t.1 == air.aux_width_spec() * SC::Challenge::dimension_spec() && rows_of(
            t.0.len(),
            t.1,
        ) == size,
        None => true,
    };
    if main.1 != air.width_spec() || rows_of(main.0.len(), main.1) != size || !aux_fits {
        Err(ProveError::EvaluationShape)
    } else {
        Ok(
            quotient_values::<SC, A>(
                air,
                config.selectors_on_spec(trace_domain, quotient_domain),
                main,
                aux,
                alpha,
                size,
            ),
        )
    }
}

/// What committing to chunk `i` of the flattened quotient returns.
pub open spec fn chunk_commit<SC: StarkConfig>(
    config: &SC,
    quotient_domain: SC::Domain,
    flat: (Seq<SC::Val>, nat),
    i: int,
) -> Option<(SC::Commitment, SC::ProverData)> {
    config.commit_spec(
        config.split_domains_spec(quotient_domain, QUOTIENT_DEGREE as nat)[i],
        config.split_evals_spec(quotient_domain, QUOTIENT_DEGREE as nat, flat.0, flat.1)[i],
        flat.1,
    )
}

/// The chunk phase: split the quotient, as one column flattened to its
/// coordinates, into [`QUOTIENT_DEGREE`] chunks and commit to each.
pub open spec fn chunk_phase<SC: StarkConfig>(
    config: &SC,
    quotient_domain: SC::Domain,
    quotient: Seq<SC::Challenge>,
) -> Result<(Seq<SC::Commitment>, Seq<SC::ProverData>), ProveError> {
    match flat_table::<SC::Val, SC::Challenge>(quotient, 1) {
        None => Err(ProveError::EvaluationShape),
        Some(flat) => if rows_of(flat.0.len(), flat.1) != config.domain_size_spec(
            quotient_domain,
        ) {
            Err(ProveError::EvaluationShape)
        } else if exists|i: int|
            0 <= i < QUOTIENT_DEGREE && (#[trigger] chunk_commit(config, quotient_domain, flat, i))
                is None {
            Err(ProveError::CommitFailed)
        } else {
            Ok(
                (
                    Seq::new(
                        QUOTIENT_DEGREE as nat,
                        |i: int| chunk_commit(config, quotient_domain, flat, i).unwrap().0,
                    ),
                    Seq::new(
                        QUOTIENT_DEGREE as nat,
                        |i: int| chunk_commit(config, quotient_domain, flat, i).unwrap().1,
                    ),
                ),
            )
        },
    }
}

/// What is opened: the main trace and, where there is one, the auxiliary
/// trace at the point and the one after it, then each chunk at the point.
pub open spec fn opening_requests<SC: StarkConfig>(
    main_data: SC::ProverData,
    aux_data: Option<SC::ProverData>,
    quotient_data: Seq<SC::ProverData>,
    zeta: SC::Challenge,
    zeta_next: SC::Challenge,
) -> Seq<(SC::ProverData, Seq<SC::Challenge>)> {
    let main = seq![(main_data, seq![zeta, zeta_next])];
    let aux = match aux_data {
        Some(d) => seq![(d, seq![zeta, zeta_next])],
        None => Seq::empty(),
    };
    let chunks = Seq::new(quotient_data.len(), |i: int| (quotient_data[i], seq![zeta]));
    main + aux + chunks
}

} // verus!

verus! {

/// The exponent of the power of two `n`.
pub open spec fn log2_of(n: nat) -> nat {
    choose|k: nat| n == #[trigger] pow2(k)
}

/// The commitment of a committed table, where there is one.
pub open spec fn commitment_of<C, D>(committed: Option<(C, D)>) -> Option<C> {
    match committed {
        Some(c) => Some(c.0),
        None => None,
    }
}

/// The prover data of a committed table, where there is one.
pub open spec fn data_of<C, D>(committed: Option<(C, D)>) -> Option<D> {
    match committed {
        Some(c) => Some(c.1),
        None => None,
    }
}

/// The history of the prover's transcript when it draws the out-of-domain
/// point: as the auxiliary phase left it, then the draw of `alpha`, then
/// every quotient commitment.
pub open spec fn prover_log<V, C>(
    main_commit: C,
    public_values: Seq<V>,
    aux_commit: Option<C>,
    num_challenges: nat,
    quotient_commits: Seq<C>,
) -> Seq<TranscriptEvent<V, C>> {
    log_after_aux(main_commit, public_values, aux_commit, num_challenges).push(
        TranscriptEvent::Sample,
    ) + commitments_observed(quotient_commits)
}

/// What a proving run does on a main trace, given as its entries and its
/// number of columns, or why it produces no proof.
pub open spec fn run_spec<SC: StarkConfig, A: MultiTraceAir<SC::Val, SC::Challenge>>(
    config: &SC,
    air: &A,
    main: (Seq<SC::Val>, nat),
    public_values: Seq<SC::Val>,
) -> Result<Run<SC>, ProveError> {
    let log_degree = log2_of(rows_of(main.0.len(), main.1));
    let trace_domain = config.natural_domain_spec(log_degree);
    if log_degree > config.max_log_height_spec() || quotient_domain_spec(config, trace_domain)
        is None {
        Err(ProveError::UnsupportedHeight)
    } else {
        let quotient_domain = quotient_domain_spec(config, trace_domain).unwrap();
        match config.commit_spec(trace_domain, main.0, main.1) {
            None => Err(ProveError::CommitFailed),
            Some(committed_main) => {
                let log1 = log_after_main(committed_main.0, public_values);
                match aux_phase(config, air, trace_domain, main, log1) {
                    Err(e) => Err(e),
                    Ok(aux) => {
                        let log2 = log_after_aux(
                            committed_main.0,
                            public_values,
                            commitment_of(aux.1),
                            air.num_challenges_spec(),
                        );
                        let alpha = config.sample_spec(log2);
                        match quotient_phase(
                            config,
                            air,
                            trace_domain,
                            quotient_domain,
                            committed_main.1,
                            data_of(aux.1),
                            alpha,
                        ) {
                            Err(e) => Err(e),
                            Ok(quotient) => match chunk_phase(config, quotient_domain, quotient) {
                                Err(e) => Err(e),
                                Ok(chunks) => {
                                    let log4 = prover_log(
                                        committed_main.0,
                                        public_values,
                                        commitment_of(aux.1),
                                        air.num_challenges_spec(),
                                        chunks.0,
                                    );
                                    let zeta = config.sample_spec(log4);
                                    let zeta_next = config.next_point_spec(
                                        trace_domain,
                                        zeta,
                                    ).unwrap();
                                    match config.open_spec(
                                        opening_requests::<SC>(
                                            committed_main.1,
                                            data_of(aux.1),
                                            chunks.1,
                                            zeta,
                                            zeta_next,
                                        ),
                                        log4.push(TranscriptEvent::Sample),
                                    ) {
                                        None => Err(ProveError::OpeningFailed),
                                        Some(opened) => Ok(
                                            Run {
                                                log_degree,
                                                main_commit: committed_main.0,
                                                main_data: committed_main.1,
                                                challenges: aux.0,
                                                aux: aux.1,
                                                alpha,
                                                quotient,
                                                quotient_commits: chunks.0,
                                                quotient_data: chunks.1,
                                                zeta,
                                                zeta_next,
                                                opened: opened.0,
                                                opening_proof: opened.1,
                                            },
                                        ),
                                    }
                                },
                            },
                        }
                    },
                }
            },
        }
    }
}

/// The proof that a run assembles from what it committed to and opened.
pub open spec fn proof_of<SC: StarkConfig>(run: Run<SC>) -> crate::proof_data::ProofContents<SC> {
    let first_chunk: int = if run.aux is Some {
        2
    } else {
        1
    };
    crate::proof_data::ProofContents {
        main_commit: run.main_commit,
        aux_commit: commitment_of(run.aux),
        quotient_commits: run.quotient_commits,
        main_local: run.opened[0][0],
        main_next: run.opened[0][1],
        aux_local: if run.aux is Some {
            run.opened[1][0]
        } else {
            Seq::empty()
        },
        aux_next: if run.aux is Some {
            run.opened[1][1]
        } else {
            Seq::empty()
        },
        quotient_chunks: Seq::new(
            run.quotient_commits.len(),
            |i: int| run.opened[first_chunk + i][0],
        ),
        opening_proof: run.opening_proof,
        log_degree: run.log_degree as u8,
    }
}

/// Runs the auxiliary phase; see [`aux_phase`].
fn commit_aux<SC, A>(
    config: &SC,
    air: &A,
    trace_domain: &SC::Domain,
    main_trace: &Matrix<SC::Val>,
    challenger: &mut SC::Challenger,
    Ghost(main_commit): Ghost<SC::Commitment>,
    Ghost(public_values): Ghost<Seq<SC::Val>>,
) -> (r: Result<(Vec<SC::Challenge>, Option<(SC::Commitment, SC::ProverData)>), ProveError>) where
    SC: StarkConfig,
    A: MultiTraceAir<SC::Val, SC::Challenge>,

    requires
        SC::transcript(old(challenger)) == log_after_main(main_commit, public_values),
        main_trace.cols() == air.width_spec(),
    ensures
        match r {
            Ok(done) => {
                &&& aux_phase(
                    config,
                    air,
                    *trace_domain,
                    (main_trace.entries(), main_trace.cols()),
                    log_after_main(main_commit, public_values),
                ) == Ok::<_, ProveError>((done.0@, done.1))
                &&& SC::transcript(final(challenger)) == log_after_aux(
                    main_commit,
                    public_values,
                    commitment_of(done.1),
                    air.num_challenges_spec(),
                )
                &&& done.1 is Some <==> air.aux_width_spec() > 0
            },
            Err(e) => aux_phase(
                config,
                air,
                *trace_domain,
                (main_trace.entries(), main_trace.cols()),
                log_after_main(main_commit, public_values),
            ) == Err::<(Seq<SC::Challenge>, Option<(SC::Commitment, SC::ProverData)>), _>(e),
        },
{
    if air.aux_width() == 0 {
        return Ok((Vec::new(), None));
    }
    let challenges: Vec<SC::Challenge> = sample_challenges(
        config,
        challenger,
        air.num_challenges(),
    );
    let aux_trace: Matrix<SC::Challenge> = air.build_aux_trace(main_trace, &challenges);
    if aux_trace.width() != air.aux_width() || aux_trace.height() != main_trace.height() {
        return Err(ProveError::AuxTraceShape);
    }
    let flat: Matrix<SC::Val> = match flatten_matrix::<SC::Val, SC::Challenge>(&aux_trace) {
        Some(f) => f,
        None => {
            return Err(ProveError::AuxTraceShape);
        },
    };
    match config.commit(trace_domain, &flat) {
        None => Err(ProveError::CommitFailed),
        Some(committed) => {
            config.observe_commitment(challenger, &committed.0);
            Ok((challenges, Some(committed)))
        },
    }
}

/// Runs the quotient phase; see [`quotient_phase`].
fn evaluate_quotient<SC, A>(
    config: &SC,
    air: &A,
    trace_domain: &SC::Domain,
    quotient_domain: &SC::Domain,
    main_data: &SC::ProverData,
    aux_data: Option<&SC::ProverData>,
    alpha: &SC::Challenge,
) -> (r: Result<Vec<SC::Challenge>, ProveError>) where
    SC: StarkConfig,
    A: MultiTraceAir<SC::Val, SC::Challenge>,

    requires
        domains_fit(config, *trace_domain, *quotient_domain),
        aux_data is Some <==> air.aux_width_spec() > 0,
    ensures
        match r {
            Ok(values) => quotient_phase(
                config,
                air,
                *trace_domain,
                *quotient_domain,
                *main_data,
                match aux_data {
                    Some(d) => Some(*d),
                    None => None,
                },
                *alpha,
            ) == Ok::<_, ProveError>(values@),
            Err(e) => quotient_phase(
                config,
                air,
                *trace_domain,
                *quotient_domain,
                *main_data,
                match aux_data {
                    Some(d) => Some(*d),
                    None => None,
                },
                *alpha,
            ) == Err::<Seq<SC::Challenge>, _>(e),
        },
{
    let size: usize = config.domain_size(quotient_domain);
    let main_on_quotient: Matrix<SC::Val> = config.evaluations_on_domain(
        main_data,
        quotient_domain,
    );
    if main_on_quotient.width() != air.width() || main_on_quotient.height() != size {
        return Err(ProveError::EvaluationShape);
    }
    match aux_data {
        Some(data) => {
            let aux_on_quotient: Matrix<SC::Val> = config.evaluations_on_domain(
                data,
                quotient_domain,
            );
            let dim: usize = SC::Challenge::dimension();
            let aux_width: usize = air.aux_width();
            let cols: usize = aux_on_quotient.width();
            if cols % dim != 0 || cols / dim != aux_width || aux_on_quotient.height() != size {
                proof {
                    let (c, d, w) = (cols as int, dim as int, aux_width as int);
                    if c == w * d {
                        assert((w * d) % d == 0 && (w * d) / d == w) by (nonlinear_arith)
                            requires
                                d >= 1,
                                w >= 0,
                        ;
                    }
                }
                return Err(ProveError::EvaluationShape);
            }
            proof {
                let (c, d, w) = (cols as int, dim as int, aux_width as int);
                assert(c == w * d) by (nonlinear_arith)
                    requires
                        d >= 1,
                        c % d == 0,
                        c / d == w,
                ;
            }
            Ok(
                compute_quotient_values(
                    config,
                    air,
                    trace_domain,
                    quotient_domain,
                    &main_on_quotient,
                    Some(&aux_on_quotient),
                    alpha,
                ),
            )
        },
        None => Ok(
            compute_quotient_values(
                config,
                air,
                trace_domain,
                quotient_domain,
                &main_on_quotient,
                None,
                alpha,
            ),
        ),
    }
}

/// Runs the chunk phase; see [`chunk_phase`].
fn commit_quotient_chunks<SC: StarkConfig>(
    config: &SC,
    quotient_domain: &SC::Domain,
    quotient: Vec<SC::Challenge>,
) -> (r: Result<(Vec<SC::Commitment>, Vec<SC::ProverData>), ProveError>)
    requires
        config.domain_size_spec(*quotient_domain) % (QUOTIENT_DEGREE as nat) == 0,
    ensures
        match r {
            Ok(done) => chunk_phase(config, *quotient_domain, quotient@) == Ok::<_, ProveError>(
                (done.0@, done.1@),
            ),
            Err(e) => chunk_phase(config, *quotient_domain, quotient@) == Err::<
                (Seq<SC::Commitment>, Seq<SC::ProverData>),
                _,
            >(e),
        },
{
    let ghost values = quotient@;
    let column: Matrix<SC::Challenge> = match Matrix::new(quotient, 1) {
        Some(m) => m,
        None => {
            proof {
                assert(false);
            }
            return Err(ProveError::EvaluationShape);
        },
    };
    let flat: Matrix<SC::Val> = match flatten_matrix::<SC::Val, SC::Challenge>(&column) {
        Some(f) => f,
        None => {
            return Err(ProveError::EvaluationShape);
        },
    };
    if flat.height() != config.domain_size(quotient_domain) {
        return Err(ProveError::EvaluationShape);
    }
    let ghost table = (flat.entries(), flat.cols());
    let parts: Vec<Matrix<SC::Val>> = config.split_evals(quotient_domain, QUOTIENT_DEGREE, &flat);
    let domains: Vec<SC::Domain> = config.split_domains(quotient_domain, QUOTIENT_DEGREE);
    let mut commits: Vec<SC::Commitment> = Vec::new();
    let mut data: Vec<SC::ProverData> = Vec::new();
    let mut i: usize = 0;
    while i < QUOTIENT_DEGREE
        invariant
            i <= QUOTIENT_DEGREE,
            parts@.len() == QUOTIENT_DEGREE,
            domains@.len() == QUOTIENT_DEGREE,
            domains@ == config.split_domains_spec(*quotient_domain, QUOTIENT_DEGREE as nat),
            parts@.map_values(|m: Matrix<SC::Val>| m.entries()) == config.split_evals_spec(
                *quotient_domain,
                QUOTIENT_DEGREE as nat,
                table.0,
                table.1,
            ),
            forall|j: int| 0 <= j < parts@.len() ==> (#[trigger] parts@[j]).cols() == table.1,
            values == quotient@,
            flat_table::<SC::Val, SC::Challenge>(values, 1) == Some(table),
            rows_of(table.0.len(), table.1) == config.domain_size_spec(*quotient_domain),
            commits@.len() == i,
            data@.len() == i,
            forall|j: int|
                0 <= j < i ==> (#[trigger] chunk_commit(config, *quotient_domain, table, j))
                    == Some((commits@[j], data@[j])),
        decreases QUOTIENT_DEGREE - i,
    {
        proof {
            assert(parts@.map_values(|m: Matrix<SC::Val>| m.entries())[i as int]
                == parts@[i as int].entries());
        }
        match config.commit(&domains[i], &parts[i]) {
            None => {
                proof {
                    assert(chunk_commit(config, *quotient_domain, table, i as int) is None);
                }
                return Err(ProveError::CommitFailed);
            },
            Some(committed) => {
                commits.push(committed.0);
                data.push(committed.1);
            },
        }
        i += 1;
    }
    proof {
        let expected = chunk_phase(config, *quotient_domain, values);
        assert(expected is Ok);
        assert(expected.unwrap().0 =~= commits@);
        assert(expected.unwrap().1 =~= data@);
    }
    Ok((commits, data))
}

} // verus!

verus! {

/// A power of two has one exponent only.
pub proof fn lemma_log2_unique(k: nat, n: nat)
    requires
        n == pow2(k),
    ensures
        log2_of(n) == k,
{
    let c = log2_of(n);
    assert(n == pow2(c));
    if c < k {
        vstd::arithmetic::power2::lemma_pow2_strictly_increases(c, k);
    }
    if k < c {
        vstd::arithmetic::power2::lemma_pow2_strictly_increases(k, c);
    }
}

/// Opens every committed table at the out-of-domain point, and the two
/// traces at the point after it as well; see [`opening_requests`].
fn open_all<SC: StarkConfig>(
    config: &SC,
    main_data: &SC::ProverData,
    aux_data: Option<&SC::ProverData>,
    quotient_data: &Vec<SC::ProverData>,
    zeta: SC::Challenge,
    zeta_next: SC::Challenge,
    challenger: &mut SC::Challenger,
) -> (r: Option<(Vec<Vec<Vec<SC::Challenge>>>, SC::OpeningProof)>)
    ensures
        match r {
            Some(opened) => {
                &&& config.open_spec(
                    opening_requests::<SC>(
                        *main_data,
                        match aux_data {
                            Some(d) => Some(*d),
                            None => None,
                        },
                        quotient_data@,
                        zeta,
                        zeta_next,
                    ),
                    SC::transcript(old(challenger)),
                ) == Some((tables_view(opened.0@), opened.1))
                &&& opened.0@.len() == 1 + (if aux_data is Some {
                    1int
                } else {
                    0int
                }) + quotient_data@.len()
                &&& opened.0@[0]@.len() == 2
                &&& aux_data is Some ==> opened.0@[1]@.len() == 2
                &&& forall|i: int|
                    0 <= i < quotient_data@.len() ==> (#[trigger] opened.0@[opened.0@.len()
                        - quotient_data@.len() + i])@.len() == 1
            },
            None => config.open_spec(
                opening_requests::<SC>(
                    *main_data,
                    match aux_data {
                        Some(d) => Some(*d),
                        None => None,
                    },
                    quotient_data@,
                    zeta,
                    zeta_next,
                ),
                SC::transcript(old(challenger)),
            ) is None,
        },
{
    let ghost expected = opening_requests::<SC>(
        *main_data,
        match aux_data {
            Some(d) => Some(*d),
            None => None,
        },
        quotient_data@,
        zeta,
        zeta_next,
    );
    let mut requests: Vec<OpeningRequest<'_, SC::ProverData, SC::Challenge>> = Vec::new();
    let mut both: Vec<SC::Challenge> = Vec::new();
    both.push(zeta);
    both.push(zeta_next);
    match aux_data {
        Some(data) => {
            let mut again: Vec<SC::Challenge> = Vec::new();
            again.push(zeta);
            again.push(zeta_next);
            requests.push(OpeningRequest { data: main_data, points: both });
            requests.push(OpeningRequest { data, points: again });
        },
        None => {
            requests.push(OpeningRequest { data: main_data, points: both });
        },
    }
    let ghost head = requests@;
    assert(requests_view(head) =~= expected.take(head.len() as int)) by {
        assert forall|i: int| 0 <= i < head.len() implies requests_view(head)[i] == expected[i] by {
            assert(head[i].points@ =~= expected[i].1);
        }
    }
    let mut i: usize = 0;
    while i < quotient_data.len()
        invariant
            i <= quotient_data@.len(),
            1 <= head.len() <= 2,
            head.len() == 1 + (if aux_data is Some {
                1int
            } else {
                0int
            }),
            forall|j: int| 0 <= j < head.len() ==> (#[trigger] requests@[j]).points@.len() == 2,
            forall|j: int|
                head.len() <= j < requests@.len() ==> (#[trigger] requests@[j]).points@.len() == 1,
            expected.len() == head.len() + quotient_data@.len(),
            expected == opening_requests::<SC>(
                *main_data,
                match aux_data {
                    Some(d) => Some(*d),
                    None => None,
                },
                quotient_data@,
                zeta,
                zeta_next,
            ),
            requests@.len() == head.len() + i,
            requests_view(requests@) =~= expected.take(head.len() + i),
        decreases quotient_data@.len() - i,
    {
        let mut point: Vec<SC::Challenge> = Vec::new();
        point.push(zeta);
        let ghost before = requests@;
        requests.push(OpeningRequest { data: &quotient_data[i], points: point });
        i += 1;
        proof {
            let k = head.len() + i - 1;
            assert(requests@[k].points@ =~= expected[k].1);
            assert forall|j: int| 0 <= j < requests@.len() implies requests_view(requests@)[j]
                == expected.take(head.len() + i)[j] by {
                if j < k {
                    assert(requests@[j] == before[j]);
                    assert(requests_view(before)[j] == expected.take(k)[j]);
                }
            }
            assert forall|j: int| 0 <= j < head.len() implies (#[trigger] requests@[j]).points@.len()
                == 2 by {
                assert(requests@[j] == before[j]);
            }
            assert forall|j: int| head.len() <= j < requests@.len() implies (
            #[trigger] requests@[j]).points@.len() == 1 by {
                if j < k {
                    assert(requests@[j] == before[j]);
                }
            }
        }
    }
    assert(expected.take(head.len() + i) =~= expected);
    let ghost asked = requests@;
    let opened = config.open(requests, challenger);
    proof {
        if opened is Some {
            let values = opened->Some_0.0@;
            assert forall|j: int| 0 <= j < quotient_data@.len() implies (#[trigger] values[values.len()
                - quotient_data@.len() + j])@.len() == 1 by {
                let at = values.len() - quotient_data@.len() + j;
                assert(values[at]@.len() == asked[at].points@.len());
            }
        }
    }
    opened
}

/// Proves that `main_trace` satisfies the constraints of `air`, and hands
/// back the challenges that were drawn on the way.
///
/// The transcript observes the main commitment and the public values; where
/// the computation has an auxiliary trace, the challenges are drawn, the
/// trace is built and committed to, and its commitment is observed; `alpha`
/// is drawn; the quotient is computed, split and committed to, and every
/// chunk commitment is observed; the out-of-domain point is drawn; and
/// everything is opened.
pub fn prove_with_challenges<SC, A>(
    config: &SC,
    air: &A,
    main_trace: Matrix<SC::Val>,
    public_values: &[SC::Val],
) -> (r: Result<(Proof<SC>, Challenges<SC>), ProveError>) where
    SC: StarkConfig,
    A: MultiTraceAir<SC::Val, SC::Challenge>,

    requires
        main_trace.cols() == air.width_spec(),
        is_power_of_two(main_trace.rows()),
    ensures
        match r {
            Ok(done) => {
                &&& run_spec(
                    config,
                    air,
                    (main_trace.entries(), main_trace.cols()),
                    public_values@,
                ) matches Ok(run) && {
                    &&& done.0.contents() == proof_of(run)
                    &&& done.1.challenges@ == run.challenges
                    &&& done.1.alpha == run.alpha
                    &&& done.1.zeta == run.zeta
                }
                &&& done.0.aux_commit is Some <==> air.aux_width_spec() > 0
                &&& done.0.quotient_commits@.len() == QUOTIENT_DEGREE
                &&& done.0.quotient_chunks@.len() == QUOTIENT_DEGREE
            },
            Err(e) => run_spec(
                config,
                air,
                (main_trace.entries(), main_trace.cols()),
                public_values@,
            ) == Err::<Run<SC>, _>(e),
        },
{
    let ghost main = (main_trace.entries(), main_trace.cols());
    let height: usize = main_trace.height();
    let log_degree: usize = log2_strict(height);
    proof {
        lemma_log2_unique(log_degree as nat, height as nat);
    }
    if log_degree > config.max_log_height() {
        return Err(ProveError::UnsupportedHeight);
    }
    let trace_domain: SC::Domain = config.natural_domain(log_degree);
    let quotient_domain: SC::Domain = match quotient_domain(config, &trace_domain) {
        Some(q) => q,
        None => {
            return Err(ProveError::UnsupportedHeight);
        },
    };
    let mut challenger: SC::Challenger = config.challenger();

    let (main_commit, main_data) = match config.commit(&trace_domain, &main_trace) {
        Some(committed) => committed,
        None => {
            return Err(ProveError::CommitFailed);
        },
    };
    config.observe_commitment(&mut challenger, &main_commit);
    observe_values(config, &mut challenger, public_values);
    assert(SC::transcript(&challenger) =~= log_after_main(main_commit, public_values@));

    let (challenges, aux) = match commit_aux(
        config,
        air,
        &trace_domain,
        &main_trace,
        &mut challenger,
        Ghost(main_commit),
        Ghost(public_values@),
    ) {
        Ok(done) => done,
        Err(e) => {
            return Err(e);
        },
    };
    let (aux_commit, aux_data) = match aux {
        Some(committed) => (Some(committed.0), Some(committed.1)),
        None => (None, None),
    };

    let alpha: SC::Challenge = config.sample(&mut challenger);
    let quotient: Vec<SC::Challenge> = match evaluate_quotient(
        config,
        air,
        &trace_domain,
        &quotient_domain,
        &main_data,
        aux_data.as_ref(),
        &alpha,
    ) {
        Ok(values) => values,
        Err(e) => {
            return Err(e);
        },
    };
    let ghost quotient_seq = quotient@;
    proof {
        let n = config.domain_size_spec(trace_domain);
        assert((n * QUOTIENT_DEGREE) % (QUOTIENT_DEGREE as int) == 0) by (nonlinear_arith);
    }
    let (quotient_commits, quotient_data) = match commit_quotient_chunks(
        config,
        &quotient_domain,
        quotient,
    ) {
        Ok(done) => done,
        Err(e) => {
            return Err(e);
        },
    };
    observe_commitments(config, &mut challenger, &quotient_commits);
    assert(SC::transcript(&challenger) =~= prover_log(
        main_commit,
        public_values@,
        aux_commit,
        air.num_challenges_spec(),
        quotient_commits@,
    ));

    let zeta: SC::Challenge = config.sample(&mut challenger);
    let zeta_next: SC::Challenge = match config.next_point(&trace_domain, &zeta) {
        Some(z) => z,
        None => {
            proof {
                assert(false);
            }
            return Err(ProveError::UnsupportedHeight);
        },
    };
    let (opened, opening_proof) = match open_all(
        config,
        &main_data,
        aux_data.as_ref(),
        &quotient_data,
        zeta,
        zeta_next,
        &mut challenger,
    ) {
        Some(o) => o,
        None => {
            return Err(ProveError::OpeningFailed);
        },
    };

    let main_local: Vec<SC::Challenge> = crate::util::copy_of(&opened[0][0]);
    let main_next: Vec<SC::Challenge> = crate::util::copy_of(&opened[0][1]);
    let mut aux_local: Vec<SC::Challenge> = Vec::new();
    let mut aux_next: Vec<SC::Challenge> = Vec::new();
    let mut first_chunk: usize = 1;
    if aux_data.is_some() {
        aux_local = crate::util::copy_of(&opened[1][0]);
        aux_next = crate::util::copy_of(&opened[1][1]);
        first_chunk = 2;
    }
    let mut quotient_chunks: Vec<Vec<SC::Challenge>> = Vec::new();
    let mut i: usize = 0;
    while i < QUOTIENT_DEGREE
        invariant
            i <= QUOTIENT_DEGREE,
            1 <= first_chunk <= 2,
            opened@.len() == first_chunk + QUOTIENT_DEGREE,
            quotient_data@.len() == QUOTIENT_DEGREE,
            forall|j: int|
                0 <= j < quotient_data@.len() ==> (#[trigger] opened@[opened@.len()
                    - quotient_data@.len() + j])@.len() == 1,
            quotient_chunks@.len() == i,
            forall|j: int|
                0 <= j < i ==> (#[trigger] quotient_chunks@[j])@ == opened@[first_chunk + j]@[0]@,
        decreases QUOTIENT_DEGREE - i,
    {
        assert(opened@[opened@.len() - quotient_data@.len() + i]@.len() == 1);
        quotient_chunks.push(crate::util::copy_of(&opened[first_chunk + i][0]));
        i += 1;
    }
    let proof_out: Proof<SC> = Proof {
        main_commit,
        aux_commit,
        quotient_commits,
        main_local,
        main_next,
        aux_local,
        aux_next,
        quotient_chunks,
        opening_proof,
        log_degree: log_degree as u8,
    };
    proof {
        let run = run_spec(config, air, main, public_values@);
        assert(run is Ok);
        let run = run->Ok_0;
        assert(run.opened == tables_view(opened@));
        assert forall|j: int| 0 <= j < QUOTIENT_DEGREE implies proof_out.contents().quotient_chunks[j]
            == proof_of(run).quotient_chunks[j] by {
            assert(opened@[opened@.len() - quotient_data@.len() + j]@.len() == 1);
            assert(opened@.len() - quotient_data@.len() + j == first_chunk + j);
            assert(quotient_chunks@[j]@ == opened@[first_chunk + j]@[0]@);
            assert(tables_view(opened@)[first_chunk + j] == crate::config::rows_view(
                opened@[first_chunk + j]@,
            ));
            assert(run.aux is Some <==> aux_data is Some);
            assert(run.quotient_commits.len() == QUOTIENT_DEGREE);
            assert(proof_out.contents().quotient_chunks[j] == quotient_chunks@[j]@);
            assert(proof_of(run).quotient_chunks[j] == run.opened[first_chunk + j][0]);
        }
        assert(proof_out.contents().quotient_chunks =~= proof_of(run).quotient_chunks);
        assert(proof_out.contents().main_local =~= proof_of(run).main_local);
        assert(proof_out.contents().aux_local =~= proof_of(run).aux_local);
        assert(proof_out.contents().aux_next =~= proof_of(run).aux_next);
    }
    Ok((proof_out, Challenges { challenges, alpha, zeta }))
}

/// Proves that `main_trace`, and the auxiliary trace that `air` builds from
/// it, satisfy the constraints of `air`; see [`prove_with_challenges`].
pub fn prove<SC, A>(
    config: &SC,
    air: &A,
    main_trace: Matrix<SC::Val>,
    public_values: &[SC::Val],
) -> (r: Result<Proof<SC>, ProveError>) where
    SC: StarkConfig,
    A: MultiTraceAir<SC::Val, SC::Challenge>,

    requires
        main_trace.cols() == air.width_spec(),
        is_power_of_two(main_trace.rows()),
    ensures
        match r {
            Ok(proof) => {
                &&& run_spec(
                    config,
                    air,
                    (main_trace.entries(), main_trace.cols()),
                    public_values@,
                ) matches Ok(run) && proof.contents() == proof_of(run)
                &&& proof.aux_commit is Some <==> air.aux_width_spec() > 0
                &&& proof.quotient_commits@.len() == QUOTIENT_DEGREE
                &&& proof.quotient_chunks@.len() == QUOTIENT_DEGREE
            },
            Err(e) => run_spec(
                config,
                air,
                (main_trace.entries(), main_trace.cols()),
                public_values@,
            ) == Err::<Run<SC>, _>(e),
        },
{
    match prove_with_challenges(config, air, main_trace, public_values) {
        Ok(done) => Ok(done.0),
        Err(e) => Err(e),
    }
}

} // verus!
