use std::marker::PhantomData;

use p3_challenger::{CanObserve, CanSample, DuplexChallenger};
use p3_commit::testing::{eval_coeffs_at_pt, TrivialPcs};
use p3_commit::{
    CommitmentOpening, MatrixOpening, Pcs, PointOpening, PolynomialSpace, UnivariateStarkPcs,
};
use p3_dft::Radix2Dit;
use p3_field::coset::TwoAdicMultiplicativeCoset;
use p3_field::{PrimeCharacteristicRing, PrimeField32};
use p3_matrix::dense::RowMajorMatrix;
use p3_matrix::Matrix as P3Matrix;
use p3_uni_stark_mt::baby_bear::{BabyBear, BABY_BEAR_PRIME};
use p3_uni_stark_mt::config::{OpeningClaim, OpeningRequest, Selectors};
use p3_uni_stark_mt::coset::Coset as LibCoset;
use p3_uni_stark_mt::duplex::DuplexTranscript;
use p3_uni_stark_mt::fibonacci::{fibonacci_trace, Fibonacci, FibonacciLogUp};
use p3_uni_stark_mt::list::List;
use p3_uni_stark_mt::transparent::TransparentConfig;
use p3_uni_stark_mt::folder::EvalContext;
use p3_uni_stark_mt::proving::Challenges;
use p3_uni_stark_mt::quotient::{reconstruct_quotient, QUOTIENT_DEGREE};
use p3_uni_stark_mt::verifying::{
    check_quotient_identity, check_structure, MISSING_AUX, UNEXPECTED_AUX, UNSUPPORTED_HEIGHT,
    WRONG_CHUNKS, WRONG_WIDTH,
};
use p3_uni_stark_mt::{
    prove, prove_with_challenges, verify, AuxBuilder, Field, Matrix, MultiTraceAir, Proof,
    ProveError, ProverFolder, StarkConfig, TranscriptEvent, VerificationError, VerifierFolder,
};
use vstd::prelude::nat;
use vstd::seq::Seq;

type F = p3_baby_bear::BabyBear;
type Perm = p3_baby_bear::Poseidon2BabyBear<16>;
type Transcript = DuplexChallenger<F, Perm, 16, 8>;
type Coset = TwoAdicMultiplicativeCoset<F>;
type Scheme = TrivialPcs<F, Radix2Dit<F>>;
type Commitment = Vec<Vec<F>>;
type ProverData = Vec<RowMajorMatrix<F>>;
type Event = TranscriptEvent<BabyBear, Commitment>;

fn to_p3(x: &BabyBear) -> F {
    F::new(x.as_canonical_u32())
}

fn from_p3(x: F) -> BabyBear {
    BabyBear::new(x.as_canonical_u32())
}

fn elems(values: &[u32]) -> Vec<BabyBear> {
    values.iter().map(|v| BabyBear::new(*v)).collect()
}

fn residues(values: &[BabyBear]) -> Vec<u32> {
    values.iter().map(|v| v.as_canonical_u32()).collect()
}

fn table(values: &[u32], width: usize) -> Matrix<BabyBear> {
    Matrix::new(elems(values), width).unwrap()
}

fn matrix_to_p3(m: &Matrix<BabyBear>) -> RowMajorMatrix<F> {
    RowMajorMatrix::new(m.values().iter().map(to_p3).collect(), m.width())
}

/// A configuration over the Baby Bear field, a commitment scheme that hands
/// out the coefficients of what it commits to, and a duplex sponge.
struct TestConfig {
    pcs: Scheme,
    max_log_height: usize,
    refuse_commit: bool,
    refuse_open: bool,
    skip_opening_check: bool,
}

impl TestConfig {
    fn new(log_height: usize) -> Self {
        TestConfig {
            pcs: TrivialPcs { dft: Radix2Dit::default(), log_n: log_height, _phantom: PhantomData },
            max_log_height: 20,
            refuse_commit: false,
            refuse_open: false,
            skip_opening_check: false,
        }
    }
}

impl StarkConfig for TestConfig {
    type Val = BabyBear;
    type Challenge = BabyBear;
    type Commitment = Commitment;
    type ProverData = ProverData;
    type OpeningProof = ();
    type Domain = Coset;
    type Challenger = Transcript;

    fn transcript(_ch: &Transcript) -> Seq<Event> {
        unreachable!()
    }

    fn sample_spec(&self, _log: Seq<Event>) -> BabyBear {
        unreachable!()
    }

    fn challenger(&self) -> Transcript {
        DuplexChallenger::new(p3_baby_bear::default_babybear_poseidon2_16())
    }

    fn observe_commitment(&self, ch: &mut Transcript, c: &Commitment) {
        for row in c {
            ch.observe_slice(row);
        }
    }

    fn observe_value(&self, ch: &mut Transcript, v: &BabyBear) {
        ch.observe(to_p3(v));
    }

    fn sample(&self, ch: &mut Transcript) -> BabyBear {
        let x: F = ch.sample();
        from_p3(x)
    }

    fn max_log_height_spec(&self) -> nat {
        unreachable!()
    }

    fn natural_domain_spec(&self, _log_height: nat) -> Coset {
        unreachable!()
    }

    fn domain_size_spec(&self, _d: Coset) -> nat {
        unreachable!()
    }

    fn disjoint_domain_spec(&self, _d: Coset, _min_size: nat) -> Option<Coset> {
        unreachable!()
    }

    fn split_domains_spec(&self, _d: Coset, _chunks: nat) -> Seq<Coset> {
        unreachable!()
    }

    fn split_evals_spec(
        &self,
        _d: Coset,
        _chunks: nat,
        _entries: Seq<BabyBear>,
        _cols: nat,
    ) -> Seq<Seq<BabyBear>> {
        unreachable!()
    }

    fn next_point_spec(&self, _d: Coset, _x: BabyBear) -> Option<BabyBear> {
        unreachable!()
    }

    fn vanishing_spec(&self, _d: Coset, _x: BabyBear) -> BabyBear {
        unreachable!()
    }

    fn selectors_at_spec(&self, _d: Coset, _x: BabyBear) -> Option<Selectors<BabyBear>> {
        unreachable!()
    }

    fn selectors_on_spec(&self, _d: Coset, _coset: Coset) -> Selectors<Seq<BabyBear>> {
        unreachable!()
    }

    fn max_log_height(&self) -> usize {
        self.max_log_height
    }

    fn natural_domain(&self, log_height: usize) -> Coset {
        Coset::new(F::ONE, log_height).unwrap()
    }

    fn domain_size(&self, d: &Coset) -> usize {
        d.size()
    }

    fn disjoint_domain(&self, d: &Coset, min_size: usize) -> Option<Coset> {
        d.try_create_disjoint_domain(min_size)
    }

    fn split_domains(&self, d: &Coset, chunks: usize) -> Vec<Coset> {
        d.split_domains(chunks)
    }

    fn split_evals(
        &self,
        d: &Coset,
        chunks: usize,
        evals: &Matrix<BabyBear>,
    ) -> Vec<Matrix<BabyBear>> {
        d.split_evals(chunks, matrix_to_p3(evals))
            .into_iter()
            .map(|m| {
                let width = m.width();
                Matrix::new(m.values.into_iter().map(from_p3).collect(), width).unwrap()
            })
            .collect()
    }

    fn next_point(&self, d: &Coset, x: &BabyBear) -> Option<BabyBear> {
        d.next_point(to_p3(x)).map(from_p3)
    }

    fn vanishing_at_point(&self, d: &Coset, x: &BabyBear) -> BabyBear {
        from_p3(d.vanishing_poly_at_point(to_p3(x)))
    }

    fn selectors_at_point(&self, d: &Coset, x: &BabyBear) -> Option<Selectors<BabyBear>> {
        if d.vanishing_poly_at_point(to_p3(x)) == F::ZERO {
            return None;
        }
        let s = d.selectors_at_point(to_p3(x));
        Some(Selectors {
            is_first_row: from_p3(s.is_first_row),
            is_last_row: from_p3(s.is_last_row),
            is_transition: from_p3(s.is_transition),
            inv_vanishing: from_p3(s.inv_vanishing),
        })
    }

    fn selectors_on_coset(&self, d: &Coset, coset: &Coset) -> Selectors<Vec<BabyBear>> {
        let s = d.selectors_on_coset(*coset);
        Selectors {
            is_first_row: s.is_first_row.into_iter().map(from_p3).collect(),
            is_last_row: s.is_last_row.into_iter().map(from_p3).collect(),
            is_transition: s.is_transition.into_iter().map(from_p3).collect(),
            inv_vanishing: s.inv_vanishing.into_iter().map(from_p3).collect(),
        }
    }

    fn commit_spec(
        &self,
        _d: Coset,
        _entries: Seq<BabyBear>,
        _cols: nat,
    ) -> Option<(Commitment, ProverData)> {
        unreachable!()
    }

    fn evaluations_spec(&self, _data: ProverData, _d: Coset) -> (Seq<BabyBear>, nat) {
        unreachable!()
    }

    fn open_spec(
        &self,
        _requests: Seq<(ProverData, Seq<BabyBear>)>,
        _log: Seq<Event>,
    ) -> Option<(Seq<Seq<Seq<BabyBear>>>, ())> {
        unreachable!()
    }

    fn verify_spec(
        &self,
        _claims: Seq<(Commitment, Coset, Seq<BabyBear>, Seq<Seq<BabyBear>>)>,
        _proof: (),
        _log: Seq<Event>,
    ) -> bool {
        unreachable!()
    }

    fn commit(&self, d: &Coset, evals: &Matrix<BabyBear>) -> Option<(Commitment, ProverData)> {
        if self.refuse_commit
            || d.log_size() < self.pcs.log_n
            || d.size() != evals.height()
            || evals.width() == 0
        {
            return None;
        }
        let committed =
            Pcs::<F, Transcript>::commit(&self.pcs, vec![(*d, matrix_to_p3(evals))]);
        committed.ok()
    }

    fn evaluations_on_domain(&self, data: &ProverData, d: &Coset) -> Matrix<BabyBear> {
        let m = UnivariateStarkPcs::<F, Transcript>::get_evaluations_on_domain(
            &self.pcs, data, 0, *d,
        );
        let width = m.width();
        Matrix::new(m.values.into_iter().map(from_p3).collect(), width).unwrap()
    }

    fn open(
        &self,
        requests: Vec<OpeningRequest<'_, ProverData, BabyBear>>,
        ch: &mut Transcript,
    ) -> Option<(Vec<Vec<Vec<BabyBear>>>, ())> {
        if self.refuse_open {
            return None;
        }
        let asked = requests
            .iter()
            .map(|r| p3_commit::OpeningRequest {
                prover_data: r.data,
                points: vec![r.points.iter().map(to_p3).collect()],
            })
            .collect();
        let (opened, proof) = Pcs::<F, Transcript>::open(&self.pcs, asked, ch).ok()?;
        let values = opened
            .into_iter()
            .map(|round| {
                round[0]
                    .iter()
                    .map(|at_point| at_point.iter().map(|v| from_p3(*v)).collect())
                    .collect()
            })
            .collect();
        Some((values, proof))
    }

    fn verify_openings(
        &self,
        claims: Vec<OpeningClaim<'_, Commitment, Coset, BabyBear>>,
        proof: &(),
        ch: &mut Transcript,
    ) -> bool {
        if self.skip_opening_check {
            return true;
        }
        let mut rounds = Vec::new();
        for claim in &claims {
            if claim.commitment.len() != 1 || claim.points.len() != claim.values.len() {
                return false;
            }
            let coeffs = &claim.commitment[0];
            let size = claim.domain.size();
            if coeffs.len() % size != 0 {
                return false;
            }
            let coeffs = RowMajorMatrix::new(coeffs.clone(), coeffs.len() / size);
            let mut points = Vec::new();
            for (point, values) in claim.points.iter().zip(claim.values.iter()) {
                let values: Vec<F> = values.iter().map(to_p3).collect();
                if eval_coeffs_at_pt(&coeffs, to_p3(point)) != values {
                    return false;
                }
                points.push(PointOpening { point: to_p3(point), values });
            }
            rounds.push(CommitmentOpening {
                commitment: claim.commitment.clone(),
                matrices: vec![MatrixOpening { domain: claim.domain, points }],
            });
        }
        Pcs::<F, Transcript>::verify(&self.pcs, rounds, proof, ch).is_ok()
    }
}

/// A computation of two columns that asserts nothing, with an optional
/// auxiliary column: the running sum of `c0 * a + c1 * b`.
struct Unconstrained {
    aux_width: usize,
    wrong_aux_shape: bool,
}

impl MultiTraceAir<BabyBear, BabyBear> for Unconstrained {
    fn width_spec(&self) -> nat {
        unreachable!()
    }

    fn aux_width_spec(&self) -> nat {
        unreachable!()
    }

    fn num_challenges_spec(&self) -> nat {
        unreachable!()
    }

    fn constraint_count(&self) -> nat {
        unreachable!()
    }

    fn aux_trace_spec(
        &self,
        _main: Seq<BabyBear>,
        _main_cols: nat,
        _challenges: Seq<BabyBear>,
    ) -> (Seq<BabyBear>, nat) {
        unreachable!()
    }

    fn constraints(&self, _ctx: EvalContext<BabyBear>) -> Seq<BabyBear> {
        unreachable!()
    }

    fn width(&self) -> usize {
        2
    }

    fn aux_width(&self) -> usize {
        self.aux_width
    }

    fn num_challenges(&self) -> usize {
        2
    }

    fn num_constraints(&self) -> usize {
        0
    }

    fn build_aux_trace(
        &self,
        main: &Matrix<BabyBear>,
        challenges: &Vec<BabyBear>,
    ) -> Matrix<BabyBear> {
        let mut sum = BabyBear::zero();
        let mut column = Vec::new();
        for r in 0..main.height() {
            let a = challenges[0].mul(&main.get(r, 0));
            let b = challenges[1].mul(&main.get(r, 1));
            sum = sum.add(&a.add(&b));
            column.push(sum);
        }
        if self.wrong_aux_shape {
            column.pop();
        }
        Matrix::new(column, 1).unwrap()
    }

    fn eval<B: AuxBuilder<EF = BabyBear>>(&self, _builder: &mut B) {}
}

/// The residues of the first `rows` rows of the Fibonacci trace.
fn fib(rows: usize) -> Vec<u32> {
    residues(fibonacci_trace::<BabyBear>(rows).values())
}

/// The folded constraints of the Fibonacci computation on rows `r` and
/// `r + 1` of a trace of `rows` rows, with the selectors of that row.
fn fibonacci_window(trace: &[u32], rows: usize, r: usize, alpha: u32) -> u32 {
    let local = elems(&trace[2 * r..2 * r + 2]);
    let next_row = (r + 1) % rows;
    let next = elems(&trace[2 * next_row..2 * next_row + 2]);
    let none: Vec<BabyBear> = Vec::new();
    let flag = |on: bool| BabyBear::new(if on { 1 } else { 0 });
    let mut folder: VerifierFolder<'_, TestConfig> = VerifierFolder::new(
        &local,
        &next,
        &none,
        &none,
        flag(r == 0),
        flag(r == rows - 1),
        flag(r != rows - 1),
        BabyBear::new(alpha),
    );
    MultiTraceAir::<BabyBear, BabyBear>::eval(&Fibonacci {}, &mut folder);
    folder.accumulator().as_canonical_u32()
}

fn honest(aux_width: usize, log_height: usize) -> (TestConfig, Unconstrained, Proof<TestConfig>) {
    let config = TestConfig::new(log_height);
    let air = Unconstrained { aux_width, wrong_aux_shape: false };
    let trace = table(&fib(1 << log_height), 2);
    let proof = prove(&config, &air, trace, &elems(&[7, 9])).unwrap();
    (config, air, proof)
}

/// The point that the verifier draws for a proof, and the scalar it draws
/// after it.
fn verifier_draws(
    config: &TestConfig,
    num_challenges: usize,
    proof: &Proof<TestConfig>,
    public: &[BabyBear],
) -> (BabyBear, BabyBear) {
    let mut ch = config.challenger();
    config.observe_commitment(&mut ch, &proof.main_commit);
    for v in public {
        config.observe_value(&mut ch, v);
    }
    if let Some(aux_commit) = &proof.aux_commit {
        for _ in 0..num_challenges {
            config.sample(&mut ch);
        }
        config.observe_commitment(&mut ch, aux_commit);
    }
    for c in &proof.quotient_commits {
        config.observe_commitment(&mut ch, c);
    }
    let zeta = config.sample(&mut ch);
    let alpha = config.sample(&mut ch);
    (zeta, alpha)
}

/// The committed table of `commitment` at `point`.
fn opened_at(commitment: &Commitment, size: usize, point: F) -> Vec<BabyBear> {
    let coeffs = RowMajorMatrix::new(commitment[0].clone(), commitment[0].len() / size);
    eval_coeffs_at_pt(&coeffs, point).into_iter().map(from_p3).collect()
}

/// The proof with everything opened at the point that the verifier draws.
fn reopened(
    config: &TestConfig,
    proof: &Proof<TestConfig>,
    public: &[BabyBear],
) -> Proof<TestConfig> {
    let (zeta, _) = verifier_draws(config, 2, proof, public);
    let zeta = to_p3(&zeta);
    let size = 1usize << proof.log_degree;
    let zeta_next = config.natural_domain(proof.log_degree as usize).next_point(zeta).unwrap();
    let aux = |point: F| match &proof.aux_commit {
        Some(c) => opened_at(c, size, point),
        None => Vec::new(),
    };
    Proof {
        main_commit: proof.main_commit.clone(),
        aux_commit: proof.aux_commit.clone(),
        quotient_commits: proof.quotient_commits.clone(),
        main_local: opened_at(&proof.main_commit, size, zeta),
        main_next: opened_at(&proof.main_commit, size, zeta_next),
        aux_local: aux(zeta),
        aux_next: aux(zeta_next),
        quotient_chunks: proof.quotient_commits.iter().map(|c| opened_at(c, size, zeta)).collect(),
        opening_proof: (),
        log_degree: proof.log_degree,
    }
}

/// A proof of the unconstrained computation that the opening check accepts.
fn accepted(aux_width: usize, log_height: usize) -> (TestConfig, Unconstrained, Proof<TestConfig>) {
    let (config, air, proof) = honest(aux_width, log_height);
    let proof = reopened(&config, &proof, &elems(&[7, 9]));
    (config, air, proof)
}

fn invalid(reason: &'static str) -> Option<&'static str> {
    Some(reason)
}

fn reason_of(r: Result<(), VerificationError>) -> Option<&'static str> {
    match r {
        Err(VerificationError::InvalidProof(reason)) => Some(reason),
        _ => None,
    }
}

#[test]
fn proof_without_aux_has_the_declared_shape() {
    let (_, _, proof) = honest(0, 3);
    assert!(proof.aux_commit.is_none());
    assert!(proof.aux_local.is_empty());
    assert!(proof.aux_next.is_empty());
    assert_eq!(proof.quotient_commits.len(), QUOTIENT_DEGREE);
    assert_eq!(proof.quotient_chunks.len(), 4);
    assert_eq!(proof.main_local.len(), 2);
    assert_eq!(proof.main_next.len(), 2);
    assert_eq!(proof.log_degree, 3);
}

#[test]
fn proof_with_aux_has_the_declared_shape() {
    let (_, _, proof) = honest(1, 3);
    assert!(proof.aux_commit.is_some());
    assert_eq!(proof.aux_local.len(), 1);
    assert_eq!(proof.aux_next.len(), 1);
    assert_eq!(proof.quotient_commits.len(), 4);
    assert_eq!(proof.quotient_chunks.len(), 4);
    assert!(proof.quotient_chunks.iter().all(|c| c.len() == 1));
}

#[test]
fn unconstrained_computation_verifies() {
    let (config, air, proof) = accepted(0, 3);
    let verdict = verify(&config, &air, &proof, &elems(&[7, 9]));
    assert!(verdict.is_ok(), "{:?}", verdict);
}

#[test]
fn unconstrained_computation_with_aux_verifies() {
    let (config, air, proof) = accepted(1, 3);
    let verdict = verify(&config, &air, &proof, &elems(&[7, 9]));
    assert!(verdict.is_ok(), "{:?}", verdict);
}

#[test]
fn other_public_values_are_rejected() {
    let (config, air, proof) = accepted(1, 3);
    let verdict = verify(&config, &air, &proof, &elems(&[7, 10]));
    assert!(matches!(verdict, Err(VerificationError::PcsVerificationFailed)), "{:?}", verdict);
}

#[test]
fn single_row_trace_is_proved_and_verified() {
    let (config, air, proof) = accepted(0, 0);
    assert_eq!(proof.log_degree, 0);
    let verdict = verify(&config, &air, &proof, &elems(&[7, 9]));
    assert!(verdict.is_ok(), "{:?}", verdict);
}

#[test]
fn identity_of_a_proved_unconstrained_computation_holds() {
    for aux_width in [0, 1] {
        let (mut config, air, proof) = honest(aux_width, 3);
        config.skip_opening_check = true;
        let verdict = verify(&config, &air, &proof, &elems(&[7, 9]));
        assert!(verdict.is_ok(), "{:?}", verdict);
    }
}

#[test]
fn verifier_draws_its_point_before_alpha() {
    // The prover draws alpha before it observes the quotient commitments,
    // the verifier after them and after its point: the two sides agree on
    // what is observed, not on what is drawn.
    let config = TestConfig::new(3);
    let air = Unconstrained { aux_width: 0, wrong_aux_shape: false };
    let public = elems(&[7, 9]);
    let trace = table(&fib(8), 2);
    let (proof, drawn) = prove_with_challenges(&config, &air, trace, &public).unwrap();
    let (zeta, alpha) = verifier_draws(&config, 2, &proof, &public);
    assert_ne!(drawn.alpha, alpha);
    assert_ne!(drawn.zeta, zeta);
    let verdict = verify(&config, &air, &proof, &public);
    assert!(matches!(verdict, Err(VerificationError::PcsVerificationFailed)), "{:?}", verdict);
}

#[test]
fn single_row_fibonacci_is_proved_without_division_by_zero() {
    let config = TestConfig::new(0);
    let proof = prove(&config, &Fibonacci {}, table(&[0, 1], 2), &[]).unwrap();
    assert_eq!(proof.log_degree, 0);
    assert_eq!(proof.quotient_commits.len(), 4);
    // On its only row, which is the last, the transition constraints are off.
    assert_eq!(fibonacci_window(&[0, 1], 1, 0, 5), 0);
    assert_eq!(fibonacci_window(&[0, 50], 1, 0, 5), 49 * 25);
}

#[test]
fn missing_aux_commitment_is_invalid() {
    let (config, _, proof) = honest(0, 3);
    let air = Unconstrained { aux_width: 1, wrong_aux_shape: false };
    let r = verify(&config, &air, &proof, &elems(&[7, 9]));
    assert_eq!(reason_of(r), invalid(MISSING_AUX));
    assert_eq!(MISSING_AUX, "AIR requires auxiliary trace but proof has none");
}

#[test]
fn unexpected_aux_commitment_is_invalid() {
    let (config, _, proof) = honest(1, 3);
    let air = Unconstrained { aux_width: 0, wrong_aux_shape: false };
    let r = verify(&config, &air, &proof, &elems(&[7, 9]));
    assert_eq!(reason_of(r), invalid(UNEXPECTED_AUX));
    assert_eq!(UNEXPECTED_AUX, "AIR has no auxiliary trace but proof includes one");
}

#[test]
fn aux_presence_is_checked_before_anything_else() {
    let (config, _, mut proof) = honest(0, 3);
    proof.log_degree = 200;
    proof.main_local.clear();
    proof.quotient_commits.clear();
    let air = Unconstrained { aux_width: 1, wrong_aux_shape: false };
    assert_eq!(check_structure(&config, &air, &proof), invalid(MISSING_AUX));
}

#[test]
fn unsupported_height_is_invalid() {
    let (config, air, mut proof) = honest(0, 3);
    proof.log_degree = 21;
    let r = verify(&config, &air, &proof, &elems(&[7, 9]));
    assert_eq!(reason_of(r), invalid(UNSUPPORTED_HEIGHT));
}

#[test]
fn wrong_opened_width_is_invalid() {
    let (config, air, mut proof) = honest(0, 3);
    proof.main_next.pop();
    let r = verify(&config, &air, &proof, &elems(&[7, 9]));
    assert_eq!(reason_of(r), invalid(WRONG_WIDTH));
}

#[test]
fn wrong_chunk_count_is_invalid() {
    let (config, air, mut proof) = honest(0, 3);
    proof.quotient_commits.pop();
    let r = verify(&config, &air, &proof, &elems(&[7, 9]));
    assert_eq!(reason_of(r), invalid(WRONG_CHUNKS));
    let (config, air, mut proof) = honest(0, 3);
    proof.quotient_chunks[2].push(BabyBear::new(0));
    let r = verify(&config, &air, &proof, &elems(&[7, 9]));
    assert_eq!(reason_of(r), invalid(WRONG_CHUNKS));
}

#[test]
fn tampered_opened_values_are_rejected_by_the_opening_check() {
    let bump = |v: &mut BabyBear| *v = v.add(&BabyBear::new(1));
    let rejected = |proof: &Proof<TestConfig>, config: &TestConfig, air: &Unconstrained| {
        matches!(
            verify(config, air, proof, &elems(&[7, 9])),
            Err(VerificationError::PcsVerificationFailed)
        )
    };
    let (config, air, proof) = accepted(1, 3);
    assert!(verify(&config, &air, &proof, &elems(&[7, 9])).is_ok());
    let (config, air, mut proof) = accepted(1, 3);
    bump(&mut proof.main_local[0]);
    assert!(rejected(&proof, &config, &air));
    let (config, air, mut proof) = accepted(1, 3);
    bump(&mut proof.main_next[1]);
    assert!(rejected(&proof, &config, &air));
    let (config, air, mut proof) = accepted(1, 3);
    bump(&mut proof.aux_local[0]);
    assert!(rejected(&proof, &config, &air));
    let (config, air, mut proof) = accepted(1, 3);
    bump(&mut proof.aux_next[0]);
    assert!(rejected(&proof, &config, &air));
    for chunk in 0..4 {
        let (config, air, mut proof) = accepted(1, 3);
        bump(&mut proof.quotient_chunks[chunk][0]);
        assert!(rejected(&proof, &config, &air));
    }
}

#[test]
fn tampered_quotient_chunk_breaks_the_identity() {
    for chunk in 0..4 {
        let (mut config, air, mut proof) = honest(0, 3);
        config.skip_opening_check = true;
        assert!(verify(&config, &air, &proof, &elems(&[7, 9])).is_ok());
        proof.quotient_chunks[chunk][0] = proof.quotient_chunks[chunk][0].add(&BabyBear::new(1));
        assert!(matches!(
            verify(&config, &air, &proof, &elems(&[7, 9])),
            Err(VerificationError::ConstraintVerificationFailed)
        ));
    }
}

#[test]
fn tampered_main_value_breaks_the_identity_of_a_constrained_computation() {
    let mut config = TestConfig::new(3);
    config.skip_opening_check = true;
    let none: Vec<BabyBear> = Vec::new();
    // With every chunk opened as zero the quotient is zero, so the proof is
    // accepted exactly when the folded constraints are zero.
    let zero_chunks = vec![elems(&[0]); 4];
    let (_, _, template) = honest(0, 3);
    let make = |local: &[u32], next: &[u32]| Proof::<TestConfig> {
        main_commit: template.main_commit.clone(),
        aux_commit: None,
        quotient_commits: template.quotient_commits.clone(),
        main_local: elems(local),
        main_next: elems(next),
        aux_local: none.clone(),
        aux_next: none.clone(),
        quotient_chunks: zero_chunks.clone(),
        opening_proof: (),
        log_degree: 3,
    };
    // Rows (0, 1) -> (1, 1) satisfy every constraint whatever the selectors are.
    assert!(verify(&config, &Fibonacci {}, &make(&[0, 1], &[1, 1]), &[]).is_ok());
    for (local, next) in [([5u32, 1u32], [1u32, 1u32]), ([0, 2], [2, 2]), ([0, 1], [7, 1]), ([0, 1], [1, 9])]
    {
        assert!(matches!(
            verify(&config, &Fibonacci {}, &make(&local, &next), &[]),
            Err(VerificationError::ConstraintVerificationFailed)
        ));
    }
}

#[test]
fn two_runs_draw_the_same_challenges() {
    let run = || -> (Proof<TestConfig>, Challenges<TestConfig>) {
        let config = TestConfig::new(3);
        let air = Unconstrained { aux_width: 1, wrong_aux_shape: false };
        let trace = table(&fib(8), 2);
        prove_with_challenges(&config, &air, trace, &elems(&[7, 9])).unwrap()
    };
    let (first, drawn_first) = run();
    let (second, drawn_second) = run();
    assert_eq!(drawn_first.challenges.len(), 2);
    assert_eq!(drawn_first.challenges, drawn_second.challenges);
    assert_eq!(drawn_first.alpha, drawn_second.alpha);
    assert_eq!(drawn_first.zeta, drawn_second.zeta);
    assert_eq!(first.main_commit, second.main_commit);
    assert_eq!(first.aux_commit, second.aux_commit);
    assert_eq!(first.quotient_commits, second.quotient_commits);
    assert_eq!(first.main_local, second.main_local);
    assert_eq!(first.aux_next, second.aux_next);
    assert_eq!(first.quotient_chunks, second.quotient_chunks);
}

#[test]
fn no_challenges_are_drawn_without_aux() {
    let config = TestConfig::new(3);
    let air = Unconstrained { aux_width: 0, wrong_aux_shape: false };
    let trace = table(&fib(8), 2);
    let (_, drawn) = prove_with_challenges(&config, &air, trace, &elems(&[7, 9])).unwrap();
    assert!(drawn.challenges.is_empty());
}

#[test]
fn challenges_follow_the_transcript() {
    let config = TestConfig::new(3);
    let air = Unconstrained { aux_width: 1, wrong_aux_shape: false };
    let public = elems(&[7, 9]);
    let trace = table(&fib(8), 2);
    let (proof, drawn) = prove_with_challenges(&config, &air, trace, &public).unwrap();

    let mut ch = config.challenger();
    config.observe_commitment(&mut ch, &proof.main_commit);
    for v in &public {
        config.observe_value(&mut ch, v);
    }
    let challenges = vec![config.sample(&mut ch), config.sample(&mut ch)];
    config.observe_commitment(&mut ch, proof.aux_commit.as_ref().unwrap());
    let alpha = config.sample(&mut ch);
    for c in &proof.quotient_commits {
        config.observe_commitment(&mut ch, c);
    }
    let zeta = config.sample(&mut ch);
    assert_eq!(drawn.challenges, challenges);
    assert_eq!(drawn.alpha, alpha);
    assert_eq!(drawn.zeta, zeta);
}

#[test]
fn public_values_change_the_challenges() {
    let run = |public: &[u32]| {
        let config = TestConfig::new(3);
        let air = Unconstrained { aux_width: 0, wrong_aux_shape: false };
        let trace = table(&fib(8), 2);
        prove_with_challenges(&config, &air, trace, &elems(public)).unwrap().1
    };
    assert_ne!(run(&[7, 9]).alpha, run(&[7, 10]).alpha);
    assert_ne!(run(&[7, 9]).zeta, run(&[9, 7]).zeta);
}

#[test]
fn opened_values_are_the_trace_polynomials_at_zeta() {
    let config = TestConfig::new(3);
    let air = Unconstrained { aux_width: 0, wrong_aux_shape: false };
    let trace = table(&fib(8), 2);
    let (proof, drawn) = prove_with_challenges(&config, &air, trace, &[]).unwrap();
    let domain = config.natural_domain(3);
    let coeffs = RowMajorMatrix::new(proof.main_commit[0].clone(), 2);
    let zeta = to_p3(&drawn.zeta);
    let zeta_next = domain.next_point(zeta).unwrap();
    let local: Vec<BabyBear> = eval_coeffs_at_pt(&coeffs, zeta).into_iter().map(from_p3).collect();
    let next: Vec<BabyBear> =
        eval_coeffs_at_pt(&coeffs, zeta_next).into_iter().map(from_p3).collect();
    assert_eq!(proof.main_local, local);
    assert_eq!(proof.main_next, next);
}

#[test]
fn fibonacci_trace_extends_as_expected() {
    assert_eq!(fib(8), vec![0, 1, 1, 1, 1, 2, 2, 3, 3, 5, 5, 8, 8, 13, 13, 21]);
    let trace = FibonacciLogUp::new(8).generate_main_trace::<BabyBear>();
    assert_eq!((trace.height(), trace.width()), (8, 2));
    assert_eq!(residues(trace.values()), fib(8));
    assert_eq!(residues(&trace.row_vec(7)), vec![13, 21]);
    assert!(fib(0).is_empty());
}

#[test]
fn fibonacci_trace_satisfies_every_window() {
    let trace = fib(8);
    for r in 0..8 {
        assert_eq!(fibonacci_window(&trace, 8, r, 12345), 0);
    }
}

#[test]
fn altered_fibonacci_cell_fails_the_transition_check() {
    let mut trace = fib(8);
    trace[2 * 3] = 99;
    let failing: Vec<usize> =
        (0..8).filter(|r| fibonacci_window(&trace, 8, *r, 12345) != 0).collect();
    assert_eq!(failing, vec![2, 3]);
    // Row 2 is (1, 2) and row 3 is now (99, 3): with alpha = 10 the folded
    // value of rows 2 and 3 is (3 - 3) * 10 + (99 - 2) = 97.
    assert_eq!(fibonacci_window(&trace, 8, 2, 10), 97);
}

#[test]
fn every_altered_fibonacci_cell_is_noticed() {
    for cell in 0..16 {
        let mut trace = fib(8);
        trace[cell] += 40;
        assert!((0..8).any(|r| fibonacci_window(&trace, 8, r, 12345) != 0));
    }
}

#[test]
fn fibonacci_is_proved() {
    let config = TestConfig::new(3);
    let proof = prove(&config, &Fibonacci {}, table(&fib(8), 2), &[]).unwrap();
    assert!(proof.aux_commit.is_none());
    assert_eq!(proof.quotient_commits.len(), 4);
    assert_eq!(proof.quotient_chunks.len(), 4);
    assert_eq!(proof.log_degree, 3);
    assert!(check_structure(&config, &Fibonacci {}, &proof).is_none());
}

#[test]
fn prove_reports_unsupported_height() {
    let mut config = TestConfig::new(3);
    config.max_log_height = 2;
    let air = Unconstrained { aux_width: 0, wrong_aux_shape: false };
    let r = prove(&config, &air, table(&fib(8), 2), &[]);
    assert!(matches!(r, Err(ProveError::UnsupportedHeight)));
}

#[test]
fn prove_reports_refused_commitment() {
    let mut config = TestConfig::new(3);
    config.refuse_commit = true;
    let air = Unconstrained { aux_width: 0, wrong_aux_shape: false };
    let r = prove(&config, &air, table(&fib(8), 2), &[]);
    assert!(matches!(r, Err(ProveError::CommitFailed)));
    // A scheme set up for taller traces does not take this one.
    let config = TestConfig::new(5);
    let r = prove(&config, &air, table(&fib(8), 2), &[]);
    assert!(matches!(r, Err(ProveError::CommitFailed)));
}

#[test]
fn prove_reports_wrong_aux_shape() {
    let config = TestConfig::new(3);
    let air = Unconstrained { aux_width: 1, wrong_aux_shape: true };
    let r = prove(&config, &air, table(&fib(8), 2), &[]);
    assert!(matches!(r, Err(ProveError::AuxTraceShape)));
    let air = Unconstrained { aux_width: 2, wrong_aux_shape: false };
    let r = prove(&config, &air, table(&fib(8), 2), &[]);
    assert!(matches!(r, Err(ProveError::AuxTraceShape)));
}

#[test]
fn prove_reports_wrong_evaluation_shape() {
    // The scheme is set up for single rows, so what it evaluates over the
    // quotient domain of a taller trace has too many rows.
    let config = TestConfig::new(0);
    let air = Unconstrained { aux_width: 0, wrong_aux_shape: false };
    let r = prove(&config, &air, table(&fib(8), 2), &[]);
    assert!(matches!(r, Err(ProveError::EvaluationShape)));
}

#[test]
fn prove_reports_refused_opening() {
    let mut config = TestConfig::new(3);
    config.refuse_open = true;
    let air = Unconstrained { aux_width: 0, wrong_aux_shape: false };
    let r = prove(&config, &air, table(&fib(8), 2), &[]);
    assert!(matches!(r, Err(ProveError::OpeningFailed)));
}

#[test]
fn verifier_folder_folds_by_horner() {
    let none: Vec<BabyBear> = Vec::new();
    let one = BabyBear::new(1);
    let mut folder: VerifierFolder<'_, TestConfig> =
        VerifierFolder::new(&none, &none, &none, &none, one, one, one, BabyBear::new(10));
    folder.assert_zero(BabyBear::new(1));
    folder.assert_zero_ext(BabyBear::new(2));
    folder.assert_zero(BabyBear::new(3));
    assert_eq!(folder.accumulator().as_canonical_u32(), 123);
}

#[test]
fn prover_folder_weights_by_its_table() {
    let none: Vec<BabyBear> = Vec::new();
    let one = BabyBear::new(1);
    let table = elems(&[100, 10, 1]);
    let mut folder: ProverFolder<'_, TestConfig> =
        ProverFolder::new(&none, &none, &none, &none, one, one, one, &table);
    assert_eq!(folder.constraint_index(), 0);
    folder.assert_zero(BabyBear::new(1));
    folder.assert_zero_ext(BabyBear::new(2));
    assert_eq!(folder.constraint_index(), 2);
    assert_eq!(folder.accumulator().as_canonical_u32(), 120);
    folder.assert_zero(BabyBear::new(3));
    assert_eq!(folder.accumulator().as_canonical_u32(), 123);
}

#[test]
fn folders_agree_on_descending_powers() {
    let none: Vec<BabyBear> = Vec::new();
    let one = BabyBear::new(1);
    let alpha = BabyBear::new(2_000_000_011);
    let values = elems(&[17, 2_013_265_920, 0, 5, 99]);
    let table = p3_uni_stark_mt::field::descending_power_table(&alpha, values.len());
    let mut proving: ProverFolder<'_, TestConfig> =
        ProverFolder::new(&none, &none, &none, &none, one, one, one, &table);
    let mut verifying: VerifierFolder<'_, TestConfig> =
        VerifierFolder::new(&none, &none, &none, &none, one, one, one, alpha);
    for v in &values {
        proving.assert_zero(*v);
        verifying.assert_zero(*v);
    }
    assert_eq!(proving.accumulator(), verifying.accumulator());
}

#[test]
fn folders_hand_out_their_windows_and_selectors() {
    let (local, next) = (elems(&[1, 2]), elems(&[3, 4]));
    let (aux_local, aux_next) = (elems(&[5]), elems(&[6]));
    let table = elems(&[1]);
    let folder: ProverFolder<'_, TestConfig> = ProverFolder::new(
        &local,
        &next,
        &aux_local,
        &aux_next,
        BabyBear::new(7),
        BabyBear::new(8),
        BabyBear::new(9),
        &table,
    );
    assert_eq!(folder.main().get_local(1).as_canonical_u32(), 2);
    assert_eq!(folder.main().get_next(0).as_canonical_u32(), 3);
    assert_eq!(folder.aux().get_local(0).as_canonical_u32(), 5);
    assert_eq!(folder.aux().get_next(0).as_canonical_u32(), 6);
    assert_eq!(folder.is_first_row().as_canonical_u32(), 7);
    assert_eq!(folder.is_last_row().as_canonical_u32(), 8);
    assert_eq!(folder.is_transition_window(2).as_canonical_u32(), 9);
    let folder: VerifierFolder<'_, TestConfig> = VerifierFolder::new(
        &local,
        &next,
        &aux_local,
        &aux_next,
        BabyBear::new(7),
        BabyBear::new(8),
        BabyBear::new(9),
        BabyBear::new(10),
    );
    assert_eq!(folder.main().get_local(0).as_canonical_u32(), 1);
    assert_eq!(folder.main().get_next(1).as_canonical_u32(), 4);
    assert_eq!(folder.aux().local_width(), 1);
    assert_eq!(folder.aux().next_width(), 1);
    assert_eq!(folder.is_first_row().as_canonical_u32(), 7);
    assert_eq!(folder.is_last_row().as_canonical_u32(), 8);
    assert_eq!(folder.is_transition_window(2).as_canonical_u32(), 9);
}

#[test]
fn quotient_is_put_together_with_powers_of_the_base() {
    let q = reconstruct_quotient(&elems(&[1, 2, 3, 4]), &BabyBear::new(10));
    assert_eq!(q.as_canonical_u32(), 4321);
    let none: Vec<BabyBear> = Vec::new();
    assert_eq!(reconstruct_quotient(&none, &BabyBear::new(10)).as_canonical_u32(), 0);
}

#[test]
fn identity_check_compares_with_the_product() {
    let (c, z, q) = (BabyBear::new(42), BabyBear::new(6), BabyBear::new(7));
    assert!(check_quotient_identity(&c, &z, &q).is_ok());
    assert!(matches!(
        check_quotient_identity(&c, &z, &BabyBear::new(8)),
        Err(VerificationError::ConstraintVerificationFailed)
    ));
    assert_eq!(residues(&[c, z, q]), vec![42, 6, 7]);
}

// ---- the configuration of the library ------------------------------------

fn list(values: &[u32]) -> List<BabyBear> {
    List::from_vec(&elems(values))
}

fn list_residues(l: &List<BabyBear>) -> Vec<u32> {
    residues(&l.to_vec())
}

fn p3_residues(values: &[F]) -> Vec<u32> {
    values.iter().map(|x| x.as_canonical_u32()).collect()
}

fn as_transparent(proof: &Proof<TestConfig>) -> Proof<TransparentConfig> {
    let convert = |c: &Commitment| List::from_vec(&c[0].iter().map(|x| from_p3(*x)).collect());
    Proof {
        main_commit: convert(&proof.main_commit),
        aux_commit: proof.aux_commit.as_ref().map(convert),
        quotient_commits: proof.quotient_commits.iter().map(convert).collect(),
        main_local: proof.main_local.clone(),
        main_next: proof.main_next.clone(),
        aux_local: proof.aux_local.clone(),
        aux_next: proof.aux_next.clone(),
        quotient_chunks: proof.quotient_chunks.clone(),
        opening_proof: (),
        log_degree: proof.log_degree,
    }
}

#[test]
fn transparent_config_exists_within_the_two_adicity() {
    assert_eq!(TransparentConfig::new(3).unwrap().log_height(), 3);
    assert!(TransparentConfig::new(27).is_some());
    assert!(TransparentConfig::new(28).is_none());
    assert_eq!(TransparentConfig::new(0).unwrap().max_log_height(), 27);
}

#[test]
fn transcript_draws_what_the_sponge_draws() {
    let mut ours = DuplexTranscript::new();
    let mut theirs: Transcript = DuplexChallenger::new(p3_baby_bear::default_babybear_poseidon2_16());
    let mut drawn = Vec::new();
    let mut expected = Vec::new();
    for v in 1..=19u32 {
        ours.observe(&BabyBear::new(v));
        theirs.observe(F::new(v));
    }
    for _ in 0..3 {
        drawn.push(ours.sample().as_canonical_u32());
        let x: F = theirs.sample();
        expected.push(x.as_canonical_u32());
    }
    ours.observe_commitment(&list(&[5, 6, 7, 8, 9, 10, 11, 12, 13]));
    theirs.observe_slice(&[5, 6, 7, 8, 9, 10, 11, 12, 13].map(F::new));
    for _ in 0..10 {
        drawn.push(ours.sample().as_canonical_u32());
        let x: F = theirs.sample();
        expected.push(x.as_canonical_u32());
    }
    assert_eq!(drawn, expected);
    assert_ne!(drawn[0], drawn[1]);
    assert!(drawn.iter().all(|x| *x < BABY_BEAR_PRIME));
}

#[test]
fn transcript_depends_on_what_it_observed() {
    let draw = |values: &[u32]| {
        let mut t = DuplexTranscript::new();
        for v in values {
            t.observe(&BabyBear::new(*v));
        }
        t.sample().as_canonical_u32()
    };
    assert_eq!(draw(&[1, 2, 3]), draw(&[1, 2, 3]));
    assert_ne!(draw(&[1, 2, 3]), draw(&[1, 2, 4]));
    assert_ne!(draw(&[1, 2, 3]), draw(&[1, 2]));
    assert_ne!(draw(&[]), 0);
}

#[test]
fn coset_next_point_multiplies_by_the_generator() {
    // The subgroup of two elements is generated by -1.
    let d = LibCoset::subgroup(1).unwrap();
    assert_eq!(d.size(), 2);
    assert_eq!(d.next_point(&BabyBear::new(5)).as_canonical_u32(), BABY_BEAR_PRIME - 5);
    let d = LibCoset::subgroup(0).unwrap();
    assert_eq!(d.size(), 1);
    assert_eq!(d.next_point(&BabyBear::new(5)).as_canonical_u32(), 5);
    assert!(LibCoset::subgroup(27).is_some());
    assert!(LibCoset::subgroup(28).is_none());
}

#[test]
fn coset_vanishing_polynomial_and_selectors_at_a_point() {
    // On the subgroup {1, -1}: Z(x) = x^2 - 1.
    let d = LibCoset::subgroup(1).unwrap();
    let three = BabyBear::new(3);
    assert_eq!(d.vanishing_at(&three).as_canonical_u32(), 8);
    let s = d.selectors_at(&three).unwrap();
    assert_eq!(s.is_first_row.as_canonical_u32(), 4);
    assert_eq!(s.is_last_row.as_canonical_u32(), 2);
    assert_eq!(s.is_transition.as_canonical_u32(), 4);
    assert_eq!(s.inv_vanishing.mul(&BabyBear::new(8)).as_canonical_u32(), 1);
    // On the domain itself the selectors are not defined.
    assert!(d.selectors_at(&BabyBear::new(1)).is_none());
    assert!(d.selectors_at(&BabyBear::new(BABY_BEAR_PRIME - 1)).is_none());
    assert_eq!(d.vanishing_at(&BabyBear::new(1)).as_canonical_u32(), 0);
}

#[test]
fn single_point_domain_never_divides_by_zero_off_the_domain() {
    // One row: Z(x) = x - 1, and the transition selector is x - 1 as well,
    // so it is off on the only row.
    let d = LibCoset::subgroup(0).unwrap();
    let s = d.selectors_at(&BabyBear::new(7)).unwrap();
    assert_eq!(s.is_transition.as_canonical_u32(), 6);
    assert_eq!(s.inv_vanishing.mul(&BabyBear::new(6)).as_canonical_u32(), 1);
    assert_eq!(d.vanishing_at(&BabyBear::new(1)).as_canonical_u32(), 0);
    let q = d.disjoint(4).unwrap();
    let on = d.selectors_on(&q);
    assert_eq!(on.inv_vanishing.len(), 4);
    let mut x = q.shift();
    for i in 0..4 {
        assert_eq!(on.is_transition[i], x.sub(&BabyBear::new(1)));
        assert_eq!(on.inv_vanishing[i].mul(&d.vanishing_at(&x)).as_canonical_u32(), 1);
        x = q.next_point(&x);
    }
}

#[test]
fn disjoint_coset_is_shifted_by_the_generator() {
    let d = LibCoset::subgroup(3).unwrap();
    let q = d.disjoint(32).unwrap();
    assert_eq!((q.shift().as_canonical_u32(), q.log_size(), q.size()), (31, 5, 32));
    let q = d.disjoint(17).unwrap();
    assert_eq!(q.log_size(), 5);
    let q = d.disjoint(16).unwrap();
    assert_eq!(q.log_size(), 4);
    let q = d.disjoint(1).unwrap();
    assert_eq!(q.log_size(), 0);
    assert!(d.disjoint(1 << 27).is_some());
    assert!(d.disjoint((1 << 27) + 1).is_none());
    let again = q.disjoint(2).unwrap();
    assert_eq!(again.shift().as_canonical_u32(), 31 * 31);
}

#[test]
fn selectors_on_a_coset_match_the_selectors_at_its_points() {
    let d = LibCoset::subgroup(2).unwrap();
    let q = d.disjoint(16).unwrap();
    let on = d.selectors_on(&q);
    assert_eq!(on.is_first_row.len(), 16);
    assert_eq!(on.is_last_row.len(), 16);
    assert_eq!(on.is_transition.len(), 16);
    assert_eq!(on.inv_vanishing.len(), 16);
    let mut x = q.shift();
    for i in 0..16 {
        let at = d.selectors_at(&x).unwrap();
        assert_eq!(on.is_first_row[i], at.is_first_row);
        assert_eq!(on.is_last_row[i], at.is_last_row);
        assert_eq!(on.is_transition[i], at.is_transition);
        assert_eq!(on.inv_vanishing[i], at.inv_vanishing);
        x = q.next_point(&x);
    }
    assert_eq!(x, q.shift());
}

#[test]
fn coset_splits_into_cosets_of_equal_size() {
    let q = LibCoset::subgroup(3).unwrap().disjoint(32).unwrap();
    let parts = q.split(4);
    assert_eq!(parts.len(), 4);
    assert!(parts.iter().all(|p| p.log_size() == 3 && p.size() == 8));
    // Part i starts at point i of the coset.
    let mut x = q.shift();
    for part in &parts {
        assert_eq!(part.shift(), x);
        x = q.next_point(&x);
    }
    assert_eq!(q.split(1)[0], q);
    assert_eq!(q.split(32).len(), 32);
}

#[test]
fn evaluations_are_dealt_out_row_by_row() {
    let d = LibCoset::subgroup(3).unwrap();
    let evals = table(&[0, 1, 10, 11, 20, 21, 30, 31, 40, 41, 50, 51, 60, 61, 70, 71], 2);
    let parts = d.split_evals(4, &evals);
    assert_eq!(parts.len(), 4);
    assert_eq!(residues(parts[0].values()), vec![0, 1, 40, 41]);
    assert_eq!(residues(parts[1].values()), vec![10, 11, 50, 51]);
    assert_eq!(residues(parts[3].values()), vec![30, 31, 70, 71]);
    assert!(parts.iter().all(|p| p.width() == 2 && p.height() == 2));
    let config = TransparentConfig::new(3).unwrap();
    let again = config.split_evals(&d, 2, &evals);
    assert_eq!(residues(again[1].values()), vec![10, 11, 30, 31, 50, 51, 70, 71]);
}

#[test]
fn commitment_is_the_list_of_coefficients() {
    let config = TransparentConfig::new(1).unwrap();
    let d = config.natural_domain(1);
    // 1 + 2x on {1, -1}.
    let evals = table(&[3, BABY_BEAR_PRIME - 1], 1);
    let (commitment, data) = config.commit(&d, &evals).unwrap();
    assert_eq!(list_residues(&commitment), vec![1, 2]);
    let mut ch = config.challenger();
    let request = OpeningRequest { data: &data, points: elems(&[3, 0, 1]) };
    let (opened, _) = config.open(vec![request], &mut ch).unwrap();
    assert_eq!(opened.len(), 1);
    assert_eq!(opened[0].iter().map(|v| residues(v)).collect::<Vec<_>>(), vec![vec![7], vec![1], vec![3]]);
    // Over the coset 31 * {1, i, -1, -i} the same polynomial.
    let q = d.disjoint(4).unwrap();
    let on = config.evaluations_on_domain(&data, &q);
    assert_eq!((on.height(), on.width()), (4, 1));
    let mut x = q.shift();
    for r in 0..4 {
        assert_eq!(on.get(r, 0), BabyBear::new(1).add(&BabyBear::new(2).mul(&x)));
        x = q.next_point(&x);
    }
    assert_eq!(on.get(0, 0).as_canonical_u32(), 63);
}

#[test]
fn commitment_to_two_columns_keeps_them_apart() {
    let config = TransparentConfig::new(2).unwrap();
    let d = config.natural_domain(2);
    // The constant 5 and the constant 9.
    let evals = table(&[5, 9, 5, 9, 5, 9, 5, 9], 2);
    let (commitment, data) = config.commit(&d, &evals).unwrap();
    assert_eq!(list_residues(&commitment), vec![5, 9, 0, 0, 0, 0, 0, 0]);
    let mut ch = config.challenger();
    let request = OpeningRequest { data: &data, points: elems(&[1234]) };
    let (opened, _) = config.open(vec![request], &mut ch).unwrap();
    assert_eq!(residues(&opened[0][0]), vec![5, 9]);
}

#[test]
fn commitment_is_refused_where_the_table_does_not_fit() {
    let config = TransparentConfig::new(2).unwrap();
    let d = config.natural_domain(2);
    assert!(config.commit(&d, &table(&[1, 2, 3, 4], 1)).is_some());
    assert!(config.commit(&d, &table(&[1, 2], 1)).is_none());
    assert!(config.commit(&d, &table(&[], 0)).is_none());
    assert!(config.commit(&config.natural_domain(1), &table(&[1, 2], 1)).is_none());
    assert!(config.commit(&config.natural_domain(3), &table(&[0; 8], 1)).is_some());
}

#[test]
fn evaluations_beyond_the_field_are_empty() {
    let config = TransparentConfig::new(2).unwrap();
    let (_, data) = config.commit(&config.natural_domain(2), &table(&[1, 2, 3, 4], 1)).unwrap();
    let small = config.evaluations_on_domain(&data, &config.natural_domain(1));
    assert_eq!((small.height(), small.width()), (0, 0));
    let same = config.evaluations_on_domain(&data, &config.natural_domain(2));
    assert_eq!(residues(same.values()), vec![1, 2, 3, 4]);
    // Set up for single rows, the scheme pads a table of 2^14 rows over a
    // domain of 2^14 points to 2^28 rows, more than the field has roots for.
    let config = TransparentConfig::new(0).unwrap();
    let d = config.natural_domain(14);
    let (_, tall) = config.commit(&d, &table(&[0; 1 << 14], 1)).unwrap();
    let none = config.evaluations_on_domain(&tall, &d);
    assert_eq!((none.height(), none.width()), (0, 0));
    let some = config.evaluations_on_domain(&tall, &config.natural_domain(3));
    assert_eq!((some.height(), some.width()), (1 << 17, 1));
}

#[test]
fn opening_check_accepts_true_claims_only() {
    let config = TransparentConfig::new(1).unwrap();
    let d = config.natural_domain(1);
    let commitment = list(&[1, 2]);
    let claim = |values: Vec<Vec<BabyBear>>, points: &[u32]| OpeningClaim {
        commitment: &commitment,
        domain: d,
        points: elems(points),
        values,
    };
    let mut ch = config.challenger();
    assert!(config.verify_openings(vec![claim(vec![elems(&[7]), elems(&[1])], &[3, 0])], &(), &mut ch));
    assert!(config.verify_openings(vec![], &(), &mut ch));
    assert!(!config.verify_openings(vec![claim(vec![elems(&[8]), elems(&[1])], &[3, 0])], &(), &mut ch));
    assert!(!config.verify_openings(vec![claim(vec![elems(&[7])], &[3, 0])], &(), &mut ch));
    assert!(!config.verify_openings(vec![claim(vec![elems(&[7, 0])], &[3])], &(), &mut ch));
    let odd = list(&[1, 2, 3]);
    let wrong = OpeningClaim { commitment: &odd, domain: d, points: elems(&[3]), values: vec![elems(&[7])] };
    assert!(!config.verify_openings(vec![wrong], &(), &mut ch));
    let empty = list(&[]);
    let wrong = OpeningClaim { commitment: &empty, domain: d, points: vec![], values: vec![] };
    assert!(!config.verify_openings(vec![wrong], &(), &mut ch));
}

#[test]
fn both_bindings_prove_alike() {
    let public = elems(&[7, 9]);
    let air = FibonacciLogUp::new(8);
    let direct = TestConfig::new(3);
    let (expected, drawn_expected) =
        prove_with_challenges(&direct, &air, air.generate_main_trace(), &public).unwrap();
    let config = TransparentConfig::new(3).unwrap();
    let (proof, drawn) =
        prove_with_challenges(&config, &air, air.generate_main_trace(), &public).unwrap();
    assert_eq!(drawn.challenges, drawn_expected.challenges);
    assert_eq!(drawn.alpha, drawn_expected.alpha);
    assert_eq!(drawn.zeta, drawn_expected.zeta);
    let expected = as_transparent(&expected);
    assert_eq!(list_residues(&proof.main_commit), list_residues(&expected.main_commit));
    assert_eq!(
        list_residues(proof.aux_commit.as_ref().unwrap()),
        list_residues(expected.aux_commit.as_ref().unwrap())
    );
    for i in 0..4 {
        assert_eq!(
            list_residues(&proof.quotient_commits[i]),
            list_residues(&expected.quotient_commits[i])
        );
    }
    assert_eq!(proof.main_local, expected.main_local);
    assert_eq!(proof.main_next, expected.main_next);
    assert_eq!(proof.aux_local, expected.aux_local);
    assert_eq!(proof.aux_next, expected.aux_next);
    assert_eq!(proof.quotient_chunks, expected.quotient_chunks);
    assert_eq!(proof.log_degree, 3);
    assert_eq!(proof.quotient_commits.len(), QUOTIENT_DEGREE);
}

#[test]
fn transparent_config_proves_and_verifies_the_unconstrained_computation() {
    for aux_width in [0, 1] {
        let config = TransparentConfig::new(3).unwrap();
        let air = Unconstrained { aux_width, wrong_aux_shape: false };
        let public = elems(&[7, 9]);
        let proof = prove(&config, &air, table(&fib(8), 2), &public).unwrap();
        assert_eq!(proof.aux_commit.is_some(), aux_width > 0);
        assert!(check_structure(&config, &air, &proof).is_none());
        let (_, _, other) = accepted(aux_width, 3);
        let proof = as_transparent(&other);
        let verdict = verify(&config, &air, &proof, &public);
        assert!(verdict.is_ok(), "{:?}", verdict);
        let mut tampered = as_transparent(&other);
        tampered.main_local[0] = tampered.main_local[0].add(&BabyBear::new(1));
        let verdict = verify(&config, &air, &tampered, &public);
        assert!(matches!(verdict, Err(VerificationError::PcsVerificationFailed)), "{:?}", verdict);
        let mut tampered = as_transparent(&other);
        tampered.quotient_chunks[1][0] = BabyBear::new(1);
        let verdict = verify(&config, &air, &tampered, &public);
        assert!(matches!(verdict, Err(VerificationError::PcsVerificationFailed)), "{:?}", verdict);
    }
}

#[test]
fn transparent_config_rejects_a_missing_aux_commitment() {
    let config = TransparentConfig::new(3).unwrap();
    let proof = prove(&config, &Fibonacci {}, fibonacci_trace(8), &[]).unwrap();
    assert!(proof.aux_commit.is_none());
    let r = verify(&config, &FibonacciLogUp::new(8), &proof, &[]);
    assert_eq!(reason_of(r), invalid(MISSING_AUX));
    let air = FibonacciLogUp::new(8);
    let proof = prove(&config, &air, air.generate_main_trace(), &[]).unwrap();
    assert!(proof.aux_commit.is_some());
    let r = verify(&config, &Fibonacci {}, &proof, &[]);
    assert_eq!(reason_of(r), invalid(UNEXPECTED_AUX));
}

#[test]
fn transparent_config_reports_unsupported_heights() {
    let config = TransparentConfig::new(26).unwrap();
    let air = Unconstrained { aux_width: 0, wrong_aux_shape: false };
    // A trace of 2^26 rows has no quotient domain of 2^28 points; the
    // check comes before anything is committed.
    let (_, _, mut proof) = honest(0, 3);
    proof.log_degree = 26;
    let r = verify(&config, &air, &as_transparent(&proof), &[]);
    assert_eq!(reason_of(r), invalid(UNSUPPORTED_HEIGHT));
    proof.log_degree = 28;
    let r = verify(&config, &air, &as_transparent(&proof), &[]);
    assert_eq!(reason_of(r), invalid(UNSUPPORTED_HEIGHT));
}

#[test]
fn running_sums_add_the_inverse_of_alpha_minus_a() {
    let air = FibonacciLogUp::new(4);
    let main: Matrix<BabyBear> = air.generate_main_trace();
    let alpha = BabyBear::new(10);
    let aux: Matrix<BabyBear> = air.build_aux_trace(&main, &vec![alpha, BabyBear::new(77)]);
    assert_eq!((aux.height(), aux.width()), (4, 1));
    // The rows hold a = 0, 1, 1, 2.
    let one = BabyBear::new(1);
    assert_eq!(aux.get(0, 0).mul(&BabyBear::new(10)), one);
    assert_eq!(aux.get(1, 0).sub(&aux.get(0, 0)).mul(&BabyBear::new(9)), one);
    assert_eq!(aux.get(2, 0).sub(&aux.get(1, 0)).mul(&BabyBear::new(9)), one);
    assert_eq!(aux.get(3, 0).sub(&aux.get(2, 0)).mul(&BabyBear::new(8)), one);
    // Where alpha is the value of a row, the row adds nothing.
    let aux: Matrix<BabyBear> = air.build_aux_trace(&main, &vec![BabyBear::new(0), alpha]);
    assert_eq!(aux.get(0, 0).as_canonical_u32(), 0);
    assert_eq!(aux.get(1, 0).as_canonical_u32(), BABY_BEAR_PRIME - 1);
    assert_eq!(MultiTraceAir::<BabyBear, BabyBear>::num_constraints(&air), 4);
    assert_eq!(MultiTraceAir::<BabyBear, BabyBear>::aux_width(&air), 1);
    assert_eq!(MultiTraceAir::<BabyBear, BabyBear>::num_challenges(&air), 2);
    assert_eq!(MultiTraceAir::<BabyBear, BabyBear>::width(&air), 2);
}

#[test]
fn p3_residues_are_canonical() {
    assert_eq!(p3_residues(&[F::new(BABY_BEAR_PRIME + 2)]), vec![2]);
}

#[test]
fn evaluations_come_in_the_order_of_the_points() {
    let config = TransparentConfig::new(2).unwrap();
    let d = config.natural_domain(2);
    let evals = table(&[1, 100, 2, 200, 3, 300, 5, 500], 2);
    let (commitment, data) = config.commit(&d, &evals).unwrap();
    let coeffs = commitment.to_vec();
    // Column c at x, from the highest coefficient down.
    let value = |c: usize, x: &BabyBear| {
        let mut acc = BabyBear::new(0);
        for r in (0..4).rev() {
            acc = acc.mul(x).add(&coeffs[2 * r + c]);
        }
        acc
    };
    // On the domain itself the polynomials take the committed values.
    let mut x = BabyBear::new(1);
    for r in 0..4 {
        assert_eq!((value(0, &x), value(1, &x)), (evals.get(r, 0), evals.get(r, 1)));
        x = d.next_point(&x);
    }
    // Over a coset of sixteen points, point after point.
    let q = d.disjoint(16).unwrap();
    let on = config.evaluations_on_domain(&data, &q);
    assert_eq!((on.height(), on.width()), (16, 2));
    let mut ch = config.challenger();
    let mut x = q.shift();
    for r in 0..16 {
        assert_eq!((on.get(r, 0), on.get(r, 1)), (value(0, &x), value(1, &x)));
        let request = OpeningRequest { data: &data, points: vec![x] };
        let (opened, _) = config.open(vec![request], &mut ch).unwrap();
        assert_eq!(opened[0][0], vec![value(0, &x), value(1, &x)]);
        x = q.next_point(&x);
    }
    assert_eq!(x, q.shift());
}

#[test]
fn shifted_coset_divides_by_its_shift_first() {
    // On 31 * {1, -1}: Z(x) = (x / 31)^2 - 1, so at x = 62 it is 3.
    let q = LibCoset::subgroup(1).unwrap().disjoint(2).unwrap();
    assert_eq!((q.shift().as_canonical_u32(), q.log_size()), (31, 1));
    let x = BabyBear::new(62);
    assert_eq!(q.vanishing_at(&x).as_canonical_u32(), 3);
    let s = q.selectors_at(&x).unwrap();
    assert_eq!(s.is_first_row.as_canonical_u32(), 3);
    assert_eq!(s.is_last_row.as_canonical_u32(), 1);
    assert_eq!(s.is_transition.as_canonical_u32(), 3);
    assert_eq!(s.inv_vanishing.mul(&BabyBear::new(3)).as_canonical_u32(), 1);
    assert!(q.selectors_at(&BabyBear::new(31)).is_none());
    assert_eq!(q.next_point(&BabyBear::new(31)).as_canonical_u32(), BABY_BEAR_PRIME - 31);
}

#[test]
fn four_point_subgroup_is_generated_by_a_root_of_minus_one() {
    let d = LibCoset::subgroup(2).unwrap();
    let g = d.next_point(&BabyBear::new(1));
    assert_eq!(g.mul(&g).as_canonical_u32(), BABY_BEAR_PRIME - 1);
    // Z(x) = x^4 - 1.
    assert_eq!(d.vanishing_at(&BabyBear::new(2)).as_canonical_u32(), 15);
    let s = d.selectors_at(&BabyBear::new(2)).unwrap();
    let last = g.try_inverse().unwrap();
    assert_eq!(s.is_transition, BabyBear::new(2).sub(&last));
    assert_eq!(s.is_first_row.as_canonical_u32(), 15);
    assert_eq!(s.is_last_row.mul(&BabyBear::new(2).sub(&last)).as_canonical_u32(), 15);
}

#[test]
fn transparent_config_proves_a_single_row() {
    let config = TransparentConfig::new(0).unwrap();
    let proof = prove(&config, &Fibonacci {}, fibonacci_trace(1), &[]).unwrap();
    assert_eq!(proof.log_degree, 0);
    assert_eq!(proof.quotient_commits.len(), 4);
    assert!(check_structure(&config, &Fibonacci {}, &proof).is_none());
    let air = FibonacciLogUp::new(1);
    let proof = prove(&config, &air, air.generate_main_trace(), &elems(&[5])).unwrap();
    assert!(proof.aux_commit.is_some());
    assert_eq!(proof.aux_local.len(), 1);
}
