//! A configuration over the Baby Bear field whose commitment to a table is
//! the list of the coefficients of its columns: `p3_commit`'s `TrivialPcs`
//! over two-adic cosets, with the duplex sponge as the transcript.
//!
//! Nothing is hidden and nothing is succinct; every contract of
//! [`StarkConfig`] is met by calls whose results are named here.

use core::marker::PhantomData;
use p3_baby_bear::default_babybear_poseidon2_16;
use p3_commit::{Pcs, UnivariateStarkPcs};
use p3_field::PrimeField32;
use p3_matrix::dense::RowMajorMatrix;
use vstd::arithmetic::power2::pow2;
use vstd::prelude::*;
use crate::baby_bear::BabyBear;
use crate::config::{
    claims_view,
    requests_view,
    rows_view,
    tables_view,
    OpeningClaim,
    OpeningRequest,
    Selectors,
    StarkConfig,
    TranscriptEvent,
};
use crate::coset::{
    coset_next_point,
    coset_point,
    coset_selectors_on,
    coset_vanishing,
    dealt_part,
    power_of_two,
    Coset,
    TWO_ADICITY,
};
use crate::air::MultiTraceAir;
use crate::duplex::{drawn_after, DuplexTranscript, Event};
use crate::field::{ExtensionField, Field};
use crate::proof_data::Proof;
use crate::quotient::{quotient_domain_spec, QUOTIENT_DEGREE};
use crate::verifying::{expected_verdict, opening_claims, verifier_log};
use crate::folder::horner;
use crate::list::List;
use crate::matrix::Matrix;

verus! {

type F = p3_baby_bear::BabyBear;

type Sponge = p3_challenger::DuplexChallenger<F, p3_baby_bear::Poseidon2BabyBear<16>, 16, 8>;

type Scheme = p3_commit::testing::TrivialPcs<F, p3_dft::Radix2Dit<F>>;

type P3Coset = p3_field::coset::TwoAdicMultiplicativeCoset<F>;

/// The coefficients of column `c` of a table of `cols` columns, highest
/// degree first.
pub open spec fn column_descending(coeffs: Seq<BabyBear>, cols: nat, c: int) -> Seq<BabyBear> {
    let rows = coeffs.len() / cols;
    Seq::new(rows, |k: int| coeffs[(rows - 1 - k) * cols + c])
}

/// The value at `x` of the polynomial with the coefficients of column `c`.
pub open spec fn column_value(coeffs: Seq<BabyBear>, cols: nat, c: int, x: BabyBear) -> BabyBear {
    horner(x, column_descending(coeffs, cols, c))
}

/// The values at `point` of the columns with the given coefficients.
pub open spec fn opened_values(coeffs: Seq<BabyBear>, cols: nat, point: BabyBear) -> Seq<
    BabyBear,
> {
    Seq::new(cols, |c: int| column_value(coeffs, cols, c, point))
}

/// The values of the columns with the given coefficients at every point of
/// a coset, point after point.
pub open spec fn evaluations_over(
    coeffs: Seq<BabyBear>,
    cols: nat,
    shift: BabyBear,
    log_size: nat,
) -> Seq<BabyBear> {
    Seq::new(
        pow2(log_size) * cols,
        |j: int|
            column_value(
                coeffs,
                cols,
                j % (cols as int),
                coset_point(shift, log_size, (j / (cols as int)) as nat),
            ),
    )
}

/// The coefficients of the columns of a table of evaluations over a coset,
/// row after row, lowest degree first.
pub uninterp spec fn committed_coefficients(
    shift: BabyBear,
    log_size: nat,
    entries: Seq<BabyBear>,
    cols: nat,
) -> Seq<BabyBear>;

/// The evaluations over a coset of the columns with the given coefficients
/// in `2^log_rows` rows, by a scheme set up for tables of `2^log_n` rows:
/// the values at the points of the coset of the same shift that has
/// `2^(log_size - log_n)` points for each row.
pub open spec fn coefficient_evaluations(
    log_n: nat,
    coeffs: Seq<BabyBear>,
    cols: nat,
    log_rows: nat,
    shift: BabyBear,
    log_size: nat,
) -> Seq<BabyBear> {
    evaluations_over(coeffs, cols, shift, (log_rows + log_size - log_n) as nat)
}

/// Calls `Pcs::commit` of a `TrivialPcs` set up for tables of `2^log_n`
/// rows on one table of evaluations over a coset, and hands back its
/// commitment: the coefficients of the polynomials that take the values of
/// the columns on the coset, as many as there are evaluations.  The call
/// panics on a coset smaller than the scheme is set up for, or of another
/// size than the table has rows.
#[verifier::external_body]
fn commit_raw(log_n: usize, shift: BabyBear, log_size: usize, entries: &Vec<BabyBear>, cols: usize) -> (coeffs:
    Vec<BabyBear>)
    requires
        log_n <= log_size <= TWO_ADICITY,
        shift.valid(),
        shift != BabyBear::zero_spec(),
        cols > 0,
        entries@.len() == pow2(log_size as nat) * cols,
    ensures
        coeffs@ == committed_coefficients(shift, log_size as nat, entries@, cols as nat),
        coeffs@.len() == entries@.len(),
        evaluations_over(coeffs@, cols as nat, shift, log_size as nat) == entries@,
{
    let to = |x: &BabyBear| F::new(x.as_canonical_u32());
    let pcs = Scheme { dft: Default::default(), log_n, _phantom: PhantomData };
    let d = P3Coset::new(to(&shift), log_size).unwrap();
    let evals = RowMajorMatrix::new(entries.iter().map(to).collect(), cols);
    let (c, _) = Pcs::<F, Sponge>::commit(&pcs, vec![(d, evals)]).unwrap();
    c[0].iter().map(|x| BabyBear::new(x.as_canonical_u32())).collect()
}

/// Calls `UnivariateStarkPcs::get_evaluations_on_domain` of a `TrivialPcs`
/// set up for tables of `2^log_n` rows, which pads the coefficients with
/// zeros to `2^(log_size - log_n)` times their number and evaluates the
/// polynomials on the coset that has the shift of the given one and as
/// many points as the padded table has rows.  The call panics on a coset
/// smaller than the scheme is set up for, and where the padded table has no
/// power of two as its number of rows or more rows than the field has
/// roots of unity for.
#[verifier::external_body]
fn evaluations_raw(
    log_n: usize,
    coeffs: &Vec<BabyBear>,
    cols: usize,
    log_rows: usize,
    shift: BabyBear,
    log_size: usize,
) -> (evals: Vec<BabyBear>)
    requires
        log_n <= log_size <= TWO_ADICITY,
        shift.valid(),
        shift != BabyBear::zero_spec(),
        cols > 0,
        coeffs@.len() == cols * pow2(log_rows as nat),
        log_rows + (log_size - log_n) <= TWO_ADICITY,
        coeffs@.len() * pow2((log_size - log_n) as nat) <= usize::MAX,
    ensures
        evals@ == coefficient_evaluations(
            log_n as nat,
            coeffs@,
            cols as nat,
            log_rows as nat,
            shift,
            log_size as nat,
        ),
        evals@.len() == coeffs@.len() * pow2((log_size - log_n) as nat),
{
    let to = |x: &BabyBear| F::new(x.as_canonical_u32());
    let pcs = Scheme { dft: Default::default(), log_n, _phantom: PhantomData };
    let d = P3Coset::new(to(&shift), log_size).unwrap();
    let data = vec![RowMajorMatrix::new(coeffs.iter().map(to).collect(), cols)];
    let m = UnivariateStarkPcs::<F, Sponge>::get_evaluations_on_domain(&pcs, &data, 0, d);
    m.values.iter().map(|x| BabyBear::new(x.as_canonical_u32())).collect()
}

/// Calls `Pcs::open` of a `TrivialPcs` on one table of coefficients and one
/// point, and hands back the values of the columns there, one for each
/// column: from the highest coefficient down, the value so far times the
/// point plus the coefficient.  The call leaves the transcript as it is.
#[verifier::external_body]
fn open_raw(coeffs: &Vec<BabyBear>, cols: usize, point: BabyBear) -> (values: Vec<BabyBear>)
    requires
        cols > 0,
        coeffs@.len() % (cols as nat) == 0,
    ensures
        values@ == opened_values(coeffs@, cols as nat, point),
        values@.len() == cols,
{
    let to = |x: &BabyBear| F::new(x.as_canonical_u32());
    let pcs = Scheme { dft: Default::default(), log_n: 0, _phantom: PhantomData };
    let data = vec![RowMajorMatrix::new(coeffs.iter().map(to).collect(), cols)];
    let request = (&data, vec![vec![to(&point)]]).into();
    let mut ch = Sponge::new(default_babybear_poseidon2_16());
    let (opened, _) = Pcs::<F, Sponge>::open(&pcs, vec![request], &mut ch).unwrap();
    opened[0][0][0].iter().map(|x| BabyBear::new(x.as_canonical_u32())).collect()
}

/// Calls `Pcs::verify` of a `TrivialPcs` on one commitment with one table,
/// claimed at one point.  The call panics where the claimed values are not
/// the values of the committed columns at the point, or where the
/// commitment does not hold whole rows for the domain; otherwise it
/// accepts.
#[verifier::external_body]
fn verify_raw(
    coeffs: &Vec<BabyBear>,
    cols: usize,
    log_size: usize,
    point: BabyBear,
    values: &Vec<BabyBear>,
) -> (ok: bool)
    requires
        log_size <= TWO_ADICITY,
        cols > 0,
        coeffs@.len() == cols * pow2(log_size as nat),
        values@ == opened_values(coeffs@, cols as nat, point),
    ensures
        ok,
{
    let to = |x: &BabyBear| F::new(x.as_canonical_u32());
    let pcs = Scheme { dft: Default::default(), log_n: 0, _phantom: PhantomData };
    let domain = P3Coset::new(F::new(1), log_size).unwrap();
    let at = (to(&point), values.iter().map(to).collect());
    let claim = (vec![coeffs.iter().map(to).collect()], vec![(domain, vec![at])]).into();
    let mut ch = Sponge::new(default_babybear_poseidon2_16());
    Pcs::<F, Sponge>::verify(&pcs, vec![claim], &(), &mut ch).is_ok()
}

/// What the prover keeps of a committed table: the coefficients of its
/// columns, the number of columns, and the binary logarithm of the number
/// of rows.
pub struct Committed {
    coeffs: List<BabyBear>,
    cols: usize,
    log_rows: usize,
}

impl Committed {
    #[verifier::type_invariant]
    spec fn inv(&self) -> bool {
        self.wf()
    }

    /// The coefficients, row after row.
    pub closed spec fn coeffs_spec(&self) -> Seq<BabyBear> {
        self.coeffs.view()
    }

    /// The number of columns.
    pub closed spec fn cols_spec(&self) -> nat {
        self.cols as nat
    }

    /// The binary logarithm of the number of rows.
    pub closed spec fn log_rows_spec(&self) -> nat {
        self.log_rows as nat
    }

    /// Whether the coefficients fill as many rows as declared.  What a
    /// commitment hands out always does.
    pub open spec fn wf(&self) -> bool {
        &&& self.cols_spec() > 0
        &&& self.log_rows_spec() <= TWO_ADICITY
        &&& self.coeffs_spec().len() == self.cols_spec() * pow2(self.log_rows_spec())
    }

    /// The prover data with the given contents.
    pub closed spec fn make(coeffs: Seq<BabyBear>, cols: nat, log_rows: nat) -> Committed {
        Committed { coeffs: List::from_seq(coeffs), cols: cols as usize, log_rows: log_rows as usize }
    }
}

/// The configuration.  It is set up for traces of one height.
pub struct TransparentConfig {
    log_n: usize,
}

/// One claim as plain values: the commitment, the domain, the points and
/// the values claimed at each.
pub type Claim = (List<BabyBear>, Coset, Seq<BabyBear>, Seq<Seq<BabyBear>>);

/// Whether a claim holds: the commitment holds whole rows of coefficients
/// for its domain, and at each point the claimed values are the values of
/// the committed columns.
pub open spec fn claim_holds(claim: Claim) -> bool {
    let coeffs = claim.0.view();
    let size = claim.1.size_spec();
    let cols = coeffs.len() / size;
    &&& cols > 0
    &&& coeffs.len() == cols * size
    &&& claim.2.len() == claim.3.len()
    &&& forall|p: int|
        0 <= p < claim.2.len() ==> #[trigger] claim.3[p] == opened_values(coeffs, cols, claim.2[p])
}

impl TransparentConfig {
    #[verifier::type_invariant]
    spec fn inv(&self) -> bool {
        self.log_n <= TWO_ADICITY
    }

    /// The binary logarithm of the height of the traces that the
    /// configuration is set up for.
    pub closed spec fn log_height_spec(&self) -> nat {
        self.log_n as nat
    }

    /// A configuration for traces of `2^log_height` rows, where the field
    /// has a domain for them.
    pub fn new(log_height: usize) -> (config: Option<Self>)
        ensures
            config is Some <==> log_height <= TWO_ADICITY,
            config is Some ==> config.unwrap().log_height_spec() == log_height,
    {
        if log_height <= TWO_ADICITY {
            Some(TransparentConfig { log_n: log_height })
        } else {
            None
        }
    }

    pub fn log_height(&self) -> (k: usize)
        ensures
            k == self.log_height_spec(),
    {
        self.log_n
    }

    /// Whether the scheme evaluates `data` over `d`: the domain is no
    /// smaller than the scheme is set up for, and the field has roots of
    /// unity for the padded table.
    pub open spec fn evaluates(&self, data: Committed, d: Coset) -> bool {
        &&& data.wf()
        &&& d.wf()
        &&& self.log_height_spec() <= d.log_size_spec()
        &&& data.log_rows_spec() + d.log_size_spec() - self.log_height_spec() <= TWO_ADICITY
        &&& data.coeffs_spec().len() * pow2(
            (d.log_size_spec() - self.log_height_spec()) as nat,
        ) <= usize::MAX
    }

    /// Checks one claim; see [`claim_holds`].
    fn check_claim(claim: &OpeningClaim<'_, List<BabyBear>, Coset, BabyBear>) -> (ok: bool)
        ensures
            ok == claim_holds(
                (*claim.commitment, claim.domain, claim.points@, rows_view(claim.values@)),
            ),
    {
        let coeffs: Vec<BabyBear> = claim.commitment.to_vec();
        let size: usize = claim.domain.size();
        let log_size: usize = claim.domain.log_size();
        proof {
            vstd::arithmetic::power2::lemma_pow2_pos(log_size as nat);
        }
        let cols: usize = coeffs.len() / size;
        if cols == 0 || coeffs.len() % size != 0 || claim.points.len() != claim.values.len() {
            proof {
                let (len, n) = (coeffs@.len() as int, size as int);
                vstd::arithmetic::div_mod::lemma_fundamental_div_mod(len, n);
                if len == (len / n) * n {
                    assert(((len / n) * n) % n == 0) by (nonlinear_arith)
                        requires
                            n > 0,
                    ;
                }
            }
            return false;
        }
        proof {
            let (len, n) = (coeffs@.len() as int, size as int);
            vstd::arithmetic::div_mod::lemma_fundamental_div_mod(len, n);
            assert(len == (len / n) * n) by (nonlinear_arith)
                requires
                    len == n * (len / n) + len % n,
                    len % n == 0,
            ;
            assert(((len / n) * n) % (len / n) == 0) by (nonlinear_arith)
                requires
                    len / n > 0,
            ;
        }
        let mut p: usize = 0;
        while p < claim.points.len()
            invariant
                p <= claim.points@.len(),
                claim.points@.len() == claim.values@.len(),
                cols > 0,
                log_size <= TWO_ADICITY,
                log_size == claim.domain.log_size_spec(),
                cols == coeffs@.len() / claim.domain.size_spec(),
                coeffs@ == claim.commitment.view(),
                coeffs@.len() == cols * pow2(log_size as nat),
                coeffs@.len() % (cols as nat) == 0,
                forall|j: int|
                    0 <= j < p ==> (#[trigger] claim.values@[j])@ == opened_values(
                        coeffs@,
                        cols as nat,
                        claim.points@[j],
                    ),
            decreases claim.points@.len() - p,
        {
            let expected: Vec<BabyBear> = open_raw(&coeffs, cols, claim.points[p]);
            if !same_elements(&expected, &claim.values[p]) {
                proof {
                    assert(rows_view(claim.values@)[p as int] == claim.values@[p as int]@);
                }
                return false;
            }
            if !verify_raw(&coeffs, cols, log_size, claim.points[p], &claim.values[p]) {
                return false;
            }
            p += 1;
        }
        proof {
            assert forall|j: int| 0 <= j < claim.points@.len() implies #[trigger] rows_view(
                claim.values@,
            )[j] == opened_values(coeffs@, cols as nat, claim.points@[j]) by {
                assert(claim.values@[j]@ == opened_values(coeffs@, cols as nat, claim.points@[j]));
            }
        }
        true
    }
}

/// Whether two vectors hold the same elements in the same order.
fn same_elements(a: &Vec<BabyBear>, b: &Vec<BabyBear>) -> (same: bool)
    ensures
        same == (a@ == b@),
{
    if a.len() != b.len() {
        return false;
    }
    let mut i: usize = 0;
    while i < a.len()
        invariant
            i <= a@.len(),
            a@.len() == b@.len(),
            a@.take(i as int) == b@.take(i as int),
        decreases a@.len() - i,
    {
        if !a[i].equals(&b[i]) {
            return false;
        }
        i += 1;
        assert(a@.take(i as int) =~= a@.take(i - 1).push(a@[i - 1]));
        assert(b@.take(i as int) =~= b@.take(i - 1).push(b@[i - 1]));
    }
    assert(a@.take(i as int) =~= a@);
    assert(b@.take(i as int) =~= b@);
    true
}

impl StarkConfig for TransparentConfig {
    type Val = BabyBear;

    type Challenge = BabyBear;

    type Commitment = List<BabyBear>;

    type ProverData = Committed;

    type OpeningProof = ();

    type Domain = Coset;

    type Challenger = DuplexTranscript;

    open spec fn transcript(ch: &DuplexTranscript) -> Seq<Event> {
        ch.history()
    }

    open spec fn sample_spec(&self, log: Seq<Event>) -> BabyBear {
        drawn_after(log)
    }

    fn challenger(&self) -> (ch: DuplexTranscript) {
        DuplexTranscript::new()
    }

    fn observe_commitment(&self, ch: &mut DuplexTranscript, c: &List<BabyBear>) {
        ch.observe_commitment(c);
    }

    fn observe_value(&self, ch: &mut DuplexTranscript, v: &BabyBear) {
        ch.observe(v);
    }

    fn sample(&self, ch: &mut DuplexTranscript) -> (x: BabyBear) {
        ch.sample()
    }

    open spec fn max_log_height_spec(&self) -> nat {
        TWO_ADICITY as nat
    }

    open spec fn natural_domain_spec(&self, log_height: nat) -> Coset {
        Coset::make(BabyBear::one_spec(), log_height)
    }

    open spec fn domain_size_spec(&self, d: Coset) -> nat {
        d.size_spec()
    }

    open spec fn disjoint_domain_spec(&self, d: Coset, min_size: nat) -> Option<Coset> {
        d.disjoint_spec(min_size)
    }

    open spec fn split_domains_spec(&self, d: Coset, chunks: nat) -> Seq<Coset> {
        d.split_spec(chunks)
    }

    open spec fn split_evals_spec(
        &self,
        d: Coset,
        chunks: nat,
        entries: Seq<BabyBear>,
        cols: nat,
    ) -> Seq<Seq<BabyBear>> {
        Seq::new(chunks, |c: int| dealt_part(entries, cols, chunks, c))
    }

    open spec fn next_point_spec(&self, d: Coset, x: BabyBear) -> Option<BabyBear> {
        Some(coset_next_point(d.log_size_spec(), x))
    }

    open spec fn vanishing_spec(&self, d: Coset, x: BabyBear) -> BabyBear {
        coset_vanishing(d.shift_spec(), d.log_size_spec(), x)
    }

    open spec fn selectors_at_spec(&self, d: Coset, x: BabyBear) -> Option<Selectors<BabyBear>> {
        d.selectors_at_spec(x)
    }

    open spec fn selectors_on_spec(&self, d: Coset, coset: Coset) -> Selectors<Seq<BabyBear>> {
        coset_selectors_on(d.log_size_spec(), coset.log_size_spec())
    }

    fn max_log_height(&self) -> (k: usize) {
        TWO_ADICITY
    }

    fn natural_domain(&self, log_height: usize) -> (d: Coset) {
        proof {
            Coset::lemma_make(BabyBear::one_spec(), log_height as nat);
        }
        match Coset::subgroup(log_height) {
            Some(d) => d,
            None => {
                proof {
                    assert(false);
                }
                vstd::pervasive::unreached()
            },
        }
    }

    fn domain_size(&self, d: &Coset) -> (n: usize) {
        d.size()
    }

    fn disjoint_domain(&self, d: &Coset, min_size: usize) -> (q: Option<Coset>) {
        d.disjoint(min_size)
    }

    fn split_domains(&self, d: &Coset, chunks: usize) -> (parts: Vec<Coset>) {
        d.split(chunks)
    }

    fn split_evals(&self, d: &Coset, chunks: usize, evals: &Matrix<BabyBear>) -> (parts: Vec<
        Matrix<BabyBear>,
    >) {
        d.split_evals(chunks, evals)
    }

    fn next_point(&self, d: &Coset, x: &BabyBear) -> (y: Option<BabyBear>) {
        Some(d.next_point(x))
    }

    fn vanishing_at_point(&self, d: &Coset, x: &BabyBear) -> (z: BabyBear) {
        d.vanishing_at(x)
    }

    fn selectors_at_point(&self, d: &Coset, x: &BabyBear) -> (s: Option<Selectors<BabyBear>>) {
        d.selectors_at(x)
    }

    fn selectors_on_coset(&self, d: &Coset, coset: &Coset) -> (s: Selectors<Vec<BabyBear>>) {
        proof {
            let (k, m) = choose|k: nat, m: nat|
                k <= self.max_log_height_spec() && *d == self.natural_domain_spec(k)
                    && self.domain_size_spec(*d) <= m && self.disjoint_domain_spec(*d, m) == Some(
                    *coset,
                );
            Coset::lemma_make(BabyBear::one_spec(), k);
            let shift = BabyBear::mul_spec(d.shift_spec(), Coset::generator());
            let log = crate::coset::least_log(m);
            BabyBear::lemma_one_times_generator();
            let within = choose|j: nat| j <= TWO_ADICITY && !(#[trigger] pow2(j) < m);
            crate::coset::lemma_least_log_bound(m, within);
            Coset::lemma_make(shift, log);
            // the coset is no smaller than the domain
            if coset.log_size_spec() < d.log_size_spec() {
                vstd::arithmetic::power2::lemma_pow2_strictly_increases(
                    coset.log_size_spec(),
                    d.log_size_spec(),
                );
            }
        }
        d.selectors_on(coset)
    }

    open spec fn commit_spec(&self, d: Coset, entries: Seq<BabyBear>, cols: nat) -> Option<
        (List<BabyBear>, Committed),
    > {
        if cols == 0 || d.log_size_spec() < self.log_height_spec() || entries.len()
            != d.size_spec() * cols {
            None
        } else {
            let coeffs = committed_coefficients(d.shift_spec(), d.log_size_spec(), entries, cols);
            Some((List::from_seq(coeffs), Committed::make(coeffs, cols, d.log_size_spec())))
        }
    }

    open spec fn evaluations_spec(&self, data: Committed, d: Coset) -> (Seq<BabyBear>, nat) {
        if self.evaluates(data, d) {
            (
                coefficient_evaluations(
                    self.log_height_spec(),
                    data.coeffs_spec(),
                    data.cols_spec(),
                    data.log_rows_spec(),
                    d.shift_spec(),
                    d.log_size_spec(),
                ),
                data.cols_spec(),
            )
        } else {
            (Seq::empty(), 0)
        }
    }

    open spec fn open_spec(&self, requests: Seq<(Committed, Seq<BabyBear>)>, log: Seq<Event>) -> Option<
        (Seq<Seq<Seq<BabyBear>>>, ()),
    > {
        Some(
            (
                Seq::new(
                    requests.len(),
                    |r: int|
                        Seq::new(
                            requests[r].1.len(),
                            |p: int|
                                opened_values(
                                    requests[r].0.coeffs_spec(),
                                    requests[r].0.cols_spec(),
                                    requests[r].1[p],
                                ),
                        ),
                ),
                (),
            ),
        )
    }

    open spec fn verify_spec(&self, claims: Seq<Claim>, proof: (), log: Seq<Event>) -> bool {
        forall|i: int| 0 <= i < claims.len() ==> claim_holds(#[trigger] claims[i])
    }

    fn commit(&self, d: &Coset, evals: &Matrix<BabyBear>) -> (r: Option<
        (List<BabyBear>, Committed),
    >) {
        proof {
            use_type_invariant(self);
        }
        d.check_wf();
        evals.check_wf();
        let cols: usize = evals.width();
        let size: usize = d.size();
        if cols == 0 || d.log_size() < self.log_n || evals.height() != size {
            proof {
                if cols > 0 {
                    let (len, w, n) = (evals.entries().len() as int, cols as int, size as int);
                    if len == n * w {
                        assert((n * w) / w == n) by (nonlinear_arith)
                            requires
                                w > 0,
                        ;
                    }
                }
            }
            return None;
        }
        proof {
            let (len, w) = (evals.entries().len() as int, cols as int);
            vstd::arithmetic::div_mod::lemma_fundamental_div_mod(len, w);
            assert(len == (len / w) * w) by (nonlinear_arith)
                requires
                    len == w * (len / w) + len % w,
                    len % w == 0,
            ;
        }
        let coeffs: Vec<BabyBear> = commit_raw(
            self.log_n,
            d.shift(),
            d.log_size(),
            evals.values(),
            cols,
        );
        let list: List<BabyBear> = List::from_vec(&coeffs);
        let again: List<BabyBear> = List::from_vec(&coeffs);
        proof {
            assert(coeffs@.len() == cols * pow2(d.log_size_spec())) by (nonlinear_arith)
                requires
                    coeffs@.len() == pow2(d.log_size_spec()) * cols,
            ;
        }
        Some((list, Committed { coeffs: again, cols, log_rows: d.log_size() }))
    }

    fn evaluations_on_domain(&self, data: &Committed, d: &Coset) -> (m: Matrix<BabyBear>) {
        proof {
            use_type_invariant(self);
            use_type_invariant(data);
        }
        d.check_wf();
        let log_size: usize = d.log_size();
        if log_size < self.log_n || data.log_rows + (log_size - self.log_n) > TWO_ADICITY {
            return empty_table();
        }
        let factor: usize = power_of_two(log_size - self.log_n);
        let coeffs: Vec<BabyBear> = data.coeffs.to_vec();
        proof {
            vstd::arithmetic::power2::lemma_pow2_pos((log_size - self.log_n) as nat);
        }
        if coeffs.len() > usize::MAX / factor {
            proof {
                let (len, f, max) = (coeffs@.len() as int, factor as int, usize::MAX as int);
                assert(len * f > max) by (nonlinear_arith)
                    requires
                        len > max / f,
                        f >= 1,
                ;
            }
            return empty_table();
        }
        proof {
            let (len, f, max) = (coeffs@.len() as int, factor as int, usize::MAX as int);
            assert(len * f <= max) by (nonlinear_arith)
                requires
                    len <= max / f,
                    f >= 1,
            ;
        }
        let evals: Vec<BabyBear> = evaluations_raw(
            self.log_n,
            &coeffs,
            data.cols,
            data.log_rows,
            d.shift(),
            log_size,
        );
        proof {
            let (c, r, f) = (
                data.cols as int,
                pow2(data.log_rows as nat) as int,
                factor as int,
            );
            assert(c * r * f == (r * f) * c) by (nonlinear_arith);
            vstd::arithmetic::div_mod::lemma_mod_multiples_basic(r * f, c);
        }
        match Matrix::new(evals, data.cols) {
            Some(m) => m,
            None => {
                proof {
                    assert(false);
                }
                empty_table()
            },
        }
    }

    fn open(
        &self,
        requests: Vec<OpeningRequest<'_, Committed, BabyBear>>,
        ch: &mut DuplexTranscript,
    ) -> (r: Option<(Vec<Vec<Vec<BabyBear>>>, ())>) {
        let ghost expected = self.open_spec(requests_view(requests@), DuplexTranscript::history(ch)).unwrap().0;
        let mut tables: Vec<Vec<Vec<BabyBear>>> = Vec::new();
        let mut i: usize = 0;
        while i < requests.len()
            invariant
                i <= requests@.len(),
                expected == self.open_spec(
                    requests_view(requests@),
                    DuplexTranscript::history(ch),
                ).unwrap().0,
                tables@.len() == i,
                forall|j: int| 0 <= j < i ==> rows_view((#[trigger] tables@[j])@) == expected[j],
                forall|j: int|
                    0 <= j < i ==> (#[trigger] tables@[j])@.len() == requests@[j].points@.len(),
            decreases requests@.len() - i,
        {
            let request = &requests[i];
            proof {
                use_type_invariant(request.data);
                let (c, r) = (
                    request.data.cols as int,
                    pow2(request.data.log_rows as nat) as int,
                );
                assert((c * r) % c == 0) by (nonlinear_arith)
                    requires
                        c > 0,
                ;
            }
            let coeffs: Vec<BabyBear> = request.data.coeffs.to_vec();
            let mut table: Vec<Vec<BabyBear>> = Vec::new();
            let mut p: usize = 0;
            while p < request.points.len()
                invariant
                    p <= request.points@.len(),
                    request.data.cols > 0,
                    coeffs@ == request.data.coeffs_spec(),
                    coeffs@.len() % (request.data.cols as nat) == 0,
                    table@.len() == p,
                    forall|j: int|
                        0 <= j < p ==> (#[trigger] table@[j])@ == opened_values(
                            coeffs@,
                            request.data.cols as nat,
                            request.points@[j],
                        ),
                decreases request.points@.len() - p,
            {
                table.push(open_raw(&coeffs, request.data.cols, request.points[p]));
                p += 1;
            }
            proof {
                assert(requests_view(requests@)[i as int] == (*request.data, request.points@));
                assert(rows_view(table@) =~= expected[i as int]);
            }
            tables.push(table);
            i += 1;
        }
        proof {
            assert(tables_view(tables@) =~= expected);
        }
        Some((tables, ()))
    }

    fn verify_openings(
        &self,
        claims: Vec<OpeningClaim<'_, List<BabyBear>, Coset, BabyBear>>,
        proof: &(),
        ch: &mut DuplexTranscript,
    ) -> (ok: bool) {
        let mut i: usize = 0;
        while i < claims.len()
            invariant
                i <= claims@.len(),
                forall|j: int| 0 <= j < i ==> claim_holds(#[trigger] claims_view(claims@)[j]),
            decreases claims@.len() - i,
        {
            let ok: bool = Self::check_claim(&claims[i]);
            proof {
                assert(claims_view(claims@)[i as int] == (
                    *claims@[i as int].commitment,
                    claims@[i as int].domain,
                    claims@[i as int].points@,
                    rows_view(claims@[i as int].values@),
                ));
            }
            if !ok {
                return false;
            }
            i += 1;
        }
        true
    }
}

/// What a proof opens, as plain values: the main trace at the point and
/// after it, the auxiliary trace at both, and every chunk of the quotient.
pub open spec fn opened_of(proof: &Proof<TransparentConfig>) -> (
    Seq<BabyBear>,
    Seq<BabyBear>,
    Seq<BabyBear>,
    Seq<BabyBear>,
    Seq<Seq<BabyBear>>,
) {
    (
        proof.main_local@,
        proof.main_next@,
        proof.aux_local@,
        proof.aux_next@,
        rows_view(proof.quotient_chunks@),
    )
}

/// Whether two proofs hold the same commitments for a trace of the same
/// height.
pub open spec fn same_commitments(
    first: &Proof<TransparentConfig>,
    second: &Proof<TransparentConfig>,
) -> bool {
    &&& first.main_commit == second.main_commit
    &&& first.aux_commit == second.aux_commit
    &&& first.quotient_commits@ == second.quotient_commits@
    &&& first.log_degree == second.log_degree
}

/// With this configuration the commitments of an accepted proof decide
/// every value that it opens: of two proofs that hold the same commitments
/// and open anything differently, at most one is accepted.  So a proof
/// that was accepted is rejected once a single opened value is changed.
pub proof fn lemma_opened_values_are_bound<A: MultiTraceAir<BabyBear, BabyBear>>(
    config: &TransparentConfig,
    air: &A,
    first: &Proof<TransparentConfig>,
    second: &Proof<TransparentConfig>,
    public_values: Seq<BabyBear>,
)
    requires
        same_commitments(first, second),
        expected_verdict(config, air, first, public_values) is Ok,
    ensures
        expected_verdict(config, air, second, public_values) is Ok ==> opened_of(first)
            == opened_of(second),
        opened_of(first) != opened_of(second) ==> expected_verdict(
            config,
            air,
            second,
            public_values,
        ) is Err,
{
    if expected_verdict(config, air, second, public_values) is Ok {
        let trace_domain = config.natural_domain_spec(first.log_degree as nat);
        let quotient_domain = quotient_domain_spec(config, trace_domain).unwrap();
        let chunk_domains = config.split_domains_spec(quotient_domain, QUOTIENT_DEGREE as nat);
        let log = verifier_log(air, first, public_values);
        assert(log == verifier_log(air, second, public_values));
        let zeta = config.sample_spec(log);
        let zeta_next = config.next_point_spec(trace_domain, zeta).unwrap();
        let a = opening_claims(first, trace_domain, chunk_domains, zeta, zeta_next);
        let b = opening_claims(second, trace_domain, chunk_domains, zeta, zeta_next);
        assert(a.len() == b.len());
        assert forall|i: int| 0 <= i < a.len() implies #[trigger] a[i].3 =~= b[i].3 by {
            assert(claim_holds(a[i]));
            assert(claim_holds(b[i]));
            assert(a[i].0 == b[i].0 && a[i].1 == b[i].1 && a[i].2 == b[i].2);
            assert(a[i].3.len() == b[i].3.len());
            assert forall|p: int| 0 <= p < a[i].3.len() implies a[i].3[p] == b[i].3[p] by {
                let coeffs = a[i].0.view();
                let cols = coeffs.len() / a[i].1.size_spec();
                assert(a[i].3[p] == opened_values(coeffs, cols, a[i].2[p]));
                assert(b[i].3[p] == opened_values(coeffs, cols, b[i].2[p]));
            }
        }
        // the main trace
        assert(a[0].3[0] == first.main_local@ && a[0].3[1] == first.main_next@);
        assert(b[0].3[0] == second.main_local@ && b[0].3[1] == second.main_next@);
        // the auxiliary trace
        let first_chunk: int = if first.aux_commit is Some {
            2
        } else {
            1
        };
        if first.aux_commit is Some {
            assert(a[1].3[0] == first.aux_local@ && a[1].3[1] == first.aux_next@);
            assert(b[1].3[0] == second.aux_local@ && b[1].3[1] == second.aux_next@);
        } else {
            assert(air.aux_width_spec() * <BabyBear as ExtensionField<BabyBear>>::dimension_spec()
                == 0) by (nonlinear_arith)
                requires
                    air.aux_width_spec() == 0,
            ;
            assert(first.aux_local@ =~= second.aux_local@);
            assert(first.aux_next@ =~= second.aux_next@);
        }
        // the chunks of the quotient
        assert forall|i: int| 0 <= i < QUOTIENT_DEGREE implies rows_view(
            first.quotient_chunks@,
        )[i] == rows_view(second.quotient_chunks@)[i] by {
            assert(a[first_chunk + i].3[0] == first.quotient_chunks@[i]@);
            assert(b[first_chunk + i].3[0] == second.quotient_chunks@[i]@);
        }
        assert(rows_view(first.quotient_chunks@) =~= rows_view(second.quotient_chunks@));
    }
}

/// The table without columns.
fn empty_table() -> (m: Matrix<BabyBear>)
    ensures
        m.entries() == Seq::<BabyBear>::empty(),
        m.cols() == 0,
{
    match Matrix::new(Vec::new(), 0) {
        Some(m) => m,
        None => {
            proof {
                assert(false);
            }
            vstd::pervasive::unreached()
        },
    }
}

} // verus!
