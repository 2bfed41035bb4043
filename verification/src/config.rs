//! What the engine is given: two fields, a commitment scheme over evaluation
//! domains, and a transcript that turns what it has observed into challenges.

use vstd::prelude::*;
use crate::field::{ExtensionField, Field};
use crate::matrix::Matrix;

verus! {

/// One step of a transcript's history.
pub enum TranscriptEvent<V, C> {
    /// A commitment was observed.
    Commitment(C),
    /// A base-field value was observed.
    Value(V),
    /// One extension-field challenge was drawn.
    Sample,
}

/// The four selector values at a point, or at every point of a domain.
pub struct Selectors<T> {
    pub is_first_row: T,
    pub is_last_row: T,
    pub is_transition: T,
    pub inv_vanishing: T,
}

/// One committed table and the points at which it is opened.
pub struct OpeningRequest<'a, D, E> {
    pub data: &'a D,
    pub points: Vec<E>,
}

/// One commitment with the values claimed for its table: `values[p][c]` is the
/// claimed value of column `c` at `points[p]`.
pub struct OpeningClaim<'a, C, D, E> {
    pub commitment: &'a C,
    pub domain: D,
    pub points: Vec<E>,
    pub values: Vec<Vec<E>>,
}

/// The field of the main trace of a configuration.
pub type Val<SC> = <SC as StarkConfig>::Val;

/// The field of challenges of a configuration.
pub type Challenge<SC> = <SC as StarkConfig>::Challenge;

/// The transcript of a configuration.
pub type Challenger<SC> = <SC as StarkConfig>::Challenger;

/// The views of the vectors in `v`.
pub open spec fn rows_view<T>(v: Seq<Vec<T>>) -> Seq<Seq<T>> {
    v.map_values(|r: Vec<T>| r@)
}

/// The views of the vectors of vectors in `v`.
pub open spec fn tables_view<T>(v: Seq<Vec<Vec<T>>>) -> Seq<Seq<Seq<T>>> {
    v.map_values(|t: Vec<Vec<T>>| rows_view(t@))
}

/// What an opening request holds, as plain values.
pub open spec fn requests_view<'a, D, E>(v: Seq<OpeningRequest<'a, D, E>>) -> Seq<(D, Seq<E>)> {
    v.map_values(|r: OpeningRequest<'a, D, E>| (*r.data, r.points@))
}

/// What an opening claim holds, as plain values.
pub open spec fn claims_view<'a, C, D, E>(v: Seq<OpeningClaim<'a, C, D, E>>) -> Seq<
    (C, D, Seq<E>, Seq<Seq<E>>),
> {
    v.map_values(
        |c: OpeningClaim<'a, C, D, E>| (*c.commitment, c.domain, c.points@, rows_view(c.values@)),
    )
}

/// The capabilities that a proving or verifying run draws on.
///
/// Every operation is a function of its arguments: the `*_spec` functions name
/// what each returns, and the contracts of the engine are stated over them.  A
/// commitment scheme that randomises its commitments does not qualify.
pub trait StarkConfig: Sized {
    /// The field of the main trace.
    type Val: Field;

    /// The field of challenges, of the auxiliary trace and of opened values.
    type Challenge: ExtensionField<Self::Val>;

    /// What the verifier is sent for a committed table.
    type Commitment;

    /// What the prover keeps of a committed table, to open it later.
    type ProverData;

    /// The opening argument.
    type OpeningProof;

    /// An evaluation domain.
    type Domain: Copy;

    /// The transcript.
    type Challenger;

    // ---- transcript --------------------------------------------------------

    /// The history of a transcript since it was created.
    spec fn transcript(ch: &Self::Challenger) -> Seq<
        TranscriptEvent<Self::Val, Self::Commitment>,
    >;

    /// The challenge drawn by a transcript with the given history.
    spec fn sample_spec(
        &self,
        log: Seq<TranscriptEvent<Self::Val, Self::Commitment>>,
    ) -> Self::Challenge;

    /// A fresh transcript.
    fn challenger(&self) -> (ch: Self::Challenger)
        ensures
            Self::transcript(&ch) == Seq::<TranscriptEvent<Self::Val, Self::Commitment>>::empty(),
    ;

    fn observe_commitment(&self, ch: &mut Self::Challenger, c: &Self::Commitment)
        ensures
            Self::transcript(final(ch)) == Self::transcript(old(ch)).push(
                TranscriptEvent::Commitment(*c),
            ),
    ;

    fn observe_value(&self, ch: &mut Self::Challenger, v: &Self::Val)
        ensures
            Self::transcript(final(ch)) == Self::transcript(old(ch)).push(
                TranscriptEvent::Value(*v),
            ),
    ;

    fn sample(&self, ch: &mut Self::Challenger) -> (x: Self::Challenge)
        ensures
            x == self.sample_spec(Self::transcript(old(ch))),
            Self::transcript(final(ch)) == Self::transcript(old(ch)).push(TranscriptEvent::Sample),
    ;

    // ---- domains -----------------------------------------------------------

    /// The largest `k` such that a trace of `2^k` rows has a natural domain.
    spec fn max_log_height_spec(&self) -> nat;

    spec fn natural_domain_spec(&self, log_height: nat) -> Self::Domain;

    spec fn domain_size_spec(&self, d: Self::Domain) -> nat;

    spec fn disjoint_domain_spec(&self, d: Self::Domain, min_size: nat) -> Option<Self::Domain>;

    spec fn split_domains_spec(&self, d: Self::Domain, chunks: nat) -> Seq<Self::Domain>;

    spec fn split_evals_spec(
        &self,
        d: Self::Domain,
        chunks: nat,
        entries: Seq<Self::Val>,
        cols: nat,
    ) -> Seq<Seq<Self::Val>>;

    spec fn next_point_spec(&self, d: Self::Domain, x: Self::Challenge) -> Option<Self::Challenge>;

    spec fn vanishing_spec(&self, d: Self::Domain, x: Self::Challenge) -> Self::Challenge;

    spec fn selectors_at_spec(&self, d: Self::Domain, x: Self::Challenge) -> Option<
        Selectors<Self::Challenge>,
    >;

    spec fn selectors_on_spec(&self, d: Self::Domain, coset: Self::Domain) -> Selectors<
        Seq<Self::Val>,
    >;

    fn max_log_height(&self) -> (k: usize)
        ensures
            k == self.max_log_height_spec(),
            k < usize::BITS,
    ;

    /// The domain of a trace of `2^log_height` rows.  On it every point has a
    /// next point.
    fn natural_domain(&self, log_height: usize) -> (d: Self::Domain)
        requires
            log_height <= self.max_log_height_spec(),
        ensures
            d == self.natural_domain_spec(log_height as nat),
            self.domain_size_spec(d) == vstd::arithmetic::power2::pow2(log_height as nat),
            forall|x: Self::Challenge| (#[trigger] self.next_point_spec(d, x)).is_some(),
    ;

    fn domain_size(&self, d: &Self::Domain) -> (n: usize)
        ensures
            n == self.domain_size_spec(*d),
    ;

    /// A domain of at least `min_size` points that shares none with `d`, or
    /// `None` where the field has no room for one.
    fn disjoint_domain(&self, d: &Self::Domain, min_size: usize) -> (q: Option<Self::Domain>)
        ensures
            q == self.disjoint_domain_spec(*d, min_size as nat),
            q.is_some() ==> self.domain_size_spec(q.unwrap()) >= min_size,
    ;

    /// Splits `d` into `chunks` domains of equal size.
    fn split_domains(&self, d: &Self::Domain, chunks: usize) -> (parts: Vec<Self::Domain>)
        requires
            chunks > 0,
            self.domain_size_spec(*d) % (chunks as nat) == 0,
        ensures
            parts@ == self.split_domains_spec(*d, chunks as nat),
            parts@.len() == chunks,
    ;

    /// Splits evaluations over `d` into the evaluations over each part of
    /// [`StarkConfig::split_domains`], in the same order.
    fn split_evals(&self, d: &Self::Domain, chunks: usize, evals: &Matrix<Self::Val>) -> (parts:
        Vec<Matrix<Self::Val>>)
        requires
            chunks > 0,
            self.domain_size_spec(*d) % (chunks as nat) == 0,
            evals.rows() == self.domain_size_spec(*d),
        ensures
            parts@.len() == chunks,
            parts@.map_values(|m: Matrix<Self::Val>| m.entries()) == self.split_evals_spec(
                *d,
                chunks as nat,
                evals.entries(),
                evals.cols(),
            ),
            forall|i: int| 0 <= i < parts@.len() ==> (#[trigger] parts@[i]).cols() == evals.cols(),
    ;

    fn next_point(&self, d: &Self::Domain, x: &Self::Challenge) -> (y: Option<Self::Challenge>)
        ensures
            y == self.next_point_spec(*d, *x),
    ;

    /// The vanishing polynomial of `d` at `x`.
    fn vanishing_at_point(&self, d: &Self::Domain, x: &Self::Challenge) -> (z: Self::Challenge)
        ensures
            z == self.vanishing_spec(*d, *x),
    ;

    /// The selectors of `d` at `x`, or `None` where `x` lies in `d`.
    fn selectors_at_point(&self, d: &Self::Domain, x: &Self::Challenge) -> (s: Option<
        Selectors<Self::Challenge>,
    >)
        ensures
            s == self.selectors_at_spec(*d, *x),
    ;

    /// The selectors of the natural domain `d` at every point of `coset`, a
    /// disjoint domain made from it.
    fn selectors_on_coset(&self, d: &Self::Domain, coset: &Self::Domain) -> (s: Selectors<
        Vec<Self::Val>,
    >)
        requires
            exists|k: nat, m: nat|
                k <= self.max_log_height_spec() && *d == self.natural_domain_spec(k)
                    && self.domain_size_spec(*d) <= m && self.disjoint_domain_spec(*d, m) == Some(
                    *coset,
                ),
        ensures
            s.is_first_row@ == self.selectors_on_spec(*d, *coset).is_first_row,
            s.is_last_row@ == self.selectors_on_spec(*d, *coset).is_last_row,
            s.is_transition@ == self.selectors_on_spec(*d, *coset).is_transition,
            s.inv_vanishing@ == self.selectors_on_spec(*d, *coset).inv_vanishing,
            s.is_first_row@.len() == self.domain_size_spec(*coset),
            s.is_last_row@.len() == self.domain_size_spec(*coset),
            s.is_transition@.len() == self.domain_size_spec(*coset),
            s.inv_vanishing@.len() == self.domain_size_spec(*coset),
    ;

    // ---- commitments -------------------------------------------------------

    spec fn commit_spec(&self, d: Self::Domain, entries: Seq<Self::Val>, cols: nat) -> Option<
        (Self::Commitment, Self::ProverData),
    >;

    spec fn evaluations_spec(&self, data: Self::ProverData, d: Self::Domain) -> (
        Seq<Self::Val>,
        nat,
    );

    spec fn open_spec(
        &self,
        requests: Seq<(Self::ProverData, Seq<Self::Challenge>)>,
        log: Seq<TranscriptEvent<Self::Val, Self::Commitment>>,
    ) -> Option<(Seq<Seq<Seq<Self::Challenge>>>, Self::OpeningProof)>;

    spec fn verify_spec(
        &self,
        claims: Seq<
            (Self::Commitment, Self::Domain, Seq<Self::Challenge>, Seq<Seq<Self::Challenge>>),
        >,
        proof: Self::OpeningProof,
        log: Seq<TranscriptEvent<Self::Val, Self::Commitment>>,
    ) -> bool;

    /// Commits to a table of evaluations over `d`, or reports that the scheme
    /// cannot take it.
    fn commit(&self, d: &Self::Domain, evals: &Matrix<Self::Val>) -> (r: Option<
        (Self::Commitment, Self::ProverData),
    >)
        ensures
            r == self.commit_spec(*d, evals.entries(), evals.cols()),
    ;

    /// The committed table evaluated over `d`.
    fn evaluations_on_domain(&self, data: &Self::ProverData, d: &Self::Domain) -> (m: Matrix<
        Self::Val,
    >)
        ensures
            (m.entries(), m.cols()) == self.evaluations_spec(*data, *d),
    ;

    /// Opens every requested table at its points, in the order asked:
    /// `values[r][p][c]` is column `c` of request `r` at its point `p`.
    fn open(
        &self,
        requests: Vec<OpeningRequest<'_, Self::ProverData, Self::Challenge>>,
        ch: &mut Self::Challenger,
    ) -> (r: Option<(Vec<Vec<Vec<Self::Challenge>>>, Self::OpeningProof)>)
        ensures
            match r {
                Some((values, proof)) => {
                    &&& self.open_spec(requests_view(requests@), Self::transcript(old(ch))) == Some(
                        (tables_view(values@), proof),
                    )
                    &&& values@.len() == requests@.len()
                    &&& forall|i: int|
                        0 <= i < values@.len() ==> (#[trigger] values@[i])@.len()
                            == requests@[i].points@.len()
                },
                None => self.open_spec(requests_view(requests@), Self::transcript(old(ch)))
                    is None,
            },
    ;

    /// Checks the opening argument against the claimed values.
    fn verify_openings(
        &self,
        claims: Vec<OpeningClaim<'_, Self::Commitment, Self::Domain, Self::Challenge>>,
        proof: &Self::OpeningProof,
        ch: &mut Self::Challenger,
    ) -> (ok: bool)
        ensures
            ok == self.verify_spec(claims_view(claims@), *proof, Self::transcript(old(ch))),
    ;
}

} // verus!
