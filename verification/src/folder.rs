//! The two constraint folders: what the constraints of a computation are
//! evaluated against, on the proving and on the verifying side.
//!
//! Both fold the asserted values `c_0, c_1, ..` into one accumulator with a
//! random scalar `alpha`, the first assertion weighted highest.  The proving
//! folder reads the weights from a table of descending powers; the verifying
//! folder multiplies its accumulator by `alpha` before each addition.

use vstd::prelude::*;
use crate::config::StarkConfig;
use crate::field::{descending_powers, pow, Field};

verus! {

/// A window of two rows: the local row and the one after it.
pub struct VerifierView<'a, EF> {
    local: &'a [EF],
    next: &'a [EF],
}

impl<'a, EF: Copy> VerifierView<'a, EF> {
    /// The local row.
    pub closed spec fn local_row(&self) -> Seq<EF> {
        self.local@
    }

    /// The next row.
    pub closed spec fn next_row(&self) -> Seq<EF> {
        self.next@
    }

    pub fn new(local: &'a [EF], next: &'a [EF]) -> (view: Self)
        ensures
            view.local_row() == local@,
            view.next_row() == next@,
    {
        Self { local, next }
    }

    pub fn get_local(&self, col: usize) -> (x: EF)
        requires
            col < self.local_row().len(),
        ensures
            x == self.local_row()[col as int],
    {
        self.local[col]
    }

    pub fn get_next(&self, col: usize) -> (x: EF)
        requires
            col < self.next_row().len(),
        ensures
            x == self.next_row()[col as int],
    {
        self.next[col]
    }

    /// The number of columns of the local row.
    pub fn local_width(&self) -> (w: usize)
        ensures
            w == self.local_row().len(),
    {
        self.local.len()
    }

    /// The number of columns of the next row.
    pub fn next_width(&self) -> (w: usize)
        ensures
            w == self.next_row().len(),
    {
        self.next.len()
    }
}

/// Everything that one evaluation of the constraints reads.
pub struct EvalContext<E> {
    pub main_local: Seq<E>,
    pub main_next: Seq<E>,
    pub aux_local: Seq<E>,
    pub aux_next: Seq<E>,
    pub is_first_row: E,
    pub is_last_row: E,
    pub is_transition: E,
}

/// What a computation evaluates its constraints against: a two-row window of
/// the main trace and of the auxiliary trace, the selectors, and two ways to
/// assert that a value is zero.
pub trait AuxBuilder {
    /// The type of every value read and asserted.
    type EF: Field;

    /// The values that the builder hands out.
    spec fn context(&self) -> EvalContext<Self::EF>;

    /// The values asserted so far, in order.
    spec fn asserted(&self) -> Seq<Self::EF>;

    /// Whether the builder takes `n` more assertions.
    spec fn has_room(&self, n: nat) -> bool;

    /// The scalars that the builder combines the asserted values with.  They
    /// stay as they are while values are asserted.
    spec fn weights(&self) -> Seq<Self::EF>;

    /// A builder that takes `n` more assertions takes any fewer.
    proof fn lemma_room(&self, n: nat, m: nat)
        requires
            self.has_room(n),
            m <= n,
        ensures
            self.has_room(m),
    ;

    /// The window of the main trace.
    fn main(&self) -> (view: VerifierView<'_, Self::EF>)
        ensures
            view.local_row() == self.context().main_local,
            view.next_row() == self.context().main_next,
    ;

    /// The window of the auxiliary trace; both rows are empty where there is none.
    fn aux(&self) -> (view: VerifierView<'_, Self::EF>)
        ensures
            view.local_row() == self.context().aux_local,
            view.next_row() == self.context().aux_next,
    ;

    fn is_first_row(&self) -> (s: Self::EF)
        ensures
            s == self.context().is_first_row,
    ;

    fn is_last_row(&self) -> (s: Self::EF)
        ensures
            s == self.context().is_last_row,
    ;

    /// The transition selector of a window of `size` rows; only two rows are supported.
    fn is_transition_window(&self, size: usize) -> (s: Self::EF)
        requires
            size == 2,
        ensures
            s == self.context().is_transition,
    ;

    /// Asserts that a value read from the main trace is zero.
    fn assert_zero(&mut self, x: Self::EF)
        requires
            old(self).has_room(1),
        ensures
            final(self).context() == old(self).context(),
            final(self).weights() == old(self).weights(),
            final(self).asserted() == old(self).asserted().push(x),
            forall|n: nat|
                n >= 1 && #[trigger] old(self).has_room(n) ==> final(self).has_room((n - 1) as nat),
    ;

    /// Asserts that a value of the extension field is zero.
    fn assert_zero_ext(&mut self, x: Self::EF)
        requires
            old(self).has_room(1),
        ensures
            final(self).context() == old(self).context(),
            final(self).weights() == old(self).weights(),
            final(self).asserted() == old(self).asserted().push(x),
            forall|n: nat|
                n >= 1 && #[trigger] old(self).has_room(n) ==> final(self).has_room((n - 1) as nat),
    ;
}

/// The sum of `weights[i] * values[i]` over all of `values`, taken from the left.
pub open spec fn weighted_sum<F: Field>(weights: Seq<F>, values: Seq<F>) -> F
    recommends
        values.len() <= weights.len(),
    decreases values.len(),
{
    if values.len() == 0 {
        F::zero_spec()
    } else {
        F::add_spec(
            weighted_sum(weights, values.drop_last()),
            F::mul_spec(weights[values.len() - 1], values.last()),
        )
    }
}

/// The fold `(..((0 * alpha + c_0) * alpha + c_1)..) * alpha + c_last`.
pub open spec fn horner<F: Field>(alpha: F, values: Seq<F>) -> F
    decreases values.len(),
{
    if values.len() == 0 {
        F::zero_spec()
    } else {
        F::add_spec(F::mul_spec(horner(alpha, values.drop_last()), alpha), values.last())
    }
}

/// The folder of the proving side.
///
/// Assertion `i` is weighted by entry `i` of the table of powers.
pub struct ProverFolder<'a, SC: StarkConfig> {
    main_local: &'a [SC::Challenge],
    main_next: &'a [SC::Challenge],
    aux_local: &'a [SC::Challenge],
    aux_next: &'a [SC::Challenge],
    is_first_row: SC::Challenge,
    is_last_row: SC::Challenge,
    is_transition: SC::Challenge,
    alpha_powers: &'a [SC::Challenge],
    accumulator: SC::Challenge,
    constraint_index: usize,
    log: Ghost<Seq<SC::Challenge>>,
}

impl<'a, SC: StarkConfig> ProverFolder<'a, SC> {
    #[verifier::type_invariant]
    spec fn inv(&self) -> bool {
        &&& self.constraint_index == self.log@.len()
        &&& self.constraint_index <= self.alpha_powers@.len()
        &&& self.accumulator == weighted_sum(self.alpha_powers@, self.log@)
    }

    /// A folder that has taken no assertion yet.
    pub fn new(
        main_local: &'a [SC::Challenge],
        main_next: &'a [SC::Challenge],
        aux_local: &'a [SC::Challenge],
        aux_next: &'a [SC::Challenge],
        is_first_row: SC::Challenge,
        is_last_row: SC::Challenge,
        is_transition: SC::Challenge,
        alpha_powers: &'a [SC::Challenge],
    ) -> (folder: Self)
        ensures
            folder.context() == (EvalContext {
                main_local: main_local@,
                main_next: main_next@,
                aux_local: aux_local@,
                aux_next: aux_next@,
                is_first_row,
                is_last_row,
                is_transition,
            }),
            folder.asserted() == Seq::<SC::Challenge>::empty(),
            folder.weights() == alpha_powers@,
            forall|n: nat| n <= alpha_powers@.len() ==> folder.has_room(n),
    {
        ProverFolder {
            main_local,
            main_next,
            aux_local,
            aux_next,
            is_first_row,
            is_last_row,
            is_transition,
            alpha_powers,
            accumulator: SC::Challenge::zero(),
            constraint_index: 0,
            log: Ghost(Seq::empty()),
        }
    }

    /// The weighted sum of the values asserted so far.
    pub fn accumulator(&self) -> (acc: SC::Challenge)
        ensures
            acc == weighted_sum(self.weights(), self.asserted()),
    {
        proof {
            use_type_invariant(self);
        }
        self.accumulator
    }

    /// The number of assertions taken so far.
    pub fn constraint_index(&self) -> (n: usize)
        ensures
            n == self.asserted().len(),
            n <= self.weights().len(),
    {
        proof {
            use_type_invariant(self);
        }
        self.constraint_index
    }

    fn fold(&mut self, x: SC::Challenge)
        requires
            old(self).has_room(1),
        ensures
            final(self).context() == old(self).context(),
            final(self).weights() == old(self).weights(),
            final(self).asserted() == old(self).asserted().push(x),
            forall|n: nat|
                n >= 1 && #[trigger] old(self).has_room(n) ==> final(self).has_room((n - 1) as nat),
    {
        proof {
            use_type_invariant(&*self);
        }
        let weight: SC::Challenge = self.alpha_powers[self.constraint_index];
        let term: SC::Challenge = weight.mul(&x);
        let ghost before = self.log@;
        proof {
            assert(before.push(x).drop_last() =~= before);
        }
        *self = ProverFolder {
            main_local: self.main_local,
            main_next: self.main_next,
            aux_local: self.aux_local,
            aux_next: self.aux_next,
            is_first_row: self.is_first_row,
            is_last_row: self.is_last_row,
            is_transition: self.is_transition,
            alpha_powers: self.alpha_powers,
            accumulator: self.accumulator.add(&term),
            constraint_index: self.constraint_index + 1,
            log: Ghost(before.push(x)),
        };
    }
}

impl<'a, SC: StarkConfig> AuxBuilder for ProverFolder<'a, SC> {
    type EF = SC::Challenge;

    closed spec fn context(&self) -> EvalContext<SC::Challenge> {
        EvalContext {
            main_local: self.main_local@,
            main_next: self.main_next@,
            aux_local: self.aux_local@,
            aux_next: self.aux_next@,
            is_first_row: self.is_first_row,
            is_last_row: self.is_last_row,
            is_transition: self.is_transition,
        }
    }

    closed spec fn asserted(&self) -> Seq<SC::Challenge> {
        self.log@
    }

    closed spec fn has_room(&self, n: nat) -> bool {
        self.log@.len() + n <= self.alpha_powers@.len()
    }

    closed spec fn weights(&self) -> Seq<SC::Challenge> {
        self.alpha_powers@
    }

    proof fn lemma_room(&self, n: nat, m: nat) {
    }

    fn main(&self) -> (view: VerifierView<'_, SC::Challenge>) {
        VerifierView::new(self.main_local, self.main_next)
    }

    fn aux(&self) -> (view: VerifierView<'_, SC::Challenge>) {
        VerifierView::new(self.aux_local, self.aux_next)
    }

    fn is_first_row(&self) -> (s: SC::Challenge) {
        self.is_first_row
    }

    fn is_last_row(&self) -> (s: SC::Challenge) {
        self.is_last_row
    }

    fn is_transition_window(&self, size: usize) -> (s: SC::Challenge) {
        self.is_transition
    }

    fn assert_zero(&mut self, x: SC::Challenge) {
        self.fold(x);
    }

    fn assert_zero_ext(&mut self, x: SC::Challenge) {
        self.fold(x);
    }
}

/// The folder of the verifying side, over values opened at one point.
pub struct VerifierFolder<'a, SC: StarkConfig> {
    main_local: &'a [SC::Challenge],
    main_next: &'a [SC::Challenge],
    aux_local: &'a [SC::Challenge],
    aux_next: &'a [SC::Challenge],
    is_first_row: SC::Challenge,
    is_last_row: SC::Challenge,
    is_transition: SC::Challenge,
    alpha: SC::Challenge,
    accumulator: SC::Challenge,
    log: Ghost<Seq<SC::Challenge>>,
}

impl<'a, SC: StarkConfig> VerifierFolder<'a, SC> {
    #[verifier::type_invariant]
    spec fn inv(&self) -> bool {
        self.accumulator == horner(self.alpha, self.log@)
    }

    /// The scalar that the assertions are combined with.
    pub open spec fn alpha_spec(&self) -> SC::Challenge {
        self.weights()[0]
    }

    /// A folder that has taken no assertion yet.
    pub fn new(
        main_local: &'a [SC::Challenge],
        main_next: &'a [SC::Challenge],
        aux_local: &'a [SC::Challenge],
        aux_next: &'a [SC::Challenge],
        is_first_row: SC::Challenge,
        is_last_row: SC::Challenge,
        is_transition: SC::Challenge,
        alpha: SC::Challenge,
    ) -> (folder: Self)
        ensures
            folder.context() == (EvalContext {
                main_local: main_local@,
                main_next: main_next@,
                aux_local: aux_local@,
                aux_next: aux_next@,
                is_first_row,
                is_last_row,
                is_transition,
            }),
            folder.asserted() == Seq::<SC::Challenge>::empty(),
            folder.weights() == seq![alpha],
            forall|n: nat| folder.has_room(n),
    {
        VerifierFolder {
            main_local,
            main_next,
            aux_local,
            aux_next,
            is_first_row,
            is_last_row,
            is_transition,
            alpha,
            accumulator: SC::Challenge::zero(),
            log: Ghost(Seq::empty()),
        }
    }

    /// The fold of the values asserted so far.
    pub fn accumulator(&self) -> (acc: SC::Challenge)
        ensures
            acc == horner(self.alpha_spec(), self.asserted()),
    {
        proof {
            use_type_invariant(self);
        }
        self.accumulator
    }

    fn fold(&mut self, x: SC::Challenge)
        ensures
            final(self).context() == old(self).context(),
            final(self).weights() == old(self).weights(),
            final(self).asserted() == old(self).asserted().push(x),
    {
        proof {
            use_type_invariant(&*self);
        }
        let scaled: SC::Challenge = self.accumulator.mul(&self.alpha);
        let ghost before = self.log@;
        proof {
            assert(before.push(x).drop_last() =~= before);
        }
        *self = VerifierFolder {
            main_local: self.main_local,
            main_next: self.main_next,
            aux_local: self.aux_local,
            aux_next: self.aux_next,
            is_first_row: self.is_first_row,
            is_last_row: self.is_last_row,
            is_transition: self.is_transition,
            alpha: self.alpha,
            accumulator: scaled.add(&x),
            log: Ghost(before.push(x)),
        };
    }
}

impl<'a, SC: StarkConfig> AuxBuilder for VerifierFolder<'a, SC> {
    type EF = SC::Challenge;

    closed spec fn context(&self) -> EvalContext<SC::Challenge> {
        EvalContext {
            main_local: self.main_local@,
            main_next: self.main_next@,
            aux_local: self.aux_local@,
            aux_next: self.aux_next@,
            is_first_row: self.is_first_row,
            is_last_row: self.is_last_row,
            is_transition: self.is_transition,
        }
    }

    closed spec fn asserted(&self) -> Seq<SC::Challenge> {
        self.log@
    }

    open spec fn has_room(&self, n: nat) -> bool {
        true
    }

    closed spec fn weights(&self) -> Seq<SC::Challenge> {
        seq![self.alpha]
    }

    proof fn lemma_room(&self, n: nat, m: nat) {
    }

    fn main(&self) -> (view: VerifierView<'_, SC::Challenge>) {
        VerifierView::new(self.main_local, self.main_next)
    }

    fn aux(&self) -> (view: VerifierView<'_, SC::Challenge>) {
        VerifierView::new(self.aux_local, self.aux_next)
    }

    fn is_first_row(&self) -> (s: SC::Challenge) {
        self.is_first_row
    }

    fn is_last_row(&self) -> (s: SC::Challenge) {
        self.is_last_row
    }

    fn is_transition_window(&self, size: usize) -> (s: SC::Challenge) {
        self.is_transition
    }

    fn assert_zero(&mut self, x: SC::Challenge) {
        self.fold(x);
    }

    fn assert_zero_ext(&mut self, x: SC::Challenge) {
        self.fold(x);
    }
}

} // verus!
