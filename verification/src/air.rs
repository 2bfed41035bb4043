//! What a computation declares: the shape of its traces, how its auxiliary
//! trace follows from the main trace and the challenges, and its constraints.

use vstd::prelude::*;
use crate::field::{ExtensionField, Field};
use crate::folder::{AuxBuilder, EvalContext};
use crate::matrix::Matrix;

verus! {

/// A computation over a main trace and an auxiliary trace that depends on
/// challenges drawn after the main trace is fixed.
pub trait MultiTraceAir<F: Field, EF: ExtensionField<F>> {
    /// The number of columns of the main trace.
    spec fn width_spec(&self) -> nat;

    /// The number of columns of the auxiliary trace; zero where there is none.
    spec fn aux_width_spec(&self) -> nat;

    /// The number of challenges that the auxiliary trace is built from.
    spec fn num_challenges_spec(&self) -> nat;

    /// The number of values that one evaluation asserts.
    spec fn constraint_count(&self) -> nat;

    /// The auxiliary trace of a main trace, as entries and number of columns.
    spec fn aux_trace_spec(&self, main: Seq<F>, main_cols: nat, challenges: Seq<EF>) -> (
        Seq<EF>,
        nat,
    );

    /// The values that one evaluation asserts, in order.
    spec fn constraints(&self, ctx: EvalContext<EF>) -> Seq<EF>;

    fn width(&self) -> (w: usize)
        ensures
            w == self.width_spec(),
    ;

    fn aux_width(&self) -> (w: usize)
        ensures
            w == self.aux_width_spec(),
    ;

    fn num_challenges(&self) -> (n: usize)
        ensures
            n == self.num_challenges_spec(),
    ;

    fn num_constraints(&self) -> (n: usize)
        ensures
            n == self.constraint_count(),
    ;

    /// Builds the auxiliary trace.  Nothing but the main trace and the
    /// challenges may influence it.
    fn build_aux_trace(&self, main: &Matrix<F>, challenges: &Vec<EF>) -> (aux: Matrix<EF>)
        requires
            main.cols() == self.width_spec(),
            challenges@.len() == self.num_challenges_spec(),
        ensures
            (aux.entries(), aux.cols()) == self.aux_trace_spec(
                main.entries(),
                main.cols(),
                challenges@,
            ),
    ;

    /// Asserts every constraint against the builder, always in the same order.
    fn eval<B: AuxBuilder<EF = EF>>(&self, builder: &mut B)
        requires
            old(builder).context().main_local.len() == self.width_spec(),
            old(builder).context().main_next.len() == self.width_spec(),
            old(builder).context().aux_local.len() == self.aux_width_spec(),
            old(builder).context().aux_next.len() == self.aux_width_spec(),
            old(builder).has_room(self.constraint_count()),
        ensures
            final(builder).context() == old(builder).context(),
            final(builder).weights() == old(builder).weights(),
            final(builder).asserted() == old(builder).asserted() + self.constraints(
                old(builder).context(),
            ),
            self.constraints(old(builder).context()).len() == self.constraint_count(),
    ;
}

} // verus!
