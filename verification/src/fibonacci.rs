//! A computation to try the engine on: the Fibonacci sequence in two
//! columns, with one auxiliary column of running sums of fractions.

use vstd::prelude::*;
use crate::air::MultiTraceAir;
use crate::field::{ExtensionField, Field};
use crate::folder::{AuxBuilder, EvalContext};
use crate::matrix::Matrix;

verus! {

/// The computation `a[0] = 0`, `b[0] = 1`, `b' = a + b`, `a' = b`.
///
/// Its auxiliary column holds, in row `i`, the sum over the rows up to `i`
/// of `1 / (alpha - a)`, where `alpha` is the first challenge; a row where
/// `alpha` equals `a` adds nothing.
pub struct FibonacciLogUp {
    /// The number of rows of the trace.
    pub num_steps: usize,
}

/// Row `i` of the Fibonacci trace.
pub open spec fn fibonacci_row<F: Field>(i: nat) -> (F, F)
    decreases i,
{
    if i == 0 {
        (F::zero_spec(), F::one_spec())
    } else {
        let before = fibonacci_row::<F>((i - 1) as nat);
        (before.1, F::add_spec(before.0, before.1))
    }
}

/// The first `rows` rows of the Fibonacci trace, row after row.
pub open spec fn fibonacci_entries<F: Field>(rows: nat) -> Seq<F>
    decreases rows,
{
    if rows == 0 {
        Seq::empty()
    } else {
        let row = fibonacci_row::<F>((rows - 1) as nat);
        fibonacci_entries::<F>((rows - 1) as nat).push(row.0).push(row.1)
    }
}

/// What row `r` of a main trace adds to the running sum.
pub open spec fn fraction<F: Field, EF: ExtensionField<F>>(alpha: EF, a: F) -> EF {
    match EF::inverse_spec(EF::sub_spec(alpha, EF::lift_spec(a))) {
        Some(x) => x,
        None => EF::zero_spec(),
    }
}

/// The running sums of the first `rows` rows of a main trace of `cols`
/// columns.
pub open spec fn running_sums<F: Field, EF: ExtensionField<F>>(
    main: Seq<F>,
    cols: nat,
    alpha: EF,
    rows: nat,
) -> Seq<EF>
    decreases rows,
{
    if rows == 0 {
        Seq::empty()
    } else {
        let before = running_sums::<F, EF>(main, cols, alpha, (rows - 1) as nat);
        let sum = if rows == 1 {
            EF::zero_spec()
        } else {
            before.last()
        };
        before.push(EF::add_spec(sum, fraction::<F, EF>(alpha, main[(rows - 1) * cols])))
    }
}

/// The values that the Fibonacci computation asserts: on the first row
/// `a` and `b - 1`, on every row but the last `b' - (a + b)` and `a' - b`.
pub open spec fn fibonacci_constraints<EF: Field>(ctx: EvalContext<EF>) -> Seq<EF> {
    let (a, b) = (ctx.main_local[0], ctx.main_local[1]);
    let (a_next, b_next) = (ctx.main_next[0], ctx.main_next[1]);
    seq![
        EF::mul_spec(ctx.is_first_row, a),
        EF::mul_spec(ctx.is_first_row, EF::sub_spec(b, EF::one_spec())),
        EF::mul_spec(ctx.is_transition, EF::sub_spec(b_next, EF::add_spec(a, b))),
        EF::mul_spec(ctx.is_transition, EF::sub_spec(a_next, b)),
    ]
}

/// Asserts the constraints of the Fibonacci computation.
pub fn eval_fibonacci<B: AuxBuilder>(builder: &mut B)
    requires
        old(builder).context().main_local.len() == 2,
        old(builder).context().main_next.len() == 2,
        old(builder).has_room(4),
    ensures
        final(builder).context() == old(builder).context(),
        final(builder).weights() == old(builder).weights(),
        final(builder).asserted() == old(builder).asserted() + fibonacci_constraints(
            old(builder).context(),
        ),
{
    let main = builder.main();
    let a: B::EF = main.get_local(0);
    let b: B::EF = main.get_local(1);
    let a_next: B::EF = main.get_next(0);
    let b_next: B::EF = main.get_next(1);
    let first: B::EF = builder.is_first_row();
    let transition: B::EF = builder.is_transition_window(2);
    let ghost start = builder.asserted();
    let ghost ctx = builder.context();

    proof {
        builder.lemma_room(4, 1);
    }
    builder.assert_zero(first.mul(&a));
    proof {
        builder.lemma_room(3, 1);
    }
    builder.assert_zero(first.mul(&b.sub(&B::EF::one())));
    proof {
        builder.lemma_room(2, 1);
    }
    builder.assert_zero(transition.mul(&b_next.sub(&a.add(&b))));
    builder.assert_zero(transition.mul(&a_next.sub(&b)));
    assert(builder.asserted() =~= start + fibonacci_constraints(ctx));
}

/// The first `rows` rows of the Fibonacci sequence from `(0, 1)`, as a
/// table of two columns.
pub fn fibonacci_trace<F: Field>(rows: usize) -> (trace: Matrix<F>)
    ensures
        trace.cols() == 2,
        trace.rows() == rows,
        trace.entries() == fibonacci_entries::<F>(rows as nat),
{
    let mut values: Vec<F> = Vec::new();
    let mut a: F = F::zero();
    let mut b: F = F::one();
    let mut i: usize = 0;
    while i < rows
        invariant
            i <= rows,
            (a, b) == fibonacci_row::<F>(i as nat),
            values@ == fibonacci_entries::<F>(i as nat),
            values@.len() == 2 * i,
        decreases rows - i,
    {
        values.push(a);
        values.push(b);
        let next: F = a.add(&b);
        a = b;
        b = next;
        i += 1;
    }
    match Matrix::new(values, 2) {
        Some(trace) => trace,
        None => {
            proof {
                assert(false);
            }
            vstd::pervasive::unreached()
        },
    }
}

/// The Fibonacci computation without an auxiliary trace.
pub struct Fibonacci {}

impl<F: Field, EF: ExtensionField<F>> MultiTraceAir<F, EF> for Fibonacci {
    open spec fn width_spec(&self) -> nat {
        2
    }

    open spec fn aux_width_spec(&self) -> nat {
        0
    }

    open spec fn num_challenges_spec(&self) -> nat {
        0
    }

    open spec fn constraint_count(&self) -> nat {
        4
    }

    open spec fn aux_trace_spec(&self, main: Seq<F>, main_cols: nat, challenges: Seq<EF>) -> (
        Seq<EF>,
        nat,
    ) {
        (Seq::empty(), 0)
    }

    open spec fn constraints(&self, ctx: EvalContext<EF>) -> Seq<EF> {
        fibonacci_constraints(ctx)
    }

    fn width(&self) -> (w: usize) {
        2
    }

    fn aux_width(&self) -> (w: usize) {
        0
    }

    fn num_challenges(&self) -> (n: usize) {
        0
    }

    fn num_constraints(&self) -> (n: usize) {
        4
    }

    fn build_aux_trace(&self, main: &Matrix<F>, challenges: &Vec<EF>) -> (aux: Matrix<EF>) {
        match Matrix::new(Vec::new(), 0) {
            Some(aux) => aux,
            None => {
                proof {
                    assert(false);
                }
                vstd::pervasive::unreached()
            },
        }
    }

    fn eval<B: AuxBuilder<EF = EF>>(&self, builder: &mut B) {
        eval_fibonacci(builder);
    }
}

impl FibonacciLogUp {
    pub fn new(num_steps: usize) -> (air: Self)
        ensures
            air.num_steps == num_steps,
    {
        FibonacciLogUp { num_steps }
    }

    /// The main trace: the Fibonacci sequence from `(0, 1)`.
    pub fn generate_main_trace<F: Field>(&self) -> (trace: Matrix<F>)
        ensures
            trace.cols() == 2,
            trace.rows() == self.num_steps,
            trace.entries() == fibonacci_entries::<F>(self.num_steps as nat),
    {
        fibonacci_trace(self.num_steps)
    }
}

impl<F: Field, EF: ExtensionField<F>> MultiTraceAir<F, EF> for FibonacciLogUp {
    open spec fn width_spec(&self) -> nat {
        2
    }

    open spec fn aux_width_spec(&self) -> nat {
        1
    }

    open spec fn num_challenges_spec(&self) -> nat {
        2
    }

    open spec fn constraint_count(&self) -> nat {
        4
    }

    open spec fn aux_trace_spec(&self, main: Seq<F>, main_cols: nat, challenges: Seq<EF>) -> (
        Seq<EF>,
        nat,
    ) {
        (
            running_sums::<F, EF>(
                main,
                main_cols,
                challenges[0],
                if main_cols == 0 {
                    0
                } else {
                    main.len() / main_cols
                },
            ),
            1,
        )
    }

    open spec fn constraints(&self, ctx: EvalContext<EF>) -> Seq<EF> {
        fibonacci_constraints(ctx)
    }

    fn width(&self) -> (w: usize) {
        2
    }

    fn aux_width(&self) -> (w: usize) {
        1
    }

    fn num_challenges(&self) -> (n: usize) {
        2
    }

    fn num_constraints(&self) -> (n: usize) {
        4
    }

    fn build_aux_trace(&self, main: &Matrix<F>, challenges: &Vec<EF>) -> (aux: Matrix<EF>) {
        let alpha: EF = challenges[0];
        let height: usize = main.height();
        let mut column: Vec<EF> = Vec::new();
        let mut sum: EF = EF::zero();
        let mut r: usize = 0;
        while r < height
            invariant
                r <= height,
                height == main.rows(),
                main.cols() == 2,
                column@ == running_sums::<F, EF>(main.entries(), 2, alpha, r as nat),
                column@.len() == r,
                sum == if r == 0 {
                    EF::zero_spec()
                } else {
                    column@.last()
                },
            decreases height - r,
        {
            let a: F = main.get(r, 0);
            let denominator: EF = alpha.sub(&EF::lift(&a));
            let term: EF = match denominator.try_inverse() {
                Some(x) => x,
                None => EF::zero(),
            };
            sum = sum.add(&term);
            column.push(sum);
            r += 1;
        }
        match Matrix::new(column, 1) {
            Some(aux) => aux,
            None => {
                proof {
                    assert(false);
                }
                vstd::pervasive::unreached()
            },
        }
    }

    fn eval<B: AuxBuilder<EF = EF>>(&self, builder: &mut B) {
        let aux = builder.aux();
        let _running_sum_local: EF = aux.get_local(0);
        let _running_sum_next: EF = aux.get_next(0);
        eval_fibonacci(builder);
    }
}

} // verus!
