//! Cosets of the two-adic subgroups of the Baby Bear field, as evaluation
//! domains.  What is computed on them is computed by `p3_commit`'s
//! `PolynomialSpace` for `p3_field`'s `TwoAdicMultiplicativeCoset`.

use p3_commit::PolynomialSpace;
use p3_field::PrimeField32;
use p3_matrix::dense::RowMajorMatrix;
use vstd::arithmetic::power2::pow2;
use vstd::prelude::*;
use crate::baby_bear::BabyBear;
use crate::config::Selectors;
use crate::field::{pow, repeated_square, Field};
use crate::matrix::Matrix;

verus! {

type F = p3_baby_bear::BabyBear;

type P3Coset = p3_field::coset::TwoAdicMultiplicativeCoset<F>;

/// The largest `k` such that the field has a subgroup of `2^k` elements.
pub const TWO_ADICITY: usize = 27;

/// A generator of the multiplicative group of the field.
pub const GENERATOR: u32 = 31;

/// The coset `shift * H`, where `H` is the subgroup of `2^log_size` elements.
#[derive(Clone, Copy, Debug, PartialEq, Eq, Structural)]
pub struct Coset {
    shift: BabyBear,
    log_size: usize,
}

/// The generator of the subgroup of `2^bits` elements that the field fixes.
pub uninterp spec fn two_adic_generator(bits: nat) -> BabyBear;

/// The inverse of an element, and zero for zero.
pub open spec fn inverse_or_zero(a: BabyBear) -> BabyBear {
    match BabyBear::inverse_spec(a) {
        Some(x) => x,
        None => BabyBear::zero_spec(),
    }
}

/// The quotient `a / b`, and zero where `b` is zero.
pub open spec fn quotient(a: BabyBear, b: BabyBear) -> BabyBear {
    BabyBear::mul_spec(a, inverse_or_zero(b))
}

/// Point `i` of a coset: the shift times the `i`-th power of the generator
/// of its subgroup.
pub open spec fn coset_point(shift: BabyBear, log_size: nat, i: nat) -> BabyBear {
    BabyBear::mul_spec(shift, pow(two_adic_generator(log_size), i))
}

/// The point after `x` on a coset of `2^log_size` points: `x` times the
/// generator of the subgroup.
pub open spec fn coset_next_point(log_size: nat, x: BabyBear) -> BabyBear {
    BabyBear::mul_spec(x, two_adic_generator(log_size))
}

/// The vanishing polynomial of a coset at `x`: `(x / shift)^(2^log_size) - 1`.
pub open spec fn coset_vanishing(shift: BabyBear, log_size: nat, x: BabyBear) -> BabyBear {
    BabyBear::sub_spec(
        repeated_square(BabyBear::mul_spec(x, inverse_or_zero(shift)), log_size),
        BabyBear::one_spec(),
    )
}

/// The selectors of a coset at `x`.  With `u = x / shift`, `Z` the
/// vanishing polynomial at `x` and `g` the generator of the subgroup:
/// `Z / (u - 1)` for the first row, `Z / (u - 1/g)` for the last row,
/// `u - 1/g` for every row but the last, and `1 / Z`.
pub open spec fn coset_selectors_at(shift: BabyBear, log_size: nat, x: BabyBear) -> Selectors<
    BabyBear,
> {
    let u = BabyBear::mul_spec(x, inverse_or_zero(shift));
    let z = coset_vanishing(shift, log_size, x);
    let last = inverse_or_zero(two_adic_generator(log_size));
    Selectors {
        is_first_row: quotient(z, BabyBear::sub_spec(u, BabyBear::one_spec())),
        is_last_row: quotient(z, BabyBear::sub_spec(u, last)),
        is_transition: BabyBear::sub_spec(u, last),
        inv_vanishing: inverse_or_zero(z),
    }
}

/// The selectors of the subgroup of `2^log_size` elements at point `i` of
/// the coset of `2^coset_log_size` points shifted by the field's generator.
pub open spec fn selectors_on_point(log_size: nat, coset_log_size: nat, i: int) -> Selectors<
    BabyBear,
> {
    coset_selectors_at(
        BabyBear::one_spec(),
        log_size,
        coset_point(BabyBear::from_residue(GENERATOR as int), coset_log_size, i as nat),
    )
}

/// The selectors of the subgroup of `2^log_size` elements at every point of
/// the coset of `2^coset_log_size` points shifted by the field's generator.
pub open spec fn coset_selectors_on(log_size: nat, coset_log_size: nat) -> Selectors<
    Seq<BabyBear>,
> {
    Selectors {
        is_first_row: Seq::new(
            pow2(coset_log_size),
            |i: int| selectors_on_point(log_size, coset_log_size, i).is_first_row,
        ),
        is_last_row: Seq::new(
            pow2(coset_log_size),
            |i: int| selectors_on_point(log_size, coset_log_size, i).is_last_row,
        ),
        is_transition: Seq::new(
            pow2(coset_log_size),
            |i: int| selectors_on_point(log_size, coset_log_size, i).is_transition,
        ),
        inv_vanishing: Seq::new(
            pow2(coset_log_size),
            |i: int| selectors_on_point(log_size, coset_log_size, i).inv_vanishing,
        ),
    }
}

/// The shifts of the `chunks` cosets that a coset splits into: its first
/// `chunks` points.
pub open spec fn coset_split_shifts(shift: BabyBear, log_size: nat, chunks: nat) -> Seq<
    BabyBear,
> {
    Seq::new(chunks, |i: int| coset_point(shift, log_size, i as nat))
}

/// The entries of part `c` when a table of `cols` columns is dealt out to
/// `chunks` parts row by row: row `i` of the part is row `i * chunks + c`.
pub open spec fn dealt_part(entries: Seq<BabyBear>, cols: nat, chunks: nat, c: int) -> Seq<
    BabyBear,
> {
    Seq::new(
        if cols == 0 || chunks == 0 {
            0
        } else {
            (entries.len() / cols / chunks) * cols
        },
        |j: int| entries[((j / cols as int) * chunks + c) * cols + j % (cols as int)],
    )
}

/// Calls `PolynomialSpace::next_point` of the subgroup of `2^log_size`
/// elements, which multiplies by the generator of the subgroup and always
/// returns a point.
#[verifier::external_body]
fn next_point_raw(log_size: usize, x: BabyBear) -> (y: BabyBear)
    requires
        log_size <= TWO_ADICITY,
    ensures
        y == BabyBear::mul_spec(x, two_adic_generator(log_size as nat)),
{
    let d = P3Coset::new(F::new(1), log_size).unwrap();
    let y = d.next_point(F::new(x.as_canonical_u32())).unwrap();
    BabyBear::new(y.as_canonical_u32())
}

/// Calls `PolynomialSpace::vanishing_poly_at_point` of a coset, which
/// raises `x` times the inverse of the shift to the power `2^log_size` by
/// squaring and takes one off.
#[verifier::external_body]
fn vanishing_raw(shift: BabyBear, log_size: usize, x: BabyBear) -> (z: BabyBear)
    requires
        log_size <= TWO_ADICITY,
        shift.valid(),
        shift != BabyBear::zero_spec(),
    ensures
        z == coset_vanishing(shift, log_size as nat, x),
{
    let d = P3Coset::new(F::new(shift.as_canonical_u32()), log_size).unwrap();
    let z = d.vanishing_poly_at_point(F::new(x.as_canonical_u32()));
    BabyBear::new(z.as_canonical_u32())
}

/// Calls `PolynomialSpace::selectors_at_point` of a coset, which computes
/// the four values of [`coset_selectors_at`].  It divides by factors of the
/// vanishing polynomial at `x` and by that polynomial, so panics where it
/// is zero there.
#[verifier::external_body]
fn selectors_at_raw(shift: BabyBear, log_size: usize, x: BabyBear) -> (s: Selectors<BabyBear>)
    requires
        log_size <= TWO_ADICITY,
        shift.valid(),
        shift != BabyBear::zero_spec(),
        coset_vanishing(shift, log_size as nat, x) != BabyBear::zero_spec(),
    ensures
        s == coset_selectors_at(shift, log_size as nat, x),
{
    let d = P3Coset::new(F::new(shift.as_canonical_u32()), log_size).unwrap();
    let s = d.selectors_at_point(F::new(x.as_canonical_u32()));
    let back = |v: F| BabyBear::new(v.as_canonical_u32());
    Selectors {
        is_first_row: back(s.is_first_row),
        is_last_row: back(s.is_last_row),
        is_transition: back(s.is_transition),
        inv_vanishing: back(s.inv_vanishing),
    }
}

/// Calls `PolynomialSpace::selectors_on_coset` of the subgroup of
/// `2^log_size` elements for the coset of `2^coset_log_size` points shifted
/// by the field's generator, which shares no point with the subgroup.  Each
/// selector has, for each point of the coset in order, the value that
/// `selectors_at_point` has there.
#[verifier::external_body]
fn selectors_on_raw(log_size: usize, coset_log_size: usize) -> (s: Selectors<Vec<BabyBear>>)
    requires
        log_size <= coset_log_size <= TWO_ADICITY,
    ensures
        s.is_first_row@ == coset_selectors_on(log_size as nat, coset_log_size as nat).is_first_row,
        s.is_last_row@ == coset_selectors_on(log_size as nat, coset_log_size as nat).is_last_row,
        s.is_transition@ == coset_selectors_on(
            log_size as nat,
            coset_log_size as nat,
        ).is_transition,
        s.inv_vanishing@ == coset_selectors_on(
            log_size as nat,
            coset_log_size as nat,
        ).inv_vanishing,
        s.is_first_row@.len() == pow2(coset_log_size as nat),
        s.is_last_row@.len() == pow2(coset_log_size as nat),
        s.is_transition@.len() == pow2(coset_log_size as nat),
        s.inv_vanishing@.len() == pow2(coset_log_size as nat),
{
    let d = P3Coset::new(F::new(1), log_size).unwrap();
    let q = P3Coset::new(F::new(GENERATOR), coset_log_size).unwrap();
    let s = d.selectors_on_coset(q);
    let back = |v: Vec<F>| v.iter().map(|x| BabyBear::new(x.as_canonical_u32())).collect();
    Selectors {
        is_first_row: back(s.is_first_row),
        is_last_row: back(s.is_last_row),
        is_transition: back(s.is_transition),
        inv_vanishing: back(s.inv_vanishing),
    }
}

/// Calls `PolynomialSpace::try_create_disjoint_domain` of a coset, which
/// multiplies the shift by the field's generator and takes the least power
/// of two that is at least `min_size` as the size, and returns `None` where
/// that shift is zero or that size is beyond the two-adicity of the field.
#[verifier::external_body]
fn disjoint_raw(shift: BabyBear, log_size: usize, min_size: usize) -> (q: Option<(BabyBear, usize)>)
    requires
        log_size <= TWO_ADICITY,
        shift.valid(),
        shift != BabyBear::zero_spec(),
    ensures
        match q {
            Some(made) => {
                &&& made.0 == BabyBear::mul_spec(shift, BabyBear::from_residue(GENERATOR as int))
                &&& made.0 != BabyBear::zero_spec()
                &&& made.1 <= TWO_ADICITY
                &&& pow2(made.1 as nat) >= min_size
                &&& made.1 > 0 ==> pow2((made.1 - 1) as nat) < min_size
            },
            None => BabyBear::mul_spec(shift, BabyBear::from_residue(GENERATOR as int))
                == BabyBear::zero_spec() || forall|k: nat|
                k <= TWO_ADICITY ==> #[trigger] pow2(k) < min_size,
        },
{
    let d = P3Coset::new(F::new(shift.as_canonical_u32()), log_size).unwrap();
    let q = d.try_create_disjoint_domain(min_size)?;
    Some((BabyBear::new(q.shift().as_canonical_u32()), q.log_size()))
}

/// Calls `PolynomialSpace::split_domains` of a coset, which returns
/// `chunks` cosets, the `i`-th shifted by the shift times the `i`-th power
/// of the generator, and panics unless `chunks` is a power of two that is
/// at most the size of the coset; hands back their shifts.  Each is the
/// shift of a coset, so none is zero.
#[verifier::external_body]
fn split_shifts_raw(shift: BabyBear, log_size: usize, chunks: usize) -> (shifts: Vec<BabyBear>)
    requires
        log_size <= TWO_ADICITY,
        shift.valid(),
        shift != BabyBear::zero_spec(),
        exists|k: nat| k <= log_size && chunks == #[trigger] pow2(k),
    ensures
        shifts@ == coset_split_shifts(shift, log_size as nat, chunks as nat),
        shifts@.len() == chunks,
        forall|i: int|
            0 <= i < shifts@.len() ==> (#[trigger] shifts@[i]).valid() && shifts@[i]
                != BabyBear::zero_spec(),
{
    let d = P3Coset::new(F::new(shift.as_canonical_u32()), log_size).unwrap();
    let parts = d.split_domains(chunks);
    parts.iter().map(|q| BabyBear::new(q.shift().as_canonical_u32())).collect()
}

/// Calls `PolynomialSpace::split_evals` of the subgroup of `2^log_size`
/// elements, which deals the rows of a table of that many rows out to
/// `chunks` tables, row `i * chunks + c` to row `i` of table `c`.
#[verifier::external_body]
fn split_evals_raw(log_size: usize, chunks: usize, entries: &Vec<BabyBear>, cols: usize) -> (parts:
    Vec<Vec<BabyBear>>)
    requires
        log_size <= TWO_ADICITY,
        cols > 0,
        entries@.len() == pow2(log_size as nat) * cols,
        chunks > 0,
        pow2(log_size as nat) % (chunks as nat) == 0,
    ensures
        parts@.len() == chunks,
        forall|c: int|
            0 <= c < parts@.len() ==> (#[trigger] parts@[c])@ == dealt_part(
                entries@,
                cols as nat,
                chunks as nat,
                c,
            ),
{
    let d = P3Coset::new(F::new(1), log_size).unwrap();
    let values = entries.iter().map(|x| F::new(x.as_canonical_u32())).collect();
    let parts = d.split_evals(chunks, RowMajorMatrix::new(values, cols));
    let back = |m: &RowMajorMatrix<F>| m.values.iter().map(|x| BabyBear::new(x.as_canonical_u32())).collect();
    parts.iter().map(back).collect()
}

impl Coset {
    #[verifier::type_invariant]
    spec fn inv(self) -> bool {
        self.wf()
    }

    /// The shift of the coset.
    pub closed spec fn shift_spec(self) -> BabyBear {
        self.shift
    }

    /// The binary logarithm of the number of points.
    pub closed spec fn log_size_spec(self) -> nat {
        self.log_size as nat
    }

    /// The coset with the given shift and size.
    pub closed spec fn make(shift: BabyBear, log_size: nat) -> Coset {
        Coset { shift, log_size: log_size as usize }
    }

    /// Whether the coset exists: its shift is not zero and the field has a
    /// subgroup of its size.  Every coset at hand does.
    pub open spec fn wf(self) -> bool {
        &&& self.log_size_spec() <= TWO_ADICITY
        &&& self.shift_spec().valid()
        &&& self.shift_spec() != BabyBear::zero_spec()
    }

    /// The number of points.
    pub open spec fn size_spec(self) -> nat {
        pow2(self.log_size_spec())
    }

    /// A coset is known by its shift and its size.
    pub proof fn lemma_make(shift: BabyBear, log_size: nat)
        requires
            log_size <= TWO_ADICITY,
        ensures
            Self::make(shift, log_size).shift_spec() == shift,
            Self::make(shift, log_size).log_size_spec() == log_size,
    {
    }

    /// States that the coset exists.
    pub fn check_wf(&self)
        ensures
            self.wf(),
    {
        proof {
            use_type_invariant(self);
        }
    }

    /// The subgroup of `2^log_size` elements, where the field has one.
    pub fn subgroup(log_size: usize) -> (d: Option<Coset>)
        ensures
            d is Some <==> log_size <= TWO_ADICITY,
            d is Some ==> d.unwrap() == Self::make(BabyBear::one_spec(), log_size as nat),
    {
        if log_size <= TWO_ADICITY {
            proof {
                BabyBear::lemma_one_is_not_zero();
            }
            Some(Coset { shift: BabyBear::one(), log_size })
        } else {
            None
        }
    }

    pub fn shift(&self) -> (s: BabyBear)
        ensures
            s == self.shift_spec(),
    {
        self.shift
    }

    pub fn log_size(&self) -> (k: usize)
        ensures
            k == self.log_size_spec(),
            k <= TWO_ADICITY,
    {
        proof {
            use_type_invariant(self);
        }
        self.log_size
    }

    /// The number of points.
    pub fn size(&self) -> (n: usize)
        ensures
            n == self.size_spec(),
    {
        proof {
            use_type_invariant(self);
        }
        power_of_two(self.log_size)
    }

    /// The point after `x`.
    pub fn next_point(&self, x: &BabyBear) -> (y: BabyBear)
        ensures
            y == coset_next_point(self.log_size_spec(), *x),
    {
        proof {
            use_type_invariant(self);
        }
        next_point_raw(self.log_size, *x)
    }

    /// The vanishing polynomial of the coset at `x`.
    pub fn vanishing_at(&self, x: &BabyBear) -> (z: BabyBear)
        ensures
            z == coset_vanishing(self.shift_spec(), self.log_size_spec(), *x),
    {
        proof {
            use_type_invariant(self);
        }
        vanishing_raw(self.shift, self.log_size, *x)
    }

    /// The selectors of the coset at `x`, where its vanishing polynomial is
    /// not zero there.
    pub open spec fn selectors_at_spec(self, x: BabyBear) -> Option<Selectors<BabyBear>> {
        if coset_vanishing(self.shift_spec(), self.log_size_spec(), x) == BabyBear::zero_spec() {
            None
        } else {
            Some(coset_selectors_at(self.shift_spec(), self.log_size_spec(), x))
        }
    }

    /// The selectors of the coset at `x`; see [`Coset::selectors_at_spec`].
    pub fn selectors_at(&self, x: &BabyBear) -> (s: Option<Selectors<BabyBear>>)
        ensures
            s == self.selectors_at_spec(*x),
    {
        proof {
            use_type_invariant(self);
        }
        let z: BabyBear = vanishing_raw(self.shift, self.log_size, *x);
        if z.equals(&BabyBear::zero()) {
            None
        } else {
            Some(selectors_at_raw(self.shift, self.log_size, *x))
        }
    }

    /// The element that disjoint cosets are shifted by.
    pub open spec fn generator() -> BabyBear {
        BabyBear::from_residue(GENERATOR as int)
    }

    /// The selectors of a subgroup at every point of a coset shifted by the
    /// generator of the field.
    pub fn selectors_on(&self, coset: &Coset) -> (s: Selectors<Vec<BabyBear>>)
        requires
            self.shift_spec() == BabyBear::one_spec(),
            coset.shift_spec() == Self::generator(),
            self.log_size_spec() <= coset.log_size_spec(),
        ensures
            s.is_first_row@ == coset_selectors_on(
                self.log_size_spec(),
                coset.log_size_spec(),
            ).is_first_row,
            s.is_last_row@ == coset_selectors_on(
                self.log_size_spec(),
                coset.log_size_spec(),
            ).is_last_row,
            s.is_transition@ == coset_selectors_on(
                self.log_size_spec(),
                coset.log_size_spec(),
            ).is_transition,
            s.inv_vanishing@ == coset_selectors_on(
                self.log_size_spec(),
                coset.log_size_spec(),
            ).inv_vanishing,
            s.is_first_row@.len() == coset.size_spec(),
            s.is_last_row@.len() == coset.size_spec(),
            s.is_transition@.len() == coset.size_spec(),
            s.inv_vanishing@.len() == coset.size_spec(),
    {
        proof {
            use_type_invariant(self);
            use_type_invariant(coset);
        }
        selectors_on_raw(self.log_size, coset.log_size)
    }

    /// The coset shifted by the generator of the field whose size is the
    /// least power of two that is at least `min_size`, where there is one.
    pub open spec fn disjoint_spec(self, min_size: nat) -> Option<Coset> {
        let shift = BabyBear::mul_spec(self.shift_spec(), Self::generator());
        if shift == BabyBear::zero_spec() || forall|k: nat|
            k <= TWO_ADICITY ==> #[trigger] pow2(k) < min_size {
            None
        } else {
            Some(Self::make(shift, least_log(min_size)))
        }
    }

    /// A coset of at least `min_size` points that shares none with this
    /// one; see [`Coset::disjoint_spec`].
    pub fn disjoint(&self, min_size: usize) -> (q: Option<Coset>)
        ensures
            q == self.disjoint_spec(min_size as nat),
            q is Some ==> q.unwrap().size_spec() >= min_size,
    {
        proof {
            use_type_invariant(self);
        }
        match disjoint_raw(self.shift, self.log_size, min_size) {
            Some(made) => {
                proof {
                    lemma_least_log(min_size as nat, made.1 as nat);
                    BabyBear::lemma_product_valid(self.shift, Self::generator());
                }
                Some(Coset { shift: made.0, log_size: made.1 })
            },
            None => None,
        }
    }

    /// The cosets that this one splits into.
    pub open spec fn split_spec(self, chunks: nat) -> Seq<Coset> {
        Seq::new(
            chunks,
            |i: int|
                Self::make(
                    coset_split_shifts(self.shift_spec(), self.log_size_spec(), chunks)[i],
                    (self.log_size_spec() - crate::proving::log2_of(chunks)) as nat,
                ),
        )
    }

    /// Splits the coset into `chunks` cosets of equal size.
    pub fn split(&self, chunks: usize) -> (parts: Vec<Coset>)
        requires
            chunks > 0,
            self.size_spec() % (chunks as nat) == 0,
        ensures
            parts@ == self.split_spec(chunks as nat),
            parts@.len() == chunks,
    {
        proof {
            use_type_invariant(self);
            crate::util::lemma_divisor_of_power(chunks as nat, self.log_size as nat);
        }
        let log_chunks: usize = match crate::util::checked_log2(chunks) {
            Some(k) => k,
            None => {
                proof {
                    let j = choose|j: nat| j <= self.log_size && chunks == #[trigger] pow2(j);
                    assert(j < usize::BITS);
                    assert(crate::util::is_power_of_two(chunks as nat));
                }
                0
            },
        };
        proof {
            let j = choose|j: nat| j <= self.log_size && chunks == #[trigger] pow2(j);
            crate::proving::lemma_log2_unique(j, chunks as nat);
            crate::proving::lemma_log2_unique(log_chunks as nat, chunks as nat);
        }
        let shifts: Vec<BabyBear> = split_shifts_raw(self.shift, self.log_size, chunks);
        let mut parts: Vec<Coset> = Vec::new();
        let mut i: usize = 0;
        while i < chunks
            invariant
                i <= chunks,
                self.wf(),
                log_chunks <= self.log_size,
                log_chunks == crate::proving::log2_of(chunks as nat),
                shifts@ == coset_split_shifts(
                    self.shift_spec(),
                    self.log_size_spec(),
                    chunks as nat,
                ),
                shifts@.len() == chunks,
                forall|j: int|
                    0 <= j < shifts@.len() ==> (#[trigger] shifts@[j]).valid() && shifts@[j]
                        != BabyBear::zero_spec(),
                parts@ == self.split_spec(chunks as nat).take(i as int),
            decreases chunks - i,
        {
            parts.push(Coset { shift: shifts[i], log_size: self.log_size - log_chunks });
            i += 1;
            assert(parts@ =~= self.split_spec(chunks as nat).take(i as int));
        }
        assert(self.split_spec(chunks as nat).take(i as int) =~= self.split_spec(chunks as nat));
        parts
    }
}

impl Coset {
    /// Deals the rows of a table of evaluations over the coset out to the
    /// parts that the coset splits into.
    pub fn split_evals(&self, chunks: usize, evals: &Matrix<BabyBear>) -> (parts: Vec<
        Matrix<BabyBear>,
    >)
        requires
            chunks > 0,
            self.size_spec() % (chunks as nat) == 0,
            evals.rows() == self.size_spec(),
        ensures
            parts@.len() == chunks,
            parts@.map_values(|m: Matrix<BabyBear>| m.entries()) == Seq::new(
                chunks as nat,
                |c: int| dealt_part(evals.entries(), evals.cols(), chunks as nat, c),
            ),
            forall|i: int| 0 <= i < parts@.len() ==> (#[trigger] parts@[i]).cols() == evals.cols(),
    {
        proof {
            use_type_invariant(self);
            vstd::arithmetic::power2::lemma_pow2_pos(self.log_size as nat);
        }
        evals.check_wf();
        let cols: usize = evals.width();
        proof {
            let len = evals.entries().len() as int;
            let w = cols as int;
            vstd::arithmetic::div_mod::lemma_fundamental_div_mod(len, w);
            assert(len == (len / w) * w) by (nonlinear_arith)
                requires
                    len == w * (len / w) + len % w,
                    len % w == 0,
            ;
        }
        let raw: Vec<Vec<BabyBear>> = split_evals_raw(self.log_size, chunks, evals.values(), cols);
        let mut parts: Vec<Matrix<BabyBear>> = Vec::new();
        let mut c: usize = 0;
        while c < chunks
            invariant
                c <= chunks,
                cols > 0,
                cols == evals.cols(),
                raw@.len() == chunks,
                forall|i: int|
                    0 <= i < raw@.len() ==> (#[trigger] raw@[i])@ == dealt_part(
                        evals.entries(),
                        cols as nat,
                        chunks as nat,
                        i,
                    ),
                parts@.len() == c,
                forall|i: int|
                    0 <= i < c ==> (#[trigger] parts@[i]).cols() == cols && parts@[i].entries()
                        == dealt_part(evals.entries(), cols as nat, chunks as nat, i),
            decreases chunks - c,
        {
            let part: Vec<BabyBear> = crate::util::copy_of(&raw[c]);
            proof {
                let rows = (evals.entries().len() / (cols as nat) / (chunks as nat)) as int;
                let w = cols as int;
                assert(part@.len() == rows * w);
                assert((rows * w) % w == 0) by (nonlinear_arith)
                    requires
                        w > 0,
                ;
            }
            match Matrix::new(part, cols) {
                Some(m) => {
                    parts.push(m);
                },
                None => {
                    proof {
                        assert(false);
                    }
                },
            }
            c += 1;
        }
        assert(parts@.map_values(|m: Matrix<BabyBear>| m.entries()) =~= Seq::new(
            chunks as nat,
            |c: int| dealt_part(evals.entries(), evals.cols(), chunks as nat, c),
        ));
        parts
    }
}

/// The least `k` with `2^k >= n`.
pub open spec fn least_log(n: nat) -> nat {
    choose|k: nat| #[trigger] pow2(k) >= n && (k > 0 ==> pow2((k - 1) as nat) < n)
}

/// There is one least `k` with `2^k >= n` only.
pub proof fn lemma_least_log(n: nat, k: nat)
    requires
        pow2(k) >= n,
        k > 0 ==> pow2((k - 1) as nat) < n,
    ensures
        least_log(n) == k,
{
    let c = least_log(n);
    assert(pow2(c) >= n && (c > 0 ==> pow2((c - 1) as nat) < n));
    if c < k {
        if c < k - 1 {
            vstd::arithmetic::power2::lemma_pow2_strictly_increases(c, (k - 1) as nat);
        }
    }
    if k < c {
        if k < c - 1 {
            vstd::arithmetic::power2::lemma_pow2_strictly_increases(k, (c - 1) as nat);
        }
    }
}

/// Where some power of two is at least `n`, the least such is no higher.
pub proof fn lemma_least_log_bound(n: nat, k: nat)
    requires
        pow2(k) >= n,
    ensures
        least_log(n) <= k,
        pow2(least_log(n)) >= n,
        least_log(n) > 0 ==> pow2((least_log(n) - 1) as nat) < n,
    decreases k,
{
    if k > 0 && pow2((k - 1) as nat) >= n {
        lemma_least_log_bound(n, (k - 1) as nat);
    } else {
        lemma_least_log(n, k);
    }
}

/// Computes `2^k`.
pub fn power_of_two(k: usize) -> (n: usize)
    requires
        k <= TWO_ADICITY,
    ensures
        n == pow2(k as nat),
{
    let mut n: usize = 1;
    let mut i: usize = 0;
    proof {
        vstd::arithmetic::power2::lemma2_to64();
    }
    while i < k
        invariant
            i <= k,
            k <= TWO_ADICITY,
            n == pow2(i as nat),
            n <= pow2(TWO_ADICITY as nat),
            pow2(TWO_ADICITY as nat) == 0x8000000,
        decreases k - i,
    {
        proof {
            vstd::arithmetic::power2::lemma_pow2_unfold((i + 1) as nat);
            if i + 1 < TWO_ADICITY {
                vstd::arithmetic::power2::lemma_pow2_strictly_increases(
                    (i + 1) as nat,
                    TWO_ADICITY as nat,
                );
            }
        }
        n = n * 2;
        i += 1;
    }
    n
}

} // verus!
