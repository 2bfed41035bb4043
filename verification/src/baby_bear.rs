//! The Baby Bear field, the integers modulo `2^31 - 2^27 + 1`, with its
//! arithmetic done by `p3_baby_bear`.

use p3_field::PrimeField32;
use vstd::arithmetic::div_mod::{
    lemma_add_mod_noop,
    lemma_mul_mod_noop_general,
    lemma_small_mod,
};
use vstd::prelude::*;
use crate::field::{ExtensionField, Field};

verus! {

type F = p3_baby_bear::BabyBear;

/// The Baby Bear prime, `2^31 - 2^27 + 1`.
pub const BABY_BEAR_PRIME: u32 = 0x78000001;

/// An element of the Baby Bear field, held as its least non-negative residue.
#[derive(Clone, Copy, Debug, PartialEq, Eq, Structural)]
pub struct BabyBear {
    value: u32,
}

/// Calls `p3_baby_bear::BabyBear::new`, which takes any `u32` to the element
/// it stands for, and `as_canonical_u32`, which gives the residue of an
/// element in `[0, P)`: together, the residue of `x`.
#[verifier::external_body]
fn reduce(x: u32) -> (r: u32)
    ensures
        r == x % BABY_BEAR_PRIME,
{
    F::new(x).as_canonical_u32()
}

/// Calls the addition of `p3_baby_bear::BabyBear` on the elements that `a`
/// and `b` stand for, and gives the residue of their sum.
#[verifier::external_body]
fn add_residues(a: u32, b: u32) -> (r: u32)
    ensures
        r == (a + b) % (BABY_BEAR_PRIME as int),
{
    (F::new(a) + F::new(b)).as_canonical_u32()
}

/// Calls the subtraction of `p3_baby_bear::BabyBear` on the elements that
/// `a` and `b` stand for, and gives the residue of their difference.
#[verifier::external_body]
fn sub_residues(a: u32, b: u32) -> (r: u32)
    ensures
        r == (a - b) % (BABY_BEAR_PRIME as int),
{
    (F::new(a) - F::new(b)).as_canonical_u32()
}

/// Calls the multiplication of `p3_baby_bear::BabyBear` on the elements that
/// `a` and `b` stand for, and gives the residue of their product.
#[verifier::external_body]
fn mul_residues(a: u32, b: u32) -> (r: u32)
    ensures
        r == (a * b) % (BABY_BEAR_PRIME as int),
{
    (F::new(a) * F::new(b)).as_canonical_u32()
}

/// Whether `r` is the residue of the inverse of the element with residue `a`.
pub open spec fn inverts(a: int, r: int) -> bool {
    0 <= r < BABY_BEAR_PRIME && (a * r) % (BABY_BEAR_PRIME as int) == 1
}

/// The residue of the inverse of the element with residue `a`.
pub open spec fn inverse_residue(a: int) -> int {
    choose|r: int| inverts(a, r)
}

/// Calls `Field::try_inverse` of `p3_baby_bear::BabyBear` on the element
/// that `a` stands for, which returns `None` for zero and the inverse
/// otherwise, and gives the residue of the inverse.
#[verifier::external_body]
fn invert_residue(a: u32) -> (r: Option<u32>)
    ensures
        r is None <==> a % BABY_BEAR_PRIME == 0,
        r is Some ==> inverts(a as int, r.unwrap() as int),
{
    Some(p3_field::Field::try_inverse(&F::new(a))?.as_canonical_u32())
}

/// An element has one inverse only.
pub proof fn lemma_inverse_unique(a: int, r: int, s: int)
    requires
        inverts(a, r),
        inverts(a, s),
    ensures
        r == s,
{
    let p = BABY_BEAR_PRIME as int;
    lemma_mul_mod_noop_general(r, a * s, p);
    lemma_mul_mod_noop_general(r * a, s, p);
    assert(r * (a * s) == (r * a) * s) by (nonlinear_arith);
    assert(r * a == a * r) by (nonlinear_arith);
    assert(r * 1 == r && 1 * s == s);
    lemma_small_mod(r as nat, p as nat);
    lemma_small_mod(s as nat, p as nat);
}

impl BabyBear {
    #[verifier::type_invariant]
    spec fn canonical(self) -> bool {
        self.value < BABY_BEAR_PRIME
    }

    /// The least non-negative residue of the element.
    pub closed spec fn residue(self) -> int {
        self.value as int
    }

    /// The element with residue `r`.
    pub closed spec fn from_residue(r: int) -> Self {
        BabyBear { value: r as u32 }
    }

    /// The element that `x` stands for.
    pub fn new(x: u32) -> (e: Self)
        ensures
            e.residue() == x % BABY_BEAR_PRIME,
            e.valid(),
    {
        BabyBear { value: reduce(x) }
    }

    /// The least non-negative residue of the element.
    pub fn as_canonical_u32(&self) -> (r: u32)
        ensures
            r == self.residue(),
            r < BABY_BEAR_PRIME,
    {
        proof {
            use_type_invariant(self);
        }
        self.value
    }

    /// States that the element is held as its least residue.
    pub fn check_valid(&self)
        ensures
            self.valid(),
    {
        proof {
            use_type_invariant(self);
        }
    }

    /// An element is known by its residue.
    pub proof fn lemma_residue_decides(a: Self, b: Self)
        ensures
            a.residue() == b.residue() <==> a == b,
    {
    }

    /// One is not zero.
    pub proof fn lemma_one_is_not_zero()
        ensures
            Self::one_spec().valid(),
            Self::one_spec() != Self::zero_spec(),
    {
    }

    /// The generator 31 is valid, is not zero and is not one, and one times
    /// it is it.
    pub proof fn lemma_one_times_generator()
        ensures
            Self::from_residue(31).valid(),
            Self::from_residue(31) != Self::zero_spec(),
            Self::from_residue(31) != Self::one_spec(),
            Self::mul_spec(Self::one_spec(), Self::from_residue(31)) == Self::from_residue(31),
    {
    }

    /// Every product is valid.
    pub proof fn lemma_product_valid(a: Self, b: Self)
        ensures
            Self::mul_spec(a, b).valid(),
    {
    }

    /// The residue of `from_residue(r)` is `r`, where `r` is one.
    pub proof fn lemma_from_residue(r: int)
        requires
            0 <= r < BABY_BEAR_PRIME,
        ensures
            Self::from_residue(r).residue() == r,
    {
    }
}

impl Field for BabyBear {
    open spec fn valid(self) -> bool {
        self.residue() < BABY_BEAR_PRIME
    }

    open spec fn zero_spec() -> Self {
        Self::from_residue(0)
    }

    open spec fn one_spec() -> Self {
        Self::from_residue(1)
    }

    open spec fn add_spec(a: Self, b: Self) -> Self {
        Self::from_residue((a.residue() + b.residue()) % (BABY_BEAR_PRIME as int))
    }

    open spec fn sub_spec(a: Self, b: Self) -> Self {
        Self::from_residue((a.residue() - b.residue()) % (BABY_BEAR_PRIME as int))
    }

    open spec fn mul_spec(a: Self, b: Self) -> Self {
        Self::from_residue((a.residue() * b.residue()) % (BABY_BEAR_PRIME as int))
    }

    open spec fn inverse_spec(a: Self) -> Option<Self> {
        if a.residue() % (BABY_BEAR_PRIME as int) == 0 {
            None
        } else {
            Some(Self::from_residue(inverse_residue(a.residue())))
        }
    }

    fn zero() -> (r: Self) {
        BabyBear { value: 0 }
    }

    fn one() -> (r: Self) {
        BabyBear { value: 1 }
    }

    fn add(&self, rhs: &Self) -> (r: Self) {
        BabyBear { value: add_residues(self.value, rhs.value) }
    }

    fn sub(&self, rhs: &Self) -> (r: Self) {
        BabyBear { value: sub_residues(self.value, rhs.value) }
    }

    fn mul(&self, rhs: &Self) -> (r: Self) {
        BabyBear { value: mul_residues(self.value, rhs.value) }
    }

    fn try_inverse(&self) -> (r: Option<Self>) {
        match invert_residue(self.value) {
            Some(value) => {
                proof {
                    lemma_inverse_unique(
                        self.value as int,
                        value as int,
                        inverse_residue(self.value as int),
                    );
                }
                Some(BabyBear { value })
            },
            None => None,
        }
    }

    fn equals(&self, rhs: &Self) -> (r: bool) {
        self.value == rhs.value
    }

    proof fn lemma_closed(a: Self, b: Self) {
    }

    proof fn lemma_mul_commutes(a: Self, b: Self) {
        assert(a.residue() * b.residue() == b.residue() * a.residue()) by (nonlinear_arith);
    }

    proof fn lemma_mul_associates(a: Self, b: Self, c: Self) {
        let p = BABY_BEAR_PRIME as int;
        let (x, y, z) = (a.residue(), b.residue(), c.residue());
        lemma_mul_mod_noop_general(x * y, z, p);
        lemma_mul_mod_noop_general(x, y * z, p);
        assert((x * y) * z == x * (y * z)) by (nonlinear_arith);
    }

    proof fn lemma_mul_distributes(a: Self, b: Self, c: Self) {
        let p = BABY_BEAR_PRIME as int;
        let (x, y, z) = (a.residue(), b.residue(), c.residue());
        lemma_mul_mod_noop_general(x, y + z, p);
        lemma_add_mod_noop(x * y, x * z, p);
        assert(x * (y + z) == x * y + x * z) by (nonlinear_arith);
    }

    proof fn lemma_zero(a: Self) {
        let p = BABY_BEAR_PRIME as int;
        assert(a.residue() * 0 == 0) by (nonlinear_arith);
        if a.valid() {
            lemma_small_mod(a.residue() as nat, p as nat);
        }
    }

    proof fn lemma_one(a: Self) {
        let p = BABY_BEAR_PRIME as int;
        assert(1 * a.residue() == a.residue()) by (nonlinear_arith);
        lemma_small_mod(a.residue() as nat, p as nat);
    }
}

/// The field as an extension of itself, of dimension one.
impl ExtensionField<BabyBear> for BabyBear {
    open spec fn lift_spec(x: BabyBear) -> Self {
        x
    }

    open spec fn dimension_spec() -> nat {
        1
    }

    open spec fn coordinates_spec(x: Self) -> Seq<BabyBear> {
        seq![x]
    }

    open spec fn basis_spec(i: nat) -> Self {
        Self::one_spec()
    }

    fn lift(x: &BabyBear) -> (r: Self) {
        *x
    }

    fn dimension() -> (d: usize) {
        1
    }

    fn coordinates(&self) -> (c: Vec<BabyBear>) {
        let mut c: Vec<BabyBear> = Vec::new();
        c.push(*self);
        c
    }

    fn basis(i: usize) -> (b: Self) {
        Self::one()
    }
}

} // verus!
