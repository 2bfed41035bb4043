//! The arithmetic that the engine needs from a field, and what it may assume of it.

use vstd::prelude::*;

verus! {

/// A commutative ring with identity, as far as the engine uses one.
///
/// A value is its own mathematical model: two values are the same element
/// exactly when they are equal.  `valid` singles out the representations that
/// stand for an element; every operation returns a valid value.
pub trait Field: Sized + Copy {
    /// Whether this representation stands for an element of the field.
    spec fn valid(self) -> bool;

    /// The additive identity.
    spec fn zero_spec() -> Self;

    /// The multiplicative identity.
    spec fn one_spec() -> Self;

    /// The sum of two elements.
    spec fn add_spec(a: Self, b: Self) -> Self;

    /// The difference of two elements.
    spec fn sub_spec(a: Self, b: Self) -> Self;

    /// The product of two elements.
    spec fn mul_spec(a: Self, b: Self) -> Self;

    /// The multiplicative inverse of an element; zero has none.
    spec fn inverse_spec(a: Self) -> Option<Self>;

    fn zero() -> (r: Self)
        ensures
            r == Self::zero_spec(),
    ;

    fn one() -> (r: Self)
        ensures
            r == Self::one_spec(),
    ;

    fn add(&self, rhs: &Self) -> (r: Self)
        ensures
            r == Self::add_spec(*self, *rhs),
    ;

    fn sub(&self, rhs: &Self) -> (r: Self)
        ensures
            r == Self::sub_spec(*self, *rhs),
    ;

    fn mul(&self, rhs: &Self) -> (r: Self)
        ensures
            r == Self::mul_spec(*self, *rhs),
    ;

    /// The multiplicative inverse, or `None` for zero.
    fn try_inverse(&self) -> (r: Option<Self>)
        ensures
            r == Self::inverse_spec(*self),
    ;

    /// Whether two values are the same element.
    fn equals(&self, rhs: &Self) -> (r: bool)
        ensures
            r == (*self == *rhs),
    ;

    /// Sums, products and the two identities are valid.
    proof fn lemma_closed(a: Self, b: Self)
        ensures
            Self::zero_spec().valid(),
            Self::one_spec().valid(),
            Self::add_spec(a, b).valid(),
            Self::mul_spec(a, b).valid(),
    ;

    /// Multiplication is commutative.
    proof fn lemma_mul_commutes(a: Self, b: Self)
        ensures
            Self::mul_spec(a, b) == Self::mul_spec(b, a),
    ;

    /// Multiplication is associative.
    proof fn lemma_mul_associates(a: Self, b: Self, c: Self)
        ensures
            Self::mul_spec(Self::mul_spec(a, b), c) == Self::mul_spec(a, Self::mul_spec(b, c)),
    ;

    /// Multiplication distributes over addition.
    proof fn lemma_mul_distributes(a: Self, b: Self, c: Self)
        ensures
            Self::mul_spec(a, Self::add_spec(b, c)) == Self::add_spec(
                Self::mul_spec(a, b),
                Self::mul_spec(a, c),
            ),
    ;

    /// Zero annihilates, and is neutral for addition of a valid element.
    proof fn lemma_zero(a: Self)
        ensures
            Self::mul_spec(a, Self::zero_spec()) == Self::zero_spec(),
            a.valid() ==> Self::add_spec(Self::zero_spec(), a) == a,
    ;

    /// One is neutral for multiplication of a valid element.
    proof fn lemma_one(a: Self)
        requires
            a.valid(),
        ensures
            Self::mul_spec(Self::one_spec(), a) == a,
    ;
}

/// A field that contains `Base` as a subfield and is a vector space of finite
/// dimension over it.
pub trait ExtensionField<Base: Field>: Field {
    /// The image of a base element in the extension.
    spec fn lift_spec(x: Base) -> Self;

    /// The dimension of the extension over its base.
    spec fn dimension_spec() -> nat;

    /// The coordinates of an element over the chosen basis.
    spec fn coordinates_spec(x: Self) -> Seq<Base>;

    /// The `i`-th element of the chosen basis.
    spec fn basis_spec(i: nat) -> Self;

    fn lift(x: &Base) -> (r: Self)
        ensures
            r == Self::lift_spec(*x),
    ;

    fn dimension() -> (d: usize)
        ensures
            d == Self::dimension_spec(),
            d >= 1,
    ;

    fn coordinates(&self) -> (c: Vec<Base>)
        ensures
            c@ == Self::coordinates_spec(*self),
            c@.len() == Self::dimension_spec(),
    ;

    fn basis(i: usize) -> (b: Self)
        requires
            i < Self::dimension_spec(),
        ensures
            b == Self::basis_spec(i as nat),
    ;
}

/// The element with the given coordinates, each already opened in the
/// extension: the sum of `basis(j) * coords[j]`, taken from the left.
pub open spec fn combine_coordinates<B: Field, E: ExtensionField<B>>(coords: Seq<E>) -> E
    decreases coords.len(),
{
    if coords.len() == 0 {
        E::zero_spec()
    } else {
        E::add_spec(
            combine_coordinates::<B, E>(coords.drop_last()),
            E::mul_spec(E::basis_spec((coords.len() - 1) as nat), coords.last()),
        )
    }
}

/// Recombines coordinate values into one element; see [`combine_coordinates`].
pub fn recombine<B: Field, E: ExtensionField<B>>(coords: &Vec<E>) -> (r: E)
    requires
        coords@.len() <= E::dimension_spec(),
    ensures
        r == combine_coordinates::<B, E>(coords@),
{
    let mut acc: E = E::zero();
    let mut j: usize = 0;
    while j < coords.len()
        invariant
            j <= coords@.len(),
            coords@.len() <= E::dimension_spec(),
            acc == combine_coordinates::<B, E>(coords@.take(j as int)),
        decreases coords@.len() - j,
    {
        let b: E = E::basis(j);
        let term: E = b.mul(&coords[j]);
        acc = acc.add(&term);
        j += 1;
        assert(coords@.take(j as int).drop_last() =~= coords@.take(j - 1));
    }
    assert(coords@.take(j as int) =~= coords@);
    acc
}

/// `base` raised to the power `exp`.
pub open spec fn pow<F: Field>(base: F, exp: nat) -> F
    decreases exp,
{
    if exp == 0 {
        F::one_spec()
    } else {
        F::mul_spec(pow(base, (exp - 1) as nat), base)
    }
}

/// The first `n` powers of `base`, lowest first.
pub open spec fn powers<F: Field>(base: F, n: nat) -> Seq<F> {
    Seq::new(n, |i: int| pow(base, i as nat))
}

/// The first `n` powers of `base`, highest first: entry `i` is `base^(n-1-i)`.
pub open spec fn descending_powers<F: Field>(base: F, n: nat) -> Seq<F> {
    Seq::new(n, |i: int| pow(base, (n - 1 - i) as nat))
}

/// `x` squared `k` times, that is `x^(2^k)`.
pub open spec fn repeated_square<F: Field>(x: F, k: nat) -> F
    decreases k,
{
    if k == 0 {
        x
    } else {
        let y = repeated_square(x, (k - 1) as nat);
        F::mul_spec(y, y)
    }
}

/// Computes `x^(2^k)` by squaring `k` times.
pub fn exp_power_of_two<F: Field>(x: &F, k: usize) -> (r: F)
    ensures
        r == repeated_square(*x, k as nat),
{
    let mut r: F = *x;
    let mut i: usize = 0;
    while i < k
        invariant
            i <= k,
            r == repeated_square(*x, i as nat),
        decreases k - i,
    {
        r = r.mul(&r);
        i += 1;
    }
    r
}

/// Builds the table `base^(n-1), ..., base^1, base^0`.
pub fn descending_power_table<F: Field>(base: &F, n: usize) -> (table: Vec<F>)
    ensures
        table@ == descending_powers(*base, n as nat),
{
    let mut table: Vec<F> = Vec::new();
    let mut p: F = F::one();
    let mut i: usize = 0;
    while i < n
        invariant
            i <= n,
            p == pow(*base, i as nat),
            table@ == powers(*base, i as nat),
        decreases n - i,
    {
        table.push(p);
        p = p.mul(base);
        i += 1;
        assert(table@ =~= powers(*base, i as nat));
    }
    let mut lo: usize = 0;
    let ghost full = table@;
    while lo < n / 2
        invariant
            table@.len() == n,
            full == powers(*base, n as nat),
            lo <= n / 2,
            forall|j: int| 0 <= j < lo ==> table@[j] == full[n - 1 - j],
            forall|j: int| n - lo <= j < n ==> table@[j] == full[n - 1 - j],
            forall|j: int| lo <= j < n - lo ==> table@[j] == full[j],
        decreases n - lo,
    {
        let hi: usize = n - 1 - lo;
        let a: F = table[lo];
        let b: F = table[hi];
        table.set(lo, b);
        table.set(hi, a);
        lo += 1;
    }
    assert forall|j: int| 0 <= j < n implies table@[j] == descending_powers(*base, n as nat)[j] by {
        assert(full[n - 1 - j] == pow(*base, (n - 1 - j) as nat));
        if lo <= j < n - lo {
            assert(j == n - 1 - j);
        }
    }
    assert(table@ =~= descending_powers(*base, n as nat));
    table
}

} // verus!

verus! {

/// The coordinates of every element of `values`, one element after the other.
pub open spec fn flattened<B: Field, E: ExtensionField<B>>(values: Seq<E>) -> Seq<B>
    decreases values.len(),
{
    if values.len() == 0 {
        Seq::empty()
    } else {
        flattened::<B, E>(values.drop_last()) + E::coordinates_spec(values.last())
    }
}

/// Replaces every element by its coordinates over the base field.
pub fn flatten<B: Field, E: ExtensionField<B>>(values: &Vec<E>) -> (flat: Vec<B>)
    ensures
        flat@ == flattened::<B, E>(values@),
{
    let mut flat: Vec<B> = Vec::new();
    let mut i: usize = 0;
    while i < values.len()
        invariant
            i <= values@.len(),
            flat@ == flattened::<B, E>(values@.take(i as int)),
        decreases values@.len() - i,
    {
        let coords: Vec<B> = values[i].coordinates();
        let ghost before = flat@;
        let mut j: usize = 0;
        while j < coords.len()
            invariant
                j <= coords@.len(),
                flat@ == before + coords@.take(j as int),
            decreases coords@.len() - j,
        {
            flat.push(coords[j]);
            j += 1;
            assert(flat@ =~= before + coords@.take(j as int));
        }
        i += 1;
        proof {
            assert(coords@.take(j as int) =~= coords@);
            assert(values@.take(i as int).drop_last() =~= values@.take(i - 1));
        }
    }
    assert(values@.take(i as int) =~= values@);
    flat
}

/// The elements whose coordinates, each already opened in the extension,
/// stand in `raw` one element after the other.
pub open spec fn recombined_row<B: Field, E: ExtensionField<B>>(raw: Seq<E>, width: nat) -> Seq<E> {
    Seq::new(
        width,
        |c: int|
            combine_coordinates::<B, E>(
                raw.subrange(c * E::dimension_spec(), c * E::dimension_spec() + E::dimension_spec()),
            ),
    )
}

/// Recombines a row of `width` elements from their coordinates; see [`recombined_row`].
pub fn recombine_row<B: Field, E: ExtensionField<B>>(raw: &Vec<E>, width: usize) -> (row: Vec<E>)
    requires
        raw@.len() == width * E::dimension_spec(),
    ensures
        row@ == recombined_row::<B, E>(raw@, width as nat),
{
    let d: usize = E::dimension();
    let mut row: Vec<E> = Vec::new();
    let mut c: usize = 0;
    while c < width
        invariant
            c <= width,
            d == E::dimension_spec(),
            raw@.len() == width * d,
            row@ == recombined_row::<B, E>(raw@, c as nat),
        decreases width - c,
    {
        let len: usize = raw.len();
        proof {
            assert(c * d + d <= width * d && 0 <= c * d) by (nonlinear_arith)
                requires
                    0 <= c < width,
                    0 <= d,
            ;
        }
        let start: usize = c * d;
        let mut coords: Vec<E> = Vec::new();
        let mut j: usize = 0;
        while j < d
            invariant
                j <= d,
                start + d <= raw@.len(),
                raw@.len() == len,
                coords@ == raw@.subrange(start as int, start + j),
            decreases d - j,
        {
            coords.push(raw[start + j]);
            j += 1;
            assert(coords@ =~= raw@.subrange(start as int, start + j));
        }
        let x: E = recombine::<B, E>(&coords);
        row.push(x);
        c += 1;
        assert(row@ =~= recombined_row::<B, E>(raw@, c as nat));
    }
    row
}

} // verus!
