//! Small helpers on integers and rows.

use vstd::arithmetic::power2::pow2;
use vstd::prelude::*;
use crate::field::{flatten, flattened, ExtensionField, Field};
use crate::matrix::Matrix;

verus! {

/// Whether `n` is a power of two that a `usize` can hold.
pub open spec fn is_power_of_two(n: nat) -> bool {
    exists|k: nat| k < usize::BITS && n == #[trigger] pow2(k)
}

/// Calls `p3_util::log2_strict_usize`, which returns the number of trailing
/// zero bits of `n` and panics unless `n` shifted right by that number is 1:
/// for a power of two, the exponent.
#[verifier::external_body]
pub(crate) fn log2_strict(n: usize) -> (k: usize)
    requires
        is_power_of_two(n as nat),
    ensures
        k < usize::BITS,
        pow2(k as nat) == n,
{
    p3_util::log2_strict_usize(n)
}

/// The binary logarithm of `n`, or `None` where `n` is no power of two.
pub fn checked_log2(n: usize) -> (k: Option<usize>)
    ensures
        k is Some <==> is_power_of_two(n as nat),
        k is Some ==> k.unwrap() < usize::BITS && pow2(k.unwrap() as nat) == n,
{
    if is_power_of_two_exec(n) {
        Some(log2_strict(n))
    } else {
        None
    }
}

/// Whether `n` is a power of two.
pub fn is_power_of_two_exec(n: usize) -> (b: bool)
    ensures
        b == is_power_of_two(n as nat),
{
    if n == 0 {
        proof {
            assert forall|k: nat| k < usize::BITS implies 0 != #[trigger] pow2(k) by {
                vstd::arithmetic::power2::lemma_pow2_pos(k);
            }
        }
        return false;
    }
    let mut m: usize = n;
    let ghost mut halvings: nat = 0;
    proof {
        vstd::arithmetic::power2::lemma2_to64();
    }
    while m % 2 == 0
        invariant
            m >= 1,
            n == m * pow2(halvings),
        decreases m,
    {
        proof {
            vstd::arithmetic::power2::lemma_pow2_unfold(halvings + 1);
            assert(m * pow2(halvings) == (m / 2) * (2 * pow2(halvings))) by (nonlinear_arith)
                requires
                    m % 2 == 0,
            ;
            halvings = halvings + 1;
        }
        m = m / 2;
    }
    proof {
        if m == 1 {
            assert(n == pow2(halvings)) by (nonlinear_arith)
                requires
                    n == m * pow2(halvings),
                    m == 1,
            ;
            if halvings >= usize::BITS {
                if halvings > usize::BITS {
                    vstd::arithmetic::power2::lemma_pow2_strictly_increases(
                        usize::BITS as nat,
                        halvings,
                    );
                }
                lemma_top_bit_bound();
            }
            assert(halvings < usize::BITS && n == pow2(halvings));
        } else {
            assert forall|k: nat| k < usize::BITS implies n != #[trigger] pow2(k) by {
                lemma_odd_factor(m as nat, halvings, k);
            }
        }
    }
    m == 1
}

/// No `usize` holds two to the number of its bits.
proof fn lemma_top_bit_bound()
    ensures
        pow2(usize::BITS as nat) > usize::MAX,
{
    vstd::arithmetic::power2::lemma2_to64();
    vstd::arithmetic::power2::lemma2_to64_rest();
}

/// An odd number greater than one times a power of two is no power of two.
proof fn lemma_odd_factor(m: nat, a: nat, k: nat)
    requires
        m % 2 == 1,
        m > 1,
    ensures
        m * pow2(a) != pow2(k),
    decreases a,
{
    vstd::arithmetic::power2::lemma_pow2_pos(a);
    vstd::arithmetic::power2::lemma_pow2_pos(k);
    vstd::arithmetic::power2::lemma2_to64();
    if a == 0 {
        assert(m * pow2(0) == m) by (nonlinear_arith)
            requires
                pow2(0) == 1,
        ;
        if k > 0 {
            vstd::arithmetic::power2::lemma_pow2_unfold(k);
            assert((2 * pow2((k - 1) as nat)) % 2 == 0) by (nonlinear_arith);
        }
    } else {
        vstd::arithmetic::power2::lemma_pow2_unfold(a);
        vstd::arithmetic::power2::lemma_pow2_pos((a - 1) as nat);
        if k == 0 {
            assert(m * (2 * pow2((a - 1) as nat)) >= 2) by (nonlinear_arith)
                requires
                    m > 1,
                    pow2((a - 1) as nat) >= 1,
            ;
        } else {
            vstd::arithmetic::power2::lemma_pow2_unfold(k);
            lemma_odd_factor(m, (a - 1) as nat, (k - 1) as nat);
            assert(m * (2 * pow2((a - 1) as nat)) != 2 * pow2((k - 1) as nat)) by (nonlinear_arith)
                requires
                    m * pow2((a - 1) as nat) != pow2((k - 1) as nat),
            ;
        }
    }
}

/// Every positive number is an odd number times a power of two.
proof fn lemma_odd_part(c: nat) -> (r: (nat, nat))
    requires
        c > 0,
    ensures
        r.0 % 2 == 1,
        c == r.0 * pow2(r.1),
    decreases c,
{
    vstd::arithmetic::power2::lemma2_to64();
    if c % 2 == 1 {
        assert(c * pow2(0) == c) by (nonlinear_arith)
            requires
                pow2(0) == 1,
        ;
        (c, 0)
    } else {
        let half = lemma_odd_part(c / 2);
        vstd::arithmetic::power2::lemma_pow2_unfold(half.1 + 1);
        assert(half.0 * (2 * pow2(half.1)) == 2 * (half.0 * pow2(half.1))) by (nonlinear_arith);
        (half.0, half.1 + 1)
    }
}

/// What divides a power of two is a power of two, and no higher one.
pub proof fn lemma_divisor_of_power(c: nat, k: nat)
    requires
        c > 0,
        pow2(k) % c == 0,
    ensures
        exists|j: nat| j <= k && c == #[trigger] pow2(j),
{
    let q = pow2(k) / c;
    vstd::arithmetic::power2::lemma_pow2_pos(k);
    vstd::arithmetic::div_mod::lemma_fundamental_div_mod(pow2(k) as int, c as int);
    assert(pow2(k) == c * q);
    assert(q > 0) by (nonlinear_arith)
        requires
            pow2(k) == c * q,
            pow2(k) > 0,
            c > 0,
    ;
    let (m, a) = lemma_odd_part(c);
    let (n, b) = lemma_odd_part(q);
    vstd::arithmetic::power2::lemma_pow2_adds(a, b);
    assert(pow2(k) == (m * n) * pow2(a + b)) by (nonlinear_arith)
        requires
            pow2(k) == c * q,
            c == m * pow2(a),
            q == n * pow2(b),
            pow2(a + b) == pow2(a) * pow2(b),
    ;
    let (x, y) = (m / 2, n / 2);
    assert(m * n == 2 * (2 * x * y + x + y) + 1) by (nonlinear_arith)
        requires
            m == 2 * x + 1,
            n == 2 * y + 1,
    ;
    if m * n > 1 {
        lemma_odd_factor(m * n, a + b, k);
    }
    assert(m == 1) by (nonlinear_arith)
        requires
            m * n <= 1,
            m >= 1,
            n >= 1,
    ;
    assert(c == pow2(a)) by (nonlinear_arith)
        requires
            c == m * pow2(a),
            m == 1,
    ;
    if a > k {
        vstd::arithmetic::power2::lemma_pow2_strictly_increases(k, a);
        assert(c * q >= c) by (nonlinear_arith)
            requires
                q > 0,
                c > 0,
        ;
    }
}

/// A copy of `v`.
pub fn copy_of<T: Copy>(v: &Vec<T>) -> (c: Vec<T>)
    ensures
        c@ == v@,
{
    let mut c: Vec<T> = Vec::new();
    let mut i: usize = 0;
    while i < v.len()
        invariant
            i <= v@.len(),
            c@ == v@.take(i as int),
        decreases v@.len() - i,
    {
        c.push(v[i]);
        i += 1;
        assert(c@ =~= v@.take(i as int));
    }
    assert(v@.take(i as int) =~= v@);
    c
}

/// The images of a row of base elements in the extension.
pub open spec fn lifted<B: Field, E: ExtensionField<B>>(row: Seq<B>) -> Seq<E> {
    row.map_values(|x: B| E::lift_spec(x))
}

/// Lifts every element of a row into the extension.
pub fn lift_row<B: Field, E: ExtensionField<B>>(row: &Vec<B>) -> (out: Vec<E>)
    ensures
        out@ == lifted::<B, E>(row@),
{
    let mut out: Vec<E> = Vec::new();
    let mut i: usize = 0;
    while i < row.len()
        invariant
            i <= row@.len(),
            out@ == lifted::<B, E>(row@.take(i as int)),
        decreases row@.len() - i,
    {
        out.push(E::lift(&row[i]));
        i += 1;
        assert(out@ =~= lifted::<B, E>(row@.take(i as int)));
    }
    assert(row@.take(i as int) =~= row@);
    out
}

/// The table over the base field that holds, for every entry of a table of
/// `cols` columns over the extension, its coordinates side by side; `None`
/// where that table would be too wide or the entries fill no whole rows.
pub open spec fn flat_table<B: Field, E: ExtensionField<B>>(entries: Seq<E>, cols: nat) -> Option<
    (Seq<B>, nat),
> {
    let flat_cols = cols * E::dimension_spec();
    let flat = flattened::<B, E>(entries);
    if flat_cols > usize::MAX || (flat_cols != 0 && flat.len() % flat_cols != 0) {
        None
    } else {
        Some((flat, flat_cols))
    }
}

/// Flattens a table over the extension to one over the base field; see [`flat_table`].
pub fn flatten_matrix<B: Field, E: ExtensionField<B>>(m: &Matrix<E>) -> (flat: Option<Matrix<B>>)
    ensures
        match flat {
            Some(f) => flat_table::<B, E>(m.entries(), m.cols()) == Some((f.entries(), f.cols())),
            None => flat_table::<B, E>(m.entries(), m.cols()) is None,
        },
{
    let dim: usize = E::dimension();
    let cols: usize = m.width();
    if cols > usize::MAX / dim {
        proof {
            assert(cols * dim > usize::MAX) by (nonlinear_arith)
                requires
                    cols > usize::MAX / dim,
                    dim >= 1,
            ;
        }
        return None;
    }
    proof {
        assert(cols * dim <= usize::MAX) by (nonlinear_arith)
            requires
                cols <= usize::MAX / dim,
                dim >= 1,
        ;
    }
    let flat: Vec<B> = flatten::<B, E>(m.values());
    Matrix::new(flat, cols * dim)
}

} // verus!
