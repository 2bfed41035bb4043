use p3_uni_stark_mt::baby_bear::{BabyBear, BABY_BEAR_PRIME};
use p3_uni_stark_mt::field::{
    descending_power_table, exp_power_of_two, flatten, recombine, recombine_row,
};
use p3_uni_stark_mt::{ExtensionField, Field};

fn elems(values: &[u32]) -> Vec<BabyBear> {
    values.iter().map(|v| BabyBear::new(*v)).collect()
}

fn residues(values: &[BabyBear]) -> Vec<u32> {
    values.iter().map(|v| v.as_canonical_u32()).collect()
}

#[test]
fn baby_bear_prime_is_two_to_the_31_minus_two_to_the_27_plus_one() {
    assert_eq!(BABY_BEAR_PRIME as u64, (1u64 << 31) - (1u64 << 27) + 1);
}

#[test]
fn baby_bear_new_reduces() {
    assert_eq!(BabyBear::new(5).as_canonical_u32(), 5);
    assert_eq!(BabyBear::new(BABY_BEAR_PRIME).as_canonical_u32(), 0);
    assert_eq!(BabyBear::new(BABY_BEAR_PRIME + 3).as_canonical_u32(), 3);
    assert_eq!(BabyBear::new(u32::MAX).as_canonical_u32(), u32::MAX - 2 * BABY_BEAR_PRIME);
    assert_eq!(BabyBear::new(7), BabyBear::new(BABY_BEAR_PRIME + 7));
}

#[test]
fn baby_bear_adds_modulo_the_prime() {
    let a = BabyBear::new(BABY_BEAR_PRIME - 1);
    let b = BabyBear::new(5);
    assert_eq!(a.add(&b).as_canonical_u32(), 4);
    assert_eq!(BabyBear::new(2).add(&BabyBear::new(3)).as_canonical_u32(), 5);
    assert_eq!(a.add(&a).as_canonical_u32(), BABY_BEAR_PRIME - 2);
}

#[test]
fn baby_bear_subtracts_modulo_the_prime() {
    assert_eq!(BabyBear::new(3).sub(&BabyBear::new(5)).as_canonical_u32(), BABY_BEAR_PRIME - 2);
    assert_eq!(BabyBear::new(5).sub(&BabyBear::new(3)).as_canonical_u32(), 2);
    assert_eq!(BabyBear::new(5).sub(&BabyBear::new(5)).as_canonical_u32(), 0);
}

#[test]
fn baby_bear_multiplies_modulo_the_prime() {
    assert_eq!(BabyBear::new(6).mul(&BabyBear::new(7)).as_canonical_u32(), 42);
    let minus_one = BabyBear::new(BABY_BEAR_PRIME - 1);
    assert_eq!(minus_one.mul(&minus_one).as_canonical_u32(), 1);
    // 2^16 * 2^16 = 2^32 = 2 * p + 2^28 - 2.
    let x = BabyBear::new(1 << 16);
    assert_eq!(x.mul(&x).as_canonical_u32(), (1 << 28) - 2);
}

#[test]
fn baby_bear_inverts_what_is_not_zero() {
    assert!(BabyBear::new(0).try_inverse().is_none());
    assert!(BabyBear::new(BABY_BEAR_PRIME).try_inverse().is_none());
    assert_eq!(BabyBear::new(1).try_inverse().unwrap().as_canonical_u32(), 1);
    // 2 * (p + 1) / 2 = p + 1.
    assert_eq!(
        BabyBear::new(2).try_inverse().unwrap().as_canonical_u32(),
        (BABY_BEAR_PRIME + 1) / 2
    );
    for v in [3u32, 31, 12345, BABY_BEAR_PRIME - 1] {
        let x = BabyBear::new(v);
        assert_eq!(x.mul(&x.try_inverse().unwrap()).as_canonical_u32(), 1);
    }
}

#[test]
fn baby_bear_identities_and_equality() {
    assert_eq!(BabyBear::zero().as_canonical_u32(), 0);
    assert_eq!(BabyBear::one().as_canonical_u32(), 1);
    assert!(BabyBear::new(9).equals(&BabyBear::new(9)));
    assert!(!BabyBear::new(9).equals(&BabyBear::new(10)));
}

#[test]
fn ring_laws_hold_on_chosen_values() {
    let (a, b, c) = (BabyBear::new(2_000_000_000), BabyBear::new(1_999_999_999), BabyBear::new(77));
    assert_eq!(a.mul(&b), b.mul(&a));
    assert_eq!(a.mul(&b).mul(&c), a.mul(&b.mul(&c)));
    assert_eq!(a.mul(&b.add(&c)), a.mul(&b).add(&a.mul(&c)));
    assert_eq!(a.mul(&BabyBear::zero()), BabyBear::zero());
    assert_eq!(BabyBear::one().mul(&a), a);
    assert_eq!(BabyBear::zero().add(&a), a);
}

#[test]
fn baby_bear_is_an_extension_of_itself() {
    let x = BabyBear::new(42);
    assert_eq!(<BabyBear as ExtensionField<BabyBear>>::lift(&x), x);
    assert_eq!(<BabyBear as ExtensionField<BabyBear>>::dimension(), 1);
    assert_eq!(<BabyBear as ExtensionField<BabyBear>>::coordinates(&x), vec![x]);
    assert_eq!(<BabyBear as ExtensionField<BabyBear>>::basis(0), BabyBear::one());
}

#[test]
fn exp_power_of_two_squares_repeatedly() {
    let three = BabyBear::new(3);
    assert_eq!(exp_power_of_two(&three, 0).as_canonical_u32(), 3);
    assert_eq!(exp_power_of_two(&three, 1).as_canonical_u32(), 9);
    assert_eq!(exp_power_of_two(&three, 3).as_canonical_u32(), 6561);
    // 3^32 modulo the prime.
    assert_eq!(
        exp_power_of_two(&three, 5).as_canonical_u32() as u64,
        1853020188851841u64 % (BABY_BEAR_PRIME as u64)
    );
}

#[test]
fn descending_power_table_ends_with_one() {
    assert_eq!(residues(&descending_power_table(&BabyBear::new(10), 4)), vec![1000, 100, 10, 1]);
    assert_eq!(residues(&descending_power_table(&BabyBear::new(10), 1)), vec![1]);
    assert_eq!(residues(&descending_power_table(&BabyBear::new(10), 5)), vec![10000, 1000, 100, 10, 1]);
    assert!(descending_power_table(&BabyBear::new(10), 0).is_empty());
}

#[test]
fn coordinates_are_flattened_and_recombined() {
    let values = elems(&[4, 5, 6]);
    assert_eq!(residues(&flatten::<BabyBear, BabyBear>(&values)), vec![4, 5, 6]);
    assert_eq!(residues(&recombine_row::<BabyBear, BabyBear>(&values, 3)), vec![4, 5, 6]);
    assert_eq!(recombine::<BabyBear, BabyBear>(&elems(&[9])).as_canonical_u32(), 9);
    assert_eq!(recombine::<BabyBear, BabyBear>(&elems(&[])).as_canonical_u32(), 0);
    assert!(recombine_row::<BabyBear, BabyBear>(&elems(&[]), 0).is_empty());
}
