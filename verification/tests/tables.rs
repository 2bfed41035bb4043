use p3_uni_stark_mt::baby_bear::BabyBear;
use p3_uni_stark_mt::list::List;
use p3_uni_stark_mt::util::{
    checked_log2, copy_of, flatten_matrix, is_power_of_two_exec, lift_row,
};
use p3_uni_stark_mt::{Matrix, VerifierView};

#[test]
fn matrix_takes_whole_rows_only() {
    let m = Matrix::new(vec![1u32, 2, 3, 4, 5, 6], 3).unwrap();
    assert_eq!((m.width(), m.height()), (3, 2));
    assert_eq!(m.get(0, 0), 1);
    assert_eq!(m.get(1, 2), 6);
    assert_eq!(m.get(1, 0), 4);
    assert_eq!(m.row_vec(1), vec![4, 5, 6]);
    assert_eq!(m.values(), &vec![1, 2, 3, 4, 5, 6]);
    assert!(Matrix::new(vec![1u32, 2, 3, 4, 5], 3).is_none());
    assert!(Matrix::new(vec![1u32, 2, 3], 0).is_some());
}

#[test]
fn matrix_without_columns_has_no_rows() {
    let m = Matrix::new(Vec::<u32>::new(), 0).unwrap();
    assert_eq!((m.width(), m.height()), (0, 0));
    let m = Matrix::new(vec![7u32, 8], 0).unwrap();
    assert_eq!(m.height(), 0);
    let m = Matrix::new(Vec::<u32>::new(), 4).unwrap();
    assert_eq!((m.width(), m.height()), (4, 0));
}

#[test]
fn verifier_view_hands_out_both_rows() {
    let (local, next) = (vec![1u32, 2, 3], vec![4u32, 5, 6]);
    let view = VerifierView::new(&local, &next);
    assert_eq!(view.get_local(0), 1);
    assert_eq!(view.get_local(2), 3);
    assert_eq!(view.get_next(0), 4);
    assert_eq!(view.get_next(1), 5);
    assert_eq!((view.local_width(), view.next_width()), (3, 3));
    let empty: Vec<u32> = Vec::new();
    let view = VerifierView::new(&empty, &empty);
    assert_eq!((view.local_width(), view.next_width()), (0, 0));
}

#[test]
fn checked_log2_knows_the_powers_of_two() {
    assert_eq!(checked_log2(1), Some(0));
    assert_eq!(checked_log2(2), Some(1));
    assert_eq!(checked_log2(8), Some(3));
    assert_eq!(checked_log2(1 << 20), Some(20));
    assert_eq!(checked_log2(usize::MAX / 2 + 1), Some(usize::BITS as usize - 1));
    assert_eq!(checked_log2(0), None);
    assert_eq!(checked_log2(3), None);
    assert_eq!(checked_log2(12), None);
    assert_eq!(checked_log2(usize::MAX), None);
    assert!(is_power_of_two_exec(64));
    assert!(!is_power_of_two_exec(96));
}

#[test]
fn list_holds_what_the_vector_held() {
    let v = vec![3u32, 1, 4, 1, 5];
    let list = List::from_vec(&v);
    assert_eq!(list.to_vec(), v);
    let empty: Vec<u32> = Vec::new();
    assert_eq!(List::from_vec(&empty).to_vec(), empty);
    assert!(List::from_vec(&empty).is_empty());
    assert!(!List::from_vec(&v).is_empty());
    assert_eq!(List::from_vec(&v).head.as_ref().unwrap().elem, 3);
}

#[test]
fn rows_are_copied_lifted_and_flattened() {
    assert_eq!(copy_of(&vec![1u32, 2]), vec![1, 2]);
    let row = vec![BabyBear::new(5), BabyBear::new(6)];
    assert_eq!(lift_row::<BabyBear, BabyBear>(&row), row);
    let m = Matrix::new(row.clone(), 2).unwrap();
    let flat = flatten_matrix::<BabyBear, BabyBear>(&m).unwrap();
    assert_eq!((flat.width(), flat.height()), (2, 1));
    assert_eq!(flat.values(), &row);
}

#[test]
fn long_list_is_taken_apart_link_by_link() {
    let v: Vec<u32> = (0..1 << 20).collect();
    let list = List::from_vec(&v);
    assert_eq!(list.to_vec().len(), 1 << 20);
    assert_eq!(list.to_vec()[12345], 12345);
}
