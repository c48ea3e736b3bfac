use rust_thread_demo::chunks::{checked_sum, split_chunks};

#[test]
fn chunks_of_two_split_five_values() {
    let data = vec![10, 20, 30, 40, 50];
    let pieces = split_chunks(&data, 2);
    assert_eq!(pieces.len(), 3);
    assert_eq!(pieces[0], &[10, 20][..]);
    assert_eq!(pieces[1], &[30, 40][..]);
    assert_eq!(pieces[2], &[50][..]);
}

#[test]
fn chunk_size_larger_than_data_gives_one_piece() {
    let data = vec![1, 2, 3];
    let pieces = split_chunks(&data, 10);
    assert_eq!(pieces, vec![&[1, 2, 3][..]]);
}

#[test]
fn chunks_of_empty_slice_are_none() {
    let data: Vec<i32> = vec![];
    assert!(split_chunks(&data, 3).is_empty());
}

#[test]
fn chunks_divide_evenly() {
    let data = vec![1, 2, 3, 4, 5, 6];
    let pieces = split_chunks(&data, 3);
    assert_eq!(pieces, vec![&[1, 2, 3][..], &[4, 5, 6][..]]);
}

#[test]
fn chunk_sums_add_up_to_the_total() {
    let data = vec![10, 20, 30, 40, 50];
    let partials: Vec<i32> = split_chunks(&data, 2)
        .into_iter()
        .map(|c| checked_sum(c).unwrap())
        .collect();
    assert_eq!(partials, vec![30, 70, 50]);
    assert_eq!(checked_sum(&partials), Some(150));
    assert_eq!(checked_sum(&data), Some(150));
}

#[test]
fn sum_of_empty_slice_is_zero() {
    assert_eq!(checked_sum(&[]), Some(0));
}

#[test]
fn sum_with_negative_values() {
    assert_eq!(checked_sum(&[-5, 3, -7]), Some(-9));
}

#[test]
fn sum_overflow_is_reported() {
    assert_eq!(checked_sum(&[i32::MAX, 1]), None);
    assert_eq!(checked_sum(&[i32::MIN, -1]), None);
}

#[test]
fn running_total_overflow_is_reported_even_if_final_fits() {
    // The running total leaves the range before coming back.
    assert_eq!(checked_sum(&[i32::MAX, 1, -1]), None);
}

#[test]
fn sum_reaching_the_bounds_exactly() {
    assert_eq!(checked_sum(&[i32::MAX - 1, 1]), Some(i32::MAX));
    assert_eq!(checked_sum(&[i32::MIN + 1, -1]), Some(i32::MIN));
}
