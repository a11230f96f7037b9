use ds_rs::slices::circular_slice_eq;

#[test]
fn turns_of_one_ring_are_equal() {
    let ring = [1, 2, 3, 4, 5];
    assert!(circular_slice_eq(&ring, &[1, 2, 3, 4, 5]));
    assert!(circular_slice_eq(&ring, &[5, 1, 2, 3, 4]));
    assert!(circular_slice_eq(&ring, &[3, 4, 5, 1, 2]));
    assert!(circular_slice_eq(&ring, &[2, 3, 4, 5, 1]));
    assert!(!circular_slice_eq(&ring, &[1, 2, 3, 5, 4]));
    assert!(!circular_slice_eq(&ring, &[5, 4, 3, 2, 1]));
    assert!(!circular_slice_eq(&ring, &[1, 2, 3, 4]));
    assert!(!circular_slice_eq(&ring, &[1, 2, 3, 4, 5, 1]));
}

#[test]
fn short_slices_are_equal_when_of_one_length() {
    let empty: [u8; 0] = [];
    assert!(circular_slice_eq(&empty, &empty));
    assert!(circular_slice_eq(&[1], &[1]));
    assert!(circular_slice_eq(&[1], &[2]));
    assert!(!circular_slice_eq(&[1], &empty));
    assert!(circular_slice_eq(&['a', 'b'], &['b', 'a']));
    assert!(!circular_slice_eq(&['a', 'b'], &['a', 'a']));
}

#[test]
fn repeated_elements() {
    assert!(circular_slice_eq(&[1, 1, 2], &[1, 2, 1]));
    assert!(circular_slice_eq(&[1, 1, 2], &[2, 1, 1]));
    assert!(!circular_slice_eq(&[1, 1, 2], &[2, 2, 1]));
}
