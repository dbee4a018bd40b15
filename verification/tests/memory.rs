use axvm::memory::{fill, gather, scatter};

#[test]
fn gather_joins_segments_in_order() {
    let mut a = [1u8, 2, 3];
    let mut b = [4u8];
    let mut c = [5u8, 6];
    let segments: Vec<&mut [u8]> = vec![&mut a, &mut b, &mut c];
    assert_eq!(gather(&segments, 6), vec![1, 2, 3, 4, 5, 6]);
}

#[test]
fn gather_fills_up_with_zeros() {
    let mut a = [9u8];
    let segments: Vec<&mut [u8]> = vec![&mut a];
    assert_eq!(gather(&segments, 3), vec![9, 0, 0]);
    let none: Vec<&mut [u8]> = Vec::new();
    assert_eq!(gather(&none, 0), Vec::<u8>::new());
}

#[test]
fn scatter_spreads_data_over_segments() {
    let mut a = [0u8; 2];
    let mut b = [0u8; 3];
    scatter(&[1, 2, 3, 4, 5], vec![&mut a, &mut b]);
    assert_eq!(a, [1, 2]);
    assert_eq!(b, [3, 4, 5]);
}

#[test]
fn scatter_leaves_the_rest_of_the_data() {
    let mut a = [0u8; 2];
    scatter(&[7, 8, 9], vec![&mut a]);
    assert_eq!(a, [7, 8]);
}

#[test]
fn fill_takes_bytes_from_an_offset() {
    let mut a = [0u8; 2];
    fill(&mut a, &[1, 2, 3, 4], 1);
    assert_eq!(a, [2, 3]);
}

#[test]
fn gather_gives_back_what_scatter_wrote() {
    let data: Vec<u8> = (0..100).collect();
    let mut a = [0u8; 40];
    let mut b: [u8; 0] = [];
    let mut c = [0u8; 60];
    scatter(&data, vec![&mut a, &mut b, &mut c]);
    assert_eq!(gather(&vec![&mut a[..], &mut b[..], &mut c[..]], 100), data);
}
