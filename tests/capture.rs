use tjam::capture::{stream_to_matrix, AudioCapture};

#[test]
fn new_capture_is_silent_and_complete() {
    let cap = AudioCapture::new(2, 4, 48_000, 0.0f32);
    assert_eq!(cap.get_data(), vec![vec![0.0f32; 4]; 2]);
    assert_eq!(cap.get_sample_rate(), 48_000);
    assert_eq!(cap.buffer_size(), 4);
    assert_eq!(cap.updates(), 0);
}

#[test]
fn matrix_deinterleaves_round_robin() {
    let m = stream_to_matrix(&vec![1, 2, 3, 4, 5, 6], 2);
    assert_eq!(m, vec![vec![1, 3, 5], vec![2, 4, 6]]);
    let m = stream_to_matrix(&vec![1, 2, 3, 4, 5, 6], 3);
    assert_eq!(m, vec![vec![1, 4], vec![2, 5], vec![3, 6]]);
}

#[test]
fn matrix_of_partial_frame() {
    let m = stream_to_matrix(&vec![1, 2, 3, 4, 5, 6, 7], 3);
    assert_eq!(m, vec![vec![1, 4, 7], vec![2, 5], vec![3, 6]]);
    let m = stream_to_matrix(&vec![9], 4);
    assert_eq!(m, vec![vec![9], vec![], vec![], vec![]]);
    let m = stream_to_matrix(&Vec::<u8>::new(), 2);
    assert_eq!(m, vec![Vec::<u8>::new(), vec![]]);
}

#[test]
fn tap_publishes_after_a_full_buffer() {
    let mut cap = AudioCapture::new(2, 3, 48_000, 0i32);
    let mut tap = cap.create_tap_source();
    for s in 1..6 {
        assert!(tap.tap(s).is_none());
    }
    let snap = tap.tap(6).unwrap();
    assert_eq!(snap, vec![vec![1, 3, 5], vec![2, 4, 6]]);
    assert!(cap.replace(snap));
    assert_eq!(cap.updates(), 1);
    assert_eq!(cap.get_data(), vec![vec![1, 3, 5], vec![2, 4, 6]]);
    for s in 7..12 {
        assert!(tap.tap(s).is_none());
    }
    assert_eq!(cap.get_data(), vec![vec![1, 3, 5], vec![2, 4, 6]]);
    let snap = tap.tap(12).unwrap();
    assert_eq!(snap, vec![vec![7, 9, 11], vec![8, 10, 12]]);
}

#[test]
fn incomplete_snapshot_is_refused() {
    let mut cap = AudioCapture::new(1, 2, 8_000, 0u8);
    assert!(!cap.replace(vec![vec![1, 2], vec![3]]));
    assert!(!cap.replace(vec![vec![1, 2], vec![3, 4]]));
    assert!(!cap.replace(vec![]));
    assert!(!cap.replace(vec![vec![1]]));
    assert_eq!(cap.get_data(), vec![vec![0, 0]]);
    assert_eq!(cap.updates(), 0);
    assert!(cap.replace(vec![vec![1, 2]]));
    assert_eq!(cap.get_data(), vec![vec![1, 2]]);
    assert_eq!(cap.updates(), 1);
}
