use noodle_store::codec::{denormalize, normalize};

#[test]
fn round_trip_repetitive_bytes() {
    let bytes: Vec<u8> = vec![7u8; 300];
    let stored = normalize(&bytes);
    // 300 sevens compress to two runs: 255 and 45.
    assert_eq!(stored, vec![1u8, 255, 7, 45, 7]);
    assert_eq!(denormalize(&stored), bytes);
}

#[test]
fn round_trip_incompressible_bytes() {
    let bytes: Vec<u8> = vec![1u8, 2, 3];
    let stored = normalize(&bytes);
    // run-length pairs would be longer, so the raw form is kept.
    assert_eq!(stored, vec![0u8, 1, 2, 3]);
    assert_eq!(denormalize(&stored), bytes);
}

#[test]
fn round_trip_empty() {
    let bytes: Vec<u8> = vec![];
    let stored = normalize(&bytes);
    assert_eq!(stored, vec![0u8]);
    assert_eq!(denormalize(&stored), bytes);
}

#[test]
fn round_trip_mixed_runs() {
    let mut bytes: Vec<u8> = Vec::new();
    for _ in 0..40 {
        bytes.push(9);
    }
    for _ in 0..40 {
        bytes.push(0);
    }
    bytes.push(5);
    let stored = normalize(&bytes);
    assert_eq!(stored, vec![1u8, 40, 9, 40, 0, 1, 5]);
    assert_eq!(denormalize(&stored), bytes);
}

#[test]
fn round_trip_boundary_run_lengths() {
    for n in [254usize, 255, 256, 510, 511] {
        let bytes: Vec<u8> = vec![42u8; n];
        let stored = normalize(&bytes);
        assert_eq!(denormalize(&stored), bytes, "run of {} bytes", n);
    }
}

#[test]
fn denormalize_empty_buffer_yields_empty() {
    assert_eq!(denormalize(&vec![]), Vec::<u8>::new());
}

#[test]
fn denormalize_odd_payload_yields_empty() {
    // tag 1 with a dangling count byte
    assert_eq!(denormalize(&vec![1u8, 5]), Vec::<u8>::new());
    assert_eq!(denormalize(&vec![1u8, 2, 7, 3]), Vec::<u8>::new());
}

#[test]
fn denormalize_zero_count_yields_empty() {
    assert_eq!(denormalize(&vec![1u8, 0, 7]), Vec::<u8>::new());
}

#[test]
fn denormalize_unknown_tag_yields_empty() {
    assert_eq!(denormalize(&vec![2u8, 9, 9]), Vec::<u8>::new());
}

#[test]
fn stored_form_is_smaller_for_long_runs() {
    let bytes: Vec<u8> = vec![0u8; 10_000];
    let stored = normalize(&bytes);
    assert!(stored.len() < bytes.len());
    assert_eq!(denormalize(&stored), bytes);
}
