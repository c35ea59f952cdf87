use tsp::{run_guest, tour_length, validate_tour, GuestError};

#[test]
fn test_tsp() {
    let n = 4;
    let distances = vec![
        0u64, 10, 15, 20, //
        10, 0, 35, 25, //
        15, 35, 0, 30, //
        20, 25, 30, 0,
    ];
    let tour = vec![0usize, 2, 3, 1];
    let out = run_guest(n, &distances, &tour).unwrap();
    assert_eq!(out.total, 80, "expected tour length is 80");
}

#[test]
fn committed_matrix_is_verbatim() {
    let n = 4;
    let distances = vec![
        0u64, 10, 15, 20, //
        10, 0, 35, 25, //
        15, 35, 0, 30, //
        20, 25, 30, 0,
    ];
    let tour = vec![0usize, 2, 3, 1];
    let out = run_guest(n, &distances, &tour).unwrap();
    assert_eq!(out.distances, distances);
}

#[test]
fn duplicate_city_fails() {
    let n = 4;
    let distances = vec![
        0u64, 10, 15, 20, //
        10, 0, 35, 25, //
        15, 35, 0, 30, //
        20, 25, 30, 0,
    ];
    let tour = vec![0usize, 2, 2, 1];
    assert_eq!(run_guest(n, &distances, &tour).unwrap_err(), GuestError::InvalidTour);
}

#[test]
fn out_of_range_city_fails() {
    let n = 4;
    let distances = vec![
        0u64, 10, 15, 20, //
        10, 0, 35, 25, //
        15, 35, 0, 30, //
        20, 25, 30, 0,
    ];
    let tour = vec![0usize, 2, 4, 1];
    assert_eq!(run_guest(n, &distances, &tour).unwrap_err(), GuestError::InvalidTour);
}

#[test]
fn accumulator_overflow_fails() {
    let n = 2;
    let distances = vec![u64::MAX, u64::MAX, u64::MAX, u64::MAX];
    let tour = vec![0usize, 1];
    assert_eq!(run_guest(n, &distances, &tour).unwrap_err(), GuestError::Overflow);
}

#[test]
fn maximal_single_edge_is_fine() {
    // One city: the only edge is the wrap-around loop 0 -> 0.
    let n = 1;
    let distances = vec![u64::MAX];
    let tour = vec![0usize];
    let out = run_guest(n, &distances, &tour).unwrap();
    assert_eq!(out.total, u64::MAX);
}

#[test]
fn empty_instance() {
    let out = run_guest(0, &Vec::new(), &Vec::new()).unwrap();
    assert_eq!(out.total, 0);
    assert!(out.distances.is_empty());
}

#[test]
fn validate_tour_accepts_permutations() {
    assert!(validate_tour(4, &vec![0, 2, 3, 1]));
    assert!(validate_tour(4, &vec![3, 2, 1, 0]));
    assert!(validate_tour(1, &vec![0]));
    assert!(validate_tour(0, &Vec::new()));
}

#[test]
fn validate_tour_rejects_bad_tours() {
    assert!(!validate_tour(4, &vec![0, 2, 2, 1]));
    assert!(!validate_tour(4, &vec![0, 2, 4, 1]));
    assert!(!validate_tour(2, &vec![1, 1]));
    assert!(!validate_tour(1, &vec![1]));
}

#[test]
fn guest_journal_decodes_to_committed_outputs() {
    let n = 4;
    let distances = vec![
        0u64, 10, 15, 20, //
        10, 0, 35, 25, //
        15, 35, 0, 30, //
        20, 25, 30, 0,
    ];
    let tour = vec![0usize, 2, 3, 1];
    let out = run_guest(n, &distances, &tour).unwrap();
    let journal = out.journal();
    let (decoded, total) = tsp::codec::decode_journal(&journal).unwrap();
    assert_eq!(decoded, distances);
    assert_eq!(total, 80);
    assert_eq!(tsp::codec::decode_total(&journal), Some(80));
}

#[test]
fn tour_length_matches_cyclic_sum() {
    let distances = vec![
        0u64, 10, 15, 20, //
        10, 0, 35, 25, //
        15, 35, 0, 30, //
        20, 25, 30, 0,
    ];
    // 0 -> 2: 15, 2 -> 3: 30, 3 -> 1: 25, 1 -> 0: 10.
    assert_eq!(tour_length(4, &distances, &vec![0, 2, 3, 1]), Some(80));
    // 0 -> 1: 10, 1 -> 2: 35, 2 -> 3: 30, 3 -> 0: 20.
    assert_eq!(tour_length(4, &distances, &vec![0, 1, 2, 3]), Some(95));
}
