use tsp::codec::{decode_journal, decode_total, encode_journal};

#[test]
fn journal_exact_bytes() {
    // One matrix entry 1, total 2: words [1, 1, 0, 2, 0], each little-endian.
    let j = encode_journal(&vec![1u64], 2);
    assert_eq!(
        j,
        vec![
            1, 0, 0, 0, // matrix length
            1, 0, 0, 0, 0, 0, 0, 0, // the entry, low word then high word
            2, 0, 0, 0, 0, 0, 0, 0, // the total
        ]
    );
}

#[test]
fn journal_round_trip() {
    let distances = vec![
        0u64, 10, 15, 20, //
        10, 0, 35, 25, //
        15, 35, 0, 30, //
        20, 25, 30, 0,
    ];
    let j = encode_journal(&distances, 80);
    let (decoded, total) = decode_journal(&j).unwrap();
    assert_eq!(decoded, distances);
    assert_eq!(total, 80);
    assert_eq!(decode_total(&j), Some(80));
}

#[test]
fn journal_round_trip_large_values() {
    let distances = vec![u64::MAX, 0x1_0000_0000, 1, 0];
    let j = encode_journal(&distances, u64::MAX - 1);
    let (decoded, total) = decode_journal(&j).unwrap();
    assert_eq!(decoded, distances);
    assert_eq!(total, u64::MAX - 1);
}

#[test]
fn empty_matrix_round_trip() {
    let j = encode_journal(&Vec::new(), 0);
    assert_eq!(j.len(), 12);
    let (decoded, total) = decode_journal(&j).unwrap();
    assert!(decoded.is_empty());
    assert_eq!(total, 0);
}

#[test]
fn ragged_length_is_rejected() {
    let mut j = encode_journal(&vec![1u64], 2);
    j.push(0);
    assert_eq!(decode_total(&j), None);
}

#[test]
fn truncated_journal_is_rejected() {
    let mut j = encode_journal(&vec![1u64], 2);
    j.truncate(16);
    assert_eq!(decode_total(&j), None);
}

#[test]
fn too_short_journal_is_rejected() {
    assert_eq!(decode_total(&Vec::new()), None);
    assert_eq!(decode_total(&vec![0, 0, 0, 0]), None);
}

#[test]
fn wrong_length_word_is_rejected() {
    let mut j = encode_journal(&vec![1u64], 2);
    // Claim two matrix entries where the stream holds one.
    j[0] = 2;
    assert_eq!(decode_total(&j), None);
}
