use tsp::identity::{encode_identity, identity_be_bytes, identity_le_bytes,
    identity_rev_be_bytes, identity_rev_le_bytes};

#[test]
fn four_encodings_exact() {
    let words = vec![0x11223344u32, 0xaabbccdd];
    assert_eq!(identity_le_bytes(&words), vec![0x44, 0x33, 0x22, 0x11, 0xdd, 0xcc, 0xbb, 0xaa]);
    assert_eq!(identity_be_bytes(&words), vec![0x11, 0x22, 0x33, 0x44, 0xaa, 0xbb, 0xcc, 0xdd]);
    assert_eq!(
        identity_rev_le_bytes(&words),
        vec![0xdd, 0xcc, 0xbb, 0xaa, 0x44, 0x33, 0x22, 0x11]
    );
    assert_eq!(
        identity_rev_be_bytes(&words),
        vec![0xaa, 0xbb, 0xcc, 0xdd, 0x11, 0x22, 0x33, 0x44]
    );
}

#[test]
fn reversing_forward_elements_gives_reversed_encoding() {
    // An eight-word identity, the size the proving engine uses.
    let words: Vec<u32> = vec![
        0x01020304, 0x05060708, 0x090a0b0c, 0x0d0e0f10, 0x11121314, 0x15161718, 0x191a1b1c,
        0x1d1e1f20,
    ];
    let be = identity_be_bytes(&words);
    let le = identity_le_bytes(&words);

    let mut be_chunk_reversed: Vec<u8> = Vec::new();
    for chunk_start in (0..be.len()).step_by(4).rev() {
        be_chunk_reversed.extend_from_slice(&be[chunk_start..chunk_start + 4]);
    }
    assert_eq!(identity_rev_be_bytes(&words), be_chunk_reversed);

    let mut le_chunk_reversed: Vec<u8> = Vec::new();
    for chunk_start in (0..le.len()).step_by(4).rev() {
        le_chunk_reversed.extend_from_slice(&le[chunk_start..chunk_start + 4]);
    }
    assert_eq!(identity_rev_le_bytes(&words), le_chunk_reversed);
}

#[test]
fn hex_texts_match_encodings() {
    let words = vec![0x11223344u32, 0xaabbccdd];
    let enc = encode_identity(&words);
    assert_eq!(enc.le_hex, "44332211ddccbbaa");
    assert_eq!(enc.be_hex, "11223344aabbccdd");
    assert_eq!(enc.rev_le_hex, "ddccbbaa44332211");
    assert_eq!(enc.rev_be_hex, "aabbccdd11223344");
    assert_eq!(hex::encode(&enc.le), enc.le_hex);
}

#[test]
fn hex_of_all_nibbles() {
    let words = vec![0x01234567u32, 0x89abcdef];
    let enc = encode_identity(&words);
    assert_eq!(enc.be_hex, "0123456789abcdef");
}

#[test]
fn empty_identity() {
    let enc = encode_identity(&Vec::new());
    assert!(enc.le.is_empty());
    assert_eq!(enc.le_hex, "");
    assert_eq!(enc.rev_be_hex, "");
}
