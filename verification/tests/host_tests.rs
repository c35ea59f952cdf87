use tsp::host::{encode_input_words, journal_digest};
use tsp::{extract_onchain_proof_data, tsp, verify_and_export, HostError};

#[test]
fn input_words_exact() {
    // n = 1, one distance 5, tour [0]: every value is two words, low first.
    let words = encode_input_words(1, &vec![5u64], &vec![0usize]);
    assert_eq!(words, vec![1, 0, 5, 0, 0, 0]);
}

#[test]
fn input_words_order() {
    let words = encode_input_words(2, &vec![0u64, 7, 9, 0], &vec![1usize, 0]);
    assert_eq!(words, vec![2, 0, 0, 0, 7, 0, 9, 0, 0, 0, 1, 0, 0, 0]);
}

#[test]
fn input_words_large_values() {
    let words = encode_input_words(1, &vec![u64::MAX], &vec![0usize]);
    assert_eq!(words, vec![1, 0, 0xffff_ffff, 0xffff_ffff, 0, 0]);
}

#[test]
fn mis_shaped_distances_fail_fast() {
    let elf: Vec<u8> = Vec::new();
    let r = tsp(&elf, 4, vec![0u64; 15], vec![0, 2, 3, 1]);
    assert!(matches!(r, Err(HostError::DistancesShape)));
}

#[test]
fn mis_shaped_tour_fails_fast() {
    let elf: Vec<u8> = Vec::new();
    let r = tsp(&elf, 4, vec![0u64; 16], vec![0, 2, 3]);
    assert!(matches!(r, Err(HostError::TourShape)));
}

#[test]
fn oversized_city_count_fails_fast() {
    let elf: Vec<u8> = Vec::new();
    // n * n does not fit in a machine word, so no matrix can have the right shape.
    let r = tsp(&elf, usize::MAX, Vec::new(), Vec::new());
    assert!(matches!(r, Err(HostError::DistancesShape)));
}

#[test]
fn digest_is_sha256_hex() {
    let bytes = b"hello world".to_vec();
    let (digest, digest_hex) = journal_digest(&bytes);
    assert_eq!(digest.len(), 32);
    assert_eq!(
        digest_hex,
        "b94d27b9934d3e08a52e52d7da7dabfac484efe37a5380ee9088f7ace2efcde9"
    );
    assert_eq!(hex::encode(&digest), digest_hex);
}

fn fake_receipt(journal: Vec<u8>) -> risc0_zkvm::Receipt {
    let image_id = risc0_zkvm::Digest::from([7u32; 8]);
    let claim = risc0_zkvm::ReceiptClaim::ok(image_id, journal.clone());
    let inner = risc0_zkvm::InnerReceipt::Fake(risc0_zkvm::FakeReceipt::new(claim));
    risc0_zkvm::Receipt::new(inner, journal)
}

#[test]
fn receipt_without_groth16_seal_yields_no_artifacts() {
    let receipt = fake_receipt(vec![1, 2, 3, 4]);
    let r = extract_onchain_proof_data(&receipt);
    assert!(matches!(r, Err(HostError::MissingSeal)));
}

#[test]
fn unproven_receipt_fails_local_verification() {
    let receipt = fake_receipt(vec![1, 2, 3, 4]);
    let image_id: Vec<u32> = vec![7; 8];
    let r = verify_and_export(&receipt, &image_id);
    assert!(matches!(r, Err(HostError::VerificationFailed(_))));
}
