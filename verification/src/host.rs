//! Host orchestration around the external proving engine. The host checks
//! the input shapes, serializes the inputs into the exact word stream the
//! guest reads, drives the engine to prove one guest run, decodes the
//! committed total from the returned journal, locally re-verifies receipts
//! against the guest program's identity, and derives the export artifacts an
//! external verifier needs.

use vstd::prelude::*;
use crate::codec::{decode_total, lemma_u64s_words_push, u64_high, u64_low, u64s_words,
    words_bytes};
use crate::identity::{encode_hex, encode_identity, hex_chars, words_be_bytes, IdentityEncodings};
use risc0_zkvm::sha::Digestible;

verus! {

#[verifier::external_type_specification]
#[verifier::external_body]
pub struct ExReceipt(risc0_zkvm::Receipt);

/// An error of one host run, one variant per failure category: a caller
/// handed mis-shaped inputs, the proving engine failed (an invalid tour or an
/// overflow inside the guest surfaces here), the engine returned a journal
/// that decodes as no run's commits, the receipt carries no Groth16 seal, or
/// local verification rejected the receipt.
#[derive(Debug)]
pub enum HostError {
    DistancesShape,
    TourShape,
    ProvingFailed(String),
    MalformedJournal,
    MissingSeal,
    VerificationFailed(String),
}

/// The exact word stream the guest reads: the city count, then the matrix
/// entries in row-major order, then the tour indices — every value 64 bits
/// wide, as a low word then a high word.
pub open spec fn input_words(n: usize, dist: Seq<u64>, tour: Seq<usize>) -> Seq<u32> {
    seq![u64_low(n as u64), u64_high(n as u64)] + u64s_words(dist) + u64s_words(
        tour.map_values(|c: usize| c as u64),
    )
}

/// Serializes the inputs of one run into the word stream the guest reads.
/// The order is a fixed protocol between host and guest: any reordering
/// would make the guest read garbage.
pub fn encode_input_words(n: usize, dist: &Vec<u64>, tour: &Vec<usize>) -> (ws: Vec<u32>)
    ensures
        ws@ == input_words(n, dist@, tour@),
{
    let n64 = n as u64;
    let mut ws: Vec<u32> = Vec::new();
    ws.push((n64 & 0xffff_ffff) as u32);
    ws.push(((n64 >> 32) & 0xffff_ffff) as u32);
    let ghost head = seq![u64_low(n as u64), u64_high(n as u64)];
    assert(ws@ =~= head);
    let mut i: usize = 0;
    while i < dist.len()
        invariant
            i <= dist@.len(),
            ws@ == head + u64s_words(dist@.take(i as int)),
        decreases dist@.len() - i,
    {
        let x = dist[i];
        ws.push((x & 0xffff_ffff) as u32);
        ws.push(((x >> 32) & 0xffff_ffff) as u32);
        proof {
            lemma_u64s_words_push(dist@.take(i as int), dist@[i as int]);
            assert(dist@.take(i as int).push(dist@[i as int]) =~= dist@.take(i as int + 1));
            assert(ws@ =~= head + u64s_words(dist@.take(i as int + 1)));
        }
        i = i + 1;
    }
    proof {
        assert(dist@.take(dist@.len() as int) =~= dist@);
    }
    let ghost mapped = tour@.map_values(|c: usize| c as u64);
    let mut k: usize = 0;
    while k < tour.len()
        invariant
            k <= tour@.len(),
            mapped == tour@.map_values(|c: usize| c as u64),
            ws@ == head + u64s_words(dist@) + u64s_words(mapped.take(k as int)),
        decreases tour@.len() - k,
    {
        let c = tour[k] as u64;
        ws.push((c & 0xffff_ffff) as u32);
        ws.push(((c >> 32) & 0xffff_ffff) as u32);
        proof {
            lemma_u64s_words_push(mapped.take(k as int), mapped[k as int]);
            assert(mapped.take(k as int).push(mapped[k as int]) =~= mapped.take(k as int + 1));
            assert(ws@ =~= head + u64s_words(dist@) + u64s_words(mapped.take(k as int + 1)));
        }
        k = k + 1;
    }
    proof {
        assert(mapped.take(mapped.len() as int) =~= mapped);
    }
    ws
}

/// Relies on risc0_zkvm's ExecutorEnv::builder, ExecutorEnvBuilder::write_slice
/// and ::build, default_prover and Prover::prove_with_opts: the given words are
/// handed to the guest as its input stream, in order; the guest binary `elf`
/// is executed and proved with the Groth16 prover options; the receipt and a
/// copy of its journal bytes come back, or the engine's failure as a message.
/// Nothing is assumed of the outcome.
#[verifier::external_body]
fn engine_prove(elf: &Vec<u8>, words: &Vec<u32>) -> Result<(risc0_zkvm::Receipt, Vec<u8>), String> {
    let mut builder = risc0_zkvm::ExecutorEnv::builder();
    builder.write_slice(words.as_slice());
    let env = match builder.build() {
        Ok(env) => env,
        Err(e) => return Err(format!("{e}")),
    };
    let opts = risc0_zkvm::ProverOpts::groth16();
    match risc0_zkvm::default_prover().prove_with_opts(env, elf.as_slice(), &opts) {
        Ok(info) => {
            let journal = info.receipt.journal.bytes.clone();
            Ok((info.receipt, journal))
        }
        Err(e) => Err(format!("{e}")),
    }
}

/// Relies on risc0_zkvm::Receipt::verify: the receipt's proof is checked
/// cryptographically against the given program identity and the receipt's own
/// journal; a failure comes back as its message. Nothing is assumed of the
/// outcome.
#[verifier::external_body]
fn engine_verify(receipt: &risc0_zkvm::Receipt, image_id: &Vec<u32>) -> Result<(), String>
    requires
        image_id@.len() == 8,
{
    let mut words = [0u32; 8];
    words.copy_from_slice(image_id.as_slice());
    match receipt.verify(risc0_zkvm::Digest::from(words)) {
        Ok(()) => Ok(()),
        Err(e) => Err(format!("{e}")),
    }
}

/// Relies on the public `journal` field of risc0_zkvm::Receipt: hands out a
/// copy of the receipt's journal bytes.
#[verifier::external_body]
fn receipt_journal_bytes(receipt: &risc0_zkvm::Receipt) -> Vec<u8> {
    receipt.journal.bytes.clone()
}

/// Relies on risc0_zkvm::InnerReceipt::groth16 and the `seal` field of the
/// Groth16 receipt: hands out the seal bytes when the receipt carries a
/// Groth16 proof, and nothing otherwise.
#[verifier::external_body]
fn groth16_seal(receipt: &risc0_zkvm::Receipt) -> Option<Vec<u8>> {
    match receipt.inner.groth16() {
        Ok(g) => Some(g.seal.clone()),
        Err(_) => None,
    }
}

pub uninterp spec fn sha256_of(bytes: Seq<u8>) -> Seq<u8>;

/// Relies on risc0_zkvm::sha::Digestible for byte vectors: the digest is the
/// SHA-256 hash of the bytes — 32 bytes, a function of the bytes alone.
#[verifier::external_body]
fn sha256_digest(bytes: &Vec<u8>) -> (d: Vec<u8>)
    ensures
        d@ == sha256_of(bytes@),
        d@.len() == 32,
{
    bytes.digest().as_bytes().to_vec()
}

/// The journal-digest artifact: the SHA-256 digest of the journal bytes,
/// raw and as the lowercase hex text that is persisted.
pub fn journal_digest(bytes: &Vec<u8>) -> (r: (Vec<u8>, String))
    ensures
        r.0@ == sha256_of(bytes@),
        r.0@.len() == 32,
        r.1@ == hex_chars(r.0@),
{
    let d = sha256_digest(bytes);
    let h = encode_hex(&d);
    (d, h)
}

/// Proves one tour-validation run: checks the input shapes, serializes the
/// inputs in the exact order the guest reads them, drives the proving engine
/// over the guest binary `elf`, and decodes the committed total from the
/// returned journal. A tour that is no permutation, or a total that
/// overflows, makes the guest abort, so the engine returns no receipt and
/// the run ends as a proving failure.
pub fn tsp(elf: &Vec<u8>, n: usize, distances: Vec<u64>, tour: Vec<usize>) -> (r: Result<
    (risc0_zkvm::Receipt, u64),
    HostError,
>)
    ensures
        (r matches Err(HostError::DistancesShape)) <==> distances@.len() != n * n,
        (r matches Err(HostError::TourShape)) <==> (distances@.len() == n * n && tour@.len()
            != n),
        r matches Ok(p) ==> distances@.len() == n * n && tour@.len() == n,
{
    let dl = distances.len();
    let nn = match n.checked_mul(n) {
        Some(v) => v,
        None => {
            return Err(HostError::DistancesShape);
        }
    };
    if dl != nn {
        return Err(HostError::DistancesShape);
    }
    if tour.len() != n {
        return Err(HostError::TourShape);
    }
    let words = encode_input_words(n, &distances, &tour);
    match engine_prove(elf, &words) {
        Err(msg) => Err(HostError::ProvingFailed(msg)),
        Ok((receipt, journal)) => match decode_total(&journal) {
            Some(total) => Ok((receipt, total)),
            None => Err(HostError::MalformedJournal),
        },
    }
}

/// Derives the on-chain artifacts of a receipt: the Groth16 seal bytes, the
/// journal bytes, and the journal's SHA-256 digest.
pub fn extract_onchain_proof_data(receipt: &risc0_zkvm::Receipt) -> (r: Result<
    (Vec<u8>, Vec<u8>, Vec<u8>),
    HostError,
>)
    ensures
        r matches Ok(p) ==> p.2@ == sha256_of(p.1@) && p.2@.len() == 32,
{
    let seal = match groth16_seal(receipt) {
        Some(s) => s,
        None => {
            return Err(HostError::MissingSeal);
        }
    };
    let journal = receipt_journal_bytes(receipt);
    let digest = sha256_digest(&journal);
    Ok((seal, journal, digest))
}

/// Everything an external verifier needs from one verified receipt: the
/// proof seal, the journal, the journal digest raw and as hex text, and the
/// program identity in all four byte-order variants.
pub struct ExportArtifacts {
    pub seal: Vec<u8>,
    pub journal: Vec<u8>,
    pub journal_digest: Vec<u8>,
    pub journal_digest_hex: String,
    pub identity: IdentityEncodings,
}

/// Locally re-verifies the receipt against the guest program's identity and
/// derives the export artifacts. A receipt that fails verification, or one
/// without a Groth16 seal, yields no artifacts.
pub fn verify_and_export(receipt: &risc0_zkvm::Receipt, image_id: &Vec<u32>) -> (r: Result<
    ExportArtifacts,
    HostError,
>)
    requires
        image_id@.len() == 8,
    ensures
        r matches Ok(a) ==> {
            &&& a.journal_digest@ == sha256_of(a.journal@)
            &&& a.journal_digest@.len() == 32
            &&& a.journal_digest_hex@ == hex_chars(a.journal_digest@)
            &&& a.identity.le@ == words_bytes(image_id@)
            &&& a.identity.be@ == words_be_bytes(image_id@)
            &&& a.identity.rev_le@ == words_bytes(image_id@.reverse())
            &&& a.identity.rev_be@ == words_be_bytes(image_id@.reverse())
            &&& a.identity.le_hex@ == hex_chars(a.identity.le@)
            &&& a.identity.be_hex@ == hex_chars(a.identity.be@)
            &&& a.identity.rev_le_hex@ == hex_chars(a.identity.rev_le@)
            &&& a.identity.rev_be_hex@ == hex_chars(a.identity.rev_be@)
        },
{
    match engine_verify(receipt, image_id) {
        Ok(()) => (),
        Err(msg) => {
            return Err(HostError::VerificationFailed(msg));
        }
    }
    match extract_onchain_proof_data(receipt) {
        Err(e) => Err(e),
        Ok((seal, journal, digest)) => {
            let digest_hex = encode_hex(&digest);
            let identity = encode_identity(image_id);
            Ok(
                ExportArtifacts {
                    seal,
                    journal,
                    journal_digest: digest,
                    journal_digest_hex: digest_hex,
                    identity,
                },
            )
        }
    }
}

} // verus!
