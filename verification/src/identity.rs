//! Byte-order encodings of the guest program's identity. The identity is a
//! fixed sequence of 32-bit words; downstream verifiers differ in the byte
//! and element order they expect, so the one canonical value is rendered in
//! four variants — little- or big-endian bytes per word, with the word order
//! kept or reversed — plus the lowercase hex text of each.

use vstd::prelude::*;
use crate::codec::{lemma_words_bytes_index, lemma_words_bytes_len, lemma_words_bytes_push,
    u32_le_bytes, words_bytes};

verus! {

/// The four bytes of `w`, most significant first.
pub open spec fn u32_be_bytes(w: u32) -> Seq<u8> {
    seq![
        ((w >> 24) & 0xff) as u8,
        ((w >> 16) & 0xff) as u8,
        ((w >> 8) & 0xff) as u8,
        (w & 0xff) as u8,
    ]
}

/// The byte stream of a word stream: each word as four big-endian bytes.
pub open spec fn words_be_bytes(ws: Seq<u32>) -> Seq<u8>
    decreases ws.len(),
{
    if ws.len() == 0 {
        Seq::empty()
    } else {
        u32_be_bytes(ws[0]) + words_be_bytes(ws.drop_first())
    }
}

pub proof fn lemma_words_be_bytes_len(ws: Seq<u32>)
    ensures
        words_be_bytes(ws).len() == 4 * ws.len(),
    decreases ws.len(),
{
    if ws.len() > 0 {
        lemma_words_be_bytes_len(ws.drop_first());
    }
}

proof fn lemma_words_be_bytes_push(ws: Seq<u32>, w: u32)
    ensures
        words_be_bytes(ws.push(w)) == words_be_bytes(ws) + u32_be_bytes(w),
    decreases ws.len(),
{
    if ws.len() == 0 {
        assert(ws.push(w) =~= seq![w]);
        assert(seq![w].drop_first() =~= Seq::<u32>::empty());
        assert(words_be_bytes(Seq::<u32>::empty()) =~= Seq::<u8>::empty());
        assert(words_be_bytes(seq![w]) =~= u32_be_bytes(w));
        assert(words_be_bytes(ws) + u32_be_bytes(w) =~= u32_be_bytes(w));
    } else {
        assert(ws.push(w).drop_first() =~= ws.drop_first().push(w));
        lemma_words_be_bytes_push(ws.drop_first(), w);
        assert(words_be_bytes(ws.push(w)) =~= words_be_bytes(ws) + u32_be_bytes(w));
    }
}

proof fn lemma_words_be_bytes_index(ws: Seq<u32>, i: int)
    requires
        0 <= i < 4 * ws.len(),
    ensures
        words_be_bytes(ws).len() == 4 * ws.len(),
        words_be_bytes(ws)[i] == u32_be_bytes(ws[i / 4])[i % 4],
    decreases ws.len(),
{
    lemma_words_be_bytes_len(ws);
    if i >= 4 {
        lemma_words_be_bytes_index(ws.drop_first(), i - 4);
        assert((i - 4) / 4 == i / 4 - 1);
        assert((i - 4) % 4 == i % 4);
    }
}

/// The byte stream regrouped as four-byte elements taken in reverse element
/// order: the first four bytes of the result are the last four of `b`.
pub open spec fn reverse_word_chunks(b: Seq<u8>) -> Seq<u8> {
    Seq::new(b.len(), |i: int| b[b.len() - 4 - 4 * (i / 4) + i % 4])
}

/// The two reversed encodings are consistent with the two forward ones:
/// reversing the element order of the identity before encoding big-endian
/// yields the big-endian-forward byte stream with its four-byte elements in
/// reverse order.
pub proof fn lemma_be_reversal_consistent(ws: Seq<u32>)
    ensures
        words_be_bytes(ws.reverse()) == reverse_word_chunks(words_be_bytes(ws)),
{
    let n = ws.len() as int;
    lemma_words_be_bytes_len(ws);
    lemma_words_be_bytes_len(ws.reverse());
    assert forall|i: int| 0 <= i < 4 * n implies words_be_bytes(ws.reverse())[i]
        == reverse_word_chunks(words_be_bytes(ws))[i] by {
        let q = i / 4;
        let r = i % 4;
        lemma_words_be_bytes_index(ws.reverse(), i);
        let j = 4 * (n - 1 - q) + r;
        assert(j / 4 == n - 1 - q && j % 4 == r) by (nonlinear_arith)
            requires
                0 <= r < 4,
                0 <= q < n,
                j == 4 * (n - 1 - q) + r,
        ;
        lemma_words_be_bytes_index(ws, j);
        assert(ws.reverse()[q] == ws[n - 1 - q]);
    }
    assert(words_be_bytes(ws.reverse()) =~= reverse_word_chunks(words_be_bytes(ws)));
}

/// The little-endian analogue: reversing the element order before encoding
/// little-endian yields the little-endian-forward byte stream with its
/// four-byte elements in reverse order.
pub proof fn lemma_le_reversal_consistent(ws: Seq<u32>)
    ensures
        words_bytes(ws.reverse()) == reverse_word_chunks(words_bytes(ws)),
{
    let n = ws.len() as int;
    lemma_words_bytes_len(ws);
    lemma_words_bytes_len(ws.reverse());
    assert forall|i: int| 0 <= i < 4 * n implies words_bytes(ws.reverse())[i]
        == reverse_word_chunks(words_bytes(ws))[i] by {
        let q = i / 4;
        let r = i % 4;
        lemma_words_bytes_index(ws.reverse(), i);
        let j = 4 * (n - 1 - q) + r;
        assert(j / 4 == n - 1 - q && j % 4 == r) by (nonlinear_arith)
            requires
                0 <= r < 4,
                0 <= q < n,
                j == 4 * (n - 1 - q) + r,
        ;
        lemma_words_bytes_index(ws, j);
        assert(ws.reverse()[q] == ws[n - 1 - q]);
    }
    assert(words_bytes(ws.reverse()) =~= reverse_word_chunks(words_bytes(ws)));
}

/// Appends the four little-endian bytes of `w`.
fn push_le_bytes(out: &mut Vec<u8>, w: u32)
    ensures
        final(out)@ == old(out)@ + u32_le_bytes(w),
{
    out.push((w & 0xff) as u8);
    out.push(((w >> 8) & 0xff) as u8);
    out.push(((w >> 16) & 0xff) as u8);
    out.push(((w >> 24) & 0xff) as u8);
    proof {
        assert(out@ =~= old(out)@ + u32_le_bytes(w));
    }
}

/// Appends the four big-endian bytes of `w`.
fn push_be_bytes(out: &mut Vec<u8>, w: u32)
    ensures
        final(out)@ == old(out)@ + u32_be_bytes(w),
{
    out.push(((w >> 24) & 0xff) as u8);
    out.push(((w >> 16) & 0xff) as u8);
    out.push(((w >> 8) & 0xff) as u8);
    out.push((w & 0xff) as u8);
    proof {
        assert(out@ =~= old(out)@ + u32_be_bytes(w));
    }
}

/// The identity words with their order reversed.
fn reversed_words(words: &Vec<u32>) -> (r: Vec<u32>)
    ensures
        r@ == words@.reverse(),
{
    let n = words.len();
    let mut out: Vec<u32> = Vec::new();
    let mut k: usize = 0;
    while k < n
        invariant
            k <= n,
            n == words@.len(),
            out@.len() == k,
            forall|j: int| 0 <= j < k ==> out@[j] == words@[n - 1 - j],
        decreases n - k,
    {
        out.push(words[n - 1 - k]);
        k = k + 1;
    }
    proof {
        assert(out@ =~= words@.reverse());
    }
    out
}

/// The little-endian-forward byte encoding of the identity words.
pub fn identity_le_bytes(words: &Vec<u32>) -> (r: Vec<u8>)
    ensures
        r@ == words_bytes(words@),
{
    let mut out: Vec<u8> = Vec::new();
    let mut k: usize = 0;
    while k < words.len()
        invariant
            k <= words@.len(),
            out@ == words_bytes(words@.take(k as int)),
        decreases words@.len() - k,
    {
        push_le_bytes(&mut out, words[k]);
        proof {
            lemma_words_bytes_push(words@.take(k as int), words@[k as int]);
            assert(words@.take(k as int).push(words@[k as int]) =~= words@.take(k as int + 1));
        }
        k = k + 1;
    }
    proof {
        assert(words@.take(words@.len() as int) =~= words@);
    }
    out
}

/// The big-endian-forward byte encoding of the identity words.
pub fn identity_be_bytes(words: &Vec<u32>) -> (r: Vec<u8>)
    ensures
        r@ == words_be_bytes(words@),
{
    let mut out: Vec<u8> = Vec::new();
    let mut k: usize = 0;
    while k < words.len()
        invariant
            k <= words@.len(),
            out@ == words_be_bytes(words@.take(k as int)),
        decreases words@.len() - k,
    {
        push_be_bytes(&mut out, words[k]);
        proof {
            lemma_words_be_bytes_push(words@.take(k as int), words@[k as int]);
            assert(words@.take(k as int).push(words@[k as int]) =~= words@.take(k as int + 1));
        }
        k = k + 1;
    }
    proof {
        assert(words@.take(words@.len() as int) =~= words@);
    }
    out
}

/// The little-endian-reversed byte encoding: element order reversed, then
/// little-endian bytes per element.
pub fn identity_rev_le_bytes(words: &Vec<u32>) -> (r: Vec<u8>)
    ensures
        r@ == words_bytes(words@.reverse()),
{
    let rev = reversed_words(words);
    identity_le_bytes(&rev)
}

/// The big-endian-reversed byte encoding: element order reversed, then
/// big-endian bytes per element.
pub fn identity_rev_be_bytes(words: &Vec<u32>) -> (r: Vec<u8>)
    ensures
        r@ == words_be_bytes(words@.reverse()),
{
    let rev = reversed_words(words);
    identity_be_bytes(&rev)
}

/// The lowercase hex digit of a value below 16.
pub open spec fn hex_digit(v: u8) -> char {
    if v < 10 {
        ((0x30 + v) as u8) as char
    } else {
        ((0x57 + v) as u8) as char
    }
}

/// The lowercase hex text of a byte stream: two digits per byte, high nibble
/// first, no delimiters.
pub open spec fn hex_chars(b: Seq<u8>) -> Seq<char> {
    Seq::new(
        2 * b.len(),
        |i: int| if i % 2 == 0 {
            hex_digit(b[i / 2] >> 4)
        } else {
            hex_digit(b[i / 2] & 0x0f)
        },
    )
}

/// Relies on hex::encode: every byte becomes two lowercase hexadecimal
/// digits from "0123456789abcdef", high nibble first, with no delimiters.
#[verifier::external_body]
pub(crate) fn encode_hex(bytes: &Vec<u8>) -> (r: String)
    ensures
        r@ == hex_chars(bytes@),
{
    hex::encode(bytes.as_slice())
}

/// The identity rendered in the four byte-order variants, each as raw bytes
/// and as lowercase hex text.
pub struct IdentityEncodings {
    pub le: Vec<u8>,
    pub le_hex: String,
    pub be: Vec<u8>,
    pub be_hex: String,
    pub rev_le: Vec<u8>,
    pub rev_le_hex: String,
    pub rev_be: Vec<u8>,
    pub rev_be_hex: String,
}

/// Renders the one canonical identity value in all four byte-order variants,
/// with the hex text of each.
pub fn encode_identity(words: &Vec<u32>) -> (r: IdentityEncodings)
    ensures
        r.le@ == words_bytes(words@),
        r.be@ == words_be_bytes(words@),
        r.rev_le@ == words_bytes(words@.reverse()),
        r.rev_be@ == words_be_bytes(words@.reverse()),
        r.le_hex@ == hex_chars(r.le@),
        r.be_hex@ == hex_chars(r.be@),
        r.rev_le_hex@ == hex_chars(r.rev_le@),
        r.rev_be_hex@ == hex_chars(r.rev_be@),
{
    let le = identity_le_bytes(words);
    let be = identity_be_bytes(words);
    let rev_le = identity_rev_le_bytes(words);
    let rev_be = identity_rev_be_bytes(words);
    let le_hex = encode_hex(&le);
    let be_hex = encode_hex(&be);
    let rev_le_hex = encode_hex(&rev_le);
    let rev_be_hex = encode_hex(&rev_be);
    IdentityEncodings { le, le_hex, be, be_hex, rev_le, rev_le_hex, rev_be, rev_be_hex }
}

} // verus!
