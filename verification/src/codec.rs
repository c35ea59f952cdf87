//! The journal codec. The proving engine's journal is a stream of 32-bit
//! words laid out little-endian byte by byte; a 64-bit value occupies two
//! words, low word first, and a committed matrix is its length word followed
//! by its entries. This module states that layout, encodes a guest output to
//! journal bytes, and decodes journal bytes back, exactly and uniquely.

use vstd::prelude::*;

verus! {

/// The four bytes of `w`, least significant first.
pub open spec fn u32_le_bytes(w: u32) -> Seq<u8> {
    seq![
        (w & 0xff) as u8,
        ((w >> 8) & 0xff) as u8,
        ((w >> 16) & 0xff) as u8,
        ((w >> 24) & 0xff) as u8,
    ]
}

/// The low 32-bit word of `x`.
pub open spec fn u64_low(x: u64) -> u32 {
    (x & 0xffff_ffff) as u32
}

/// The high 32-bit word of `x`.
pub open spec fn u64_high(x: u64) -> u32 {
    ((x >> 32) & 0xffff_ffff) as u32
}

/// The word stream of a list of 64-bit values: for each value its low word,
/// then its high word.
pub open spec fn u64s_words(xs: Seq<u64>) -> Seq<u32>
    decreases xs.len(),
{
    if xs.len() == 0 {
        Seq::empty()
    } else {
        seq![u64_low(xs[0]), u64_high(xs[0])] + u64s_words(xs.drop_first())
    }
}

/// The byte stream of a word stream: each word as four little-endian bytes.
pub open spec fn words_bytes(ws: Seq<u32>) -> Seq<u8>
    decreases ws.len(),
{
    if ws.len() == 0 {
        Seq::empty()
    } else {
        u32_le_bytes(ws[0]) + words_bytes(ws.drop_first())
    }
}

/// The words of a journal committing `dist` and then `total`: the matrix
/// length as one word, the matrix entries, then the total.
pub open spec fn journal_words(dist: Seq<u64>, total: u64) -> Seq<u32> {
    seq![dist.len() as u32] + u64s_words(dist) + seq![u64_low(total), u64_high(total)]
}

/// The bytes of a journal committing `dist` and then `total`.
pub open spec fn journal_bytes(dist: Seq<u64>, total: u64) -> Seq<u8> {
    words_bytes(journal_words(dist, total))
}

pub proof fn lemma_u64s_words_len(xs: Seq<u64>)
    ensures
        u64s_words(xs).len() == 2 * xs.len(),
    decreases xs.len(),
{
    if xs.len() > 0 {
        lemma_u64s_words_len(xs.drop_first());
    }
}

pub proof fn lemma_words_bytes_len(ws: Seq<u32>)
    ensures
        words_bytes(ws).len() == 4 * ws.len(),
    decreases ws.len(),
{
    if ws.len() > 0 {
        lemma_words_bytes_len(ws.drop_first());
    }
}

pub proof fn lemma_words_bytes_push(ws: Seq<u32>, w: u32)
    ensures
        words_bytes(ws.push(w)) == words_bytes(ws) + u32_le_bytes(w),
    decreases ws.len(),
{
    if ws.len() == 0 {
        assert(ws.push(w) =~= seq![w]);
        assert(seq![w].drop_first() =~= Seq::<u32>::empty());
        assert(words_bytes(Seq::<u32>::empty()) =~= Seq::<u8>::empty());
        assert(words_bytes(seq![w]) =~= u32_le_bytes(w));
        assert(words_bytes(ws) + u32_le_bytes(w) =~= u32_le_bytes(w));
    } else {
        assert(ws.push(w).drop_first() =~= ws.drop_first().push(w));
        lemma_words_bytes_push(ws.drop_first(), w);
        assert(words_bytes(ws.push(w)) =~= words_bytes(ws) + u32_le_bytes(w));
    }
}

pub proof fn lemma_u64s_words_push(xs: Seq<u64>, x: u64)
    ensures
        u64s_words(xs.push(x)) == u64s_words(xs) + seq![u64_low(x), u64_high(x)],
    decreases xs.len(),
{
    if xs.len() == 0 {
        assert(xs.push(x) =~= seq![x]);
        assert(seq![x].drop_first() =~= Seq::<u64>::empty());
        assert(u64s_words(Seq::<u64>::empty()) =~= Seq::<u32>::empty());
        assert(u64s_words(xs.push(x)) =~= u64s_words(xs) + seq![u64_low(x), u64_high(x)]);
    } else {
        assert(xs.push(x).drop_first() =~= xs.drop_first().push(x));
        lemma_u64s_words_push(xs.drop_first(), x);
        assert(u64s_words(xs.push(x)) =~= u64s_words(xs) + seq![u64_low(x), u64_high(x)]);
    }
}

/// The byte stream of each word in order is the byte stream of the whole.
pub proof fn lemma_words_bytes_index(ws: Seq<u32>, i: int)
    requires
        0 <= i < 4 * ws.len(),
    ensures
        words_bytes(ws).len() == 4 * ws.len(),
        words_bytes(ws)[i] == u32_le_bytes(ws[i / 4])[i % 4],
    decreases ws.len(),
{
    lemma_words_bytes_len(ws);
    if i >= 4 {
        lemma_words_bytes_index(ws.drop_first(), i - 4);
        assert((i - 4) / 4 == i / 4 - 1);
        assert((i - 4) % 4 == i % 4);
    }
}

/// A word is recovered from its four little-endian bytes.
proof fn lemma_u32_le_bytes_injective(a: u32, b: u32)
    requires
        u32_le_bytes(a) == u32_le_bytes(b),
    ensures
        a == b,
{
    assert(u32_le_bytes(a)[0] == u32_le_bytes(b)[0]);
    assert(u32_le_bytes(a)[1] == u32_le_bytes(b)[1]);
    assert(u32_le_bytes(a)[2] == u32_le_bytes(b)[2]);
    assert(u32_le_bytes(a)[3] == u32_le_bytes(b)[3]);
    assert((a & 0xff) as u8 == (b & 0xff) as u8 && ((a >> 8) & 0xff) as u8 == ((b >> 8)
        & 0xff) as u8 && ((a >> 16) & 0xff) as u8 == ((b >> 16) & 0xff) as u8 && ((a >> 24)
        & 0xff) as u8 == ((b >> 24) & 0xff) as u8 ==> a == b) by (bit_vector);
}

/// A word stream is recovered from its byte stream.
proof fn lemma_words_bytes_injective(a: Seq<u32>, b: Seq<u32>)
    requires
        words_bytes(a) == words_bytes(b),
    ensures
        a == b,
    decreases a.len(),
{
    lemma_words_bytes_len(a);
    lemma_words_bytes_len(b);
    if a.len() == 0 {
        assert(a =~= b);
    } else {
        assert forall|r: int| 0 <= r < 4 implies u32_le_bytes(a[0])[r] == u32_le_bytes(
            b[0],
        )[r] by {
            lemma_words_bytes_index(a, r);
            lemma_words_bytes_index(b, r);
        }
        assert(u32_le_bytes(a[0]) =~= u32_le_bytes(b[0]));
        lemma_u32_le_bytes_injective(a[0], b[0]);
        assert(words_bytes(a.drop_first()) =~= words_bytes(b.drop_first())) by {
            assert forall|i: int| 0 <= i < 4 * (a.len() - 1) implies words_bytes(
                a.drop_first(),
            )[i] == words_bytes(b.drop_first())[i] by {
                lemma_words_bytes_index(a.drop_first(), i);
                lemma_words_bytes_index(b.drop_first(), i);
                lemma_words_bytes_index(a, i + 4);
                lemma_words_bytes_index(b, i + 4);
                assert((i + 4) / 4 == i / 4 + 1);
                assert((i + 4) % 4 == i % 4);
            }
            lemma_words_bytes_len(a.drop_first());
            lemma_words_bytes_len(b.drop_first());
        }
        lemma_words_bytes_injective(a.drop_first(), b.drop_first());
        assert forall|i: int| 0 <= i < a.len() implies a[i] == b[i] by {
            if i > 0 {
                assert(a[i] == a.drop_first()[i - 1]);
                assert(b[i] == b.drop_first()[i - 1]);
            }
        }
        assert(a =~= b);
    }
}

/// A 64-bit value is recovered from its two words.
proof fn lemma_u64_words_injective(x: u64, y: u64)
    requires
        u64_low(x) == u64_low(y),
        u64_high(x) == u64_high(y),
    ensures
        x == y,
{
    assert((x & 0xffff_ffff) as u32 == (y & 0xffff_ffff) as u32 && ((x >> 32)
        & 0xffff_ffff) as u32 == ((y >> 32) & 0xffff_ffff) as u32 ==> x == y) by (bit_vector);
}

/// The word at a position of the 64-bit value stream.
proof fn lemma_u64s_words_index(xs: Seq<u64>, k: int)
    requires
        0 <= k < xs.len(),
    ensures
        u64s_words(xs).len() == 2 * xs.len(),
        u64s_words(xs)[2 * k] == u64_low(xs[k]),
        u64s_words(xs)[2 * k + 1] == u64_high(xs[k]),
    decreases xs.len(),
{
    lemma_u64s_words_len(xs);
    if k > 0 {
        lemma_u64s_words_index(xs.drop_first(), k - 1);
    }
}

/// The committed matrix and total are recovered from the journal words.
proof fn lemma_journal_words_injective(d1: Seq<u64>, t1: u64, d2: Seq<u64>, t2: u64)
    requires
        d1.len() < 0x1_0000_0000,
        d2.len() < 0x1_0000_0000,
        journal_words(d1, t1) == journal_words(d2, t2),
    ensures
        d1 == d2,
        t1 == t2,
{
    lemma_u64s_words_len(d1);
    lemma_u64s_words_len(d2);
    assert(journal_words(d1, t1)[0] == d1.len() as u32);
    assert(journal_words(d2, t2)[0] == d2.len() as u32);
    assert(d1.len() == d2.len());
    let n = d1.len() as int;
    assert forall|k: int| 0 <= k < n implies d1[k] == d2[k] by {
        lemma_u64s_words_index(d1, k);
        lemma_u64s_words_index(d2, k);
        assert(journal_words(d1, t1)[1 + 2 * k] == u64_low(d1[k]));
        assert(journal_words(d1, t1)[2 + 2 * k] == u64_high(d1[k]));
        assert(journal_words(d2, t2)[1 + 2 * k] == u64_low(d2[k]));
        assert(journal_words(d2, t2)[2 + 2 * k] == u64_high(d2[k]));
        lemma_u64_words_injective(d1[k], d2[k]);
    }
    assert(d1 =~= d2);
    assert(journal_words(d1, t1)[1 + 2 * n] == u64_low(t1));
    assert(journal_words(d1, t1)[2 + 2 * n] == u64_high(t1));
    assert(journal_words(d2, t2)[1 + 2 * n] == u64_low(t2));
    assert(journal_words(d2, t2)[2 + 2 * n] == u64_high(t2));
    lemma_u64_words_injective(t1, t2);
}

/// The journal pins down what was committed: two journals with the same
/// bytes committed the same distance matrix and the same total, so a decoded
/// matrix equals the matrix of the run that produced the journal, entry for
/// entry and byte for byte.
pub proof fn lemma_journal_bytes_injective(d1: Seq<u64>, t1: u64, d2: Seq<u64>, t2: u64)
    requires
        d1.len() < 0x1_0000_0000,
        d2.len() < 0x1_0000_0000,
        journal_bytes(d1, t1) == journal_bytes(d2, t2),
    ensures
        d1 == d2,
        t1 == t2,
{
    lemma_words_bytes_injective(journal_words(d1, t1), journal_words(d2, t2));
    lemma_journal_words_injective(d1, t1, d2, t2);
}

proof fn lemma_journal_bytes_len(d: Seq<u64>, t: u64)
    ensures
        journal_words(d, t).len() == 3 + 2 * d.len(),
        journal_bytes(d, t).len() == 4 * (3 + 2 * d.len()),
{
    lemma_u64s_words_len(d);
    lemma_words_bytes_len(journal_words(d, t));
}

/// Appends the four little-endian bytes of `w`.
fn push_word_bytes(out: &mut Vec<u8>, w: u32)
    ensures
        final(out)@ == old(out)@ + u32_le_bytes(w),
{
    out.push((w & 0xff) as u8);
    out.push(((w >> 8) & 0xff) as u8);
    out.push(((w >> 16) & 0xff) as u8);
    out.push(((w >> 24) & 0xff) as u8);
    proof {
        assert(out@ =~= old(out)@ + u32_le_bytes(w));
    }
}

/// Encodes the committed outputs of a run — the distance matrix, then the
/// total — into the byte form the journal carries.
pub fn encode_journal(dist: &Vec<u64>, total: u64) -> (j: Vec<u8>)
    requires
        dist@.len() < 0x1_0000_0000,
    ensures
        j@ == journal_bytes(dist@, total),
{
    let mut ws: Vec<u32> = Vec::new();
    ws.push(dist.len() as u32);
    let mut i: usize = 0;
    while i < dist.len()
        invariant
            i <= dist@.len(),
            dist@.len() < 0x1_0000_0000,
            ws@ == seq![dist@.len() as u32] + u64s_words(dist@.take(i as int)),
        decreases dist@.len() - i,
    {
        let x = dist[i];
        ws.push((x & 0xffff_ffff) as u32);
        ws.push(((x >> 32) & 0xffff_ffff) as u32);
        proof {
            lemma_u64s_words_push(dist@.take(i as int), dist@[i as int]);
            assert(dist@.take(i as int).push(dist@[i as int]) =~= dist@.take(i as int + 1));
            assert(ws@ =~= seq![dist@.len() as u32] + u64s_words(dist@.take(i as int + 1)));
        }
        i = i + 1;
    }
    ws.push((total & 0xffff_ffff) as u32);
    ws.push(((total >> 32) & 0xffff_ffff) as u32);
    proof {
        assert(dist@.take(dist@.len() as int) =~= dist@);
        assert(ws@ =~= journal_words(dist@, total));
    }
    let mut out: Vec<u8> = Vec::new();
    let mut k: usize = 0;
    while k < ws.len()
        invariant
            k <= ws@.len(),
            ws@ == journal_words(dist@, total),
            out@ == words_bytes(ws@.take(k as int)),
        decreases ws@.len() - k,
    {
        push_word_bytes(&mut out, ws[k]);
        proof {
            lemma_words_bytes_push(ws@.take(k as int), ws@[k as int]);
            assert(ws@.take(k as int).push(ws@[k as int]) =~= ws@.take(k as int + 1));
        }
        k = k + 1;
    }
    proof {
        assert(ws@.take(ws@.len() as int) =~= ws@);
    }
    out
}

/// Decodes journal bytes back into the committed distance matrix and total.
/// Succeeds exactly on the byte streams that some run could have committed,
/// and then returns the one matrix and total that the bytes commit.
pub fn decode_journal(bytes: &Vec<u8>) -> (r: Option<(Vec<u64>, u64)>)
    ensures
        match r {
            Some(p) => p.0@.len() < 0x1_0000_0000 && bytes@ == journal_bytes(p.0@, p.1),
            None => forall|d: Seq<u64>, t: u64|
                d.len() < 0x1_0000_0000 ==> bytes@ != journal_bytes(d, t),
        },
{
    let len = bytes.len();
    if len % 4 != 0 {
        proof {
            assert forall|d: Seq<u64>, t: u64|
                d.len() < 0x1_0000_0000 implies bytes@ != journal_bytes(d, t) by {
                lemma_journal_bytes_len(d, t);
            }
        }
        return None;
    }
    let nw = len / 4;
    let mut ws: Vec<u32> = Vec::new();
    let mut k: usize = 0;
    while k < nw
        invariant
            k <= nw,
            len == bytes@.len(),
            len % 4 == 0,
            nw == len / 4,
            ws@.len() == k,
            words_bytes(ws@) == bytes@.take(4 * k as int),
        decreases nw - k,
    {
        let b0 = bytes[4 * k];
        let b1 = bytes[4 * k + 1];
        let b2 = bytes[4 * k + 2];
        let b3 = bytes[4 * k + 3];
        let w: u32 = (b0 as u32) | ((b1 as u32) << 8) | ((b2 as u32) << 16) | ((b3 as u32) << 24);
        proof {
            assert((w & 0xff) as u8 == b0 && ((w >> 8) & 0xff) as u8 == b1 && ((w >> 16)
                & 0xff) as u8 == b2 && ((w >> 24) & 0xff) as u8 == b3) by (bit_vector)
                requires
                    w == (b0 as u32) | ((b1 as u32) << 8) | ((b2 as u32) << 16) | ((b3
                        as u32) << 24),
            ;
            lemma_words_bytes_push(ws@, w);
            assert(u32_le_bytes(w) =~= seq![b0, b1, b2, b3]);
            assert(bytes@.take(4 * (k as int + 1)) =~= bytes@.take(4 * k as int) + seq![
                b0,
                b1,
                b2,
                b3,
            ]);
        }
        ws.push(w);
        k = k + 1;
    }
    proof {
        assert(bytes@.take(bytes@.len() as int) =~= bytes@);
    }
    let wn = ws.len();
    if wn < 3 || (wn - 3) % 2 != 0 {
        proof {
            assert forall|d: Seq<u64>, t: u64|
                d.len() < 0x1_0000_0000 implies bytes@ != journal_bytes(d, t) by {
                if bytes@ == journal_bytes(d, t) {
                    lemma_words_bytes_injective(ws@, journal_words(d, t));
                    lemma_journal_bytes_len(d, t);
                }
            }
        }
        return None;
    }
    let m = (wn - 3) / 2;
    if (ws[0] as usize) != m {
        proof {
            assert forall|d: Seq<u64>, t: u64|
                d.len() < 0x1_0000_0000 implies bytes@ != journal_bytes(d, t) by {
                if bytes@ == journal_bytes(d, t) {
                    lemma_words_bytes_injective(ws@, journal_words(d, t));
                    lemma_journal_bytes_len(d, t);
                    assert(ws@[0] == d.len() as u32);
                }
            }
        }
        return None;
    }
    let mut dist: Vec<u64> = Vec::new();
    let mut i: usize = 0;
    while i < m
        invariant
            i <= m,
            wn == ws@.len(),
            wn == 3 + 2 * m,
            dist@.len() == i,
            forall|j: int|
                0 <= j < i ==> u64_low(#[trigger] dist@[j]) == ws@[1 + 2 * j] && u64_high(
                    dist@[j],
                ) == ws@[2 + 2 * j],
        decreases m - i,
    {
        let lo = ws[1 + 2 * i];
        let hi = ws[2 + 2 * i];
        let x: u64 = (lo as u64) | ((hi as u64) << 32);
        proof {
            assert((x & 0xffff_ffff) as u32 == lo && ((x >> 32) & 0xffff_ffff) as u32
                == hi) by (bit_vector)
                requires
                    x == (lo as u64) | ((hi as u64) << 32),
            ;
        }
        dist.push(x);
        i = i + 1;
    }
    let tlo = ws[1 + 2 * m];
    let thi = ws[2 + 2 * m];
    let total: u64 = (tlo as u64) | ((thi as u64) << 32);
    proof {
        assert((total & 0xffff_ffff) as u32 == tlo && ((total >> 32) & 0xffff_ffff) as u32
            == thi) by (bit_vector)
            requires
                total == (tlo as u64) | ((thi as u64) << 32),
        ;
        lemma_u64s_words_len(dist@);
        assert forall|q: int| 0 <= q < wn implies journal_words(dist@, total)[q] == ws@[q] by {
            if q == 0 {
                assert(ws@[0] as usize == m);
                assert(dist@.len() as u32 == ws@[0]);
            } else if q < 1 + 2 * m {
                let j = q - 1;
                assert(j == 2 * (j / 2) + (j % 2));
                lemma_u64s_words_index(dist@, j / 2);
                if j % 2 == 0 {
                    assert(journal_words(dist@, total)[q] == u64_low(dist@[j / 2]));
                } else {
                    assert(journal_words(dist@, total)[q] == u64_high(dist@[j / 2]));
                }
            } else if q == 1 + 2 * m {
                assert(journal_words(dist@, total)[q] == u64_low(total));
            } else {
                assert(journal_words(dist@, total)[q] == u64_high(total));
            }
        }
        assert(journal_words(dist@, total) =~= ws@);
    }
    Some((dist, total))
}

/// True when `bytes` is the journal of some run whose committed total is `t`.
pub open spec fn commits_total(bytes: Seq<u8>, t: u64) -> bool {
    exists|d: Seq<u64>| d.len() < 0x1_0000_0000 && bytes == journal_bytes(d, t)
}

/// Decodes the total tour length from journal bytes: the committed matrix is
/// skipped, the trailing total is returned. Succeeds exactly on well-formed
/// journal bytes.
pub fn decode_total(bytes: &Vec<u8>) -> (r: Option<u64>)
    ensures
        match r {
            Some(t) => commits_total(bytes@, t),
            None => forall|t: u64| !commits_total(bytes@, t),
        },
{
    match decode_journal(bytes) {
        Some((dist, total)) => {
            proof {
                assert(commits_total(bytes@, total)) by {
                    assert(dist@.len() < 0x1_0000_0000 && bytes@ == journal_bytes(
                        dist@,
                        total,
                    ));
                }
            }
            Some(total)
        }
        None => None,
    }
}

} // verus!
