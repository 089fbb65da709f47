//! Fixed little-endian byte layout of the plain records shared with the GPU.

use vstd::prelude::*;

verus! {

/// The four bytes of a 32-bit word, least significant first.
pub open spec fn word_bytes(w: u32) -> Seq<u8> {
    seq![
        (w & 0xff) as u8,
        ((w >> 8) & 0xff) as u8,
        ((w >> 16) & 0xff) as u8,
        ((w >> 24) & 0xff) as u8,
    ]
}

/// The word whose bytes start at `at` in `bytes`, least significant first.
pub open spec fn word_at(bytes: Seq<u8>, at: int) -> u32 {
    (bytes[at] as u32) | ((bytes[at + 1] as u32) << 8) | ((bytes[at + 2] as u32) << 16) | ((
    bytes[at + 3] as u32) << 24)
}

/// The bytes of a sequence of words, each word in turn.
pub open spec fn words_bytes(ws: Seq<u32>) -> Seq<u8>
    decreases ws.len(),
{
    if ws.len() == 0 {
        Seq::empty()
    } else {
        words_bytes(ws.drop_last()) + word_bytes(ws.last())
    }
}

/// Reading a word back from its own bytes gives the word.
pub proof fn lemma_word_round_trip(w: u32)
    ensures
        word_bytes(w).len() == 4,
        word_at(word_bytes(w), 0) == w,
{
    let b0 = (w & 0xff) as u8;
    let b1 = ((w >> 8) & 0xff) as u8;
    let b2 = ((w >> 16) & 0xff) as u8;
    let b3 = ((w >> 24) & 0xff) as u8;
    assert((b0 as u32) | ((b1 as u32) << 8) | ((b2 as u32) << 16) | ((b3 as u32) << 24) == w)
        by (bit_vector)
        requires
            b0 == (w & 0xff) as u8,
            b1 == ((w >> 8) & 0xff) as u8,
            b2 == ((w >> 16) & 0xff) as u8,
            b3 == ((w >> 24) & 0xff) as u8,
    ;
}

/// Every word takes four bytes, and word `i` can be read back at byte `4 * i`.
pub proof fn lemma_words_bytes(ws: Seq<u32>)
    ensures
        words_bytes(ws).len() == 4 * ws.len(),
        forall|i: int| 0 <= i < ws.len() ==> #[trigger] word_at(words_bytes(ws), 4 * i) == ws[i],
    decreases ws.len(),
{
    if ws.len() > 0 {
        let head = ws.drop_last();
        lemma_words_bytes(head);
        lemma_word_round_trip(ws.last());
        let all = words_bytes(ws);
        let tail = word_bytes(ws.last());
        assert forall|i: int| 0 <= i < ws.len() implies #[trigger] word_at(all, 4 * i)
            == ws[i] by {
            if i < head.len() {
                assert(word_at(words_bytes(head), 4 * i) == head[i]);
                assert(all[4 * i] == words_bytes(head)[4 * i]);
                assert(all[4 * i + 1] == words_bytes(head)[4 * i + 1]);
                assert(all[4 * i + 2] == words_bytes(head)[4 * i + 2]);
                assert(all[4 * i + 3] == words_bytes(head)[4 * i + 3]);
            } else {
                assert(all[4 * i] == tail[0]);
                assert(all[4 * i + 1] == tail[1]);
                assert(all[4 * i + 2] == tail[2]);
                assert(all[4 * i + 3] == tail[3]);
            }
        }
    }
}

/// Two sequences of words with the same bytes are the same sequence.
pub proof fn lemma_words_bytes_injective(a: Seq<u32>, b: Seq<u32>)
    requires
        words_bytes(a) == words_bytes(b),
    ensures
        a == b,
{
    lemma_words_bytes(a);
    lemma_words_bytes(b);
    assert(a.len() == b.len());
    assert forall|i: int| 0 <= i < a.len() implies a[i] == b[i] by {
        assert(word_at(words_bytes(a), 4 * i) == a[i]);
        assert(word_at(words_bytes(b), 4 * i) == b[i]);
    }
    assert(a =~= b);
}

/// Appends the bytes of `w` to `out`.
pub fn push_word(out: &mut Vec<u8>, w: u32)
    ensures
        final(out)@ == old(out)@ + word_bytes(w),
{
    out.push((w & 0xff) as u8);
    out.push(((w >> 8) & 0xff) as u8);
    out.push(((w >> 16) & 0xff) as u8);
    out.push(((w >> 24) & 0xff) as u8);
    assert(out@ =~= old(out)@ + word_bytes(w));
}

/// The bytes of `ws`, each word least significant byte first.
pub fn encode_words(ws: &Vec<u32>) -> (bytes: Vec<u8>)
    ensures
        bytes@ == words_bytes(ws@),
        bytes@.len() == 4 * ws@.len(),
{
    let mut bytes: Vec<u8> = Vec::new();
    let mut i: usize = 0;
    while i < ws.len()
        invariant
            i <= ws.len(),
            bytes@ == words_bytes(ws@.take(i as int)),
        decreases ws.len() - i,
    {
        push_word(&mut bytes, ws[i]);
        proof {
            let next = ws@.take(i + 1);
            assert(next.drop_last() =~= ws@.take(i as int));
            assert(next.last() == ws@[i as int]);
        }
        i += 1;
    }
    proof {
        assert(ws@.take(ws.len() as int) =~= ws@);
        lemma_words_bytes(ws@);
    }
    bytes
}

/// A record of fixed layout: a fixed number of 32-bit words, laid out in
/// declaration order with no padding.
pub trait Plain: Sized {
    /// The words of the record, in layout order.
    spec fn words(&self) -> Seq<u32>;

    /// The number of bytes that every record of this type takes.
    spec fn size() -> nat;

    /// Every record has `size() / 4` words, and at least one.
    proof fn lemma_size(&self)
        ensures
            4 * self.words().len() == Self::size(),
            0 < Self::size() <= u64::MAX,
    ;

    /// The record's words, in layout order.
    fn to_words(&self) -> (ws: Vec<u32>)
        ensures
            ws@ == self.words(),
    ;

    /// The number of bytes that every record of this type takes.
    fn byte_len() -> (n: u64)
        ensures
            n == Self::size(),
            n > 0,
    ;
}

/// The bytes of a record: its words in layout order.
pub open spec fn record_bytes<T: Plain>(r: &T) -> Seq<u8> {
    words_bytes(r.words())
}

/// The bytes of an array of records, one record after the other.
pub open spec fn records_bytes<T: Plain>(rs: Seq<T>) -> Seq<u8>
    decreases rs.len(),
{
    if rs.len() == 0 {
        Seq::empty()
    } else {
        records_bytes(rs.drop_last()) + record_bytes(&rs.last())
    }
}

/// An array of `n` records takes `n * size()` bytes.
pub proof fn lemma_records_len<T: Plain>(rs: Seq<T>)
    ensures
        records_bytes(rs).len() == rs.len() * T::size(),
    decreases rs.len(),
{
    if rs.len() > 0 {
        lemma_records_len(rs.drop_last());
        rs.last().lemma_size();
        lemma_words_bytes(rs.last().words());
        assert((rs.len() - 1) * T::size() + T::size() == rs.len() * T::size())
            by (nonlinear_arith);
    }
}

/// The bytes of one record.
pub fn encode<T: Plain>(r: &T) -> (bytes: Vec<u8>)
    ensures
        bytes@ == record_bytes(r),
        bytes@.len() == T::size(),
{
    let ws = r.to_words();
    proof {
        r.lemma_size();
    }
    encode_words(&ws)
}

/// The bytes of an array of records, as a vertex, instance or storage buffer
/// holds them.
pub fn encode_all<T: Plain>(rs: &Vec<T>) -> (bytes: Vec<u8>)
    ensures
        bytes@ == records_bytes(rs@),
        bytes@.len() == rs@.len() * T::size(),
{
    let mut bytes: Vec<u8> = Vec::new();
    let mut i: usize = 0;
    while i < rs.len()
        invariant
            i <= rs.len(),
            bytes@ == records_bytes(rs@.take(i as int)),
        decreases rs.len() - i,
    {
        let ws = rs[i].to_words();
        let mut j: usize = 0;
        let ghost before = bytes@;
        while j < ws.len()
            invariant
                j <= ws.len(),
                bytes@ == before + words_bytes(ws@.take(j as int)),
            decreases ws.len() - j,
        {
            push_word(&mut bytes, ws[j]);
            proof {
                let next = ws@.take(j + 1);
                assert(next.drop_last() =~= ws@.take(j as int));
                assert(bytes@ =~= before + words_bytes(next));
            }
            j += 1;
        }
        proof {
            assert(ws@.take(ws.len() as int) =~= ws@);
            let next = rs@.take(i + 1);
            assert(next.drop_last() =~= rs@.take(i as int));
            assert(next.last() == rs@[i as int]);
        }
        i += 1;
    }
    proof {
        assert(rs@.take(rs.len() as int) =~= rs@);
        lemma_records_len(rs@);
    }
    bytes
}

} // verus!
