//! The mathematical model of word-to-byte assembly: how 32-bit words drawn
//! from the peripheral become little-endian byte output.

use vstd::prelude::*;

verus! {

/// Byte `k` (little-endian, so byte 0 is least significant) of the word `w`.
pub open spec fn le_byte(w: u32, k: nat) -> u8 {
    if k == 0 {
        (w & 0xff) as u8
    } else if k == 1 {
        ((w >> 8) & 0xff) as u8
    } else if k == 2 {
        ((w >> 16) & 0xff) as u8
    } else {
        ((w >> 24) & 0xff) as u8
    }
}

/// The four bytes of `w` in little-endian order.
pub open spec fn word_le_bytes(w: u32) -> Seq<u8> {
    seq![le_byte(w, 0), le_byte(w, 1), le_byte(w, 2), le_byte(w, 3)]
}

/// Little-endian concatenation of a sequence of words, in draw order.
pub open spec fn words_le_bytes(ws: Seq<u32>) -> Seq<u8>
    decreases ws.len(),
{
    if ws.len() == 0 {
        Seq::empty()
    } else {
        word_le_bytes(ws[0]) + words_le_bytes(ws.skip(1))
    }
}

/// How many words a fill of `len` bytes consumes: one per full 4-byte chunk,
/// plus one more when a partial chunk of 1 to 3 bytes trails.
pub open spec fn words_needed(len: nat) -> nat {
    (len + 3) / 4
}

/// The `len` bytes that a fill backed by the word sequence `ws` produces:
/// byte `i` of the output is little-endian byte `i % 4` of word `i / 4`.
pub open spec fn fill_output(ws: Seq<u32>, len: nat) -> Seq<u8> {
    Seq::new(len, |i: int| le_byte(ws[i / 4], (i % 4) as nat))
}

/// The 64-bit value with `low` as its low half and `high` as its high half.
pub open spec fn combine_u64(low: u32, high: u32) -> u64 {
    (low as u64) | ((high as u64) << 32)
}

/// A fill of `len` bytes leaves no byte untouched: the output has exactly
/// `len` bytes and every one of them is a byte of a drawn word, so nothing of
/// the buffer's previous contents survives.
pub proof fn lemma_fill_output_covers(ws: Seq<u32>, len: nat)
    ensures
        fill_output(ws, len).len() == len,
        forall|i: int|
            0 <= i < len ==> fill_output(ws, len)[i] == le_byte(ws[i / 4], (i % 4) as nat),
{
}

/// A fill whose length is a multiple of 4 consumes exactly `len / 4` words
/// and its output is the little-endian concatenation of those words, in draw
/// order.
pub proof fn lemma_fill_output_exact(ws: Seq<u32>, len: nat)
    requires
        len % 4 == 0,
        ws.len() == words_needed(len),
    ensures
        words_needed(len) == len / 4,
        fill_output(ws, len) == words_le_bytes(ws),
    decreases ws.len(),
{
    if ws.len() == 0 {
        assert(fill_output(ws, len) =~= words_le_bytes(ws));
    } else {
        lemma_fill_output_exact(ws.skip(1), (len - 4) as nat);
        assert forall|i: int| 0 <= i < len implies fill_output(ws, len)[i] == (word_le_bytes(ws[0])
            + words_le_bytes(ws.skip(1)))[i] by {
            if i < 4 {
                assert(i / 4 == 0 && i % 4 == i);
            } else {
                assert((i - 4) / 4 == i / 4 - 1 && (i - 4) % 4 == i % 4);
                assert(words_le_bytes(ws.skip(1))[i - 4] == fill_output(
                    ws.skip(1),
                    (len - 4) as nat,
                )[i - 4]);
                assert(ws.skip(1)[i / 4 - 1] == ws[i / 4]);
            }
        }
        assert(fill_output(ws, len) =~= word_le_bytes(ws[0]) + words_le_bytes(ws.skip(1)));
    }
}

/// A fill whose length is `4 * k + r` with `r` in 1 to 3 consumes exactly
/// `k + 1` words; the first `4 * k` bytes of its output are the little-endian
/// concatenation of the first `k` words, and the trailing `r` bytes are the
/// first `r` little-endian bytes of the final word.
pub proof fn lemma_fill_output_tail(ws: Seq<u32>, len: nat)
    requires
        len % 4 != 0,
        ws.len() == words_needed(len),
    ensures
        words_needed(len) == len / 4 + 1,
        fill_output(ws, len).take(4 * (len as int / 4)) == words_le_bytes(ws.take(len as int / 4)),
        forall|j: int|
            4 * (len as int / 4) <= j < len ==> fill_output(ws, len)[j] == le_byte(
                ws[len as int / 4],
                (j - 4 * (len as int / 4)) as nat,
            ),
{
    let k = (len / 4) as int;
    assert forall|i: int| 0 <= i < 4 * k implies fill_output(ws, len)[i] == fill_output(
        ws.take(k),
        (4 * k) as nat,
    )[i] by {
        assert(i / 4 < k);
        assert(ws.take(k)[i / 4] == ws[i / 4]);
    }
    assert(fill_output(ws, len).take(4 * k) =~= fill_output(ws.take(k), (4 * k) as nat));
    lemma_fill_output_exact(ws.take(k), (4 * k) as nat);
    assert forall|j: int| 4 * k <= j < len implies fill_output(ws, len)[j] == le_byte(
        ws[k],
        (j - 4 * k) as nat,
    ) by {
        assert(j / 4 == k && j % 4 == j - 4 * k);
    }
}

} // verus!
