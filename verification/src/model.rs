//! The mathematical model of the digest computation.
//!
//! A message is padded with a `0x80` byte, zeros up to 56 modulo 64, and
//! the 64-bit little-endian bit count; the padded message is cut into
//! 64-byte blocks, each folded into four running state words by the
//! compression transform; the final words, serialized little-endian, are
//! the digest.  The transform itself is left uninterpreted here: the
//! executable engine reaches it only through the trusted wrapper around
//! the outside primitive.

use vstd::prelude::*;

verus! {

/// The four initial state words.
pub open spec fn initial_words() -> Seq<u32> {
    seq![0x67452301u32, 0xEFCDAB89u32, 0x98BADCFEu32, 0x10325476u32]
}

/// The compression transform: sixteen little-endian message words folded
/// into the four state words.
pub uninterp spec fn compress(state: Seq<u32>, block: Seq<u32>) -> Seq<u32>;

/// The little-endian word formed by four bytes.
pub open spec fn word_of(b0: u8, b1: u8, b2: u8, b3: u8) -> u32 {
    (b0 as int + b1 as int * 0x100 + b2 as int * 0x10000 + b3 as int * 0x1000000) as u32
}

/// The sixteen little-endian words of one 64-byte block.
pub open spec fn block_words(block: Seq<u8>) -> Seq<u32> {
    Seq::new(16, |i: int| word_of(block[4 * i], block[4 * i + 1], block[4 * i + 2], block[4 * i + 3]))
}

/// Folds every whole 64-byte block at the front of `data` into `state`;
/// a trailing fragment shorter than one block is ignored.
pub open spec fn fold_blocks(state: Seq<u32>, data: Seq<u8>) -> Seq<u32>
    decreases data.len(),
{
    if data.len() < 64 {
        state
    } else {
        fold_blocks(compress(state, block_words(data.take(64))), data.skip(64))
    }
}

/// The `n` little-endian bytes of `v`.
pub open spec fn le_bytes(v: int, n: nat) -> Seq<u8>
    decreases n,
{
    if n == 0 {
        Seq::empty()
    } else {
        seq![(v % 256) as u8] + le_bytes(v / 256, (n - 1) as nat)
    }
}

/// How many zero bytes the padding inserts for a message of `len` bytes.
pub open spec fn zero_count(len: nat) -> nat {
    if len % 64 < 56 {
        (55 - len % 64) as nat
    } else {
        (119 - len % 64) as nat
    }
}

/// The tail appended to a message of `len` bytes before the final blocks
/// are compressed: one `0x80` byte, zeros up to 56 modulo 64, and the
/// bit count modulo 2^64 as eight little-endian bytes.
pub open spec fn padding(len: nat) -> Seq<u8> {
    seq![0x80u8] + Seq::new(zero_count(len), |i: int| 0u8) + le_bytes(
        ((len * 8) % 0x1_0000_0000_0000_0000) as int,
        8,
    )
}

/// The sixteen digest bytes drawn from the four state words.
pub open spec fn words_bytes(ws: Seq<u32>) -> Seq<u8> {
    le_bytes(ws[0] as int, 4) + le_bytes(ws[1] as int, 4) + le_bytes(ws[2] as int, 4) + le_bytes(
        ws[3] as int,
        4,
    )
}

/// The digest of a whole message: pad, fold every block, serialize.
pub open spec fn md5(bytes: Seq<u8>) -> Seq<u8> {
    words_bytes(fold_blocks(initial_words(), bytes + padding(bytes.len())))
}

/// The bytes held by an accumulator that started with `start` and was
/// then fed each of `pieces` in turn, one update per piece.
pub open spec fn feed_all(start: Seq<u8>, pieces: Seq<Seq<u8>>) -> Seq<u8>
    decreases pieces.len(),
{
    if pieces.len() == 0 {
        start
    } else {
        feed_all(start + pieces.first(), pieces.drop_first())
    }
}

/// Successive updates with any pieces accumulate exactly their
/// concatenation, however the bytes were cut.
pub proof fn lemma_feed_all_concat(start: Seq<u8>, pieces: Seq<Seq<u8>>)
    ensures
        feed_all(start, pieces) == start + pieces.flatten(),
    decreases pieces.len(),
{
    if pieces.len() == 0 {
        assert(start + pieces.flatten() =~= start);
    } else {
        lemma_feed_all_concat(start + pieces.first(), pieces.drop_first());
        assert((start + pieces.first()) + pieces.drop_first().flatten() =~= start + (pieces.first()
            + pieces.drop_first().flatten()));
    }
}

/// Chunk invariance: feeding the pieces of a partition of a byte
/// sequence by successive updates yields the same digest as one update
/// with the whole sequence.
pub proof fn lemma_chunk_invariance(pieces: Seq<Seq<u8>>)
    ensures
        md5(feed_all(Seq::empty(), pieces)) == md5(pieces.flatten()),
{
    lemma_feed_all_concat(Seq::empty(), pieces);
    assert(Seq::<u8>::empty() + pieces.flatten() =~= pieces.flatten());
}

/// `le_bytes` yields exactly as many bytes as asked for.
pub proof fn lemma_le_bytes_len(v: int, n: nat)
    ensures
        le_bytes(v, n).len() == n,
    decreases n,
{
    if n > 0 {
        lemma_le_bytes_len(v / 256, (n - 1) as nat);
    }
}

/// The padding always completes the message to a multiple of the block size.
pub proof fn lemma_padded_len(len: nat)
    ensures
        padding(len).len() == 1 + zero_count(len) + 8,
        (len + padding(len).len()) % 64 == 0,
{
    lemma_le_bytes_len(((len * 8) % 0x1_0000_0000_0000_0000) as int, 8);
}

/// A digest always holds exactly sixteen bytes.
pub proof fn lemma_md5_len(bytes: Seq<u8>)
    ensures
        md5(bytes).len() == 16,
{
    let ws = fold_blocks(initial_words(), bytes + padding(bytes.len()));
    lemma_le_bytes_len(ws[0] as int, 4);
    lemma_le_bytes_len(ws[1] as int, 4);
    lemma_le_bytes_len(ws[2] as int, 4);
    lemma_le_bytes_len(ws[3] as int, 4);
}

/// Folding a block-aligned prefix and then the rest equals folding the
/// concatenation in one pass.
pub proof fn lemma_fold_blocks_append(state: Seq<u32>, x: Seq<u8>, y: Seq<u8>)
    requires
        x.len() % 64 == 0,
    ensures
        fold_blocks(state, x + y) == fold_blocks(fold_blocks(state, x), y),
    decreases x.len(),
{
    if x.len() == 0 {
        assert(x + y =~= y);
    } else {
        assert(x.len() >= 64);
        assert((x + y).take(64) =~= x.take(64));
        assert((x + y).skip(64) =~= x.skip(64) + y);
        assert(x.skip(64).len() % 64 == 0);
        lemma_fold_blocks_append(compress(state, block_words(x.take(64))), x.skip(64), y);
    }
}

/// One whole block folds in a single compression step.
pub proof fn lemma_fold_one_block(state: Seq<u32>, b: Seq<u8>)
    requires
        b.len() == 64,
    ensures
        fold_blocks(state, b) == compress(state, block_words(b)),
{
    assert(b.take(64) =~= b);
    assert(fold_blocks(compress(state, block_words(b.take(64))), b.skip(64)) == compress(
        state,
        block_words(b.take(64)),
    ));
}

} // verus!
