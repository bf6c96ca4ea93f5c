//! The incremental hash engine.
//!
//! [`MD5`] accumulates bytes in any chunking: whole 64-byte blocks are
//! folded into the running state words through the outside compression
//! primitive, a partial block waits in the pending buffer, and a 64-bit
//! counter tracks the total length for the padding rule.  Its view is
//! the sequence of every byte fed since creation or the last reset, and
//! `digest` returns the model digest of that view without touching the
//! live state.

use vstd::prelude::*;

use crate::digest::Digest;
use crate::model::block_words;
use crate::model::compress;
use crate::model::fold_blocks;
use crate::model::initial_words;
use crate::model::le_bytes;
use crate::model::lemma_fold_blocks_append;
use crate::model::lemma_fold_one_block;
use crate::model::lemma_le_bytes_len;
use crate::model::lemma_padded_len;
use crate::model::md5;
use crate::model::padding;
use crate::model::word_of;
use crate::model::words_bytes;
use crate::model::zero_count;
use crate::primitive::state_digest;
use crate::primitive::state_new;
use crate::primitive::state_update;
use crate::primitive::state_words;
use vstd::arithmetic::div_mod::lemma_add_mod_noop;
use vstd::arithmetic::div_mod::lemma_mul_mod_noop_left;
use vstd::arithmetic::div_mod::lemma_small_mod;

verus! {

/// Reads the sixteen little-endian words of the 64-byte block of
/// `bytes` that starts at `start`.
fn words_from_block(bytes: &[u8], start: usize) -> (r: Vec<u32>)
    requires
        start + 64 <= bytes@.len(),
    ensures
        r@ == block_words(bytes@.subrange(start as int, start as int + 64)),
{
    let blen = bytes.len();
    let mut r: Vec<u32> = Vec::new();
    let mut j: usize = 0;
    while j < 16
        invariant
            j <= 16,
            blen == bytes@.len(),
            start + 64 <= blen,
            r@.len() == j,
            forall|k: int|
                0 <= k < j ==> r@[k] == word_of(
                    bytes@[start + 4 * k],
                    bytes@[start + 4 * k + 1],
                    bytes@[start + 4 * k + 2],
                    bytes@[start + 4 * k + 3],
                ),
        decreases 16 - j,
    {
        let b0 = bytes[start + 4 * j];
        let b1 = bytes[start + 4 * j + 1];
        let b2 = bytes[start + 4 * j + 2];
        let b3 = bytes[start + 4 * j + 3];
        let w: u32 = b0 as u32 + b1 as u32 * 0x100 + b2 as u32 * 0x10000 + b3 as u32 * 0x1000000;
        r.push(w);
        j = j + 1;
    }
    proof {
        assert(r@ =~= block_words(bytes@.subrange(start as int, start as int + 64))) by {
            assert forall|k: int| 0 <= k < 16 implies r@[k] == block_words(
                bytes@.subrange(start as int, start as int + 64),
            )[k] by {
                assert(bytes@.subrange(start as int, start as int + 64)[4 * k] == bytes@[start + 4
                    * k]);
                assert(bytes@.subrange(start as int, start as int + 64)[4 * k + 1] == bytes@[start
                    + 4 * k + 1]);
                assert(bytes@.subrange(start as int, start as int + 64)[4 * k + 2] == bytes@[start
                    + 4 * k + 2]);
                assert(bytes@.subrange(start as int, start as int + 64)[4 * k + 3] == bytes@[start
                    + 4 * k + 3]);
            }
        }
    }
    r
}

/// Folds the 64-byte block of `bytes` starting at `start` into `st`.
fn compress_at(st: &chksum_hash_md5::state::State, bytes: &[u8], start: usize) -> (r:
    chksum_hash_md5::state::State)
    requires
        start + 64 <= bytes@.len(),
    ensures
        state_words(r) == compress(
            state_words(*st),
            block_words(bytes@.subrange(start as int, start as int + 64)),
        ),
{
    let words = words_from_block(bytes, start);
    state_update(st, &words)
}

/// The incremental hash accumulator.
pub struct MD5 {
    state: chksum_hash_md5::state::State,
    buffer: Vec<u8>,
    length: u64,
    processed: Ghost<Seq<u8>>,
}

impl View for MD5 {
    type V = Seq<u8>;

    closed spec fn view(&self) -> Seq<u8> {
        self.processed@ + self.buffer@
    }
}

impl MD5 {
    /// The accumulator's internal invariant: the processed bytes are
    /// block-aligned, the pending buffer holds less than one block, the
    /// state words are the fold of the processed bytes, and the counter
    /// is the total length modulo 2^64.
    pub closed spec fn wf(&self) -> bool {
        &&& self.processed@.len() % 64 == 0
        &&& self.buffer@.len() < 64
        &&& state_words(self.state) == fold_blocks(initial_words(), self.processed@)
        &&& self.length as int == (self.processed@.len() + self.buffer@.len())
            % 0x1_0000_0000_0000_0000
    }

    /// Creates a fresh accumulator over no bytes.
    pub fn new() -> (r: MD5)
        ensures
            r.wf(),
            r@ == Seq::<u8>::empty(),
    {
        let r = MD5 {
            state: state_new(),
            buffer: Vec::new(),
            length: 0,
            processed: Ghost(Seq::empty()),
        };
        proof {
            assert(r@ =~= Seq::<u8>::empty());
        }
        r
    }

    /// Calculates the digest of `data` in one step.
    pub fn hash(data: &[u8]) -> (r: Digest)
        ensures
            r@ == md5(data@),
    {
        let mut h = MD5::new();
        h.update(data);
        proof {
            assert(h@ =~= data@);
        }
        h.digest()
    }

    /// Appends `data` to the accumulated bytes.  The digest afterwards
    /// depends only on the concatenation of everything fed so far, not
    /// on the chunking.
    pub fn update(&mut self, data: &[u8])
        requires
            old(self).wf(),
        ensures
            final(self).wf(),
            final(self)@ == old(self)@ + data@,
    {
        let ghost oldview = self.processed@ + self.buffer@;
        let n = data.len();
        proof {
            lemma_small_mod(n as nat, 0x1_0000_0000_0000_0000);
            lemma_add_mod_noop(
                (self.processed@.len() + self.buffer@.len()) as int,
                n as int,
                0x1_0000_0000_0000_0000,
            );
        }
        self.length = self.length.wrapping_add(n as u64);
        let ghost newlen = self.length;
        assert(newlen as int == (oldview.len() + n) % 0x1_0000_0000_0000_0000);
        let mut i: usize = 0;
        // Top a partially filled pending buffer up to one block.
        if self.buffer.len() > 0 {
            let want = 64 - self.buffer.len();
            let k = if n < want {
                n
            } else {
                want
            };
            self.buffer.extend_from_slice(&data[0..k]);
            i = k;
            if self.buffer.len() == 64 {
                let st = compress_at(&self.state, self.buffer.as_slice(), 0);
                proof {
                    assert(self.buffer@.subrange(0, 64) =~= self.buffer@);
                    lemma_fold_blocks_append(initial_words(), self.processed@, self.buffer@);
                    lemma_fold_one_block(
                        fold_blocks(initial_words(), self.processed@),
                        self.buffer@,
                    );
                }
                self.state = st;
                self.processed = Ghost(self.processed@ + self.buffer@);
                self.buffer.clear();
            }
        }
        assert(self.buffer@.len() == 0 || i == n);
        assert(self.processed@ + self.buffer@ =~= oldview + data@.subrange(0, i as int));
        if self.buffer.len() == 0 {
            // Fold every whole block of the remaining data directly.
            while n - i >= 64
                invariant
                    i <= n,
                    n == data@.len(),
                    self.buffer@.len() == 0,
                    self.processed@.len() % 64 == 0,
                    self.length == newlen,
                    state_words(self.state) == fold_blocks(initial_words(), self.processed@),
                    self.processed@ == oldview + data@.subrange(0, i as int),
                decreases n - i,
            {
                let st = compress_at(&self.state, data, i);
                proof {
                    lemma_fold_blocks_append(
                        initial_words(),
                        self.processed@,
                        data@.subrange(i as int, i as int + 64),
                    );
                    lemma_fold_one_block(
                        fold_blocks(initial_words(), self.processed@),
                        data@.subrange(i as int, i as int + 64),
                    );
                    assert(oldview + data@.subrange(0, i as int + 64) =~= (oldview + data@.subrange(
                        0,
                        i as int,
                    )) + data@.subrange(i as int, i as int + 64));
                }
                self.state = st;
                self.processed = Ghost(self.processed@ + data@.subrange(i as int, i as int + 64));
                i = i + 64;
            }
            // Keep the remainder, shorter than one block, pending.
            self.buffer.extend_from_slice(&data[i..n]);
        }
        proof {
            assert(self.processed@ + self.buffer@ =~= oldview + data@);
            assert(data@.subrange(0, n as int) =~= data@);
        }
    }

    /// Feeds each chunk in turn, one update per chunk: the outcome is
    /// the same as one update with the concatenation of all of them.
    pub fn update_many(&mut self, chunks: &Vec<Vec<u8>>)
        requires
            old(self).wf(),
        ensures
            final(self).wf(),
            final(self)@ == old(self)@ + chunks.deep_view().flatten(),
    {
        let ghost start = old(self)@;
        let ghost pieces = chunks.deep_view();
        let n = chunks.len();
        let mut i: usize = 0;
        while i < n
            invariant
                i <= n,
                n == chunks@.len(),
                pieces == chunks.deep_view(),
                self.wf(),
                self@ == start + pieces.take(i as int).flatten(),
            decreases n - i,
        {
            self.update(chunks[i].as_slice());
            proof {
                assert(pieces.take(i as int).push(pieces[i as int]) =~= pieces.take(i + 1));
                pieces.take(i as int).lemma_flatten_push(pieces[i as int]);
                assert(chunks@[i as int]@ =~= pieces[i as int]);
                assert((start + pieces.take(i as int).flatten()) + chunks@[i as int]@ =~= start
                    + pieces.take(i + 1).flatten());
            }
            i = i + 1;
        }
        proof {
            assert(pieces.take(n as int) =~= pieces);
        }
    }

    /// Restores the initial state, as if no byte had ever been fed.
    pub fn reset(&mut self)
        ensures
            final(self).wf(),
            final(self)@ == Seq::<u8>::empty(),
    {
        self.state = state_new();
        self.buffer.clear();
        self.length = 0;
        self.processed = Ghost(Seq::empty());
        proof {
            assert(self@ =~= Seq::<u8>::empty());
        }
    }

    /// Produces the digest of the bytes accumulated so far.  The live
    /// state is only read: further updates continue as if this call had
    /// not happened, and calling it twice in a row yields equal results.
    pub fn digest(&self) -> (r: Digest)
        requires
            self.wf(),
        ensures
            r@ == md5(self@),
    {
        let ghost len: nat = self@.len();
        let mut tail: Vec<u8> = Vec::new();
        tail.extend_from_slice(self.buffer.as_slice());
        tail.push(0x80);
        let zeros = if self.buffer.len() < 56 {
            55 - self.buffer.len()
        } else {
            119 - self.buffer.len()
        };
        proof {
            lemma_add_mod_noop(self.processed@.len() as int, self.buffer@.len() as int, 64);
            lemma_small_mod(self.buffer@.len(), 64);
            assert(len % 64 == self.buffer@.len());
            assert(zeros == zero_count(len));
        }
        let mut z: usize = 0;
        while z < zeros
            invariant
                z <= zeros,
                tail@ =~= self.buffer@ + seq![0x80u8] + Seq::new(z as nat, |q: int| 0u8),
            decreases zeros - z,
        {
            tail.push(0);
            proof {
                assert(tail@ =~= self.buffer@ + seq![0x80u8] + Seq::new(
                    (z + 1) as nat,
                    |q: int| 0u8,
                ));
            }
            z = z + 1;
        }
        let ghost prefix = self.buffer@ + seq![0x80u8] + Seq::new(zeros as nat, |q: int| 0u8);
        let bits = self.length.wrapping_mul(8);
        proof {
            lemma_mul_mod_noop_left(len as int, 8, 0x1_0000_0000_0000_0000);
            assert(bits as int == (len * 8) % 0x1_0000_0000_0000_0000);
        }
        let mut v = bits;
        let mut k: usize = 0;
        while k < 8
            invariant
                k <= 8,
                prefix + le_bytes(bits as int, 8) =~= tail@ + le_bytes(v as int, (8 - k) as nat),
            decreases 8 - k,
        {
            let b = (v % 256) as u8;
            proof {
                assert(le_bytes(v as int, (8 - k) as nat) == seq![b] + le_bytes(
                    v as int / 256,
                    (8 - (k + 1)) as nat,
                ));
                assert((tail@ + seq![b]) + le_bytes(v as int / 256, (8 - (k + 1)) as nat) =~= tail@
                    + le_bytes(v as int, (8 - k) as nat));
            }
            tail.push(b);
            v = v / 256;
            k = k + 1;
        }
        proof {
            assert(le_bytes(v as int, 0) =~= Seq::<u8>::empty());
            assert(tail@ =~= prefix + le_bytes(bits as int, 8));
            assert(tail@ =~= self.buffer@ + padding(len));
            lemma_padded_len(len);
            lemma_le_bytes_len(bits as int, 8);
            assert((self.processed@ + tail@).len() == len + padding(len).len());
            assert(tail@.len() % 64 == 0) by {
                assert((self.processed@.len() + tail@.len()) % 64 == 0);
                lemma_add_mod_noop(self.processed@.len() as int, tail@.len() as int, 64);
            }
        }
        let tlen = tail.len();
        let mut st = self.state;
        let mut off: usize = 0;
        proof {
            assert(self.processed@ + tail@.subrange(0, 0) =~= self.processed@);
        }
        while tlen - off >= 64
            invariant
                off <= tlen,
                off % 64 == 0,
                tlen == tail@.len(),
                tail@.len() % 64 == 0,
                self.processed@.len() % 64 == 0,
                state_words(st) == fold_blocks(
                    initial_words(),
                    self.processed@ + tail@.subrange(0, off as int),
                ),
            decreases tlen - off,
        {
            let st2 = compress_at(&st, tail.as_slice(), off);
            proof {
                lemma_fold_blocks_append(
                    initial_words(),
                    self.processed@ + tail@.subrange(0, off as int),
                    tail@.subrange(off as int, off as int + 64),
                );
                lemma_fold_one_block(
                    fold_blocks(initial_words(), self.processed@ + tail@.subrange(0, off as int)),
                    tail@.subrange(off as int, off as int + 64),
                );
                assert(self.processed@ + tail@.subrange(0, off as int + 64) =~= (self.processed@
                    + tail@.subrange(0, off as int)) + tail@.subrange(off as int, off as int + 64));
            }
            st = st2;
            off = off + 64;
        }
        proof {
            assert(off == tlen);
            assert(tail@.subrange(0, tlen as int) =~= tail@);
            assert(self.processed@ + tail@ =~= (self.processed@ + self.buffer@) + padding(len));
            assert(state_words(st) == fold_blocks(initial_words(), self@ + padding(self@.len())));
        }
        let words = state_digest(&st);
        let out: [u8; 16] = [
            (words[0] % 256) as u8,
            ((words[0] / 256) % 256) as u8,
            ((words[0] / 65536) % 256) as u8,
            ((words[0] / 16777216) % 256) as u8,
            (words[1] % 256) as u8,
            ((words[1] / 256) % 256) as u8,
            ((words[1] / 65536) % 256) as u8,
            ((words[1] / 16777216) % 256) as u8,
            (words[2] % 256) as u8,
            ((words[2] / 256) % 256) as u8,
            ((words[2] / 65536) % 256) as u8,
            ((words[2] / 16777216) % 256) as u8,
            (words[3] % 256) as u8,
            ((words[3] / 256) % 256) as u8,
            ((words[3] / 65536) % 256) as u8,
            ((words[3] / 16777216) % 256) as u8,
        ];
        proof {
            lemma_le4(words@[0] as int);
            lemma_le4(words@[1] as int);
            lemma_le4(words@[2] as int);
            lemma_le4(words@[3] as int);
            assert(out@ =~= words_bytes(state_words(st)));
        }
        Digest::new(out)
    }
}

impl Default for MD5 {
    /// A fresh accumulator over no bytes.
    fn default() -> (r: MD5)
        ensures
            r.wf(),
            r@ == Seq::<u8>::empty(),
    {
        MD5::new()
    }
}

/// Four little-endian bytes of a word, written out.
proof fn lemma_le4(v: int)
    requires
        0 <= v < 0x1_0000_0000,
    ensures
        le_bytes(v, 4) =~= seq![
            (v % 256) as u8,
            ((v / 256) % 256) as u8,
            ((v / 65536) % 256) as u8,
            ((v / 16777216) % 256) as u8,
        ],
{
    reveal_with_fuel(le_bytes, 5);
    assert(v / 256 / 256 == v / 65536) by (nonlinear_arith)
        requires 0 <= v;
    assert(v / 65536 / 256 == v / 16777216) by (nonlinear_arith)
        requires 0 <= v;
}

} // verus!
