//! The trusted boundary around the outside block primitive.
//!
//! The low-level state type of `chksum_hash_md5` carries the four running
//! words, and its `update` runs the 64-byte compression transform.  The
//! declarations here give that type and its methods contracts phrased
//! over [`state_words`], the words a state holds, and
//! [`crate::model::compress`], the transform's result; nothing else in
//! the crate is taken on trust.

use vstd::prelude::*;

use crate::model::compress;
use crate::model::initial_words;

verus! {

#[verifier::external_type_specification]
#[verifier::external_body]
pub struct ExState(chksum_hash_md5::state::State);

/// The four words held by a low-level state.
pub uninterp spec fn state_words(s: chksum_hash_md5::state::State) -> Seq<u32>;

/// Relies on `chksum_hash_md5::state::State::new`: the returned state
/// holds the algorithm's four initialization words.
#[verifier::external_body]
pub(crate) fn state_new() -> (r: chksum_hash_md5::state::State)
    ensures
        state_words(r) == initial_words(),
{
    chksum_hash_md5::state::State::new()
}

/// Relies on `chksum_hash_md5::state::State::update`: folds one block,
/// given as sixteen little-endian words, into the state words and
/// returns the new state; the old state is read, never changed.
#[verifier::external_body]
pub(crate) fn state_update(s: &chksum_hash_md5::state::State, block: &Vec<u32>) -> (r:
    chksum_hash_md5::state::State)
    requires
        block@.len() == 16,
    ensures
        state_words(r) == compress(state_words(*s), block@),
{
    let words: [u32; 16] = block.as_slice().try_into().unwrap();
    s.update(words)
}

/// Relies on `chksum_hash_md5::state::State::digest`: returns the four
/// state words as an array.
#[verifier::external_body]
pub(crate) fn state_digest(s: &chksum_hash_md5::state::State) -> (r: [u32; 4])
    ensures
        r@ == state_words(*s),
{
    s.digest()
}

} // verus!
