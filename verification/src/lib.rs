//! An MD5 digest library with a verified incremental engine.
//!
//! The core is [`MD5`], an accumulator that folds bytes, in any chunking,
//! into the standard pad-and-compress digest computation, and [`Digest`],
//! the immutable sixteen-byte result.  The [`reader`] and [`writer`]
//! modules wrap a byte source or sink and hash every forwarded byte on
//! the fly.  The raw 64-byte block transform is an outside primitive
//! reached through a trusted wrapper; everything around it — buffering
//! of partial blocks, the padding rule, digest extraction without
//! mutation, and the hex presentation — is verified against the model
//! in [`model`].

pub mod digest;
pub mod error;
pub mod hash;
pub mod model;
mod primitive;
pub mod reader;
pub mod writer;

pub use digest::Digest;
pub use error::Error;
pub use hash::MD5;

use vstd::prelude::*;
use vstd::string::StringSliceAdditionalSpecFns;

verus! {

/// Creates a new hash.
pub fn new() -> (r: MD5)
    ensures
        r.wf(),
        r@ == Seq::<u8>::empty(),
{
    MD5::new()
}

/// Creates a default hash.
pub fn default() -> (r: MD5)
    ensures
        r.wf(),
        r@ == Seq::<u8>::empty(),
{
    MD5::new()
}

/// Computes the digest of the given bytes in one step.
pub fn hash(data: &[u8]) -> (r: Digest)
    ensures
        r@ == model::md5(data@),
{
    MD5::hash(data)
}

/// Computes the digest of a text's bytes in one step.
pub fn hash_str(data: &str) -> (r: Digest)
    ensures
        r@ == model::md5(data.spec_bytes()),
{
    hash(data.as_bytes())
}

} // verus!
