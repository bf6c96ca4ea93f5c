//! The [`Reader`] allows on-the-fly calculation of the digest while
//! reading the data.
//!
//! Every byte the wrapped source hands out is also fed to the embedded
//! hash, so the digest at any moment is the digest of exactly the bytes
//! read so far — not of the whole source if reading stopped early.

use vstd::prelude::*;

use crate::digest::Digest;
use crate::error::Error;
use crate::hash::MD5;
use crate::model::md5;

verus! {

/// Relies on `std::io::Read::read`: stores the bytes one read call
/// yields in `buf`, at most `cap` of them; a failed read leaves `buf`
/// empty.  Which bytes and how many depends on the source alone; zero
/// bytes from a nonempty source means the end of the stream.
#[verifier::external_body]
fn read_into<R: std::io::Read>(inner: &mut R, buf: &mut Vec<u8>, cap: usize) -> (r: Result<
    usize,
    Error,
>)
    ensures
        match r {
            Ok(n) => final(buf)@.len() == n && n <= cap,
            Err(_) => final(buf)@.len() == 0,
        },
{
    buf.clear();
    buf.resize(cap, 0);
    match inner.read(buf.as_mut_slice()) {
        Ok(n) => {
            buf.truncate(n);
            Ok(n)
        },
        Err(e) => {
            buf.clear();
            Err(Error::new(e.to_string()))
        },
    }
}

/// A passthrough decorator around a byte source: reads are forwarded
/// verbatim, and every byte handed to the caller is also hashed.
pub struct Reader<R> {
    inner: R,
    hash: MD5,
}

impl<R> Reader<R> {
    /// The embedded hash is in a usable state.
    pub closed spec fn wf(&self) -> bool {
        self.hash.wf()
    }

    /// The bytes forwarded to the caller so far.
    pub closed spec fn forwarded(&self) -> Seq<u8> {
        self.hash@
    }

    /// The digest of exactly the bytes read so far.
    pub fn digest(&self) -> (r: Digest)
        requires
            self.wf(),
        ensures
            r@ == md5(self.forwarded()),
    {
        self.hash.digest()
    }
}

impl<R: std::io::Read> Reader<R> {
    /// Forwards one read call to the wrapped source: the caller receives
    /// in `buf` the same bytes the bare source would have produced, at
    /// most `cap` of them, and the embedded hash absorbs exactly those
    /// bytes.  A failed read is surfaced unchanged and hashes nothing.
    pub fn read(&mut self, buf: &mut Vec<u8>, cap: usize) -> (r: Result<usize, Error>)
        requires
            old(self).wf(),
        ensures
            final(self).wf(),
            match r {
                Ok(n) => {
                    &&& final(buf)@.len() == n
                    &&& n <= cap
                    &&& final(self).forwarded() == old(self).forwarded() + final(buf)@
                },
                Err(_) => {
                    &&& final(self).forwarded() == old(self).forwarded()
                    &&& final(buf)@.len() == 0
                },
            },
    {
        match read_into(&mut self.inner, buf, cap) {
            Ok(n) => {
                self.hash.update(buf.as_slice());
                Ok(n)
            },
            Err(e) => Err(e),
        }
    }
}

/// Creates a new [`Reader`] with a fresh hash.
pub fn new<R>(inner: R) -> (r: Reader<R>)
    ensures
        r.wf(),
        r.forwarded() == Seq::<u8>::empty(),
{
    Reader { inner, hash: MD5::new() }
}

/// Creates a new [`Reader`] that continues a caller-supplied hash, so
/// one accumulation can span several wrapped streams.
pub fn with_hash<R>(inner: R, hash: MD5) -> (r: Reader<R>)
    requires
        hash.wf(),
    ensures
        r.wf(),
        r.forwarded() == hash@,
{
    Reader { inner, hash }
}

} // verus!
