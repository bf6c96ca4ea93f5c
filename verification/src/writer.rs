//! The [`Writer`] allows on-the-fly calculation of the digest while
//! writing the data.
//!
//! Every byte the wrapped sink accepts is also fed to the embedded
//! hash — accepted bytes, not requested ones, when the sink takes fewer
//! than offered.

use vstd::prelude::*;

use crate::digest::Digest;
use crate::error::Error;
use crate::hash::MD5;
use crate::model::md5;

verus! {

/// Relies on `std::io::Write::write`: offers `data` to the sink and
/// returns how many of its leading bytes the sink accepted, never more
/// than were offered.
#[verifier::external_body]
fn write_chunk<W: std::io::Write>(inner: &mut W, data: &[u8]) -> (r: Result<usize, Error>)
    ensures
        match r {
            Ok(n) => n <= data@.len(),
            Err(_) => true,
        },
{
    match inner.write(data) {
        Ok(n) => Ok(n),
        Err(e) => Err(Error::new(e.to_string())),
    }
}

/// A passthrough decorator around a byte sink: writes are forwarded
/// verbatim, and every byte the sink accepts is also hashed.
pub struct Writer<W> {
    inner: W,
    hash: MD5,
}

impl<W> Writer<W> {
    /// The embedded hash is in a usable state.
    pub closed spec fn wf(&self) -> bool {
        self.hash.wf()
    }

    /// The bytes the sink has accepted so far.
    pub closed spec fn forwarded(&self) -> Seq<u8> {
        self.hash@
    }

    /// The digest of exactly the bytes written so far.
    pub fn digest(&self) -> (r: Digest)
        requires
            self.wf(),
        ensures
            r@ == md5(self.forwarded()),
    {
        self.hash.digest()
    }
}

impl<W: std::io::Write> Writer<W> {
    /// Forwards one write call to the wrapped sink and hashes exactly
    /// the leading bytes the sink accepted.  A failed write is surfaced
    /// unchanged and hashes nothing.
    pub fn write(&mut self, data: &[u8]) -> (r: Result<usize, Error>)
        requires
            old(self).wf(),
        ensures
            final(self).wf(),
            match r {
                Ok(n) => {
                    &&& n <= data@.len()
                    &&& final(self).forwarded() == old(self).forwarded() + data@.subrange(
                        0,
                        n as int,
                    )
                },
                Err(_) => final(self).forwarded() == old(self).forwarded(),
            },
    {
        match write_chunk(&mut self.inner, data) {
            Ok(n) => {
                self.hash.update(&data[0..n]);
                Ok(n)
            },
            Err(e) => Err(e),
        }
    }

    /// Writes all of `data`, retrying partial writes: on success the
    /// sink accepted, and the hash absorbed, every byte; on failure the
    /// sink accepted some prefix and exactly that prefix was hashed.
    #[verifier::loop_isolation(false)]
    pub fn write_all(&mut self, data: &[u8]) -> (r: Result<(), Error>)
        requires
            old(self).wf(),
        ensures
            final(self).wf(),
            match r {
                Ok(_) => final(self).forwarded() == old(self).forwarded() + data@,
                Err(_) => exists|j: int|
                    0 <= j <= data@.len() && final(self).forwarded() == old(self).forwarded()
                        + data@.subrange(0, j),
            },
    {
        let ghost start = old(self).forwarded();
        let n = data.len();
        let mut i: usize = 0;
        while i < n
            invariant
                i <= n,
                n == data@.len(),
                self.wf(),
                self.forwarded() == start + data@.subrange(0, i as int),
            decreases n - i,
        {
            let r = self.write(&data[i..n]);
            match r {
                Ok(m) => {
                    if m == 0 {
                        return Err(Error::new("the sink accepted no more bytes".to_owned()));
                    }
                    proof {
                        assert((start + data@.subrange(0, i as int)) + data@.subrange(
                            i as int,
                            n as int,
                        ).subrange(0, m as int) =~= start + data@.subrange(0, i as int + m as int));
                    }
                    i = i + m;
                },
                Err(e) => {
                    return Err(e);
                },
            }
        }
        proof {
            assert(data@.subrange(0, n as int) =~= data@);
        }
        Ok(())
    }
}

/// Creates a new [`Writer`] with a fresh hash.
pub fn new<W>(inner: W) -> (r: Writer<W>)
    ensures
        r.wf(),
        r.forwarded() == Seq::<u8>::empty(),
{
    Writer { inner, hash: MD5::new() }
}

/// Creates a new [`Writer`] that continues a caller-supplied hash, so
/// one accumulation can span several wrapped streams.
pub fn with_hash<W>(inner: W, hash: MD5) -> (r: Writer<W>)
    requires
        hash.wf(),
    ensures
        r.wf(),
        r.forwarded() == hash@,
{
    Writer { inner, hash }
}

} // verus!
