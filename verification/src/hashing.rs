//! The hashing primitive behind the bridge: an incremental MD5 state and a
//! one-shot digest, both provided by the `md5` crate and trusted at this
//! boundary. Everything above this module is verified against the
//! contracts stated here.

use vstd::prelude::*;
use md5::Digest;

verus! {

/// The 16-byte MD5 digest of a byte sequence, exactly as the `md5` crate
/// computes it. The digest is a pure function of the input bytes alone, so
/// it is given a name here rather than an algorithm: nothing in this crate
/// restates MD5's compression rounds, and every contract that mentions a
/// digest speaks of this name.
pub uninterp spec fn md5_of(bytes: Seq<u8>) -> Seq<u8>;

/// Declares the `md5::Md5` hasher state so that a field can hold one. Its
/// values are opaque here: everything known about them is said by the
/// contracts below.
#[verifier::external_type_specification]
#[verifier::external_body]
pub struct ExMd5(md5::Md5);

/// One in-progress incremental MD5 computation. The `md5::Md5` state is
/// opaque; the ghost field records the bytes absorbed so far, and that byte
/// sequence is the abstraction of a `Hasher`.
pub(crate) struct Hasher {
    pub(crate) inner: md5::Md5,
    pub(crate) absorbed: Ghost<Seq<u8>>,
}

impl Hasher {
    /// The bytes this hasher has absorbed so far, in absorption order.
    pub(crate) open spec fn bytes_absorbed(&self) -> Seq<u8> {
        self.absorbed@
    }
    /// Relies on `md5::Md5::new` (`digest::Digest::new`): a fresh hasher
    /// over which no bytes have been absorbed yet.
    #[verifier::external_body]
    pub(crate) fn new() -> (h: Hasher)
        ensures
            h.bytes_absorbed() == Seq::<u8>::empty(),
    {
        Hasher { inner: md5::Md5::new(), absorbed: Ghost(Seq::empty()) }
    }

    /// Relies on `digest::Digest::update`: the given bytes are appended to
    /// the data absorbed so far, in call order.
    #[verifier::external_body]
    pub(crate) fn update(&mut self, bytes: &[u8])
        ensures
            final(self).bytes_absorbed() == old(self).bytes_absorbed() + bytes@,
    {
        self.inner.update(bytes);
    }

    /// Relies on `digest::Digest::finalize`: consuming the hasher yields the
    /// 16-byte MD5 digest of everything absorbed, and of nothing else.
    #[verifier::external_body]
    pub(crate) fn finalize(self) -> (r: Vec<u8>)
        ensures
            r@ == md5_of(self.bytes_absorbed()),
            r@.len() == 16,
    {
        self.inner.finalize().to_vec()
    }
}

/// Relies on `md5::Md5::digest` (`digest::Digest::digest`), whose provided
/// body in the `digest` crate is exactly new + update + finalize in one
/// call: the 16-byte MD5 digest of `bytes`.
#[verifier::external_body]
pub(crate) fn md5_digest_bytes(bytes: &[u8]) -> (r: Vec<u8>)
    ensures
        r@ == md5_of(bytes@),
        r@.len() == 16,
{
    md5::Md5::digest(bytes).to_vec()
}

} // verus!
