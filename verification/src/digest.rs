//! The digest writer: an incremental 256-bit hasher behind the [`Sink`]
//! contract.
//!
//! The hash primitive itself is an external collaborator; the library names
//! its result [`blake2b_of`] and never restates the algorithm.

use crate::errors::CighashAllError;
use crate::sink::Sink;
use vstd::prelude::*;

verus! {

#[verifier::external_type_specification]
#[verifier::external_body]
/// The incremental hash state of the outside digest crate.
pub struct ExBlake2b(ckb_hash::Blake2b);

/// The 32-byte digest that the outside hasher computes for `data`: the
/// personalized 256-bit hash used by the chain.  It depends on the bytes
/// alone.
pub uninterp spec fn blake2b_of(data: Seq<u8>) -> Seq<u8>;

/// Relies on ckb_hash::new_blake2b: a new 32-byte-output hash state with the
/// chain's personalization and no input consumed.
#[verifier::external_body]
fn new_hash_state() -> (b: ckb_hash::Blake2b) {
    ckb_hash::new_blake2b()
}

/// An incremental digest writer.
///
/// Feeding it byte by byte or in one piece makes no difference: its abstract
/// contents are the concatenation of everything written, and finalizing
/// yields the digest of exactly those bytes.
pub struct Hasher {
    inner: ckb_hash::Blake2b,
    fed: Ghost<Seq<u8>>,
}

impl Hasher {
    /// A fresh digest writer with nothing fed yet.
    pub fn new() -> (h: Hasher)
        ensures
            h.contents() == Seq::<u8>::empty(),
            h.reliable(),
    {
        Hasher { inner: new_hash_state(), fed: Ghost(Seq::empty()) }
    }

    /// Feeds bytes into the hash state.
    ///
    /// Relies on Blake2b::update of the blake2b crate behind ckb_hash: it
    /// consumes the bytes into the hash state and cannot fail.
    #[verifier::external_body]
    fn feed(&mut self, data: &[u8])
        ensures
            final(self).fed@ == old(self).fed@ + data@,
    {
        self.inner.update(data);
    }

    /// Finalizes the digest over everything fed so far.
    ///
    /// Relies on Blake2b::finalize of the blake2b crate behind ckb_hash: it
    /// fills the buffer with the digest of all bytes passed to update.
    #[verifier::external_body]
    pub fn hash(self) -> (r: [u8; 32])
        ensures
            r@ == blake2b_of(self.contents()),
    {
        let mut result = [0u8; 32];
        self.inner.finalize(&mut result);
        result
    }
}

impl Default for Hasher {
    /// The same fresh digest writer as [`Hasher::new`].
    fn default() -> (h: Hasher)
        ensures
            h.contents() == Seq::<u8>::empty(),
            h.reliable(),
    {
        Hasher::new()
    }
}

impl Sink for Hasher {
    closed spec fn contents(&self) -> Seq<u8> {
        self.fed@
    }

    open spec fn reliable(&self) -> bool {
        true
    }

    fn write(&mut self, data: &[u8]) -> (r: Result<(), CighashAllError>) {
        self.feed(data);
        Ok(())
    }

    fn flush(&mut self) -> (r: Result<(), CighashAllError>) {
        Ok(())
    }
}

} // verus!
