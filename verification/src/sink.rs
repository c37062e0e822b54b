//! The byte sink a constructor streams into.
//!
//! A sink is any object with `write` and `flush`; the constructor only
//! borrows it.  Its abstract state is the sequence of bytes accepted so far.
//! A sink that can never reject a write reports itself `reliable`, which is
//! how a caller of a constructor learns that the only possible failures are
//! the transaction-shaped ones.

use crate::bytes_util::push_all;
use crate::errors::CighashAllError;
use vstd::prelude::*;

verus! {

/// A byte sink with the two-method contract of the message constructors.
pub trait Sink {
    /// The bytes accepted so far.
    spec fn contents(&self) -> Seq<u8>;

    /// Whether every write on this sink is guaranteed to succeed.
    spec fn reliable(&self) -> bool;

    /// Appends `data` to the sink, or rejects it with an I/O error.
    fn write(&mut self, data: &[u8]) -> (r: Result<(), CighashAllError>)
        ensures
            final(self).reliable() == old(self).reliable(),
            match r {
                Ok(()) => final(self).contents() == old(self).contents() + data@,
                Err(e) => e == CighashAllError::Io && !old(self).reliable(),
            },
    ;

    /// Completes the stream without changing its contents.
    fn flush(&mut self) -> (r: Result<(), CighashAllError>)
        ensures
            final(self).reliable() == old(self).reliable(),
            match r {
                Ok(()) => final(self).contents() == old(self).contents(),
                Err(e) => e == CighashAllError::Io && !old(self).reliable(),
            },
    ;
}

/// A sink that keeps the whole stream in memory and never fails.
pub struct VecSink {
    /// The accepted bytes.
    pub data: Vec<u8>,
}

impl VecSink {
    /// An empty sink.
    pub fn new() -> (s: VecSink)
        ensures
            s.contents() == Seq::<u8>::empty(),
            s.reliable(),
    {
        VecSink { data: Vec::new() }
    }

    /// Hands the accepted bytes out.
    pub fn into_vec(self) -> (v: Vec<u8>)
        ensures
            v@ == self.contents(),
    {
        self.data
    }
}

impl Sink for VecSink {
    open spec fn contents(&self) -> Seq<u8> {
        self.data@
    }

    open spec fn reliable(&self) -> bool {
        true
    }

    fn write(&mut self, data: &[u8]) -> (r: Result<(), CighashAllError>) {
        push_all(&mut self.data, data);
        Ok(())
    }

    fn flush(&mut self) -> (r: Result<(), CighashAllError>) {
        Ok(())
    }
}

/// A sink with a capacity, which rejects any write that would push the
/// stream beyond it.  It exercises the error path of the constructors.
pub struct LimitedSink {
    /// The accepted bytes.
    pub data: Vec<u8>,
    /// The largest total the sink accepts.
    pub cap: usize,
}

impl LimitedSink {
    /// An empty sink that accepts at most `cap` bytes in total.
    pub fn new(cap: usize) -> (s: LimitedSink)
        ensures
            s.contents() == Seq::<u8>::empty(),
    {
        LimitedSink { data: Vec::new(), cap }
    }
}

impl Sink for LimitedSink {
    open spec fn contents(&self) -> Seq<u8> {
        self.data@
    }

    open spec fn reliable(&self) -> bool {
        false
    }

    fn write(&mut self, data: &[u8]) -> (r: Result<(), CighashAllError>) {
        if self.data.len() <= self.cap && data.len() <= self.cap - self.data.len() {
            push_all(&mut self.data, data);
            Ok(())
        } else {
            Err(CighashAllError::Io)
        }
    }

    fn flush(&mut self) -> (r: Result<(), CighashAllError>) {
        Ok(())
    }
}

/// Emits a four-byte little-endian length tag to the writer.
///
/// A length that does not fit 32 bits makes the whole construction fail.
pub fn write_length<S: Sink>(length: usize, writer: &mut S) -> (r: Result<(), CighashAllError>)
    ensures
        final(writer).reliable() == old(writer).reliable(),
        match r {
            Ok(()) => {
                &&& crate::codec::taggable(length as nat)
                &&& final(writer).contents() == old(writer).contents() + crate::codec::length_tag(
                    length as nat,
                )
            },
            Err(e) => (e == CighashAllError::LengthOverflow && !crate::codec::taggable(
                length as nat,
            ) && final(writer).contents() == old(writer).contents()) || (e == CighashAllError::Io
                && !old(writer).reliable()),
        },
{
    let tag = match crate::codec::encode_length(length) {
        Ok(tag) => tag,
        Err(e) => {
            return Err(e);
        },
    };
    writer.write(tag.as_slice())
}

} // verus!
