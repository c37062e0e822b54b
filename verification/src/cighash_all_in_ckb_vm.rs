//! The streaming `cighash_all` constructor, as an on-chain script runs it:
//! every payload is fetched in fixed-size chunks through the reader.

use crate::errors::CighashAllError;
use crate::sink::Sink;
use crate::stream::generate_from_reader;
use crate::stream::reader_model;
use crate::stream::reader_wf;
use crate::stream::stream_post;
use crate::stream::TxReader;
use vstd::prelude::*;

verus! {

/// Streams the `cighash_all` message of the reader's transaction under its
/// script group into the writer, chunk by chunk.  The bytes are exactly
/// those of the mock-transaction constructor for the same transaction view.
pub fn generate_cighash_all<R: TxReader, S: Sink>(reader: &R, writer: &mut S) -> (r: Result<
    (),
    CighashAllError,
>)
    requires
        reader_wf(reader),
    ensures
        final(writer).reliable() == old(writer).reliable(),
        stream_post(
            reader_model(reader),
            reader.group(),
            false,
            old(writer).contents(),
            old(writer).reliable(),
            reader.reliable(),
            final(writer).contents(),
            r,
        ),
{
    generate_from_reader(reader, false, writer)
}

} // verus!
