//! The streaming `ckb_tx_message_all` constructor, as an on-chain script
//! runs it: every payload is fetched in fixed-size chunks through the
//! reader.

use crate::errors::CighashAllError;
use crate::sink::Sink;
use crate::stream::generate_from_reader;
use crate::stream::reader_model;
use crate::stream::reader_wf;
use crate::stream::stream_post;
use crate::stream::TxReader;
use vstd::prelude::*;

verus! {

/// Streams the `ckb_tx_message_all` message of the reader's transaction
/// under its script group into the writer, chunk by chunk: as
/// `cighash_all`, and then every witness whose index has no matching input
/// cell.
pub fn generate_ckb_tx_message_all<R: TxReader, S: Sink>(reader: &R, writer: &mut S) -> (r: Result<
    (),
    CighashAllError,
>)
    requires
        reader_wf(reader),
    ensures
        final(writer).reliable() == old(writer).reliable(),
        stream_post(
            reader_model(reader),
            reader.group(),
            true,
            old(writer).contents(),
            old(writer).reliable(),
            reader.reliable(),
            final(writer).contents(),
            r,
        ),
{
    generate_from_reader(reader, true, writer)
}

} // verus!
