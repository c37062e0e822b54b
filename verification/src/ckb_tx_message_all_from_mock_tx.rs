//! The `ckb_tx_message_all` constructor over a fully materialized mock
//! transaction.

use crate::errors::CighashAllError;
use crate::message::generate_from_mock_tx;
use crate::message::generate_post;
use crate::model::MockTx;
use crate::model::ScriptOrIndex;
use crate::sink::Sink;
use vstd::prelude::*;

verus! {

/// Streams the `ckb_tx_message_all` message of a mock transaction under a
/// script group into the writer: as `cighash_all`, and then every witness
/// whose index has no matching input cell, length-tagged and ascending.
pub fn generate_ckb_tx_message_all_from_mock_tx<S: Sink>(
    mock_tx: &MockTx,
    script_or_index: ScriptOrIndex,
    writer: &mut S,
) -> (r: Result<(), CighashAllError>)
    ensures
        final(writer).reliable() == old(writer).reliable(),
        generate_post(
            mock_tx@,
            script_or_index@,
            true,
            old(writer).contents(),
            old(writer).reliable(),
            final(writer).contents(),
            r,
        ),
{
    generate_from_mock_tx(mock_tx, &script_or_index, true, writer)
}

} // verus!
