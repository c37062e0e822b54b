//! The `cighash_all` constructor over a fully materialized mock
//! transaction.

use crate::errors::CighashAllError;
use crate::message::generate_from_mock_tx;
use crate::message::generate_post;
use crate::model::MockTx;
use crate::model::ScriptOrIndex;
use crate::sink::Sink;
use vstd::prelude::*;

verus! {

/// Streams the `cighash_all` message of a mock transaction under a script
/// group into the writer: the transaction hash, every input cell with
/// length-tagged data, the first group witness with its lock slot omitted,
/// and the remaining group witnesses, length-tagged and ascending.
pub fn generate_cighash_all<S: Sink>(
    mock_tx: &MockTx,
    script_or_index: ScriptOrIndex,
    writer: &mut S,
) -> (r: Result<(), CighashAllError>)
    ensures
        final(writer).reliable() == old(writer).reliable(),
        generate_post(
            mock_tx@,
            script_or_index@,
            false,
            old(writer).contents(),
            old(writer).reliable(),
            final(writer).contents(),
            r,
        ),
{
    generate_from_mock_tx(mock_tx, &script_or_index, false, writer)
}

} // verus!
