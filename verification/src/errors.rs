//! Error kinds shared by every message constructor.

use vstd::prelude::*;

verus! {

/// Everything that can interrupt a message construction.
///
/// Every error short-circuits the construction; the writer may then hold a
/// partial stream, which the caller must discard.
#[derive(Clone, Copy, Debug, PartialEq, Eq, Structural)]
pub enum CighashAllError {
    /// The mock transaction references an input cell that its own input table
    /// does not resolve, a cell output that is not a well-formed cell header,
    /// or it lacks the first witness of the script group.
    InvalidMockTx,
    /// The script-or-index specifier selects no input at all.
    UnknownScriptGroup,
    /// The first witness of the script group is not a valid witness envelope.
    WitnessFormat,
    /// A payload is longer than a 32-bit length prefix can describe.
    LengthOverflow,
    /// The byte sink rejected a write or a flush.
    Io,
    /// A load primitive failed with an error other than the chunking signal.
    Syscall,
    /// The streaming reader has no first witness for the script group.
    MissingWitness,
}

} // verus!
