//! The off-chain environment for the streaming constructor: a reader that
//! serves a fully materialized mock transaction window by window, with the
//! same two-return-mode semantics as the host's load primitives.

use crate::bytes_util::copy_bytes;
use crate::bytes_util::push_range;
use crate::errors::CighashAllError;
use crate::group::find_script_group;
use crate::group::locate_inputs;
use crate::message::mock_group;
use crate::model::cells_parse;
use crate::model::resolved_cells;
use crate::model::sel_in_range;
use crate::model::tx_resolves;
use crate::model::CellModel;
use crate::model::InputCell;
use crate::model::MockTx;
use crate::model::ScriptOrIndex;
use crate::stream::load_post;
use crate::stream::reader_wf;
use crate::stream::LoadError;
use crate::stream::Source;
use crate::stream::TxReader;
use vstd::prelude::*;
use vstd::slice::slice_index_get;

verus! {

/// Serves a window of `data` starting at `offset` into `buf`, with the
/// two-return-mode convention of the load primitives.
fn fill_window(data: &Vec<u8>, buf: &mut Vec<u8>, offset: usize) -> (r: Result<usize, LoadError>)
    requires
        offset <= data@.len(),
    ensures
        load_post(
            Some(data@),
            true,
            old(buf)@,
            final(buf)@,
            offset as int,
            r,
        ),
{
    let rem = data.len() - offset;
    let blen = buf.len();
    if rem <= blen {
        let mut out: Vec<u8> = Vec::new();
        push_range(&mut out, data, offset, data.len());
        while out.len() < blen
            invariant
                rem <= out@.len() <= blen,
                out@.subrange(0, rem as int) == data@.subrange(offset as int, data@.len() as int),
            decreases blen - out@.len(),
        {
            let ghost prev = out@;
            out.push(0u8);
            proof {
                assert(out@.subrange(0, rem as int) =~= prev.subrange(0, rem as int));
            }
        }
        *buf = out;
        Ok(rem)
    } else {
        let mut out: Vec<u8> = Vec::new();
        push_range(&mut out, data, offset, offset + blen);
        *buf = out;
        Err(LoadError::LengthNotEnough(rem))
    }
}

/// An in-memory reader over a resolved transaction and its script group.
pub struct MockTxReader {
    /// The transaction hash.
    pub hash: Vec<u8>,
    /// The resolved input cells, in transaction order.
    pub input_cells: Vec<InputCell>,
    /// The witnesses, indexed from zero.
    pub witness_data: Vec<Vec<u8>>,
    /// The script group, as ascending input indices.
    pub group_indices: Vec<usize>,
}

impl MockTxReader {
    /// Builds the reader for a mock transaction under a group specifier,
    /// resolving the inputs and locating the group; the result is a
    /// well-formed, failure-free environment serving exactly that
    /// transaction.
    pub fn from_mock_tx(tx: &MockTx, script_or_index: &ScriptOrIndex) -> (r: Result<
        MockTxReader,
        CighashAllError,
    >)
        ensures
            ({
                let rc = resolved_cells(tx@);
                let sel = script_or_index@;
                match r {
                    Ok(rd) => {
                        &&& tx_resolves(tx@)
                        &&& sel_in_range(rc, sel)
                        &&& cells_parse(rc)
                        &&& reader_wf(&rd)
                        &&& rd.reliable()
                        &&& rd.tx_hash() == tx@.tx_hash
                        &&& rd.cells() == rc
                        &&& rd.witnesses() == tx@.witnesses
                        &&& rd.group() == mock_group(tx@, sel)
                        &&& rd.group().len() > 0
                    },
                    Err(e) => {
                        &&& (!tx_resolves(tx@) ==> e == CighashAllError::InvalidMockTx)
                        &&& (tx_resolves(tx@) && !sel_in_range(rc, sel) ==> e
                            == CighashAllError::UnknownScriptGroup)
                        &&& (tx_resolves(tx@) && sel_in_range(rc, sel) && !cells_parse(rc) ==> e
                            == CighashAllError::InvalidMockTx)
                        &&& (tx_resolves(tx@) && sel_in_range(rc, sel) && cells_parse(rc) ==> e
                            == CighashAllError::UnknownScriptGroup && mock_group(tx@, sel).len()
                            == 0)
                        &&& !(tx_resolves(tx@) && sel_in_range(rc, sel) && cells_parse(rc)
                            && mock_group(tx@, sel).len() > 0)
                    },
                }
            }),
    {
        let cells = match locate_inputs(tx) {
            Ok(cells) => cells,
            Err(e) => {
                return Err(e);
            },
        };
        let indices = match find_script_group(&cells, script_or_index) {
            Ok(indices) => indices,
            Err(e) => {
                return Err(e);
            },
        };
        let mut witnesses: Vec<Vec<u8>> = Vec::new();
        let n = tx.witnesses.len();
        let mut i: usize = 0;
        while i < n
            invariant
                i <= n,
                n == tx.witnesses@.len(),
                witnesses@.len() == i,
                forall|k: int| 0 <= k < i ==> (#[trigger] witnesses@[k])@ == tx@.witnesses[k],
            decreases n - i,
        {
            witnesses.push(copy_bytes(slice_index_get(tx.witnesses.as_slice(), i)));
            i = i + 1;
        }
        let reader = MockTxReader {
            hash: copy_bytes(&tx.tx_hash),
            input_cells: cells,
            witness_data: witnesses,
            group_indices: indices,
        };
        let n_cells = reader.input_cells.len();
        let n_group = reader.group_indices.len();
        proof {
            assert(n_cells == reader.cells().len());
            assert(n_group == reader.group().len());
            assert forall|k: int|
                0 <= k < reader.witness_data@.len() implies #[trigger] reader.witnesses()[k]
                == tx@.witnesses[k] by {
                assert(reader.witnesses()[k] =~= reader.witness_data@[k]@);
            }
            assert(reader.witnesses() =~= tx@.witnesses);
            crate::model::lemma_group_upto_props(
                resolved_cells(tx@),
                crate::model::sel_script(resolved_cells(tx@), script_or_index@),
                resolved_cells(tx@).len() as int,
            );
            assert(reader_wf(&reader));
        }
        Ok(reader)
    }
}

impl TxReader for MockTxReader {
    open spec fn tx_hash(&self) -> Seq<u8> {
        self.hash@
    }

    open spec fn cells(&self) -> Seq<CellModel> {
        self.input_cells@.map_values(|c: InputCell| c@)
    }

    open spec fn witnesses(&self) -> Seq<Seq<u8>> {
        self.witness_data.deep_view()
    }

    open spec fn group(&self) -> Seq<int> {
        self.group_indices@.map_values(|u: usize| u as int)
    }

    open spec fn reliable(&self) -> bool {
        true
    }

    fn load_tx_hash(&self) -> (r: Result<Vec<u8>, CighashAllError>) {
        Ok(copy_bytes(&self.hash))
    }

    fn load_cell(&self, buf: &mut Vec<u8>, offset: usize, index: usize, source: Source) -> (r:
        Result<usize, LoadError>) {
        let real_index: usize = match source {
            Source::Input => index,
            Source::GroupInput => {
                if index >= self.group_indices.len() {
                    return Err(LoadError::IndexOutOfBound);
                }
                *slice_index_get(self.group_indices.as_slice(), index)
            },
        };
        if real_index >= self.input_cells.len() {
            return Err(LoadError::IndexOutOfBound);
        }
        let cell = slice_index_get(self.input_cells.as_slice(), real_index);
        proof {
            assert(self.cells()[real_index as int] == cell@);
        }
        fill_window(&cell.output, buf, offset)
    }

    fn load_cell_data(&self, buf: &mut Vec<u8>, offset: usize, index: usize, source: Source) -> (r:
        Result<usize, LoadError>) {
        let real_index: usize = match source {
            Source::Input => index,
            Source::GroupInput => {
                if index >= self.group_indices.len() {
                    return Err(LoadError::IndexOutOfBound);
                }
                *slice_index_get(self.group_indices.as_slice(), index)
            },
        };
        if real_index >= self.input_cells.len() {
            return Err(LoadError::IndexOutOfBound);
        }
        let cell = slice_index_get(self.input_cells.as_slice(), real_index);
        proof {
            assert(self.cells()[real_index as int] == cell@);
        }
        fill_window(&cell.data, buf, offset)
    }

    fn load_witness(&self, buf: &mut Vec<u8>, offset: usize, index: usize, source: Source) -> (r:
        Result<usize, LoadError>) {
        let real_index: usize = match source {
            Source::Input => index,
            Source::GroupInput => {
                if index >= self.group_indices.len() {
                    return Err(LoadError::IndexOutOfBound);
                }
                *slice_index_get(self.group_indices.as_slice(), index)
            },
        };
        if real_index >= self.witness_data.len() {
            return Err(LoadError::IndexOutOfBound);
        }
        let wit = slice_index_get(self.witness_data.as_slice(), real_index);
        proof {
            assert(self.witnesses()[real_index as int] =~= wit@);
        }
        fill_window(wit, buf, offset)
    }
}

/// A reader whose host fails every load: it serves the same transaction
/// view as the reader it wraps, but never delivers a byte.  It exercises
/// the constructors' host-failure path.
pub struct UnreliableReader {
    /// The environment whose transaction view this reader reports.
    pub inner: MockTxReader,
}

impl TxReader for UnreliableReader {
    open spec fn tx_hash(&self) -> Seq<u8> {
        self.inner.tx_hash()
    }

    open spec fn cells(&self) -> Seq<CellModel> {
        self.inner.cells()
    }

    open spec fn witnesses(&self) -> Seq<Seq<u8>> {
        self.inner.witnesses()
    }

    open spec fn group(&self) -> Seq<int> {
        self.inner.group()
    }

    open spec fn reliable(&self) -> bool {
        false
    }

    fn load_tx_hash(&self) -> (r: Result<Vec<u8>, CighashAllError>) {
        Err(CighashAllError::Syscall)
    }

    fn load_cell(&self, buf: &mut Vec<u8>, offset: usize, index: usize, source: Source) -> (r:
        Result<usize, LoadError>) {
        Err(LoadError::Other)
    }

    fn load_cell_data(&self, buf: &mut Vec<u8>, offset: usize, index: usize, source: Source) -> (r:
        Result<usize, LoadError>) {
        Err(LoadError::Other)
    }

    fn load_witness(&self, buf: &mut Vec<u8>, offset: usize, index: usize, source: Source) -> (r:
        Result<usize, LoadError>) {
        Err(LoadError::Other)
    }
}

} // verus!
