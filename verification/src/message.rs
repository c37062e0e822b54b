//! The byte layout of the signing messages, and the constructor that walks a
//! fully materialized mock transaction.
//!
//! Both variants emit, in order: the transaction hash; for every input cell
//! the full cell header, then the length-tagged cell data; the first witness
//! of the script group in three parts (its 16-byte envelope header, then the
//! whole `input_type` and `output_type` fields — the `lock` slot is omitted,
//! because the signature itself occupies it); and the remaining witnesses of
//! the group, length-tagged, in ascending index order.  The
//! `ckb_tx_message_all` variant then also emits, length-tagged and in
//! ascending order, every witness whose index has no matching input cell.

use crate::codec::length_tag;
use crate::codec::taggable;
use crate::errors::CighashAllError;
use crate::group::find_script_group;
use crate::group::locate_inputs;
use crate::model::cells_parse;
use crate::model::group_of;
use crate::model::mock_model;
use crate::model::resolved_cells;
use crate::model::sel_in_range;
use crate::model::tx_resolves;
use crate::model::CellModel;
use crate::model::MockTx;
use crate::model::MockTxModel;
use crate::model::ScriptOrIndex;
use crate::model::ScriptOrIndexModel;
use crate::model::TxModel;
use crate::sink::write_length;
use crate::sink::Sink;
use crate::witness::parse_witness_args;
use crate::witness::wa_input_type;
use crate::witness::wa_output_type;
use crate::witness::wa_valid;
use vstd::prelude::*;
use vstd::slice::slice_index_get;
use vstd::slice::slice_subrange;

verus! {

/// What one input cell contributes: its header, then its length-tagged data.
pub open spec fn cell_entry_bytes(c: CellModel) -> Seq<u8> {
    c.output + length_tag(c.data.len()) + c.data
}

/// What the input cells contribute, in transaction order.
pub open spec fn cells_bytes(cells: Seq<CellModel>) -> Seq<u8>
    decreases cells.len(),
{
    if cells.len() == 0 {
        Seq::empty()
    } else {
        cells_bytes(cells.drop_last()) + cell_entry_bytes(cells.last())
    }
}

/// What one trailing witness contributes: a length tag, then its bytes.
pub open spec fn witness_entry_bytes(w: Seq<u8>) -> Seq<u8> {
    length_tag(w.len()) + w
}

/// What the first witness of the group contributes: its fixed header
/// verbatim and its two type fields; the `lock` field is omitted.
pub open spec fn first_witness_bytes(w: Seq<u8>) -> Seq<u8> {
    w.subrange(0, 16) + wa_input_type(w) + wa_output_type(w)
}

/// What the first `j` group members after the first contribute: the witness
/// of each member that has one, length-tagged, in group order.
pub open spec fn group_tail_bytes(ws: Seq<Seq<u8>>, g: Seq<int>, j: int) -> Seq<u8>
    decreases j,
{
    if j <= 1 {
        Seq::empty()
    } else {
        group_tail_bytes(ws, g, j - 1) + if 0 <= g[j - 1] < ws.len() {
            witness_entry_bytes(ws[g[j - 1]])
        } else {
            Seq::empty()
        }
    }
}

/// What the witnesses with indices in `[lo, hi)` contribute, length-tagged,
/// in ascending index order.
pub open spec fn witness_range_bytes(ws: Seq<Seq<u8>>, lo: int, hi: int) -> Seq<u8>
    decreases hi - lo,
{
    if hi <= lo {
        Seq::empty()
    } else {
        witness_range_bytes(ws, lo, hi - 1) + witness_entry_bytes(ws[hi - 1])
    }
}

/// The message is defined: the group is not empty, its first witness exists,
/// and that witness is a valid envelope.
pub open spec fn msg_defined(t: TxModel, g: Seq<int>) -> bool {
    &&& g.len() > 0
    &&& 0 <= g[0] < t.witnesses.len()
    &&& wa_valid(t.witnesses[g[0]])
}

/// The whole message of either variant but the orphan-witness tail.
pub open spec fn message_core(t: TxModel, g: Seq<int>) -> Seq<u8> {
    t.tx_hash + cells_bytes(t.cells) + first_witness_bytes(t.witnesses[g[0]]) + group_tail_bytes(
        t.witnesses,
        g,
        g.len() as int,
    )
}

/// The signing message of a transaction under a script group; with
/// `orphans` the `ckb_tx_message_all` variant, without it the `cighash_all`
/// variant.
pub open spec fn sigmsg(t: TxModel, g: Seq<int>, orphans: bool) -> Seq<u8> {
    message_core(t, g) + if orphans {
        witness_range_bytes(t.witnesses, t.cells.len() as int, t.witnesses.len() as int)
    } else {
        Seq::empty()
    }
}

/// The `cighash_all` message: no orphan-witness tail.
pub open spec fn cighash_all_bytes(t: TxModel, g: Seq<int>) -> Seq<u8> {
    sigmsg(t, g, false)
}

/// The `ckb_tx_message_all` message: with the orphan-witness tail.
pub open spec fn ckb_tx_message_all_bytes(t: TxModel, g: Seq<int>) -> Seq<u8> {
    sigmsg(t, g, true)
}

/// Every cell's data is short enough for a 32-bit length tag.
pub open spec fn cell_lengths_ok(cells: Seq<CellModel>) -> bool {
    forall|i: int| 0 <= i < cells.len() ==> taggable((#[trigger] cells[i]).data.len())
}

/// Every emitted trailing group witness is short enough for its tag.
pub open spec fn group_tail_lengths_ok(ws: Seq<Seq<u8>>, g: Seq<int>) -> bool {
    forall|j: int|
        1 <= j < g.len() && 0 <= #[trigger] g[j] < ws.len() ==> taggable(ws[g[j]].len())
}

/// Every witness with an index in `[lo, ws.len())` is short enough.
pub open spec fn orphan_lengths_ok(ws: Seq<Seq<u8>>, lo: int) -> bool {
    forall|i: int| lo <= i < ws.len() ==> taggable((#[trigger] ws[i]).len())
}

/// Every length tag the chosen variant emits fits 32 bits.
pub open spec fn lengths_ok(t: TxModel, g: Seq<int>, orphans: bool) -> bool {
    &&& cell_lengths_ok(t.cells)
    &&& group_tail_lengths_ok(t.witnesses, g)
    &&& (orphans ==> orphan_lengths_ok(t.witnesses, t.cells.len() as int))
}

/// The script group of a mock transaction under a specifier.
pub open spec fn mock_group(m: MockTxModel, sel: ScriptOrIndexModel) -> Seq<int> {
    group_of(resolved_cells(m), sel)
}

/// The mock transaction resolves, the specifier selects a nonempty group,
/// and the message of that group is defined.
pub open spec fn mock_wf(m: MockTxModel, sel: ScriptOrIndexModel) -> bool {
    &&& tx_resolves(m)
    &&& sel_in_range(resolved_cells(m), sel)
    &&& cells_parse(resolved_cells(m))
    &&& msg_defined(mock_model(m), mock_group(m, sel))
}

/// Everything a mock-transaction constructor promises: which error comes on
/// which malformed input, with the writer untouched; and, for a well-formed
/// transaction, that the writer received exactly the message bytes, or
/// rejected a write, or a payload was too long for its 32-bit tag.
pub open spec fn generate_post(
    m: MockTxModel,
    sel: ScriptOrIndexModel,
    orphans: bool,
    old_contents: Seq<u8>,
    old_reliable: bool,
    new_contents: Seq<u8>,
    r: Result<(), CighashAllError>,
) -> bool {
    let rc = resolved_cells(m);
    let g = mock_group(m, sel);
    let t = mock_model(m);
    &&& (!tx_resolves(m) ==> r == Err::<(), CighashAllError>(CighashAllError::InvalidMockTx)
        && new_contents == old_contents)
    &&& (tx_resolves(m) && !sel_in_range(rc, sel) ==> r == Err::<(), CighashAllError>(
        CighashAllError::UnknownScriptGroup,
    ) && new_contents == old_contents)
    &&& (tx_resolves(m) && sel_in_range(rc, sel) && !cells_parse(rc) ==> r == Err::<
        (),
        CighashAllError,
    >(CighashAllError::InvalidMockTx) && new_contents == old_contents)
    &&& (tx_resolves(m) && sel_in_range(rc, sel) && cells_parse(rc) && g.len() == 0 ==> r == Err::<
        (),
        CighashAllError,
    >(CighashAllError::UnknownScriptGroup) && new_contents == old_contents)
    &&& (tx_resolves(m) && sel_in_range(rc, sel) && cells_parse(rc) && g.len() > 0 && !(0 <= g[0]
        < m.witnesses.len()) ==> r == Err::<(), CighashAllError>(CighashAllError::InvalidMockTx)
        && new_contents == old_contents)
    &&& (tx_resolves(m) && sel_in_range(rc, sel) && cells_parse(rc) && g.len() > 0 && 0 <= g[0]
        < m.witnesses.len() && !wa_valid(m.witnesses[g[0]]) ==> r == Err::<(), CighashAllError>(
        CighashAllError::WitnessFormat,
    ) && new_contents == old_contents)
    &&& (mock_wf(m, sel) ==> match r {
        Ok(()) => lengths_ok(t, g, orphans) && new_contents == old_contents + sigmsg(
            t,
            g,
            orphans,
        ),
        Err(e) => (e == CighashAllError::Io && !old_reliable) || (e
            == CighashAllError::LengthOverflow && !lengths_ok(t, g, orphans)),
    })
}

/// Streams the chosen message variant of a mock transaction into the writer.
#[verifier::loop_isolation(false)]
pub fn generate_from_mock_tx<S: Sink>(
    tx: &MockTx,
    script_or_index: &ScriptOrIndex,
    include_orphans: bool,
    writer: &mut S,
) -> (r: Result<(), CighashAllError>)
    ensures
        final(writer).reliable() == old(writer).reliable(),
        generate_post(
            tx@,
            script_or_index@,
            include_orphans,
            old(writer).contents(),
            old(writer).reliable(),
            final(writer).contents(),
            r,
        ),
{
    let ghost m = tx@;
    let ghost rc = resolved_cells(m);
    let ghost g = mock_group(m, script_or_index@);
    let ghost t = mock_model(m);
    let ghost ws = m.witnesses;
    let ghost base = writer.contents();

    let cells = match locate_inputs(tx) {
        Ok(cells) => cells,
        Err(e) => {
            return Err(e);
        },
    };
    let indices = match find_script_group(&cells, script_or_index) {
        Ok(indices) => indices,
        Err(e) => {
            return Err(e);
        },
    };
    proof {
        assert(cells@.map_values(|c: crate::model::InputCell| c@) == rc);
        assert(indices@.map_values(|u: usize| u as int) == g);
        assert(g[0] == indices@[0] as int);
    }
    let n_inputs = cells.len();
    let n_witnesses = tx.witnesses.len();

    // The first witness of the group must exist and be a valid envelope.
    let first_index = *slice_index_get(indices.as_slice(), 0);
    if first_index >= n_witnesses {
        return Err(CighashAllError::InvalidMockTx);
    }
    let first_witness = slice_index_get(tx.witnesses.as_slice(), first_index);
    proof {
        assert(first_witness@ =~= ws[first_index as int]);
    }
    let (o1, o2) = match parse_witness_args(first_witness) {
        Ok(pair) => pair,
        Err(_) => {
            return Err(CighashAllError::WitnessFormat);
        },
    };

    // The transaction hash.
    match writer.write(tx.tx_hash.as_slice()) {
        Ok(()) => {},
        Err(e) => {
            return Err(e);
        },
    }
    proof {
        assert(writer.contents() =~= base + t.tx_hash);
        assert(writer.contents() =~= base + t.tx_hash + cells_bytes(rc.take(0)));
        assert(t.cells.len() == cells@.len());
    }

    // The input cells: full header, then length-tagged data.
    let mut i: usize = 0;
    while i < n_inputs
        invariant
            i <= n_inputs,
            n_inputs == cells@.len(),
            rc == cells@.map_values(|c: crate::model::InputCell| c@),
            writer.reliable() == old(writer).reliable(),
            base == old(writer).contents(),
            writer.contents() == base + t.tx_hash + cells_bytes(rc.take(i as int)),
            t == mock_model(tx@),
            t.tx_hash == tx.tx_hash@,
            t.cells == rc,
            forall|k: int| 0 <= k < i ==> taggable((#[trigger] rc[k]).data.len()),
        decreases n_inputs - i,
    {
        let cell = slice_index_get(cells.as_slice(), i);
        let ghost before = writer.contents();
        match writer.write(cell.output.as_slice()) {
            Ok(()) => {},
            Err(e) => {
                return Err(e);
            },
        }
        match write_length(cell.data.len(), writer) {
            Ok(()) => {},
            Err(e) => {
                proof {
                    if e == CighashAllError::LengthOverflow {
                        assert(!taggable(rc[i as int].data.len()));
                        assert(!cell_lengths_ok(rc));
                    }
                }
                return Err(e);
            },
        }
        match writer.write(cell.data.as_slice()) {
            Ok(()) => {},
            Err(e) => {
                return Err(e);
            },
        }
        proof {
            assert(rc[i as int] == cell@);
            assert(writer.contents() =~= before + cell_entry_bytes(rc[i as int]));
            let tk = rc.take(i + 1);
            assert(tk.drop_last() =~= rc.take(i as int));
            assert(tk.last() == rc[i as int]);
            assert(writer.contents() =~= base + t.tx_hash + cells_bytes(rc.take(i + 1)));
        }
        i = i + 1;
    }
    proof {
        assert(rc.take(n_inputs as int) =~= rc);
        assert(cell_lengths_ok(rc));
    }

    // The first witness of the group, in three parts; the lock is omitted.
    let ghost after_cells = base + t.tx_hash + cells_bytes(rc);
    match writer.write(slice_subrange(first_witness.as_slice(), 0, 16)) {
        Ok(()) => {},
        Err(e) => {
            return Err(e);
        },
    }
    match writer.write(slice_subrange(first_witness.as_slice(), o1, o2)) {
        Ok(()) => {},
        Err(e) => {
            return Err(e);
        },
    }
    match writer.write(slice_subrange(first_witness.as_slice(), o2, first_witness.len())) {
        Ok(()) => {},
        Err(e) => {
            return Err(e);
        },
    }
    proof {
        assert(writer.contents() =~= after_cells + first_witness_bytes(ws[g[0]]));
    }

    // The remaining witnesses of the group, length-tagged, ascending.
    let ghost after_first = after_cells + first_witness_bytes(ws[g[0]]);
    let n_group = indices.len();
    let mut j: usize = 1;
    proof {
        assert(writer.contents() =~= after_first + group_tail_bytes(ws, g, 1));
    }
    while j < n_group
        invariant
            1 <= j <= n_group,
            n_group == indices@.len(),
            g == indices@.map_values(|u: usize| u as int),
            n_witnesses == tx.witnesses@.len(),
            ws == tx@.witnesses,
            ws.len() == n_witnesses,
            writer.reliable() == old(writer).reliable(),
            base == old(writer).contents(),
            writer.contents() == after_first + group_tail_bytes(ws, g, j as int),
            forall|k: int|
                1 <= k < j && 0 <= #[trigger] g[k] < ws.len() ==> taggable(ws[g[k]].len()),
        decreases n_group - j,
    {
        let idx = *slice_index_get(indices.as_slice(), j);
        let ghost before = writer.contents();
        if idx < n_witnesses {
            let wit = slice_index_get(tx.witnesses.as_slice(), idx);
            proof {
                assert(wit@ =~= ws[idx as int]);
            }
            match write_length(wit.len(), writer) {
                Ok(()) => {},
                Err(e) => {
                    proof {
                        if e == CighashAllError::LengthOverflow {
                            assert(g[j as int] == idx as int);
                            assert(!taggable(ws[g[j as int]].len()));
                            assert(!group_tail_lengths_ok(ws, g));
                        }
                    }
                    return Err(e);
                },
            }
            match writer.write(wit.as_slice()) {
                Ok(()) => {},
                Err(e) => {
                    return Err(e);
                },
            }
            proof {
                assert(writer.contents() =~= before + witness_entry_bytes(ws[g[j as int]]));
                assert(writer.contents() =~= after_first + group_tail_bytes(ws, g, j + 1));
            }
        } else {
            proof {
                assert(g[j as int] == idx as int);
                assert(writer.contents() =~= after_first + group_tail_bytes(ws, g, j + 1));
            }
        }
        j = j + 1;
    }
    proof {
        assert(group_tail_lengths_ok(ws, g));
        assert(writer.contents() =~= base + message_core(t, g));
    }

    // The witnesses with no matching input cell, for the orphan variant.
    let ghost after_core = base + message_core(t, g);
    if include_orphans {
        let mut k: usize = n_inputs;
        proof {
            assert(witness_range_bytes(ws, n_inputs as int, n_inputs as int) =~= Seq::<
                u8,
            >::empty());
            assert(writer.contents() =~= after_core + witness_range_bytes(
                ws,
                n_inputs as int,
                n_inputs as int,
            ));
        }
        while k < n_witnesses
            invariant
                n_inputs <= k <= n_witnesses || (k == n_inputs && n_inputs >= n_witnesses),
                n_witnesses == tx.witnesses@.len(),
                ws == tx@.witnesses,
                ws.len() == n_witnesses,
                writer.reliable() == old(writer).reliable(),
                base == old(writer).contents(),
                writer.contents() == after_core + witness_range_bytes(
                    ws,
                    n_inputs as int,
                    k as int,
                ),
                forall|q: int| n_inputs <= q < k ==> taggable((#[trigger] ws[q]).len()),
            decreases n_witnesses - k,
        {
            let wit = slice_index_get(tx.witnesses.as_slice(), k);
            proof {
                assert(wit@ =~= ws[k as int]);
            }
            let ghost before = writer.contents();
            match write_length(wit.len(), writer) {
                Ok(()) => {},
                Err(e) => {
                    proof {
                        if e == CighashAllError::LengthOverflow {
                            assert(t.cells.len() == n_inputs);
                            assert(n_inputs <= k < ws.len());
                            assert(!taggable(ws[k as int].len()));
                            assert(!orphan_lengths_ok(ws, t.cells.len() as int));
                        }
                    }
                    return Err(e);
                },
            }
            match writer.write(wit.as_slice()) {
                Ok(()) => {},
                Err(e) => {
                    return Err(e);
                },
            }
            proof {
                assert(writer.contents() =~= before + witness_entry_bytes(ws[k as int]));
                assert(writer.contents() =~= after_core + witness_range_bytes(
                    ws,
                    n_inputs as int,
                    k + 1,
                ));
            }
            k = k + 1;
        }
        proof {
            assert(orphan_lengths_ok(ws, t.cells.len() as int));
        }
    }
    proof {
        assert(writer.contents() =~= base + sigmsg(t, g, include_orphans));
    }

    match writer.flush() {
        Ok(()) => {},
        Err(e) => {
            return Err(e);
        },
    }
    Ok(())
}

} // verus!
