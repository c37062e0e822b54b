//! The quantified properties of the message constructions, stated and
//! proved over the same spec functions that the constructors' contracts use.

use crate::message::cell_entry_bytes;
use crate::message::cells_bytes;
use crate::message::first_witness_bytes;
use crate::message::group_tail_bytes;
use crate::message::lengths_ok;
use crate::message::mock_group;
use crate::message::mock_wf;
use crate::message::msg_defined;
use crate::message::sigmsg;
use crate::message::witness_entry_bytes;
use crate::message::witness_range_bytes;
use crate::model::mock_model;
use crate::model::resolved_cells;
use crate::model::MockTxModel;
use crate::model::ScriptOrIndexModel;
use crate::model::TxModel;
use crate::stream::reader_model;
use crate::stream::TxReader;
use crate::witness::wa_has_lock;
use crate::witness::wa_input_type;
use crate::witness::wa_lock_payload;
use crate::witness::wa_output_type;
use crate::witness::wa_set_lock;
use vstd::prelude::*;

verus! {

/// The group stays among the input cells and is strictly ascending.
pub open spec fn group_wf(t: TxModel, g: Seq<int>) -> bool {
    &&& forall|j: int| 0 <= j < g.len() ==> 0 <= #[trigger] g[j] < t.cells.len()
    &&& forall|j1: int, j2: int| 0 <= j1 < j2 < g.len() ==> g[j1] < g[j2]
}

/// Two unequal byte strings of one length differ at some position.
proof fn seq_diff_index(x: Seq<u8>, y: Seq<u8>) -> (k: int)
    requires
        x.len() == y.len(),
        x != y,
    ensures
        0 <= k < x.len(),
        x[k] != y[k],
{
    if forall|i: int| 0 <= i < x.len() ==> x[i] == y[i] {
        assert(x =~= y);
    }
    choose|i: int| 0 <= i < x.len() && x[i] != y[i]
}

/// Replacing a middle piece by an unequal piece of the same length changes
/// the whole concatenation.
proof fn lemma_concat_mid_diff(pre: Seq<u8>, x: Seq<u8>, y: Seq<u8>, suf: Seq<u8>)
    requires
        x.len() == y.len(),
        x != y,
    ensures
        pre + x + suf != pre + y + suf,
{
    let k = seq_diff_index(x, y);
    assert((pre + x + suf)[pre.len() + k] == x[k]);
    assert((pre + y + suf)[pre.len() + k] == y[k]);
}

/// The cell emission splits around any one cell.
proof fn lemma_cells_bytes_split(cells: Seq<crate::model::CellModel>, j: int)
    requires
        0 <= j < cells.len(),
    ensures
        cells_bytes(cells) == cells_bytes(cells.take(j)) + cell_entry_bytes(cells[j])
            + cells_bytes(cells.skip(j + 1)),
    decreases cells.len(),
{
    if j == cells.len() - 1 {
        assert(cells.take(j) =~= cells.drop_last());
        assert(cells.skip(j + 1) =~= Seq::<crate::model::CellModel>::empty());
        assert(cells_bytes(cells) =~= cells_bytes(cells.take(j)) + cell_entry_bytes(cells[j])
            + cells_bytes(cells.skip(j + 1)));
    } else {
        lemma_cells_bytes_split(cells.drop_last(), j);
        assert(cells.drop_last().take(j) =~= cells.take(j));
        assert(cells.drop_last()[j] == cells[j]);
        assert(cells.drop_last().skip(j + 1) =~= cells.skip(j + 1).drop_last());
        assert(cells.skip(j + 1).len() > 0);
        assert(cells.skip(j + 1).last() == cells.last());
        assert(cells_bytes(cells.skip(j + 1)) == cells_bytes(cells.skip(j + 1).drop_last())
            + cell_entry_bytes(cells.last()));
        assert(cells_bytes(cells) =~= cells_bytes(cells.take(j)) + cell_entry_bytes(cells[j])
            + cells_bytes(cells.skip(j + 1)));
    }
}

/// Input-cell sensitivity: two transactions that agree everywhere except in
/// one input cell — whose header and data keep their lengths but not their
/// bytes — have different messages, whichever variant is built.
pub proof fn lemma_input_cell_sensitivity(
    t1: TxModel,
    t2: TxModel,
    g: Seq<int>,
    orphans: bool,
    j: int,
)
    requires
        t1.tx_hash == t2.tx_hash,
        t1.witnesses == t2.witnesses,
        t1.cells.len() == t2.cells.len(),
        forall|k: int| 0 <= k < t1.cells.len() && k != j ==> t1.cells[k] == t2.cells[k],
        0 <= j < t1.cells.len(),
        t1.cells[j].output.len() == t2.cells[j].output.len(),
        t1.cells[j].data.len() == t2.cells[j].data.len(),
        t1.cells[j] != t2.cells[j],
    ensures
        sigmsg(t1, g, orphans) != sigmsg(t2, g, orphans),
{
    vstd::bytes::lemma_auto_spec_u32_to_from_le_bytes();
    lemma_cells_bytes_split(t1.cells, j);
    lemma_cells_bytes_split(t2.cells, j);
    assert(t1.cells.take(j) =~= t2.cells.take(j));
    assert(t1.cells.skip(j + 1) =~= t2.cells.skip(j + 1));
    let e1 = cell_entry_bytes(t1.cells[j]);
    let e2 = cell_entry_bytes(t2.cells[j]);
    assert(e1.len() == e2.len());
    assert(e1 != e2) by {
        if t1.cells[j].output != t2.cells[j].output {
            let k = seq_diff_index(t1.cells[j].output, t2.cells[j].output);
            assert(e1[k] == t1.cells[j].output[k]);
            assert(e2[k] == t2.cells[j].output[k]);
        } else {
            assert(t1.cells[j].data != t2.cells[j].data) by {
                if t1.cells[j].data == t2.cells[j].data {
                    assert(t1.cells[j] == t2.cells[j]);
                }
            }
            let k = seq_diff_index(t1.cells[j].data, t2.cells[j].data);
            let pos = t1.cells[j].output.len() + 4 + k;
            assert(e1[pos] == t1.cells[j].data[k]);
            assert(e2[pos] == t2.cells[j].data[k]);
        }
    }
    let pre = t1.tx_hash + cells_bytes(t1.cells.take(j));
    let suf1 = cells_bytes(t1.cells.skip(j + 1)) + first_witness_bytes(t1.witnesses[g[0]])
        + group_tail_bytes(t1.witnesses, g, g.len() as int) + if orphans {
        witness_range_bytes(t1.witnesses, t1.cells.len() as int, t1.witnesses.len() as int)
    } else {
        Seq::<u8>::empty()
    };
    lemma_concat_mid_diff(pre, e1, e2, suf1);
    assert(sigmsg(t1, g, orphans) =~= pre + e1 + suf1);
    assert(sigmsg(t2, g, orphans) =~= pre + e2 + suf1);
}

/// Input-cell sensitivity for reshaped cells: when one input cell's header
/// and data change their combined length, the messages differ as well —
/// they no longer even have the same length.
pub proof fn lemma_input_cell_length_sensitivity(
    t1: TxModel,
    t2: TxModel,
    g: Seq<int>,
    orphans: bool,
    j: int,
)
    requires
        t1.tx_hash == t2.tx_hash,
        t1.witnesses == t2.witnesses,
        t1.cells.len() == t2.cells.len(),
        forall|k: int| 0 <= k < t1.cells.len() && k != j ==> t1.cells[k] == t2.cells[k],
        0 <= j < t1.cells.len(),
        t1.cells[j].output.len() + t1.cells[j].data.len() != t2.cells[j].output.len()
            + t2.cells[j].data.len(),
    ensures
        sigmsg(t1, g, orphans) != sigmsg(t2, g, orphans),
{
    vstd::bytes::lemma_auto_spec_u32_to_from_le_bytes();
    lemma_cells_bytes_split(t1.cells, j);
    lemma_cells_bytes_split(t2.cells, j);
    assert(t1.cells.take(j) =~= t2.cells.take(j));
    assert(t1.cells.skip(j + 1) =~= t2.cells.skip(j + 1));
    let e1 = cell_entry_bytes(t1.cells[j]);
    let e2 = cell_entry_bytes(t2.cells[j]);
    assert(e1.len() != e2.len());
    assert(sigmsg(t1, g, orphans).len() != sigmsg(t2, g, orphans).len());
}

/// Appending one witness leaves the group tail alone when every group
/// member's witness index is already in range.
proof fn lemma_group_tail_push(ws: Seq<Seq<u8>>, g: Seq<int>, w: Seq<u8>, j: int)
    requires
        0 <= j <= g.len(),
        forall|k: int| 0 <= k < g.len() ==> 0 <= #[trigger] g[k] < ws.len(),
    ensures
        group_tail_bytes(ws.push(w), g, j) == group_tail_bytes(ws, g, j),
    decreases j,
{
    if j > 1 {
        lemma_group_tail_push(ws, g, w, j - 1);
        assert(ws.push(w)[g[j - 1]] == ws[g[j - 1]]);
        assert(group_tail_bytes(ws.push(w), g, j) =~= group_tail_bytes(ws, g, j));
    }
}

/// An updated witness outside a range leaves that range's emission alone.
proof fn lemma_witness_range_update(ws: Seq<Seq<u8>>, i0: int, w: Seq<u8>, lo: int, hi: int)
    requires
        0 <= i0 < ws.len(),
        hi <= ws.len(),
        i0 < lo,
    ensures
        witness_range_bytes(ws.update(i0, w), lo, hi) == witness_range_bytes(ws, lo, hi),
    decreases hi - lo,
{
    if hi > lo {
        lemma_witness_range_update(ws, i0, w, lo, hi - 1);
        assert(ws.update(i0, w)[hi - 1] == ws[hi - 1]);
        assert(witness_range_bytes(ws.update(i0, w), lo, hi) =~= witness_range_bytes(
            ws,
            lo,
            hi,
        ));
    }
}

/// An updated witness at an index no trailing group member uses leaves the
/// group tail alone.
proof fn lemma_group_tail_update(ws: Seq<Seq<u8>>, g: Seq<int>, i0: int, w: Seq<u8>, j: int)
    requires
        0 <= i0 < ws.len(),
        0 <= j <= g.len(),
        forall|k: int| 1 <= k < g.len() ==> #[trigger] g[k] != i0,
    ensures
        group_tail_bytes(ws.update(i0, w), g, j) == group_tail_bytes(ws, g, j),
    decreases j,
{
    if j > 1 {
        lemma_group_tail_update(ws, g, i0, w, j - 1);
        if 0 <= g[j - 1] < ws.len() {
            assert(ws.update(i0, w)[g[j - 1]] == ws[g[j - 1]]);
        }
        assert(group_tail_bytes(ws.update(i0, w), g, j) =~= group_tail_bytes(ws, g, j));
    }
}

/// A pushed witness extends the tail of a range ending at the old length.
proof fn lemma_witness_range_push(ws: Seq<Seq<u8>>, w: Seq<u8>, lo: int, hi: int)
    requires
        0 <= lo,
        hi <= ws.len(),
    ensures
        witness_range_bytes(ws.push(w), lo, hi) == witness_range_bytes(ws, lo, hi),
    decreases hi - lo,
{
    if hi > lo {
        lemma_witness_range_push(ws, w, lo, hi - 1);
        assert(ws.push(w)[hi - 1] == ws[hi - 1]);
        assert(witness_range_bytes(ws.push(w), lo, hi) =~= witness_range_bytes(ws, lo, hi));
    }
}

/// Witness-append sensitivity, first half: appending a witness at an index
/// at or past the number of input cells leaves the `cighash_all` message
/// unchanged.
pub proof fn lemma_witness_append_cighash_all(t: TxModel, g: Seq<int>, w: Seq<u8>)
    requires
        msg_defined(t, g),
        group_wf(t, g),
        t.witnesses.len() >= t.cells.len(),
    ensures
        ({
            let t2 = TxModel { witnesses: t.witnesses.push(w), ..t };
            &&& msg_defined(t2, g)
            &&& sigmsg(t2, g, false) == sigmsg(t, g, false)
        }),
{
    let t2 = TxModel { witnesses: t.witnesses.push(w), ..t };
    assert forall|k: int| 0 <= k < g.len() implies 0 <= #[trigger] g[k]
        < t.witnesses.len() by {
        assert(g[k] < t.cells.len());
    }
    assert(t2.witnesses[g[0]] == t.witnesses[g[0]]);
    lemma_group_tail_push(t.witnesses, g, w, g.len() as int);
    assert(sigmsg(t2, g, false) =~= sigmsg(t, g, false));
}

/// Witness-append sensitivity, second half: the same appended witness does
/// change the `ckb_tx_message_all` message, whose orphan tail grows by the
/// new length-tagged entry.
pub proof fn lemma_witness_append_tx_message_all(t: TxModel, g: Seq<int>, w: Seq<u8>)
    requires
        msg_defined(t, g),
        group_wf(t, g),
        t.witnesses.len() >= t.cells.len(),
    ensures
        ({
            let t2 = TxModel { witnesses: t.witnesses.push(w), ..t };
            &&& sigmsg(t2, g, true) == sigmsg(t, g, true) + witness_entry_bytes(w)
            &&& sigmsg(t2, g, true) != sigmsg(t, g, true)
        }),
{
    vstd::bytes::lemma_auto_spec_u32_to_from_le_bytes();
    let t2 = TxModel { witnesses: t.witnesses.push(w), ..t };
    assert forall|k: int| 0 <= k < g.len() implies 0 <= #[trigger] g[k]
        < t.witnesses.len() by {
        assert(g[k] < t.cells.len());
    }
    assert(t2.witnesses[g[0]] == t.witnesses[g[0]]);
    lemma_group_tail_push(t.witnesses, g, w, g.len() as int);
    let lo = t.cells.len() as int;
    let hi = t.witnesses.len() as int;
    lemma_witness_range_push(t.witnesses, w, lo, hi);
    assert(t2.witnesses.len() == hi + 1);
    assert(witness_range_bytes(t2.witnesses, lo, hi + 1) == witness_range_bytes(
        t2.witnesses,
        lo,
        hi,
    ) + witness_entry_bytes(t2.witnesses[hi]));
    assert(t2.witnesses[hi] == w);
    assert(sigmsg(t2, g, true) =~= sigmsg(t, g, true) + witness_entry_bytes(w));
    assert(sigmsg(t2, g, true).len() > sigmsg(t, g, true).len()) by {
        assert(witness_entry_bytes(w).len() >= 4);
    }
}

/// First-witness lock neutrality: replacing the `lock` payload of the first
/// group witness by another payload of the same length leaves the message
/// of either variant unchanged.
pub proof fn lemma_lock_neutrality(t: TxModel, g: Seq<int>, orphans: bool, h: Seq<u8>)
    requires
        msg_defined(t, g),
        group_wf(t, g),
        wa_has_lock(t.witnesses[g[0]]),
        h.len() == wa_lock_payload(t.witnesses[g[0]]).len(),
    ensures
        ({
            let w0 = t.witnesses[g[0]];
            let w2 = wa_set_lock(w0, h);
            let t2 = TxModel { witnesses: t.witnesses.update(g[0], w2), ..t };
            &&& crate::witness::set_lock_fits(w0, h)
            &&& msg_defined(t2, g)
            &&& wa_has_lock(w2)
            &&& wa_lock_payload(w2) == h
            &&& w2.len() == w0.len()
            &&& sigmsg(t2, g, orphans) == sigmsg(t, g, orphans)
            &&& lengths_ok(t2, g, orphans) == lengths_ok(t, g, orphans)
        }),
{
    let w0 = t.witnesses[g[0]];
    crate::witness::lemma_set_lock_same_length(w0, h);
    crate::witness::lemma_set_lock_props(w0, h);
    let w2 = wa_set_lock(w0, h);
    let t2 = TxModel { witnesses: t.witnesses.update(g[0], w2), ..t };
    assert(t2.witnesses[g[0]] == w2);
    assert(first_witness_bytes(w2) =~= first_witness_bytes(w0)) by {
        assert(w2.subrange(0, 16) == w0.subrange(0, 16));
        assert(wa_input_type(w2) == wa_input_type(w0));
        assert(wa_output_type(w2) == wa_output_type(w0));
    }
    assert forall|k: int| 1 <= k < g.len() implies #[trigger] g[k] != g[0] by {
        assert(g[0] < g[k]);
    }
    lemma_group_tail_update(t.witnesses, g, g[0], w2, g.len() as int);
    if orphans {
        lemma_witness_range_update(
            t.witnesses,
            g[0],
            w2,
            t.cells.len() as int,
            t.witnesses.len() as int,
        );
    }
    assert(sigmsg(t2, g, orphans) =~= sigmsg(t, g, orphans));
    assert(lengths_ok(t2, g, orphans) == lengths_ok(t, g, orphans)) by {
        assert forall|j: int|
            1 <= j < g.len() && 0 <= #[trigger] g[j] < t2.witnesses.len() implies t2.witnesses[g[j]]
            == t.witnesses[g[j]] by {
            assert(g[j] != g[0]);
        }
        assert forall|i: int|
            t.cells.len() <= i < t2.witnesses.len() implies t2.witnesses[i]
            == t.witnesses[i] by {
            assert(g[0] < t.cells.len());
        }
    }
}

/// Round trip: signing — writing the digest of the message into the first
/// group witness's 32-byte `lock` placeholder — changes neither the group
/// nor the message, and leaves the digest as the new lock payload; the
/// assertion wrapper therefore accepts the signed transaction.
pub proof fn lemma_round_trip(m: MockTxModel, sel: ScriptOrIndexModel, orphans: bool, h: Seq<u8>)
    requires
        mock_wf(m, sel),
        lengths_ok(mock_model(m), mock_group(m, sel), orphans),
        wa_has_lock(m.witnesses[mock_group(m, sel)[0]]),
        h.len() == wa_lock_payload(m.witnesses[mock_group(m, sel)[0]]).len(),
    ensures
        ({
            let g = mock_group(m, sel);
            let w2 = wa_set_lock(m.witnesses[g[0]], h);
            let m2 = MockTxModel { witnesses: m.witnesses.update(g[0], w2), ..m };
            &&& resolved_cells(m2) == resolved_cells(m)
            &&& mock_group(m2, sel) == mock_group(m, sel)
            &&& mock_wf(m2, sel)
            &&& lengths_ok(mock_model(m2), g, orphans)
            &&& wa_has_lock(m2.witnesses[g[0]])
            &&& wa_lock_payload(m2.witnesses[g[0]]) == h
            &&& sigmsg(mock_model(m2), g, orphans) == sigmsg(mock_model(m), g, orphans)
        }),
{
    let g = mock_group(m, sel);
    let t = mock_model(m);
    let w2 = wa_set_lock(m.witnesses[g[0]], h);
    let m2 = MockTxModel { witnesses: m.witnesses.update(g[0], w2), ..m };
    assert(resolved_cells(m2) =~= resolved_cells(m));
    assert(mock_group(m2, sel) == mock_group(m, sel));
    crate::model::lemma_group_upto_props(
        resolved_cells(m),
        crate::model::sel_script(resolved_cells(m), sel),
        resolved_cells(m).len() as int,
    );
    assert(group_wf(t, g));
    lemma_lock_neutrality(t, g, orphans, h);
    let t2 = TxModel { witnesses: t.witnesses.update(g[0], w2), ..t };
    assert(mock_model(m2) =~= t2);
}

/// Determinism: the message is a pure function of the transaction view and
/// the script group; equal views give equal bytes, whichever environment
/// computed them.
pub proof fn lemma_deterministic(t1: TxModel, t2: TxModel, g1: Seq<int>, g2: Seq<int>, orphans: bool)
    requires
        t1 == t2,
        g1 == g2,
    ensures
        sigmsg(t1, g1, orphans) == sigmsg(t2, g2, orphans),
{
}

/// Environment agreement: a streaming reader that serves exactly the view
/// of a mock transaction emits, by its constructor's contract, the very
/// bytes the mock constructor emits — both contracts name one spec
/// function of the shared view.
pub proof fn lemma_environment_agreement<R: TxReader>(
    r: &R,
    m: MockTxModel,
    sel: ScriptOrIndexModel,
    orphans: bool,
)
    requires
        r.tx_hash() == m.tx_hash,
        r.cells() == resolved_cells(m),
        r.witnesses() == m.witnesses,
        r.group() == mock_group(m, sel),
    ensures
        sigmsg(reader_model(r), r.group(), orphans) == sigmsg(
            mock_model(m),
            mock_group(m, sel),
            orphans,
        ),
{
    assert(reader_model(r) =~= mock_model(m));
}

} // verus!
