//! The plain-value transaction model that the constructors work on.
//!
//! A mock transaction carries the transaction hash, the serialized inputs of
//! the transaction body, a table resolving each input to its cell, and the
//! witnesses.  Every payload is raw bytes, exactly as it is hashed.

use crate::cells::co_lock;
use crate::cells::co_valid;
use vstd::prelude::*;

verus! {

/// Mathematical view of a resolved input cell.
pub ghost struct CellModel {
    /// Serialized cell header.
    pub output: Seq<u8>,
    /// Raw cell data.
    pub data: Seq<u8>,
}

/// Mathematical view of one entry of the mock input table.
pub ghost struct MockInputModel {
    pub input: Seq<u8>,
    pub output: Seq<u8>,
    pub data: Seq<u8>,
}

/// Mathematical view of a mock transaction.
pub ghost struct MockTxModel {
    pub tx_hash: Seq<u8>,
    pub inputs: Seq<Seq<u8>>,
    pub entries: Seq<MockInputModel>,
    pub witnesses: Seq<Seq<u8>>,
}

/// The part of a transaction that the message layout reads: the hash, the
/// resolved input cells in transaction order, and the witnesses.
pub ghost struct TxModel {
    pub tx_hash: Seq<u8>,
    pub cells: Seq<CellModel>,
    pub witnesses: Seq<Seq<u8>>,
}

/// A resolved input cell.
pub struct InputCell {
    /// Serialized cell header.
    pub output: Vec<u8>,
    /// Raw cell data.
    pub data: Vec<u8>,
}

impl View for InputCell {
    type V = CellModel;

    open spec fn view(&self) -> CellModel {
        CellModel { output: self.output@, data: self.data@ }
    }
}

/// One entry of the mock input table: a serialized transaction input and the
/// cell it resolves to.
pub struct MockInput {
    /// Serialized transaction input (the out-point reference).
    pub input: Vec<u8>,
    /// Serialized cell header of the referenced cell.
    pub output: Vec<u8>,
    /// Raw data of the referenced cell.
    pub data: Vec<u8>,
}

impl View for MockInput {
    type V = MockInputModel;

    open spec fn view(&self) -> MockInputModel {
        MockInputModel { input: self.input@, output: self.output@, data: self.data@ }
    }
}

/// A fully materialized mock transaction.
pub struct MockTx {
    /// The 32-byte canonical hash of the transaction body.
    pub tx_hash: Vec<u8>,
    /// The serialized inputs of the transaction body, in order.
    pub inputs: Vec<Vec<u8>>,
    /// The table resolving inputs to cells.
    pub mock_inputs: Vec<MockInput>,
    /// The witnesses, indexed from zero.
    pub witnesses: Vec<Vec<u8>>,
}

impl View for MockTx {
    type V = MockTxModel;

    open spec fn view(&self) -> MockTxModel {
        MockTxModel {
            tx_hash: self.tx_hash@,
            inputs: self.inputs.deep_view(),
            entries: self.mock_inputs@.map_values(|e: MockInput| e@),
            witnesses: self.witnesses.deep_view(),
        }
    }
}

/// Selects the script group either by a serialized lock script or by the
/// index of an input whose cell supplies that script.
pub enum ScriptOrIndex {
    Script(Vec<u8>),
    Index(usize),
}

/// Mathematical view of a group specifier.
pub ghost enum ScriptOrIndexModel {
    Script(Seq<u8>),
    Index(int),
}

impl View for ScriptOrIndex {
    type V = ScriptOrIndexModel;

    open spec fn view(&self) -> ScriptOrIndexModel {
        match self {
            ScriptOrIndex::Script(s) => ScriptOrIndexModel::Script(s@),
            ScriptOrIndex::Index(i) => ScriptOrIndexModel::Index(*i as int),
        }
    }
}

/// The first entry of the mock input table whose input equals `key`.
pub open spec fn entry_for(entries: Seq<MockInputModel>, key: Seq<u8>) -> Option<MockInputModel>
    decreases entries.len(),
{
    if entries.len() == 0 {
        None
    } else if entries[0].input == key {
        Some(entries[0])
    } else {
        entry_for(entries.skip(1), key)
    }
}

/// Every input of the transaction body has an entry in the mock input table.
pub open spec fn tx_resolves(m: MockTxModel) -> bool {
    forall|i: int| 0 <= i < m.inputs.len() ==> (#[trigger] entry_for(m.entries, m.inputs[i]))
        is Some
}

/// The cell carried by a mock input table entry.
pub open spec fn cell_of(e: MockInputModel) -> CellModel {
    CellModel { output: e.output, data: e.data }
}

/// The input cells of a resolving mock transaction, in transaction order.
pub open spec fn resolved_cells(m: MockTxModel) -> Seq<CellModel> {
    Seq::new(m.inputs.len(), |i: int| cell_of(entry_for(m.entries, m.inputs[i])->Some_0))
}

/// The transaction view of a resolving mock transaction.
pub open spec fn mock_model(m: MockTxModel) -> TxModel {
    TxModel { tx_hash: m.tx_hash, cells: resolved_cells(m), witnesses: m.witnesses }
}

/// Every cell header of the sequence is well formed.
pub open spec fn cells_parse(cells: Seq<CellModel>) -> bool {
    forall|i: int| 0 <= i < cells.len() ==> co_valid(#[trigger] cells[i].output)
}

/// An index specifier must point at an existing input.
pub open spec fn sel_in_range(cells: Seq<CellModel>, sel: ScriptOrIndexModel) -> bool {
    match sel {
        ScriptOrIndexModel::Script(_) => true,
        ScriptOrIndexModel::Index(k) => 0 <= k < cells.len(),
    }
}

/// The lock script a specifier stands for.
pub open spec fn sel_script(cells: Seq<CellModel>, sel: ScriptOrIndexModel) -> Seq<u8> {
    match sel {
        ScriptOrIndexModel::Script(s) => s,
        ScriptOrIndexModel::Index(k) => co_lock(cells[k].output),
    }
}

/// The ascending list of indices below `n` whose cell carries `script`.
pub open spec fn group_upto(cells: Seq<CellModel>, script: Seq<u8>, n: int) -> Seq<int>
    decreases n,
{
    if n <= 0 {
        Seq::empty()
    } else {
        group_upto(cells, script, n - 1) + if co_lock(cells[n - 1].output) == script {
            seq![n - 1]
        } else {
            Seq::empty()
        }
    }
}

/// The script group of a specifier over a sequence of input cells.
pub open spec fn group_of(cells: Seq<CellModel>, sel: ScriptOrIndexModel) -> Seq<int> {
    group_upto(cells, sel_script(cells, sel), cells.len() as int)
}

/// Group indices are in range and strictly ascending, and they are exactly
/// the indices whose cell carries the script.
pub proof fn lemma_group_upto_props(cells: Seq<CellModel>, script: Seq<u8>, n: int)
    requires
        n <= cells.len(),
    ensures
        ({
            let g = group_upto(cells, script, n);
            &&& forall|j: int| 0 <= j < g.len() ==> 0 <= #[trigger] g[j] < n
            &&& forall|j1: int, j2: int| 0 <= j1 < j2 < g.len() ==> g[j1] < g[j2]
            &&& forall|i: int|
                0 <= i < n ==> (g.contains(i) <==> co_lock(#[trigger] cells[i].output) == script)
        }),
    decreases n,
{
    if n > 0 {
        lemma_group_upto_props(cells, script, n - 1);
        let g0 = group_upto(cells, script, n - 1);
        let g = group_upto(cells, script, n);
        if co_lock(cells[n - 1].output) == script {
            assert forall|i: int| 0 <= i < n implies (g.contains(i) <==> co_lock(
                #[trigger] cells[i].output,
            ) == script) by {
                if i < n - 1 {
                    assert(g.contains(i) <==> g0.contains(i)) by {
                        if g0.contains(i) {
                            let j = choose|j: int| 0 <= j < g0.len() && g0[j] == i;
                            assert(g[j] == i);
                        }
                        if g.contains(i) {
                            let j = choose|j: int| 0 <= j < g.len() && g[j] == i;
                            assert(j < g0.len());
                            assert(g0[j] == i);
                        }
                    }
                } else {
                    assert(g[g.len() - 1] == n - 1);
                }
            }
        } else {
            assert(g =~= g0);
        }
    }
}

} // verus!
