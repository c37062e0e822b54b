//! Computing a message or its digest in memory, and signing: writing the
//! digest into the `lock` slot of the first witness of the group.

use crate::bytes_util::copy_bytes;
use crate::digest::blake2b_of;
use crate::digest::Hasher;
use crate::errors::CighashAllError;
use crate::group::find_script_group;
use crate::group::locate_inputs;
use crate::message::generate_from_mock_tx;
use crate::message::lengths_ok;
use crate::message::mock_group;
use crate::message::mock_wf;
use crate::message::sigmsg;
use crate::model::cells_parse;
use crate::model::mock_model;
use crate::model::resolved_cells;
use crate::model::sel_in_range;
use crate::model::tx_resolves;
use crate::model::MockInput;
use crate::model::MockTx;
use crate::model::MockTxModel;
use crate::model::ScriptOrIndex;
use crate::model::ScriptOrIndexModel;
use crate::sink::VecSink;
use crate::witness::replace_lock;
use crate::witness::set_lock_fits;
use crate::witness::wa_set_lock;
use crate::witness::wa_valid;
use vstd::prelude::*;
use vstd::slice::slice_index_get;

verus! {

/// Which error a failed in-memory construction reports, for which cause.
pub open spec fn compute_err(
    m: MockTxModel,
    sel: ScriptOrIndexModel,
    orphans: bool,
    e: CighashAllError,
) -> bool {
    let rc = resolved_cells(m);
    let g = mock_group(m, sel);
    let t = mock_model(m);
    &&& (!tx_resolves(m) ==> e == CighashAllError::InvalidMockTx)
    &&& (tx_resolves(m) && !sel_in_range(rc, sel) ==> e == CighashAllError::UnknownScriptGroup)
    &&& (tx_resolves(m) && sel_in_range(rc, sel) && !cells_parse(rc) ==> e
        == CighashAllError::InvalidMockTx)
    &&& (tx_resolves(m) && sel_in_range(rc, sel) && cells_parse(rc) && g.len() == 0 ==> e
        == CighashAllError::UnknownScriptGroup)
    &&& (tx_resolves(m) && sel_in_range(rc, sel) && cells_parse(rc) && g.len() > 0 && !(0 <= g[0]
        < m.witnesses.len()) ==> e == CighashAllError::InvalidMockTx)
    &&& (tx_resolves(m) && sel_in_range(rc, sel) && cells_parse(rc) && g.len() > 0 && 0 <= g[0]
        < m.witnesses.len() && !wa_valid(m.witnesses[g[0]]) ==> e
        == CighashAllError::WitnessFormat)
    &&& (mock_wf(m, sel) ==> e == CighashAllError::LengthOverflow && !lengths_ok(t, g, orphans))
    &&& !(mock_wf(m, sel) && lengths_ok(t, g, orphans))
}

/// Computes the chosen message variant of a mock transaction into memory.
pub fn compute_message(tx: &MockTx, script_or_index: &ScriptOrIndex, include_orphans: bool) -> (r:
    Result<Vec<u8>, CighashAllError>)
    ensures
        match r {
            Ok(v) => {
                &&& mock_wf(tx@, script_or_index@)
                &&& lengths_ok(
                    mock_model(tx@),
                    mock_group(tx@, script_or_index@),
                    include_orphans,
                )
                &&& v@ == sigmsg(
                    mock_model(tx@),
                    mock_group(tx@, script_or_index@),
                    include_orphans,
                )
            },
            Err(e) => compute_err(tx@, script_or_index@, include_orphans, e),
        },
{
    let mut sink = VecSink::new();
    match generate_from_mock_tx(tx, script_or_index, include_orphans, &mut sink) {
        Ok(()) => Ok(sink.into_vec()),
        Err(e) => Err(e),
    }
}

/// Computes the 32-byte digest of the chosen message variant.
pub fn compute_digest(tx: &MockTx, script_or_index: &ScriptOrIndex, include_orphans: bool) -> (r:
    Result<[u8; 32], CighashAllError>)
    ensures
        match r {
            Ok(d) => {
                &&& mock_wf(tx@, script_or_index@)
                &&& lengths_ok(
                    mock_model(tx@),
                    mock_group(tx@, script_or_index@),
                    include_orphans,
                )
                &&& d@ == blake2b_of(
                    sigmsg(mock_model(tx@), mock_group(tx@, script_or_index@), include_orphans),
                )
            },
            Err(e) => compute_err(tx@, script_or_index@, include_orphans, e),
        },
{
    let mut hasher = Hasher::new();
    match generate_from_mock_tx(tx, script_or_index, include_orphans, &mut hasher) {
        Ok(()) => Ok(hasher.hash()),
        Err(e) => Err(e),
    }
}

/// A fresh copy of a table of byte strings.
fn copy_byte_table(src: &Vec<Vec<u8>>) -> (v: Vec<Vec<u8>>)
    ensures
        v.deep_view() == src.deep_view(),
{
    let n = src.len();
    let mut v: Vec<Vec<u8>> = Vec::new();
    let mut i: usize = 0;
    while i < n
        invariant
            i <= n,
            n == src@.len(),
            v@.len() == i,
            forall|k: int| 0 <= k < i ==> (#[trigger] v@[k])@ == src@[k]@,
        decreases n - i,
    {
        v.push(copy_bytes(slice_index_get(src.as_slice(), i)));
        i = i + 1;
    }
    proof {
        assert forall|k: int| 0 <= k < n implies #[trigger] v.deep_view()[k]
            == src.deep_view()[k] by {
            assert(v.deep_view()[k] =~= v@[k]@);
            assert(src.deep_view()[k] =~= src@[k]@);
        }
        assert(v.deep_view() =~= src.deep_view());
    }
    v
}

/// A fresh copy of the mock input table.
fn copy_mock_inputs(src: &Vec<MockInput>) -> (v: Vec<MockInput>)
    ensures
        v@.map_values(|e: MockInput| e@) == src@.map_values(|e: MockInput| e@),
{
    let n = src.len();
    let mut v: Vec<MockInput> = Vec::new();
    let mut i: usize = 0;
    while i < n
        invariant
            i <= n,
            n == src@.len(),
            v@.len() == i,
            forall|k: int| 0 <= k < i ==> (#[trigger] v@[k])@ == src@[k]@,
        decreases n - i,
    {
        let entry = slice_index_get(src.as_slice(), i);
        v.push(
            MockInput {
                input: copy_bytes(&entry.input),
                output: copy_bytes(&entry.output),
                data: copy_bytes(&entry.data),
            },
        );
        i = i + 1;
    }
    proof {
        assert(v@.map_values(|e: MockInput| e@) =~= src@.map_values(|e: MockInput| e@));
    }
    v
}

/// Signs a mock transaction for a script group: computes the message digest
/// and writes it into the `lock` slot of the first witness of the group,
/// leaving everything else unchanged.
pub fn sign_tx(tx: &MockTx, script_or_index: &ScriptOrIndex, include_orphans: bool) -> (r: Result<
    MockTx,
    CighashAllError,
>)
    ensures
        ({
            let m = tx@;
            let sel = script_or_index@;
            let g = mock_group(m, sel);
            let t = mock_model(m);
            let h = blake2b_of(sigmsg(t, g, include_orphans));
            match r {
                Ok(t2) => {
                    &&& mock_wf(m, sel)
                    &&& lengths_ok(t, g, include_orphans)
                    &&& set_lock_fits(m.witnesses[g[0]], h)
                    &&& t2@.tx_hash == m.tx_hash
                    &&& t2@.inputs == m.inputs
                    &&& t2@.entries == m.entries
                    &&& t2@.witnesses == m.witnesses.update(
                        g[0],
                        wa_set_lock(m.witnesses[g[0]], h),
                    )
                },
                Err(e) => compute_err(m, sel, include_orphans, e) || (mock_wf(m, sel)
                    && lengths_ok(t, g, include_orphans) && e == CighashAllError::LengthOverflow
                    && !set_lock_fits(m.witnesses[g[0]], h)),
            }
        }),
{
    let digest = match compute_digest(tx, script_or_index, include_orphans) {
        Ok(d) => d,
        Err(e) => {
            return Err(e);
        },
    };
    let cells = match locate_inputs(tx) {
        Ok(cells) => cells,
        Err(_) => {
            proof {
                assert(false);
            }
            return Err(CighashAllError::InvalidMockTx);
        },
    };
    let indices = match find_script_group(&cells, script_or_index) {
        Ok(indices) => indices,
        Err(_) => {
            proof {
                assert(false);
            }
            return Err(CighashAllError::UnknownScriptGroup);
        },
    };
    let first_index = *slice_index_get(indices.as_slice(), 0);
    proof {
        assert(first_index as int == mock_group(tx@, script_or_index@)[0]);
        assert(first_index < tx.witnesses@.len());
    }
    let first_witness = slice_index_get(tx.witnesses.as_slice(), first_index);
    proof {
        assert(first_witness@ =~= tx@.witnesses[first_index as int]);
    }
    let digest_vec = vstd::slice::slice_to_vec(digest.as_slice());
    let new_witness = match replace_lock(first_witness, &digest_vec) {
        Ok(w) => w,
        Err(e) => {
            proof {
                assert(e == CighashAllError::LengthOverflow);
            }
            return Err(e);
        },
    };

    // Rebuild the transaction with the one witness replaced.
    let n = tx.witnesses.len();
    let mut witnesses: Vec<Vec<u8>> = Vec::new();
    let mut i: usize = 0;
    while i < n
        invariant
            i <= n,
            n == tx.witnesses@.len(),
            witnesses@.len() == i,
            forall|k: int|
                0 <= k < i && k != first_index ==> (#[trigger] witnesses@[k])@
                    == tx@.witnesses[k],
            first_index < i ==> witnesses@[first_index as int]@ == new_witness@,
            new_witness@ == wa_set_lock(
                tx@.witnesses[mock_group(tx@, script_or_index@)[0]],
                blake2b_of(
                    sigmsg(mock_model(tx@), mock_group(tx@, script_or_index@), include_orphans),
                ),
            ),
        decreases n - i,
    {
        if i == first_index {
            witnesses.push(copy_bytes(&new_witness));
        } else {
            witnesses.push(copy_bytes(slice_index_get(tx.witnesses.as_slice(), i)));
        }
        i = i + 1;
    }
    let signed = MockTx {
        tx_hash: copy_bytes(&tx.tx_hash),
        inputs: copy_byte_table(&tx.inputs),
        mock_inputs: copy_mock_inputs(&tx.mock_inputs),
        witnesses,
    };
    proof {
        let m = tx@;
        let g = mock_group(m, script_or_index@);
        let h = blake2b_of(sigmsg(mock_model(m), g, include_orphans));
        assert forall|k: int| 0 <= k < n implies #[trigger] signed@.witnesses[k]
            == m.witnesses.update(g[0], wa_set_lock(m.witnesses[g[0]], h))[k] by {
            assert(signed@.witnesses[k] =~= signed.witnesses@[k]@);
        }
        assert(signed@.witnesses =~= m.witnesses.update(g[0], wa_set_lock(m.witnesses[g[0]], h)));
    }
    Ok(signed)
}

} // verus!
