//! Input resolution and script-group location for the off-chain path.

use crate::bytes_util::bytes_eq;
use crate::cells::co_lock;
use crate::errors::CighashAllError;
use crate::model::cell_of;
use crate::model::cells_parse;
use crate::model::entry_for;
use crate::model::group_of;
use crate::model::group_upto;
use crate::model::resolved_cells;
use crate::model::sel_in_range;
use crate::model::sel_script;
use crate::model::tx_resolves;
use crate::model::InputCell;
use crate::model::MockInput;
use crate::model::MockInputModel;
use crate::model::MockTx;
use crate::model::ScriptOrIndex;
use vstd::prelude::*;
use vstd::slice::slice_index_get;

verus! {

/// Scanning past a prefix without a match leaves the chosen entry unchanged.
proof fn lemma_entry_for_skip(entries: Seq<MockInputModel>, key: Seq<u8>, j: int)
    requires
        0 <= j <= entries.len(),
        forall|k: int| 0 <= k < j ==> (#[trigger] entries[k].input) != key,
    ensures
        entry_for(entries, key) == entry_for(entries.skip(j), key),
    decreases j,
{
    if j > 0 {
        lemma_entry_for_skip(entries.skip(1), key, j - 1);
        assert(entries.skip(1).skip(j - 1) =~= entries.skip(j));
    } else {
        assert(entries.skip(0) =~= entries);
    }
}

/// Finds the first entry of the mock input table whose input equals `key`.
fn find_entry(mock_inputs: &Vec<MockInput>, key: &Vec<u8>) -> (r: Option<InputCell>)
    ensures
        ({
            let entries = mock_inputs@.map_values(|e: MockInput| e@);
            match r {
                Some(cell) => entry_for(entries, key@) matches Some(e) && cell@ == cell_of(e),
                None => entry_for(entries, key@) is None,
            }
        }),
{
    let ghost entries = mock_inputs@.map_values(|e: MockInput| e@);
    let n = mock_inputs.len();
    let mut j: usize = 0;
    while j < n
        invariant
            j <= n,
            n == mock_inputs@.len(),
            entries == mock_inputs@.map_values(|e: MockInput| e@),
            forall|k: int| 0 <= k < j ==> (#[trigger] entries[k].input) != key@,
        decreases n - j,
    {
        let entry = slice_index_get(mock_inputs.as_slice(), j);
        if bytes_eq(entry.input.as_slice(), key.as_slice()) {
            proof {
                lemma_entry_for_skip(entries, key@, j as int);
                assert(entries.skip(j as int)[0] == entries[j as int]);
            }
            return Some(
                InputCell {
                    output: crate::bytes_util::copy_bytes(&entry.output),
                    data: crate::bytes_util::copy_bytes(&entry.data),
                },
            );
        }
        j = j + 1;
    }
    proof {
        lemma_entry_for_skip(entries, key@, n as int);
        assert(entries.skip(n as int) =~= Seq::<MockInputModel>::empty());
    }
    None
}

/// Resolves every input of the transaction body to its cell, in transaction
/// order, or fails when the mock input table lacks an entry.
pub fn locate_inputs(tx: &MockTx) -> (r: Result<Vec<InputCell>, CighashAllError>)
    ensures
        match r {
            Ok(cells) => {
                &&& tx_resolves(tx@)
                &&& cells@.map_values(|c: InputCell| c@) == resolved_cells(tx@)
            },
            Err(e) => e == CighashAllError::InvalidMockTx && !tx_resolves(tx@),
        },
{
    let n = tx.inputs.len();
    let mut result: Vec<InputCell> = Vec::new();
    let mut i: usize = 0;
    while i < n
        invariant
            i <= n,
            n == tx.inputs@.len(),
            tx@.inputs.len() == n,
            result@.len() == i,
            forall|k: int|
                0 <= k < i ==> (#[trigger] entry_for(tx@.entries, tx@.inputs[k])) is Some,
            forall|k: int|
                0 <= k < i ==> (#[trigger] result@[k]@) == cell_of(
                    entry_for(tx@.entries, tx@.inputs[k])->Some_0,
                ),
        decreases n - i,
    {
        let key = slice_index_get(tx.inputs.as_slice(), i);
        proof {
            assert(tx@.inputs[i as int] =~= tx.inputs@[i as int]@);
        }
        match find_entry(&tx.mock_inputs, key) {
            Some(cell) => {
                result.push(cell);
            },
            None => {
                return Err(CighashAllError::InvalidMockTx);
            },
        }
        i = i + 1;
    }
    proof {
        assert(result@.map_values(|c: InputCell| c@) =~= resolved_cells(tx@));
    }
    Ok(result)
}

/// Resolves a specifier to the ascending list of input indices whose cell
/// carries the same lock script.
pub fn find_script_group(cells: &Vec<InputCell>, script_or_index: &ScriptOrIndex) -> (r: Result<
    Vec<usize>,
    CighashAllError,
>)
    ensures
        ({
            let cs = cells@.map_values(|c: InputCell| c@);
            match r {
                Ok(g) => {
                    &&& sel_in_range(cs, script_or_index@)
                    &&& cells_parse(cs)
                    &&& g@.map_values(|u: usize| u as int) == group_of(cs, script_or_index@)
                    &&& g@.len() > 0
                },
                Err(e) => {
                    &&& !sel_in_range(cs, script_or_index@) ==> e
                        == CighashAllError::UnknownScriptGroup
                    &&& sel_in_range(cs, script_or_index@) && !cells_parse(cs) ==> e
                        == CighashAllError::InvalidMockTx
                    &&& sel_in_range(cs, script_or_index@) && cells_parse(cs) ==> e
                        == CighashAllError::UnknownScriptGroup && group_of(
                        cs,
                        script_or_index@,
                    ).len() == 0
                    &&& !(sel_in_range(cs, script_or_index@) && cells_parse(cs) && group_of(
                        cs,
                        script_or_index@,
                    ).len() > 0)
                },
            }
        }),
{
    let ghost cs = cells@.map_values(|c: InputCell| c@);
    let n = cells.len();
    // Check the index specifier and every cell header up front.
    let mut i: usize = 0;
    while i < n
        invariant
            i <= n,
            n == cells@.len(),
            cs == cells@.map_values(|c: InputCell| c@),
            forall|k: int| 0 <= k < i ==> crate::cells::co_valid(#[trigger] cs[k].output),
        decreases n - i,
    {
        let cell = slice_index_get(cells.as_slice(), i);
        if crate::cells::cell_lock_bounds(&cell.output).is_none() {
            proof {
                assert(cs[i as int] == cells@[i as int]@);
                assert(!crate::cells::co_valid(cs[i as int].output));
                assert(!cells_parse(cs));
            }
            match script_or_index {
                ScriptOrIndex::Script(_) => {
                    return Err(CighashAllError::InvalidMockTx);
                },
                ScriptOrIndex::Index(k) => {
                    if *k < n {
                        return Err(CighashAllError::InvalidMockTx);
                    } else {
                        return Err(CighashAllError::UnknownScriptGroup);
                    }
                },
            }
        }
        i = i + 1;
    }
    proof {
        assert(cells_parse(cs));
    }
    // Derive the script the specifier stands for.
    let script: Vec<u8> = match script_or_index {
        ScriptOrIndex::Script(s) => crate::bytes_util::copy_bytes(s),
        ScriptOrIndex::Index(k) => {
            if *k >= n {
                return Err(CighashAllError::UnknownScriptGroup);
            }
            let cell = slice_index_get(cells.as_slice(), *k);
            proof {
                assert(cs[*k as int] == cells@[*k as int]@);
                assert(crate::cells::co_valid(cs[*k as int].output));
            }
            let bounds = crate::cells::cell_lock_bounds(&cell.output);
            match bounds {
                Some((start, end)) => {
                    let mut lock: Vec<u8> = Vec::new();
                    crate::bytes_util::push_range(&mut lock, &cell.output, start, end);
                    proof {
                        assert(lock@ =~= co_lock(cs[*k as int].output));
                    }
                    lock
                },
                None => {
                    proof {
                        assert(false);
                    }
                    return Err(CighashAllError::InvalidMockTx);
                },
            }
        },
    };
    proof {
        assert(script@ == sel_script(cs, script_or_index@));
    }
    // Collect the group members in ascending order.
    let mut indices: Vec<usize> = Vec::new();
    let mut i: usize = 0;
    while i < n
        invariant
            i <= n,
            n == cells@.len(),
            cs == cells@.map_values(|c: InputCell| c@),
            cells_parse(cs),
            script@ == sel_script(cs, script_or_index@),
            indices@.map_values(|u: usize| u as int) == group_upto(cs, script@, i as int),
        decreases n - i,
    {
        let cell = slice_index_get(cells.as_slice(), i);
        proof {
            assert(cs[i as int] == cells@[i as int]@);
            assert(crate::cells::co_valid(cs[i as int].output));
        }
        let bounds = crate::cells::cell_lock_bounds(&cell.output);
        let ghost prev = indices@;
        match bounds {
            Some((start, end)) => {
                let member = crate::bytes_util::bytes_eq(
                    vstd::slice::slice_subrange(cell.output.as_slice(), start, end),
                    script.as_slice(),
                );
                if member {
                    indices.push(i);
                }
                proof {
                    if member {
                        assert(indices@.map_values(|u: usize| u as int) =~= prev.map_values(
                            |u: usize| u as int,
                        ).push(i as int));
                        assert(group_upto(cs, script@, i + 1) =~= group_upto(
                            cs,
                            script@,
                            i as int,
                        ).push(i as int));
                    } else {
                        assert(group_upto(cs, script@, i + 1) =~= group_upto(
                            cs,
                            script@,
                            i as int,
                        ));
                    }
                }
            },
            None => {
                proof {
                    assert(false);
                }
                return Err(CighashAllError::InvalidMockTx);
            },
        }
        i = i + 1;
    }
    if indices.len() == 0 {
        return Err(CighashAllError::UnknownScriptGroup);
    }
    Ok(indices)
}

} // verus!
