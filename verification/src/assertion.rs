//! The assertion wrapper: recompute the digest, compare it against the
//! `lock` payload of the first witness of the group, and turn the outcome
//! into an exit code.

use crate::bytes_util::bytes_eq;
use crate::digest::blake2b_of;
use crate::group::find_script_group;
use crate::group::locate_inputs;
use crate::message::lengths_ok;
use crate::message::mock_group;
use crate::message::mock_wf;
use crate::message::sigmsg;
use crate::model::mock_model;
use crate::model::MockTx;
use crate::model::ScriptOrIndex;
use crate::signer::compute_digest;
use crate::witness::parse_witness_args;
use crate::witness::wa_has_lock;
use crate::witness::wa_lock_payload;
use vstd::prelude::*;
use vstd::slice::slice_index_get;
use vstd::slice::slice_subrange;

verus! {

/// Construction failed: the transaction is malformed or a payload is too
/// long for its length tag.
pub const EXIT_CONSTRUCTION_ERROR: i8 = 99;

/// The `lock` payload is absent or differs from the recomputed digest; it
/// stands for the virtual machine's nonzero exit on a failed assertion.
pub const EXIT_ASSERTION_FAILED: i8 = 1;

/// Recomputes the digest of the chosen message variant and compares it
/// byte for byte against the `lock` payload of the first witness of the
/// group: `0` exactly when they agree, `99` when the construction fails,
/// and a nonzero assertion code when the lock is absent or differs.
pub fn run_assertion(tx: &MockTx, script_or_index: &ScriptOrIndex, include_orphans: bool) -> (code:
    i8)
    ensures
        ({
            let m = tx@;
            let sel = script_or_index@;
            let g = mock_group(m, sel);
            let t = mock_model(m);
            if !(mock_wf(m, sel) && lengths_ok(t, g, include_orphans)) {
                code == EXIT_CONSTRUCTION_ERROR
            } else {
                let w0 = m.witnesses[g[0]];
                let h = blake2b_of(sigmsg(t, g, include_orphans));
                if wa_has_lock(w0) && wa_lock_payload(w0) == h {
                    code == 0
                } else {
                    code == EXIT_ASSERTION_FAILED
                }
            }
        }),
{
    let digest = match compute_digest(tx, script_or_index, include_orphans) {
        Ok(d) => d,
        Err(_) => {
            return EXIT_CONSTRUCTION_ERROR;
        },
    };
    let cells = match locate_inputs(tx) {
        Ok(cells) => cells,
        Err(_) => {
            proof {
                assert(false);
            }
            return EXIT_CONSTRUCTION_ERROR;
        },
    };
    let indices = match find_script_group(&cells, script_or_index) {
        Ok(indices) => indices,
        Err(_) => {
            proof {
                assert(false);
            }
            return EXIT_CONSTRUCTION_ERROR;
        },
    };
    let first_index = *slice_index_get(indices.as_slice(), 0);
    proof {
        assert(first_index as int == mock_group(tx@, script_or_index@)[0]);
        assert(first_index < tx.witnesses@.len());
    }
    let first_witness = slice_index_get(tx.witnesses.as_slice(), first_index);
    proof {
        assert(first_witness@ =~= tx@.witnesses[first_index as int]);
    }
    let (o1, _o2) = match parse_witness_args(first_witness) {
        Ok(pair) => pair,
        Err(_) => {
            proof {
                assert(false);
            }
            return EXIT_CONSTRUCTION_ERROR;
        },
    };
    if o1 == 16 {
        // The lock field is absent.
        proof {
            assert(!wa_has_lock(first_witness@));
        }
        return EXIT_ASSERTION_FAILED;
    }
    proof {
        assert(wa_has_lock(first_witness@));
        assert(crate::witness::valid_bytes_field(crate::witness::wa_lock(first_witness@)));
        assert(o1 >= 20);
        assert(wa_lock_payload(first_witness@) =~= first_witness@.subrange(20, o1 as int));
    }
    let lock_payload = slice_subrange(first_witness.as_slice(), 20, o1);
    if bytes_eq(lock_payload, digest.as_slice()) {
        0
    } else {
        EXIT_ASSERTION_FAILED
    }
}

} // verus!
