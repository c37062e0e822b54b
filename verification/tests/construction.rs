//! End-to-end construction scenarios over mock transactions, held against a
//! reference oracle that walks the layout with the outside schema decoder.

use cighash_all_utils::assertion::run_assertion;
use cighash_all_utils::cighash_all_from_mock_tx::generate_cighash_all;
use cighash_all_utils::ckb_tx_message_all_from_mock_tx::generate_ckb_tx_message_all_from_mock_tx;
use cighash_all_utils::errors::CighashAllError;
use cighash_all_utils::group::find_script_group;
use cighash_all_utils::group::locate_inputs;
use cighash_all_utils::model::MockInput;
use cighash_all_utils::model::MockTx;
use cighash_all_utils::model::ScriptOrIndex;
use cighash_all_utils::signer::compute_digest;
use cighash_all_utils::signer::compute_message;
use cighash_all_utils::signer::sign_tx;
use cighash_all_utils::sink::LimitedSink;
use cighash_all_utils::sink::VecSink;
use ckb_gen_types::bytes::Bytes;
use ckb_gen_types::packed::CellOutput;
use ckb_gen_types::packed::CellOutputReader;
use ckb_gen_types::packed::Script;
use ckb_gen_types::packed::WitnessArgs;
use ckb_gen_types::packed::WitnessArgsReader;
use ckb_gen_types::prelude::Builder;
use ckb_gen_types::prelude::Entity;
use ckb_gen_types::prelude::Pack;
use ckb_gen_types::prelude::Reader;

fn patterned(len: usize, seed: u8) -> Vec<u8> {
    (0..len)
        .map(|i| (i as u8).wrapping_mul(29).wrapping_add(seed))
        .collect()
}

fn witness_args_bytes(
    lock: Option<Vec<u8>>,
    input_type: Option<Vec<u8>>,
    output_type: Option<Vec<u8>>,
) -> Vec<u8> {
    WitnessArgs::new_builder()
        .lock(lock.map(Bytes::from).pack())
        .input_type(input_type.map(Bytes::from).pack())
        .output_type(output_type.map(Bytes::from).pack())
        .build()
        .as_slice()
        .to_vec()
}

fn cell_output_bytes(capacity: u64, lock_args: &[u8]) -> Vec<u8> {
    let packed_capacity: ckb_gen_types::packed::Uint64 = capacity.pack();
    let lock = Script::new_builder()
        .code_hash([7u8; 32].pack())
        .hash_type(1u8)
        .args(Bytes::from(lock_args.to_vec()).pack())
        .build();
    CellOutput::new_builder()
        .capacity(packed_capacity)
        .lock(lock)
        .build()
        .as_slice()
        .to_vec()
}

/// A mock transaction whose input cells are given as (header, data) pairs.
fn mock_tx(cells: Vec<(Vec<u8>, Vec<u8>)>, witnesses: Vec<Vec<u8>>) -> MockTx {
    let mut inputs: Vec<Vec<u8>> = Vec::new();
    let mut mock_inputs: Vec<MockInput> = Vec::new();
    for (i, (output, data)) in cells.into_iter().enumerate() {
        let key = format!("input-{}", i).into_bytes();
        inputs.push(key.clone());
        mock_inputs.push(MockInput {
            input: key,
            output,
            data,
        });
    }
    MockTx {
        tx_hash: patterned(32, 77),
        inputs,
        mock_inputs,
        witnesses,
    }
}

/// The reference walk of the layout, written directly with the outside
/// schema decoder.
fn expected_message(tx: &MockTx, indices: &[usize], orphans: bool) -> Vec<u8> {
    let mut out = tx.tx_hash.clone();
    for key in &tx.inputs {
        let entry = tx.mock_inputs.iter().find(|e| &e.input == key).unwrap();
        out.extend_from_slice(&entry.output);
        out.extend_from_slice(&(entry.data.len() as u32).to_le_bytes());
        out.extend_from_slice(&entry.data);
    }
    let w0 = &tx.witnesses[indices[0]];
    let reader = WitnessArgsReader::from_slice(w0).unwrap();
    out.extend_from_slice(&w0[0..16]);
    out.extend_from_slice(reader.input_type().as_slice());
    out.extend_from_slice(reader.output_type().as_slice());
    for i in indices.iter().skip(1) {
        if let Some(w) = tx.witnesses.get(*i) {
            out.extend_from_slice(&(w.len() as u32).to_le_bytes());
            out.extend_from_slice(w);
        }
    }
    if orphans {
        for i in tx.inputs.len()..tx.witnesses.len() {
            let w = &tx.witnesses[i];
            out.extend_from_slice(&(w.len() as u32).to_le_bytes());
            out.extend_from_slice(w);
        }
    }
    out
}

/// A bare transaction: `group_size` inputs under the tested lock mixed
/// with `other` inputs under another lock, a 32-zero-byte lock placeholder
/// in the first group witness, and empty witnesses before it.
fn bare_tx(group_size: usize, others: usize) -> (MockTx, Vec<usize>) {
    let mut cells: Vec<(Vec<u8>, Vec<u8>)> = Vec::new();
    let mut indices: Vec<usize> = Vec::new();
    for i in 0..(group_size + others) {
        // The foreign inputs come first, so the group starts past zero.
        if i < others {
            cells.push((cell_output_bytes(900 + i as u64, b"other"), patterned(10, i as u8)));
        } else {
            cells.push((cell_output_bytes(500 + i as u64, b"tested"), patterned(40 + i, i as u8)));
            indices.push(i);
        }
    }
    let first = indices[0];
    let mut witnesses = vec![Vec::new(); first + 1];
    witnesses[first] = witness_args_bytes(Some(vec![0u8; 32]), None, None);
    (mock_tx(cells, witnesses), indices)
}

#[test]
fn message_layout_matches_the_documented_bytes() {
    // One hand-rolled cell: a 24-byte header whose lock is bytes [18, 20),
    // and three bytes of data.
    let output = vec![
        24, 0, 0, 0, 16, 0, 0, 0, 18, 0, 0, 0, 20, 0, 0, 0, 0x11, 0x22, 0xaa, 0xbb, 0xcc, 0xdd,
        0xee, 0xff,
    ];
    let data = vec![1u8, 2, 3];
    // One hand-rolled envelope: no lock, a one-byte input_type, no
    // output_type.
    let witness = vec![21, 0, 0, 0, 16, 0, 0, 0, 16, 0, 0, 0, 21, 0, 0, 0, 1, 0, 0, 0, 0x5a];
    let tx_hash: Vec<u8> = (0u8..32).collect();
    let tx = MockTx {
        tx_hash: tx_hash.clone(),
        inputs: vec![b"the-input".to_vec()],
        mock_inputs: vec![MockInput {
            input: b"the-input".to_vec(),
            output: output.clone(),
            data: data.clone(),
        }],
        witnesses: vec![witness.clone()],
    };
    let mut expected = tx_hash;
    expected.extend_from_slice(&output);
    expected.extend_from_slice(&[3, 0, 0, 0, 1, 2, 3]);
    expected.extend_from_slice(&witness[0..16]);
    expected.extend_from_slice(&[1, 0, 0, 0, 0x5a]);
    let sel = ScriptOrIndex::Index(0);
    assert_eq!(compute_message(&tx, &sel, false).unwrap(), expected);
    // With one witness per input there is no orphan tail either.
    assert_eq!(compute_message(&tx, &sel, true).unwrap(), expected);
}

#[test]
fn bare_tx_messages_match_the_reference_walk() {
    for group_size in 1..=5 {
        let (tx, indices) = bare_tx(group_size, 2);
        let sel = ScriptOrIndex::Index(indices[0]);
        let message = compute_message(&tx, &sel, false).unwrap();
        assert_eq!(message, expected_message(&tx, &indices, false));
        let message_b = compute_message(&tx, &sel, true).unwrap();
        assert_eq!(message_b, expected_message(&tx, &indices, true));
    }
}

#[test]
fn bare_tx_signs_and_passes_the_assertion() {
    for group_size in 1..=5 {
        let (tx, indices) = bare_tx(group_size, 1);
        let sel = ScriptOrIndex::Index(indices[0]);
        for orphans in [false, true] {
            let signed = sign_tx(&tx, &sel, orphans).unwrap();
            assert_eq!(run_assertion(&signed, &sel, orphans), 0);
            // Writing the digest into the 32-byte lock placeholder left the
            // message itself unchanged.
            assert_eq!(
                compute_message(&signed, &sel, orphans).unwrap(),
                compute_message(&tx, &sel, orphans).unwrap()
            );
            // And recomputing it gives the same bytes again.
            assert_eq!(
                compute_digest(&signed, &sel, orphans).unwrap(),
                compute_digest(&signed, &sel, orphans).unwrap()
            );
        }
    }
}

#[test]
fn multiple_input_group_streams_the_trailing_witnesses() {
    // A group of four: the trailing-witness loop must emit at least twice.
    let (mut tx, indices) = bare_tx(4, 2);
    assert!(indices.len() >= 3);
    while tx.witnesses.len() <= indices[2] {
        tx.witnesses.push(Vec::new());
    }
    tx.witnesses[indices[1]] = patterned(21, 3);
    tx.witnesses[indices[2]] = patterned(35, 4);
    let sel = ScriptOrIndex::Index(indices[0]);
    let message = compute_message(&tx, &sel, false).unwrap();
    let expected = expected_message(&tx, &indices, false);
    assert_eq!(message, expected);
    let signed = sign_tx(&tx, &sel, false).unwrap();
    assert_eq!(run_assertion(&signed, &sel, false), 0);
}

/// The scenario with typed witness fields: group members carry
/// `input_type` and `output_type` payloads, other witnesses are plain
/// bytes.
fn witness_tx() -> (MockTx, Vec<usize>) {
    let (mut tx, indices) = bare_tx(4, 2);
    let n = tx.inputs.len();
    tx.witnesses = Vec::new();
    for i in 0..n + 2 {
        if i == indices[0] {
            tx.witnesses.push(witness_args_bytes(
                Some(vec![0u8; 32]),
                Some(patterned(57, 21)),
                Some(patterned(198, 22)),
            ));
        } else {
            tx.witnesses.push(patterned(10 + (i * 13) % 190, i as u8));
        }
    }
    (tx, indices)
}

#[test]
fn typed_witness_fields_are_emitted_in_three_parts() {
    let (tx, indices) = witness_tx();
    let sel = ScriptOrIndex::Index(indices[0]);
    for orphans in [false, true] {
        let message = compute_message(&tx, &sel, orphans).unwrap();
        assert_eq!(message, expected_message(&tx, &indices, orphans));
        let signed = sign_tx(&tx, &sel, orphans).unwrap();
        assert_eq!(run_assertion(&signed, &sel, orphans), 0);
    }
}

#[test]
fn selecting_the_group_by_script_value_matches_selecting_by_index() {
    let (tx, indices) = witness_tx();
    let cells = locate_inputs(&tx).unwrap();
    // The serialized lock of the first member, as the reference decoder
    // extracts it.
    let output = &tx.mock_inputs[indices[0]].output;
    let reader = CellOutputReader::from_slice(output).unwrap();
    let script = reader.lock().as_slice().to_vec();
    let by_script = find_script_group(&cells, &ScriptOrIndex::Script(script)).unwrap();
    let by_index = find_script_group(&cells, &ScriptOrIndex::Index(indices[0])).unwrap();
    assert_eq!(by_script, by_index);
    assert_eq!(by_script, indices);
}

#[test]
fn invalid_first_witness_fails_the_assertion() {
    let (tx, indices) = witness_tx();
    let sel = ScriptOrIndex::Index(indices[0]);
    let signed = sign_tx(&tx, &sel, true).unwrap();
    // Flip one bit inside the 16-byte envelope header.
    let mut tampered = signed;
    tampered.witnesses[indices[0]][3] ^= 0x10;
    assert_ne!(run_assertion(&tampered, &sel, true), 0);
    assert_eq!(
        compute_message(&tampered, &sel, true),
        Err(CighashAllError::WitnessFormat)
    );
}

#[test]
fn tampering_after_signing_fails_the_assertion() {
    let (tx, indices) = bare_tx(2, 1);
    let sel = ScriptOrIndex::Index(indices[0]);
    let signed = sign_tx(&tx, &sel, true).unwrap();
    assert_eq!(run_assertion(&signed, &sel, true), 0);

    // One byte of an input cell's capacity.
    let mut t1 = clone_tx(&signed);
    t1.mock_inputs[0].output[16] ^= 1;
    assert_ne!(run_assertion(&t1, &sel, true), 0);
    assert_ne!(
        compute_message(&t1, &sel, true).unwrap(),
        compute_message(&signed, &sel, true).unwrap()
    );

    // One byte of an input cell's data.
    let mut t2 = clone_tx(&signed);
    let last = t2.mock_inputs[0].data.len() - 1;
    t2.mock_inputs[0].data[last] ^= 0x80;
    assert_ne!(run_assertion(&t2, &sel, true), 0);

    // The transaction body, whose canonical hash covers the outputs.
    let mut t3 = clone_tx(&signed);
    t3.tx_hash[31] ^= 2;
    assert_ne!(run_assertion(&t3, &sel, true), 0);

    // An input cell's data shortened by one byte.
    let mut t4 = clone_tx(&signed);
    t4.mock_inputs[0].data.pop();
    assert_ne!(run_assertion(&t4, &sel, true), 0);
    assert_ne!(
        compute_message(&t4, &sel, true).unwrap().len(),
        compute_message(&signed, &sel, true).unwrap().len()
    );
}

fn clone_tx(tx: &MockTx) -> MockTx {
    MockTx {
        tx_hash: tx.tx_hash.clone(),
        inputs: tx.inputs.clone(),
        mock_inputs: tx
            .mock_inputs
            .iter()
            .map(|e| MockInput {
                input: e.input.clone(),
                output: e.output.clone(),
                data: e.data.clone(),
            })
            .collect(),
        witnesses: tx.witnesses.clone(),
    }
}

#[test]
fn appended_witnesses_change_only_the_orphan_variant() {
    let (mut tx, indices) = bare_tx(3, 1);
    let sel = ScriptOrIndex::Index(indices[0]);
    // Give every input its witness first, so an appended one is an orphan.
    while tx.witnesses.len() < tx.inputs.len() {
        tx.witnesses.push(Vec::new());
    }
    let signed = sign_tx(&tx, &sel, false).unwrap();
    let digest_a = compute_digest(&signed, &sel, false).unwrap();
    let digest_b = compute_digest(&signed, &sel, true).unwrap();

    let mut appended = clone_tx(&signed);
    appended.witnesses.push(patterned(9, 55));
    appended.witnesses.push(Vec::new());

    // The cighash_all digest ignores witnesses with no matching input cell,
    // so the signed transaction still passes its assertion.
    assert_eq!(compute_digest(&appended, &sel, false).unwrap(), digest_a);
    assert_eq!(run_assertion(&appended, &sel, false), 0);
    // The ckb_tx_message_all digest covers them, so the assertion fails.
    assert_ne!(compute_digest(&appended, &sel, true).unwrap(), digest_b);
    let signed_b = sign_tx(&tx, &sel, true).unwrap();
    let mut appended_b = clone_tx(&signed_b);
    appended_b.witnesses.push(patterned(9, 55));
    assert_ne!(run_assertion(&appended_b, &sel, true), 0);
}

#[test]
fn each_malformed_transaction_reports_its_error() {
    let (tx, indices) = bare_tx(2, 1);
    let sel = ScriptOrIndex::Index(indices[0]);

    // An input without an entry in the mock input table.
    let mut unresolved = clone_tx(&tx);
    unresolved.mock_inputs.remove(0);
    assert_eq!(
        compute_message(&unresolved, &sel, false),
        Err(CighashAllError::InvalidMockTx)
    );

    // A specifier that selects nothing.
    assert_eq!(
        compute_message(&tx, &ScriptOrIndex::Script(b"nobody".to_vec()), false),
        Err(CighashAllError::UnknownScriptGroup)
    );
    assert_eq!(
        compute_message(&tx, &ScriptOrIndex::Index(99), false),
        Err(CighashAllError::UnknownScriptGroup)
    );

    // A missing first group witness.
    let mut missing = clone_tx(&tx);
    missing.witnesses = Vec::new();
    assert_eq!(
        compute_message(&missing, &sel, false),
        Err(CighashAllError::InvalidMockTx)
    );

    // A first group witness that is not an envelope.
    let mut garbled = clone_tx(&tx);
    garbled.witnesses[indices[0]] = patterned(24, 6);
    assert_eq!(
        compute_message(&garbled, &sel, false),
        Err(CighashAllError::WitnessFormat)
    );
    assert_eq!(run_assertion(&garbled, &sel, false), 99);
}

#[test]
fn a_rejecting_writer_surfaces_as_an_io_error() {
    let (tx, indices) = bare_tx(2, 1);
    let sel = ScriptOrIndex::Index(indices[0]);
    let full = compute_message(&tx, &sel, false).unwrap();
    let mut sink = LimitedSink::new(10);
    assert_eq!(
        generate_cighash_all(&tx, sel, &mut sink),
        Err(CighashAllError::Io)
    );
    // A sink with enough room accepts the whole message.
    let mut roomy = LimitedSink::new(full.len());
    let sel2 = ScriptOrIndex::Index(indices[0]);
    assert_eq!(generate_cighash_all(&tx, sel2, &mut roomy), Ok(()));
    assert_eq!(roomy.data, full);
}

#[test]
fn both_variants_share_the_common_prefix() {
    let (tx, indices) = witness_tx();
    let sel = ScriptOrIndex::Index(indices[0]);
    let mut sink_a = VecSink::new();
    generate_cighash_all(&tx, ScriptOrIndex::Index(indices[0]), &mut sink_a).unwrap();
    let a = sink_a.into_vec();
    let mut sink_b = VecSink::new();
    generate_ckb_tx_message_all_from_mock_tx(&tx, sel, &mut sink_b).unwrap();
    let b = sink_b.into_vec();
    assert!(b.len() > a.len());
    assert_eq!(&b[0..a.len()], &a[..]);
}
