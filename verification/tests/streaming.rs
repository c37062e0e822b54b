//! The streaming constructor against the mock-transaction constructor:
//! both environments must emit bit-identical bytes, whatever the chunking.

use cighash_all_utils::cighash_all_in_ckb_vm::generate_cighash_all;
use cighash_all_utils::ckb_tx_message_all_in_ckb_vm::generate_ckb_tx_message_all;
use cighash_all_utils::errors::CighashAllError;
use cighash_all_utils::mock_reader::MockTxReader;
use cighash_all_utils::model::MockInput;
use cighash_all_utils::model::MockTx;
use cighash_all_utils::model::ScriptOrIndex;
use cighash_all_utils::signer::compute_message;
use cighash_all_utils::signer::sign_tx;
use cighash_all_utils::sink::Sink;
use cighash_all_utils::sink::VecSink;
use cighash_all_utils::stream::load_and_hash;
use cighash_all_utils::stream::load_initial;
use cighash_all_utils::stream::PayloadKind;
use cighash_all_utils::stream::Source;
use ckb_gen_types::bytes::Bytes;
use ckb_gen_types::packed::CellOutput;
use ckb_gen_types::packed::Script;
use ckb_gen_types::packed::WitnessArgs;
use ckb_gen_types::prelude::Builder;
use ckb_gen_types::prelude::Entity;
use ckb_gen_types::prelude::Pack;

fn patterned(len: usize, seed: u8) -> Vec<u8> {
    (0..len)
        .map(|i| (i as u8).wrapping_mul(23).wrapping_add(seed))
        .collect()
}

fn cell_output_bytes(capacity: u64, lock_args: &[u8]) -> Vec<u8> {
    let packed_capacity: ckb_gen_types::packed::Uint64 = capacity.pack();
    let lock = Script::new_builder()
        .code_hash([9u8; 32].pack())
        .hash_type(1u8)
        .args(Bytes::from(lock_args.to_vec()).pack())
        .build();
    CellOutput::new_builder()
        .capacity(packed_capacity)
        .lock(lock)
        .build()
        .as_slice()
        .to_vec()
}

fn witness_args_bytes(
    lock: Option<Vec<u8>>,
    input_type: Option<Vec<u8>>,
    output_type: Option<Vec<u8>>,
) -> Vec<u8> {
    WitnessArgs::new_builder()
        .lock(lock.map(Bytes::from).pack())
        .input_type(input_type.map(Bytes::from).pack())
        .output_type(output_type.map(Bytes::from).pack())
        .build()
        .as_slice()
        .to_vec()
}

/// A transaction with large cell data, so the chunked reader must reload
/// several times per payload.
fn large_data_tx(group_size: usize) -> (MockTx, Vec<usize>) {
    let mut inputs: Vec<Vec<u8>> = Vec::new();
    let mut mock_inputs: Vec<MockInput> = Vec::new();
    let mut indices: Vec<usize> = Vec::new();
    for i in 0..group_size + 1 {
        let key = format!("cell-{}", i).into_bytes();
        inputs.push(key.clone());
        let (args, data): (&[u8], Vec<u8>) = if i < group_size {
            indices.push(i);
            // Payloads far beyond one 32 KiB window: at least three loads.
            (b"tested", patterned(70_000 + 37_000 * i, i as u8))
        } else {
            (b"other", patterned(64, 7))
        };
        mock_inputs.push(MockInput {
            input: key,
            output: cell_output_bytes(100 + i as u64, args),
            data,
        });
    }
    let mut witnesses = vec![Vec::new(); indices[0]];
    witnesses.push(witness_args_bytes(Some(vec![0u8; 32]), None, None));
    while witnesses.len() < group_size {
        witnesses.push(patterned(200_000, 5));
    }
    (
        MockTx {
            tx_hash: patterned(32, 99),
            inputs,
            mock_inputs,
            witnesses,
        },
        indices,
    )
}

#[test]
fn streaming_agrees_with_the_mock_walk_on_large_data() {
    for group_size in 2..=4 {
        let (tx, indices) = large_data_tx(group_size);
        let sel = ScriptOrIndex::Index(indices[0]);
        let expected_a = compute_message(&tx, &sel, false).unwrap();
        let expected_b = compute_message(&tx, &sel, true).unwrap();
        let reader = MockTxReader::from_mock_tx(&tx, &sel).unwrap();
        let mut sink_a = VecSink::new();
        generate_cighash_all(&reader, &mut sink_a).unwrap();
        assert_eq!(sink_a.into_vec(), expected_a);
        let mut sink_b = VecSink::new();
        generate_ckb_tx_message_all(&reader, &mut sink_b).unwrap();
        assert_eq!(sink_b.into_vec(), expected_b);
    }
}

#[test]
fn streaming_passes_the_assertion_after_signing() {
    let (tx, indices) = large_data_tx(3);
    let sel = ScriptOrIndex::Index(indices[0]);
    let signed = sign_tx(&tx, &sel, true).unwrap();
    assert_eq!(cighash_all_utils::assertion::run_assertion(&signed, &sel, true), 0);
    // The streaming walk of the signed transaction matches too.
    let reader = MockTxReader::from_mock_tx(&signed, &sel).unwrap();
    let mut sink = VecSink::new();
    generate_ckb_tx_message_all(&reader, &mut sink).unwrap();
    assert_eq!(sink.into_vec(), compute_message(&signed, &sel, true).unwrap());
}

#[test]
fn chunking_is_transparent_to_the_drained_bytes() {
    let (tx, indices) = large_data_tx(2);
    let sel = ScriptOrIndex::Index(indices[0]);
    let reader = MockTxReader::from_mock_tx(&tx, &sel).unwrap();
    let payload = tx.mock_inputs[0].data.clone();
    for batch in [1usize, 7, 1024, 32768, 1 << 20] {
        let probe = load_initial(&reader, PayloadKind::CellData, 0, Source::Input, batch)
            .unwrap()
            .unwrap();
        assert_eq!(probe.full_length, payload.len());
        let mut sink = VecSink::new();
        load_and_hash(&reader, PayloadKind::CellData, probe, &mut sink).unwrap();
        assert_eq!(sink.into_vec(), payload);
    }
}

#[test]
fn probing_past_the_last_payload_reports_the_end() {
    let (tx, indices) = large_data_tx(2);
    let sel = ScriptOrIndex::Index(indices[0]);
    let reader = MockTxReader::from_mock_tx(&tx, &sel).unwrap();
    let past = tx.inputs.len();
    assert!(load_initial(&reader, PayloadKind::CellOutput, past, Source::Input, 64)
        .unwrap()
        .is_none());
    let past_group = indices.len();
    assert!(load_initial(&reader, PayloadKind::Witness, past_group, Source::GroupInput, 64)
        .unwrap()
        .is_none());
}

#[test]
fn a_failing_host_surfaces_as_a_syscall_error() {
    let (tx, indices) = large_data_tx(2);
    let sel = ScriptOrIndex::Index(indices[0]);
    let inner = MockTxReader::from_mock_tx(&tx, &sel).unwrap();
    let reader = cighash_all_utils::mock_reader::UnreliableReader { inner };
    let mut sink = VecSink::new();
    assert_eq!(
        generate_cighash_all(&reader, &mut sink),
        Err(CighashAllError::Syscall)
    );
}

#[test]
fn a_missing_first_group_witness_stops_the_streaming_walk() {
    let (mut tx, indices) = large_data_tx(2);
    let sel = ScriptOrIndex::Index(indices[0]);
    tx.witnesses = Vec::new();
    let reader = MockTxReader::from_mock_tx(&tx, &sel).unwrap();
    let mut sink = VecSink::new();
    assert_eq!(
        generate_cighash_all(&reader, &mut sink),
        Err(CighashAllError::MissingWitness)
    );
}
