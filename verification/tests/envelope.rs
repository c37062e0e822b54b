//! The witness envelope parser and rebuilder, held against the reference
//! schema decoder.

use cighash_all_utils::codec::encode_length;
use cighash_all_utils::errors::CighashAllError;
use cighash_all_utils::witness::parse_witness_args;
use cighash_all_utils::witness::replace_lock;
use ckb_gen_types::bytes::Bytes;
use ckb_gen_types::packed::WitnessArgs;
use ckb_gen_types::packed::WitnessArgsReader;
use ckb_gen_types::prelude::Builder;
use ckb_gen_types::prelude::Entity;
use ckb_gen_types::prelude::Pack;
use ckb_gen_types::prelude::Reader;

fn witness_args_bytes(
    lock: Option<Vec<u8>>,
    input_type: Option<Vec<u8>>,
    output_type: Option<Vec<u8>>,
) -> Vec<u8> {
    WitnessArgs::new_builder()
        .lock(lock.map(Bytes::from).pack())
        .input_type(input_type.map(Bytes::from).pack())
        .output_type(output_type.map(Bytes::from).pack())
        .build()
        .as_slice()
        .to_vec()
}

fn patterned(len: usize, seed: u8) -> Vec<u8> {
    (0..len)
        .map(|i| (i as u8).wrapping_mul(31).wrapping_add(seed))
        .collect()
}

/// Our parser accepts a byte string exactly when the reference decoder
/// does, and both locate the same field boundaries.
fn agree_with_reference(bytes: &[u8]) {
    let ours = parse_witness_args(&bytes.to_vec());
    let reference = WitnessArgsReader::from_slice(bytes);
    match (&ours, &reference) {
        (Ok((o1, o2)), Ok(reader)) => {
            assert_eq!(&bytes[*o1..*o2], reader.input_type().as_slice());
            assert_eq!(&bytes[*o2..], reader.output_type().as_slice());
            assert_eq!(&bytes[16..*o1], reader.lock().as_slice());
        }
        (Err(e), Err(_)) => {
            assert_eq!(*e, CighashAllError::WitnessFormat);
        }
        _ => panic!(
            "parser disagreement on {:?}: ours {:?}, reference {:?}",
            bytes,
            ours.is_ok(),
            reference.is_ok()
        ),
    }
}

#[test]
fn parses_every_field_combination_as_the_reference_does() {
    let lock = patterned(32, 1);
    let it = patterned(11, 2);
    let ot = patterned(0, 3);
    let combos: Vec<Vec<u8>> = vec![
        witness_args_bytes(None, None, None),
        witness_args_bytes(Some(lock.clone()), None, None),
        witness_args_bytes(None, Some(it.clone()), None),
        witness_args_bytes(None, None, Some(ot.clone())),
        witness_args_bytes(Some(lock.clone()), Some(it.clone()), Some(ot.clone())),
        witness_args_bytes(Some(vec![]), Some(vec![]), Some(vec![])),
        witness_args_bytes(Some(lock.clone()), None, Some(patterned(200, 9))),
    ];
    for w in &combos {
        agree_with_reference(w);
        assert!(parse_witness_args(w).is_ok());
    }
}

#[test]
fn rejects_mutations_as_the_reference_does() {
    let base = witness_args_bytes(Some(patterned(32, 1)), Some(patterned(10, 2)), None);
    // Every single-byte corruption of the header is judged alike.
    for pos in 0..16 {
        for bit in 0..8 {
            let mut w = base.clone();
            w[pos] ^= 1 << bit;
            agree_with_reference(&w);
        }
    }
    // Truncations and extensions are judged alike.
    for cut in [0, 1, 4, 15, 16, 17, base.len() - 1] {
        agree_with_reference(&base[0..cut]);
    }
    let mut extended = base.clone();
    extended.push(0);
    agree_with_reference(&extended);
    assert!(parse_witness_args(&extended).is_err());
}

#[test]
fn replace_lock_matches_the_reference_builder() {
    let cases: Vec<Vec<u8>> = vec![
        witness_args_bytes(Some(vec![0u8; 32]), None, None),
        witness_args_bytes(Some(vec![0u8; 32]), Some(patterned(17, 5)), Some(patterned(40, 6))),
        witness_args_bytes(None, Some(patterned(3, 7)), None),
        witness_args_bytes(Some(patterned(5, 8)), None, Some(vec![])),
    ];
    let digest = patterned(32, 42);
    for w in &cases {
        let ours = replace_lock(w, &digest).unwrap();
        let reference = WitnessArgs::from_slice(w)
            .unwrap()
            .as_builder()
            .lock(Some(Bytes::from(digest.clone())).pack())
            .build()
            .as_slice()
            .to_vec();
        assert_eq!(ours, reference);
    }
}

#[test]
fn replace_lock_rejects_an_invalid_envelope() {
    let w = vec![1u8, 2, 3];
    assert_eq!(
        replace_lock(&w, &vec![0u8; 32]),
        Err(CighashAllError::WitnessFormat)
    );
}

#[test]
fn length_tags_are_little_endian() {
    assert_eq!(encode_length(0).unwrap(), vec![0, 0, 0, 0]);
    assert_eq!(encode_length(1).unwrap(), vec![1, 0, 0, 0]);
    assert_eq!(encode_length(0x0102_0304).unwrap(), vec![4, 3, 2, 1]);
    assert_eq!(encode_length(0xffff_ffff).unwrap(), vec![255, 255, 255, 255]);
    assert_eq!(
        encode_length(0x1_0000_0000usize),
        Err(CighashAllError::LengthOverflow)
    );
}
