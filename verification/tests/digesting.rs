//! The digest writer against the outside hash crate called directly.

use cighash_all_utils::digest::Hasher;
use cighash_all_utils::sink::Sink;

fn patterned(len: usize, seed: u8) -> Vec<u8> {
    (0..len)
        .map(|i| (i as u8).wrapping_mul(13).wrapping_add(seed))
        .collect()
}

#[test]
fn hasher_matches_the_one_shot_digest() {
    let data = patterned(100_000, 3);
    let mut hasher = Hasher::new();
    hasher.write(&data).unwrap();
    hasher.flush().unwrap();
    assert_eq!(hasher.hash(), ckb_hash::blake2b_256(&data));
}

#[test]
fn hasher_is_incremental() {
    let data = patterned(70_001, 8);
    let mut chunked = Hasher::new();
    for chunk in data.chunks(997) {
        chunked.write(chunk).unwrap();
    }
    let mut whole = Hasher::new();
    whole.write(&data).unwrap();
    assert_eq!(chunked.hash(), whole.hash());
}

#[test]
fn empty_input_gives_the_chain_blank_hash() {
    let hasher = Hasher::new();
    assert_eq!(hasher.hash(), ckb_hash::BLANK_HASH);
    assert_eq!(
        ckb_hash::BLANK_HASH[0..4],
        [0x44u8, 0xf4, 0xc6, 0x97][..]
    );
}
