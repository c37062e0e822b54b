//! Little-endian 32-bit length tags: the only numeric encoding the
//! message layout uses.

use vstd::bytes::lemma_auto_spec_u32_to_from_le_bytes;
use vstd::bytes::spec_u32_from_le_bytes;
use vstd::bytes::spec_u32_to_le_bytes;
use vstd::bytes::u32_from_le_bytes;
use vstd::bytes::u32_to_le_bytes;
use vstd::prelude::*;
use vstd::slice::slice_subrange;

verus! {

/// The 32-bit little-endian value stored at byte offset `i` of `s`.
pub open spec fn read_u32(s: Seq<u8>, i: int) -> u32 {
    spec_u32_from_le_bytes(s.subrange(i, i + 4))
}

/// The four-byte little-endian length tag for a payload of `n` bytes.
pub open spec fn length_tag(n: nat) -> Seq<u8> {
    spec_u32_to_le_bytes(n as u32)
}

/// A payload short enough for its length to fit a 32-bit tag.
pub open spec fn taggable(n: nat) -> bool {
    n < 0x1_0000_0000
}

/// Encoding a value and reading it back is the identity, in both directions.
pub proof fn lemma_u32_round_trip()
    ensures
        forall|n: nat|
            taggable(n) ==> #[trigger] length_tag(n).len() == 4 && read_u32(length_tag(n), 0)
                == n,
        forall|s: Seq<u8>, i: int|
            0 <= i && i + 4 <= s.len() ==> #[trigger] spec_u32_to_le_bytes(read_u32(s, i))
                == s.subrange(i, i + 4),
{
    lemma_auto_spec_u32_to_from_le_bytes();
    assert forall|n: nat| taggable(n) implies #[trigger] length_tag(n).len() == 4 && read_u32(
        length_tag(n),
        0,
    ) == n by {
        let s = spec_u32_to_le_bytes(n as u32);
        assert(s.subrange(0, 4) =~= s);
    }
}

/// Appends the four-byte little-endian tag for `n` to `out`.
pub fn push_tag(out: &mut Vec<u8>, n: usize)
    requires
        taggable(n as nat),
    ensures
        final(out)@ == old(out)@ + length_tag(n as nat),
{
    let tag = u32_to_le_bytes(n as u32);
    crate::bytes_util::push_all(out, tag.as_slice());
}

/// Reads the 32-bit little-endian value at offset `i` of `data`.
pub fn get_u32(data: &Vec<u8>, i: usize) -> (n: u32)
    requires
        i + 4 <= data@.len(),
    ensures
        n == read_u32(data@, i as int),
{
    let len = data.len();
    let window = slice_subrange(data.as_slice(), i, i + 4);
    u32_from_le_bytes(window)
}

/// Encodes `n` as a four-byte little-endian length tag.
///
/// Payloads of 4 GiB or more cannot be described by the tag and make the
/// whole construction fail, so the caller screens them out first.
pub fn encode_length(n: usize) -> (r: Result<Vec<u8>, crate::errors::CighashAllError>)
    ensures
        match r {
            Ok(tag) => taggable(n as nat) && tag@ == length_tag(n as nat),
            Err(e) => e == crate::errors::CighashAllError::LengthOverflow && !taggable(n as nat),
        },
{
    if n > 0xffff_ffff {
        return Err(crate::errors::CighashAllError::LengthOverflow);
    }
    let tag = u32_to_le_bytes(n as u32);
    proof {
        assert(n as u32 as nat == n as nat);
    }
    Ok(tag)
}

} // verus!
