//! The witness envelope: a binary table with three optional byte-string
//! fields, `lock`, `input_type` and `output_type`.
//!
//! The serialized form starts with a fixed 16-byte header of four 32-bit
//! little-endian words: the total length, then the start offsets of the three
//! fields.  The first field starts right after the header, the fields are laid
//! out back to back, and each present field is itself a 32-bit length tag
//! followed by its payload; an absent field occupies zero bytes.

use crate::codec::length_tag;
use crate::codec::lemma_u32_round_trip;
use crate::codec::read_u32;
use crate::codec::taggable;
use crate::errors::CighashAllError;
use vstd::prelude::*;

verus! {

/// A serialized byte-string field: a length tag plus that many payload bytes.
pub open spec fn valid_bytes_field(s: Seq<u8>) -> bool {
    s.len() >= 4 && read_u32(s, 0) + 4 == s.len()
}

/// A serialized optional byte-string field: absent (empty) or a valid field.
pub open spec fn valid_bytes_opt(s: Seq<u8>) -> bool {
    s.len() == 0 || valid_bytes_field(s)
}

/// End of the `lock` field, which is also where `input_type` starts.
pub open spec fn wa_lock_end(w: Seq<u8>) -> int {
    read_u32(w, 8) as int
}

/// End of the `input_type` field, which is also where `output_type` starts.
pub open spec fn wa_type_split(w: Seq<u8>) -> int {
    read_u32(w, 12) as int
}

/// The serialized `lock` field of a valid envelope.
pub open spec fn wa_lock(w: Seq<u8>) -> Seq<u8> {
    w.subrange(16, wa_lock_end(w))
}

/// The serialized `input_type` field of a valid envelope.
pub open spec fn wa_input_type(w: Seq<u8>) -> Seq<u8> {
    w.subrange(wa_lock_end(w), wa_type_split(w))
}

/// The serialized `output_type` field of a valid envelope.
pub open spec fn wa_output_type(w: Seq<u8>) -> Seq<u8> {
    w.subrange(wa_type_split(w), w.len() as int)
}

/// A well-formed witness envelope, exactly as the strict schema decoder
/// accepts it: the first word equals the total length, the first field starts
/// at 16 (so there are exactly three fields), the offsets never decrease and
/// stay within bounds, and every field is a valid optional byte string.
pub open spec fn wa_valid(w: Seq<u8>) -> bool {
    &&& w.len() >= 16
    &&& read_u32(w, 0) == w.len()
    &&& read_u32(w, 4) == 16
    &&& 16 <= wa_lock_end(w)
    &&& wa_lock_end(w) <= wa_type_split(w)
    &&& wa_type_split(w) <= w.len()
    &&& valid_bytes_opt(wa_lock(w))
    &&& valid_bytes_opt(wa_input_type(w))
    &&& valid_bytes_opt(wa_output_type(w))
}

/// The `lock` field of a valid envelope is present.
pub open spec fn wa_has_lock(w: Seq<u8>) -> bool {
    wa_lock(w).len() > 0
}

/// The payload carried by a present `lock` field.
pub open spec fn wa_lock_payload(w: Seq<u8>) -> Seq<u8> {
    wa_lock(w).subrange(4, wa_lock(w).len() as int)
}

/// Checks that `data[start..end)` is a valid optional byte-string field.
fn check_bytes_opt(data: &Vec<u8>, start: usize, end: usize) -> (r: bool)
    requires
        start <= end,
        end <= data@.len(),
    ensures
        r == valid_bytes_opt(data@.subrange(start as int, end as int)),
{
    let ghost field = data@.subrange(start as int, end as int);
    if start == end {
        return true;
    }
    if end - start < 4 {
        return false;
    }
    let tag = crate::codec::get_u32(data, start);
    proof {
        assert(field.subrange(0, 4) =~= data@.subrange(start as int, start + 4));
    }
    tag as u64 + 4 == (end - start) as u64
}

/// Parses a witness envelope, returning the two interior field boundaries
/// (end of `lock`, end of `input_type`) exactly when the envelope is valid.
pub fn parse_witness_args(w: &Vec<u8>) -> (r: Result<(usize, usize), CighashAllError>)
    ensures
        match r {
            Ok((o1, o2)) => {
                &&& wa_valid(w@)
                &&& o1 as int == wa_lock_end(w@)
                &&& o2 as int == wa_type_split(w@)
            },
            Err(e) => e == CighashAllError::WitnessFormat && !wa_valid(w@),
        },
{
    let len = w.len();
    if len < 16 {
        return Err(CighashAllError::WitnessFormat);
    }
    let total = crate::codec::get_u32(w, 0);
    if total as u64 != len as u64 {
        return Err(CighashAllError::WitnessFormat);
    }
    let first_offset = crate::codec::get_u32(w, 4);
    if first_offset != 16 {
        return Err(CighashAllError::WitnessFormat);
    }
    let o1_word = crate::codec::get_u32(w, 8);
    let o2_word = crate::codec::get_u32(w, 12);
    if o1_word < 16 || o2_word < o1_word || o2_word as u64 > len as u64 {
        return Err(CighashAllError::WitnessFormat);
    }
    let o1 = o1_word as usize;
    let o2 = o2_word as usize;
    if !check_bytes_opt(w, 16, o1) {
        return Err(CighashAllError::WitnessFormat);
    }
    if !check_bytes_opt(w, o1, o2) {
        return Err(CighashAllError::WitnessFormat);
    }
    if !check_bytes_opt(w, o2, len) {
        return Err(CighashAllError::WitnessFormat);
    }
    Ok((o1, o2))
}

/// The envelope `w` with its `lock` field replaced by a present field whose
/// payload is `h`; the other two fields and the header structure are kept.
pub open spec fn wa_set_lock(w: Seq<u8>, h: Seq<u8>) -> Seq<u8> {
    let it = wa_input_type(w);
    let ot = wa_output_type(w);
    let o1 = 20 + h.len();
    let o2 = o1 + it.len();
    let total = o2 + ot.len();
    length_tag(total) + length_tag(16) + length_tag(o1) + length_tag(o2) + length_tag(h.len())
        + h + it + ot
}

/// The replaced envelope still fits 32-bit offsets.
pub open spec fn set_lock_fits(w: Seq<u8>, h: Seq<u8>) -> bool {
    taggable((20 + h.len() + wa_input_type(w).len() + wa_output_type(w).len()) as nat)
}

/// Structure of the rebuilt envelope: it is valid, its `lock` payload is
/// exactly `h`, and its type fields are those of the old envelope.
pub proof fn lemma_set_lock_props(w: Seq<u8>, h: Seq<u8>)
    requires
        wa_valid(w),
        set_lock_fits(w, h),
    ensures
        ({
            let v = wa_set_lock(w, h);
            &&& v.len() == 20 + h.len() + wa_input_type(w).len() + wa_output_type(w).len()
            &&& wa_valid(v)
            &&& wa_has_lock(v)
            &&& wa_lock_payload(v) == h
            &&& wa_lock_end(v) == 20 + h.len()
            &&& wa_input_type(v) == wa_input_type(w)
            &&& wa_output_type(v) == wa_output_type(w)
        }),
{
    lemma_u32_round_trip();
    let it = wa_input_type(w);
    let ot = wa_output_type(w);
    let o1 = 20 + h.len();
    let o2 = o1 + it.len();
    let total = o2 + ot.len();
    let v = wa_set_lock(w, h);
    assert(length_tag(total as nat).len() == 4);
    assert(length_tag(16).len() == 4);
    assert(length_tag(o1 as nat).len() == 4);
    assert(length_tag(o2 as nat).len() == 4);
    assert(length_tag(h.len()).len() == 4);
    assert(v.len() == total);
    assert(v.subrange(0, 4) =~= length_tag(total as nat));
    assert(v.subrange(4, 8) =~= length_tag(16));
    assert(v.subrange(8, 12) =~= length_tag(o1 as nat));
    assert(v.subrange(12, 16) =~= length_tag(o2 as nat));
    assert(read_u32(v, 0) == total);
    assert(read_u32(v, 4) == 16);
    assert(read_u32(v, 8) == o1);
    assert(read_u32(v, 12) == o2);
    assert(wa_lock(v) =~= length_tag(h.len()) + h);
    assert(wa_input_type(v) =~= it);
    assert(wa_output_type(v) =~= ot);
    assert(wa_lock(v).subrange(0, 4) =~= length_tag(h.len()));
    assert(read_u32(wa_lock(v), 0) == h.len());
    assert(valid_bytes_field(wa_lock(v)));
    assert(wa_lock_payload(v) =~= h);
}

/// When the new payload has the same length as the old one, the rebuilt
/// envelope keeps the old header bytes, so the three emitted parts of the
/// first group witness are unchanged.
pub proof fn lemma_set_lock_same_length(w: Seq<u8>, h: Seq<u8>)
    requires
        wa_valid(w),
        wa_has_lock(w),
        h.len() == wa_lock_payload(w).len(),
    ensures
        ({
            let v = wa_set_lock(w, h);
            &&& set_lock_fits(w, h)
            &&& v.len() == w.len()
            &&& v.subrange(0, 16) == w.subrange(0, 16)
            &&& wa_input_type(v) == wa_input_type(w)
            &&& wa_output_type(v) == wa_output_type(w)
        }),
{
    lemma_u32_round_trip();
    let it = wa_input_type(w);
    let ot = wa_output_type(w);
    assert(valid_bytes_field(wa_lock(w)));
    assert(wa_lock(w).len() == 4 + h.len());
    assert(wa_lock_end(w) == 20 + h.len());
    assert(wa_type_split(w) == 20 + h.len() + it.len());
    assert(w.len() == 20 + h.len() + it.len() + ot.len());
    assert(read_u32(w, 0) == w.len());
    assert(set_lock_fits(w, h));
    lemma_set_lock_props(w, h);
    let v = wa_set_lock(w, h);
    let o1 = 20 + h.len();
    let o2 = o1 + it.len();
    assert(v.subrange(0, 4) =~= length_tag((o2 + ot.len()) as nat));
    assert(v.subrange(4, 8) =~= length_tag(16));
    assert(v.subrange(8, 12) =~= length_tag(o1 as nat));
    assert(v.subrange(12, 16) =~= length_tag(o2 as nat));
    assert(w.subrange(0, 4) =~= spec_u32_to_le_bytes_alias(read_u32(w, 0)));
    assert(w.subrange(4, 8) =~= spec_u32_to_le_bytes_alias(read_u32(w, 4)));
    assert(w.subrange(8, 12) =~= spec_u32_to_le_bytes_alias(read_u32(w, 8)));
    assert(w.subrange(12, 16) =~= spec_u32_to_le_bytes_alias(read_u32(w, 12)));
    assert(v.subrange(0, 16) =~= w.subrange(0, 16));
}

/// The little-endian image of a 32-bit word, under the name the length tag
/// uses for it.
pub open spec fn spec_u32_to_le_bytes_alias(x: u32) -> Seq<u8> {
    vstd::bytes::spec_u32_to_le_bytes(x)
}

/// Rebuilds the envelope `w` with `h` as its `lock` payload.
pub fn replace_lock(w: &Vec<u8>, h: &Vec<u8>) -> (r: Result<Vec<u8>, CighashAllError>)
    ensures
        match r {
            Ok(v) => {
                &&& wa_valid(w@)
                &&& set_lock_fits(w@, h@)
                &&& v@ == wa_set_lock(w@, h@)
            },
            Err(e) => {
                &&& !wa_valid(w@) ==> e == CighashAllError::WitnessFormat
                &&& wa_valid(w@) && !set_lock_fits(w@, h@) ==> e
                    == CighashAllError::LengthOverflow
                &&& e == CighashAllError::WitnessFormat || e == CighashAllError::LengthOverflow
                &&& !(wa_valid(w@) && set_lock_fits(w@, h@))
            },
        },
{
    let (o1, o2) = match parse_witness_args(w) {
        Ok(pair) => pair,
        Err(e) => {
            return Err(e);
        },
    };
    let len = w.len();
    if h.len() as u64 >= 0x1_0000_0000u64 {
        return Err(CighashAllError::LengthOverflow);
    }
    let it_len = o2 - o1;
    let ot_len = len - o2;
    let total64: u64 = 20u64 + h.len() as u64 + it_len as u64 + ot_len as u64;
    if total64 >= 0x1_0000_0000u64 {
        return Err(CighashAllError::LengthOverflow);
    }
    let new_o1: usize = 20 + h.len();
    let new_o2: usize = new_o1 + it_len;
    let total: usize = new_o2 + ot_len;
    let mut out: Vec<u8> = Vec::new();
    crate::codec::push_tag(&mut out, total);
    crate::codec::push_tag(&mut out, 16);
    crate::codec::push_tag(&mut out, new_o1);
    crate::codec::push_tag(&mut out, new_o2);
    crate::codec::push_tag(&mut out, h.len());
    crate::bytes_util::push_all(&mut out, h.as_slice());
    crate::bytes_util::push_range(&mut out, w, o1, o2);
    crate::bytes_util::push_range(&mut out, w, o2, len);
    proof {
        assert(out@ =~= wa_set_lock(w@, h@));
    }
    Ok(out)
}

} // verus!
