//! The serialized cell header (`cell_output`): a binary table whose second
//! field is the lock script that decides script-group membership.
//!
//! Group location only needs the table header: the total length, the offset
//! table (three fields, so the first offset is 16), and the bounds of the
//! `lock` field, which sits between the second and third offsets.

use crate::codec::read_u32;
use vstd::prelude::*;

verus! {

/// Start of the `lock` field inside a serialized cell header.
pub open spec fn co_lock_start(s: Seq<u8>) -> int {
    read_u32(s, 8) as int
}

/// End of the `lock` field inside a serialized cell header.
pub open spec fn co_lock_end(s: Seq<u8>) -> int {
    read_u32(s, 12) as int
}

/// The part of a cell header that lock extraction relies on is well formed:
/// the total length matches, the offset table has exactly three entries, and
/// the `lock` bounds are ordered and within the buffer.
pub open spec fn co_valid(s: Seq<u8>) -> bool {
    &&& s.len() >= 16
    &&& read_u32(s, 0) == s.len()
    &&& read_u32(s, 4) == 16
    &&& 16 <= co_lock_start(s)
    &&& co_lock_start(s) <= co_lock_end(s)
    &&& co_lock_end(s) <= s.len()
}

/// The serialized lock script of a well-formed cell header.
pub open spec fn co_lock(s: Seq<u8>) -> Seq<u8> {
    s.subrange(co_lock_start(s), co_lock_end(s))
}

/// Returns the `lock` bounds of a serialized cell header, exactly when the
/// header is well formed.
pub fn cell_lock_bounds(s: &Vec<u8>) -> (r: Option<(usize, usize)>)
    ensures
        match r {
            Some((start, end)) => {
                &&& co_valid(s@)
                &&& start as int == co_lock_start(s@)
                &&& end as int == co_lock_end(s@)
            },
            None => !co_valid(s@),
        },
{
    let len = s.len();
    if len < 16 {
        return None;
    }
    let total = crate::codec::get_u32(s, 0);
    if total as u64 != len as u64 {
        return None;
    }
    let first_offset = crate::codec::get_u32(s, 4);
    if first_offset != 16 {
        return None;
    }
    let start = crate::codec::get_u32(s, 8);
    let end = crate::codec::get_u32(s, 12);
    if start < 16 || end < start || end as u64 > len as u64 {
        return None;
    }
    Some((start as usize, end as usize))
}

} // verus!
