//! Finding the next position that looks like the start of a length-prefixed
//! NAL unit.
use crate::header::{is_candidate_header, NalHeader};
use vstd::prelude::*;

verus! {

/// The big-endian value of the four bytes of `s` starting at `i`.
pub open spec fn be32(s: Seq<u8>, i: int) -> int {
    s[i] * 16777216 + s[i + 1] * 65536 + s[i + 2] * 256 + s[i + 3]
}

/// Position `i` of `buf` is a candidate when searching from `start`: four
/// bytes of length field lie between `start` and `i`, the byte at `i` can head
/// a unit, and the length does not exceed `threshold`.
pub open spec fn is_candidate(buf: Seq<u8>, start: int, i: int, threshold: u32) -> bool {
    start + 4 <= i < buf.len() && is_candidate_header(buf[i]) && be32(buf, i - 4)
        <= threshold
}

/// What a search from `start` reports: the first candidate at or after
/// `start`, as a position, its header and its declared length.
pub open spec fn locate_result(
    buf: Seq<u8>,
    start: int,
    threshold: u32,
    r: Option<(usize, NalHeader, u32)>,
) -> bool {
    match r {
        Some((i, h, len)) => is_candidate(buf, start, i as int, threshold) && h.value == buf[i as int]
            && len == be32(buf, i - 4) && forall|j: int|
            start <= j < i ==> !is_candidate(buf, start, j, threshold),
        None => forall|j: int| start <= j < buf.len() ==> !is_candidate(buf, start, j, threshold),
    }
}

/// Reads the big-endian length field that starts at `i`.
pub fn read_be32(buf: &[u8], i: usize) -> (r: u32)
    requires
        i + 4 <= buf@.len(),
    ensures
        r == be32(buf@, i as int),
{
    let b0 = buf[i] as u32;
    let b1 = buf[i + 1] as u32;
    let b2 = buf[i + 2] as u32;
    let b3 = buf[i + 3] as u32;
    b0 * 16777216 + b1 * 65536 + b2 * 256 + b3
}

/// The first candidate in `buf` whose length field lies at or after `start`,
/// with its position in `buf`.
pub fn locate_from(buf: &[u8], start: usize, len_threshold: u32) -> (r: Option<(usize, NalHeader, u32)>)
    ensures
        locate_result(buf@, start as int, len_threshold, r),
{
    let n = buf.len();
    if n < 4 || start > n - 4 {
        return None;
    }
    let mut i: usize = start + 4;
    while i < n
        invariant
            n == buf@.len(),
            start + 4 <= i <= n,
            forall|j: int| start <= j < i ==> !is_candidate(buf@, start as int, j, len_threshold),
        decreases n - i,
    {
        let b = buf[i];
        if b < 128 && b % 32 != 0 && b % 32 < 24 {
            let len = read_be32(buf, i - 4);
            if len <= len_threshold {
                return Some((i, NalHeader { value: b }, len));
            }
        }
        i = i + 1;
    }
    None
}

/// The first position of `buf` that could start a unit: at least four bytes
/// in, with a well-formed header of a specified type, preceded by a
/// big-endian length no greater than `len_threshold`.
pub fn locate_nal_unit(buf: &[u8], len_threshold: u32) -> (r: Option<(usize, NalHeader, u32)>)
    ensures
        locate_result(buf@, 0, len_threshold, r),
{
    locate_from(buf, 0, len_threshold)
}

/// A buffer shorter than five bytes holds no candidate.
pub proof fn lemma_short_buffer_has_no_candidate(buf: Seq<u8>, threshold: u32, r: Option<(usize, NalHeader, u32)>)
    requires
        buf.len() < 5,
        locate_result(buf, 0, threshold, r),
    ensures
        r is None,
{
}

} // verus!
