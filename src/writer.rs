//! Re-serialising accepted units as an elementary stream with start codes.
use crate::header::{NalHeader, UNIT_NON_IDR_SLICE, UNIT_PPS, UNIT_SEI, UNIT_SPS};
use crate::container::occurs_at;
use std::ops::Range;
use vstd::prelude::*;
use vstd::slice::slice_subrange;

verus! {

/// Why a set of units could not be written from the input.
#[derive(Clone, Copy, Debug, PartialEq, Eq, Structural)]
pub enum WriteError {
    /// A unit's range is reversed or runs past the end of the input.
    Truncated,
}

/// Unit types written after a four-byte start code; all others get three.
pub open spec fn uses_long_start_code(t: u8) -> bool {
    t == UNIT_SPS || t == UNIT_PPS || t == UNIT_SEI || t == UNIT_NON_IDR_SLICE
}

/// The start code written before a unit with header `h`.
pub open spec fn start_code(h: NalHeader) -> Seq<u8> {
    if uses_long_start_code(h.spec_unit_type()) {
        seq![0u8, 0u8, 0u8, 1u8]
    } else {
        seq![0u8, 0u8, 1u8]
    }
}

/// A unit's range lies within an input of `n` bytes.
pub open spec fn unit_in_bounds(u: (NalHeader, Range<u64>), n: int) -> bool {
    u.1.start <= u.1.end && u.1.end <= n
}

/// The elementary stream for `units` taken from `data`: each unit's start
/// code followed by its bytes, in order.
pub open spec fn annex_b(units: Seq<(NalHeader, Range<u64>)>, data: Seq<u8>) -> Seq<u8>
    decreases units.len(),
{
    if units.len() == 0 {
        Seq::empty()
    } else {
        let u = units.last();
        annex_b(units.drop_last(), data) + start_code(u.0) + data.subrange(
            u.1.start as int,
            u.1.end as int,
        )
    }
}

/// The start code to write before a unit with this header.
pub fn get_start_code_for_nal(header: &NalHeader) -> (r: Vec<u8>)
    ensures
        r@ == start_code(*header),
{
    let t = header.nal_unit_type();
    if t == UNIT_SPS || t == UNIT_PPS || t == UNIT_SEI || t == UNIT_NON_IDR_SLICE {
        vec![0u8, 0u8, 0u8, 1u8]
    } else {
        vec![0u8, 0u8, 1u8]
    }
}

/// Appends `data[start..end]` to `out`.
pub fn copy_slice(out: &mut Vec<u8>, data: &[u8], start: usize, end: usize)
    requires
        start <= end <= data@.len(),
    ensures
        final(out)@ == old(out)@ + data@.subrange(start as int, end as int),
{
    let mut i: usize = start;
    while i < end
        invariant
            start <= i <= end,
            end <= data@.len(),
            out@ == old(out)@ + data@.subrange(start as int, i as int),
        decreases end - i,
    {
        out.push(data[i]);
        assert(data@.subrange(start as int, i + 1) == data@.subrange(start as int, i as int).push(
            data@[i as int],
        ));
        i = i + 1;
    }
}

/// Writes `units`, taken from `data`, as an elementary stream. Fails when a
/// unit's range does not lie within `data`.
pub fn write_units(units: &[(NalHeader, Range<u64>)], data: &[u8]) -> (r: Result<Vec<u8>, WriteError>)
    ensures
        r is Ok <==> forall|k: int| 0 <= k < units@.len() ==> unit_in_bounds(#[trigger] units@[k], data@.len() as int),
        r matches Ok(v) ==> v@ == annex_b(units@, data@),
        r matches Err(e) ==> e == WriteError::Truncated,
{
    let mut out: Vec<u8> = Vec::new();
    let mut k: usize = 0;
    while k < units.len()
        invariant
            k <= units@.len(),
            forall|j: int| 0 <= j < k ==> unit_in_bounds(#[trigger] units@[j], data@.len() as int),
            out@ == annex_b(units@.subrange(0, k as int), data@),
        decreases units@.len() - k,
    {
        let u = &units[k];
        if u.1.start > u.1.end || u.1.end > data.len() as u64 {
            assert(!unit_in_bounds(units@[k as int], data@.len() as int));
            return Err(WriteError::Truncated);
        }
        let code = get_start_code_for_nal(&u.0);
        let mut c: usize = 0;
        while c < code.len()
            invariant
                c <= code@.len(),
                out@ == annex_b(units@.subrange(0, k as int), data@) + code@.subrange(0, c as int),
            decreases code@.len() - c,
        {
            out.push(code[c]);
            assert(code@.subrange(0, c + 1) == code@.subrange(0, c as int).push(code@[c as int]));
            c = c + 1;
        }
        assert(code@.subrange(0, code@.len() as int) == code@);
        copy_slice(&mut out, data, u.1.start as usize, u.1.end as usize);
        proof {
            let s = units@.subrange(0, k + 1);
            assert(s.drop_last() == units@.subrange(0, k as int));
            assert(s.last() == units@[k as int]);
        }
        k = k + 1;
    }
    assert(units@.subrange(0, units@.len() as int) == units@);
    Ok(out)
}


/// Three bytes at `i` of `s` that a decoder could take for a start code or an
/// escape: `00 00 01`, `00 00 02` or `00 00 03`.
pub open spec fn is_escape_trigger(s: Seq<u8>, i: int) -> bool {
    0 <= i && i + 3 <= s.len() && s[i] == 0 && s[i + 1] == 0 && 1 <= s[i + 2] <= 3
}

/// `s` from position `i` on with emulation prevention applied: each trigger
/// `00 00 x`, taken from the left, becomes `00 00 03 x`.
pub open spec fn escape_from(s: Seq<u8>, i: int) -> Seq<u8>
    decreases s.len() - i,
{
    if i < 0 || i + 3 > s.len() {
        if 0 <= i <= s.len() {
            s.subrange(i, s.len() as int)
        } else {
            Seq::empty()
        }
    } else if is_escape_trigger(s, i) {
        seq![0u8, 0u8, 3u8, s[i + 2]] + escape_from(s, i + 3)
    } else {
        seq![s[i]] + escape_from(s, i + 1)
    }
}

/// A stretch without triggers is copied as it stands.
proof fn lemma_escape_skip(s: Seq<u8>, i: int, t: int)
    requires
        0 <= i <= t <= s.len(),
        forall|j: int| i <= j < t ==> !is_escape_trigger(s, j),
    ensures
        escape_from(s, i) == s.subrange(i, t) + escape_from(s, t),
    decreases t - i,
{
    if i == t {
        assert(s.subrange(i, t) =~= Seq::<u8>::empty());
    } else if i + 3 > s.len() {
        assert(t + 3 > s.len());
        assert(s.subrange(i, s.len() as int) =~= s.subrange(i, t) + s.subrange(t, s.len() as int));
    } else {
        lemma_escape_skip(s, i + 1, t);
        assert(seq![s[i]] + s.subrange(i + 1, t) =~= s.subrange(i, t));
        assert(seq![s[i]] + (s.subrange(i + 1, t) + escape_from(s, t)) =~= (seq![s[i]] + s.subrange(i + 1, t))
            + escape_from(s, t));
    }
}

/// Relies on `AhoCorasick::new` and `AhoCorasick::find` with the default
/// (standard) match kind: the match that ends first, or none where no pattern
/// occurs. Building fails only past limits on states, patterns and pattern
/// length, which a few short patterns stay far below.
#[verifier::external_body]
fn find_first_of(patterns: &Vec<Vec<u8>>, hay: &[u8]) -> (r: Option<Option<(usize, usize)>>)
    requires
        patterns@.len() <= 3,
        forall|k: int| 0 <= k < patterns@.len() ==> #[trigger] patterns@[k]@.len() <= 3,
    ensures
        r is Some,
        r matches Some(Some((s, e))) ==> s <= e && exists|k: int|
            0 <= k < patterns@.len() && occurs_at(hay@, #[trigger] patterns@[k]@, s as int)
                && e == s + patterns@[k]@.len(),
        r matches Some(Some((s, e))) ==> forall|k: int, j: int|
            0 <= k < patterns@.len() && 0 <= j && j + patterns@[k]@.len() < e ==> !#[trigger] occurs_at(
                hay@,
                patterns@[k]@,
                j,
            ),
        r matches Some(None) ==> forall|k: int, j: int|
            0 <= k < patterns@.len() && 0 <= j ==> !#[trigger] occurs_at(hay@, patterns@[k]@, j),
{
    let automaton = aho_corasick::AhoCorasick::new(patterns).ok()?;
    Some(automaton.find(hay).map(|m| (m.start(), m.end())))
}

/// Appends `nal_unit` to `out` after a four-byte start code, with every
/// `00 00 01`, `00 00 02` and `00 00 03` in it escaped as `00 00 03 x`.
pub fn write_nal_with_emulation(out: &mut Vec<u8>, nal_unit: &[u8])
    ensures
        final(out)@ == old(out)@ + seq![0u8, 0u8, 0u8, 1u8] + escape_from(nal_unit@, 0),
{
    let patterns: Vec<Vec<u8>> = vec![vec![0u8, 0u8, 1u8], vec![0u8, 0u8, 2u8], vec![0u8, 0u8, 3u8]];
    assert(patterns@[0]@ == seq![0u8, 0u8, 1u8]);
    assert(patterns@[1]@ == seq![0u8, 0u8, 2u8]);
    assert(patterns@[2]@ == seq![0u8, 0u8, 3u8]);
    let n = nal_unit.len();
    let mut body: Vec<u8> = vec![0u8, 0u8, 0u8, 1u8];
    let mut i: usize = 0;
    while i < n
        invariant
            n == nal_unit@.len(),
            i <= n,
            patterns@.len() == 3,
            patterns@[0]@ == seq![0u8, 0u8, 1u8],
            patterns@[1]@ == seq![0u8, 0u8, 2u8],
            patterns@[2]@ == seq![0u8, 0u8, 3u8],
            seq![0u8, 0u8, 0u8, 1u8] + escape_from(nal_unit@, 0) == body@ + escape_from(nal_unit@, i as int),
        decreases n - i,
    {
        let rest = slice_subrange(nal_unit, i, n);
        match find_first_of(&patterns, rest) {
            None => {
                return ;
            },
            Some(None) => {
                proof {
                    assert forall|j: int| i <= j < n implies !is_escape_trigger(nal_unit@, j) by {
                        if is_escape_trigger(nal_unit@, j) {
                            let k = nal_unit@[j + 2] - 1;
                            assert(rest@.subrange(j - i, j - i + 3) =~= patterns@[k]@);
                            assert(occurs_at(rest@, patterns@[k]@, j - i));
                        }
                    }
                    lemma_escape_skip(nal_unit@, i as int, n as int);
                    assert(escape_from(nal_unit@, n as int) =~= Seq::<u8>::empty());
                    assert(nal_unit@.subrange(i as int, n as int) + Seq::<u8>::empty() =~= nal_unit@.subrange(
                        i as int,
                        n as int,
                    ));
                }
                copy_slice(&mut body, nal_unit, i, n);
                i = n;
            },
            Some(Some((s, e))) => {
                let t = i + s;
                proof {
                    let k = choose|k: int|
                        0 <= k < patterns@.len() && occurs_at(rest@, #[trigger] patterns@[k]@, s as int)
                            && e == s + patterns@[k]@.len();
                    assert(rest@.subrange(s as int, s + 3) == patterns@[k]@);
                    assert(rest@[s as int] == patterns@[k]@[0]);
                    assert(rest@[s + 1] == patterns@[k]@[1]);
                    assert(rest@[s + 2] == patterns@[k]@[2]);
                    assert(is_escape_trigger(nal_unit@, t as int));
                    assert forall|j: int| i <= j < t implies !is_escape_trigger(nal_unit@, j) by {
                        if is_escape_trigger(nal_unit@, j) {
                            let k2 = nal_unit@[j + 2] - 1;
                            assert(rest@.subrange(j - i, j - i + 3) =~= patterns@[k2]@);
                            assert(occurs_at(rest@, patterns@[k2]@, j - i));
                        }
                    }
                    lemma_escape_skip(nal_unit@, i as int, t as int);
                }
                copy_slice(&mut body, nal_unit, i, t);
                let x = nal_unit[t + 2];
                body.push(0u8);
                body.push(0u8);
                body.push(3u8);
                body.push(x);
                proof {
                    let b = seq![0u8, 0u8, 3u8, x];
                    assert(escape_from(nal_unit@, t as int) == b + escape_from(nal_unit@, t + 3));
                }
                i = t + 3;
            },
        }
    }
    out.append(&mut body);
}

} // verus!
