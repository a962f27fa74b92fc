//! The believability rules and the scanning session that collects accepted
//! units.
use crate::bits::{is_switching_slice, switching_slice};
use crate::decode::{
    decode_rbsp, new_context, pps_from_rbsp, put_pps, put_sps, rbsp_of, slice_frame_num,
    sps_decodes, sps_from_rbsp,
};
use crate::header::{
    NalHeader, UNIT_AUD, UNIT_FILLER, UNIT_IDR_SLICE, UNIT_NON_IDR_SLICE, UNIT_PPS, UNIT_SEI,
    UNIT_SPS,
};
use crate::locate::{be32, is_candidate, locate_from, locate_result};
use h264_reader::Context;
use std::ops::Range;
use vstd::prelude::*;
use vstd::slice::slice_subrange;

verus! {

/// Largest declared length the scanner considers at all.
pub const INITIAL_LENGTH_THRESHOLD: u32 = 10000000;
/// Declared lengths of parameter sets stay below this.
pub const PARAMETER_SET_MAX_LEN: u32 = 512;
/// Declared lengths of delimiters and SEI stay below this.
pub const DELIMITER_MAX_LEN: u32 = 5120;
/// Declared lengths of filler data stay below this.
pub const FILLER_MAX_LEN: u32 = 2097152;
/// Declared lengths of IDR slices stay below this.
pub const IDR_SLICE_MAX_LEN: u32 = 5242880;
/// Declared lengths of non-IDR slices stay below this.
pub const NON_IDR_SLICE_MAX_LEN: u32 = 512000;
/// Filler data is believed when at least this many tenths of it are `0xFF`.
pub const FILLER_TENTHS: u64 = 9;
/// At most this many bytes of a window are searched before it is refilled.
pub const WINDOW_LEN: usize = 1024;
/// Bytes of a big-endian length field.
pub const LENGTH_FIELD_LEN: usize = 4;
/// After a rejection the search resumes this many bytes before the rejected
/// header byte, so that a different length-field alignment is seen.
pub const MIN_RESYNC_STEP: usize = 3;

/// The number of `0xFF` bytes in `s`.
pub open spec fn count_ff(s: Seq<u8>) -> nat
    decreases s.len(),
{
    if s.len() == 0 {
        0
    } else {
        count_ff(s.drop_last()) + if s.last() == 0xFF {
            1nat
        } else {
            0nat
        }
    }
}

/// Filler data: a non-empty payload of which at least `tenths` tenths of the
/// bytes are `0xFF`.
pub open spec fn filler_ok(s: Seq<u8>, tenths: u64) -> bool {
    s.len() > 0 && 10 * count_ff(s) >= tenths * s.len()
}

/// The tunable bounds of a session.
#[derive(Clone, Copy, Debug, PartialEq, Eq, Structural)]
pub struct ScanLimits {
    /// Largest declared length the locator considers.
    pub length_threshold: u32,
    /// Parameter sets must declare less than this.
    pub parameter_set_max_len: u32,
    /// Delimiters and SEI must declare less than this.
    pub delimiter_max_len: u32,
    /// Filler data must declare less than this.
    pub filler_max_len: u32,
    /// IDR slices must declare less than this.
    pub idr_slice_max_len: u32,
    /// Non-IDR slices must declare less than this.
    pub non_idr_slice_max_len: u32,
    /// Tenths of a filler payload that must be `0xFF`.
    pub filler_tenths: u64,
    /// Bytes of a window searched before the reader moves on.
    pub window_len: usize,
}

/// The bounds used unless others are given.
pub open spec fn standard_limits() -> ScanLimits {
    ScanLimits {
        length_threshold: INITIAL_LENGTH_THRESHOLD,
        parameter_set_max_len: PARAMETER_SET_MAX_LEN,
        delimiter_max_len: DELIMITER_MAX_LEN,
        filler_max_len: FILLER_MAX_LEN,
        idr_slice_max_len: IDR_SLICE_MAX_LEN,
        non_idr_slice_max_len: NON_IDR_SLICE_MAX_LEN,
        filler_tenths: FILLER_TENTHS,
        window_len: WINDOW_LEN,
    }
}

impl ScanLimits {
    /// A window must hold more than a length field for the scan to advance.
    pub open spec fn wf(&self) -> bool {
        self.window_len > LENGTH_FIELD_LEN
    }

    pub fn standard() -> (r: ScanLimits)
        ensures
            r == standard_limits(),
            r.wf(),
    {
        ScanLimits {
            length_threshold: INITIAL_LENGTH_THRESHOLD,
            parameter_set_max_len: PARAMETER_SET_MAX_LEN,
            delimiter_max_len: DELIMITER_MAX_LEN,
            filler_max_len: FILLER_MAX_LEN,
            idr_slice_max_len: IDR_SLICE_MAX_LEN,
            non_idr_slice_max_len: NON_IDR_SLICE_MAX_LEN,
            filler_tenths: FILLER_TENTHS,
            window_len: WINDOW_LEN,
        }
    }
}

impl Default for ScanLimits {
    fn default() -> (r: Self)
        ensures
            r == standard_limits(),
    {
        ScanLimits::standard()
    }
}

/// The frame-order rule: a slice with `frame_num` zero starts a new sequence;
/// otherwise the numbers must not go down.
pub open spec fn frame_order_ok(last_frame_num: u16, frame_num: u16) -> bool {
    frame_num == 0 || frame_num >= last_frame_num
}

/// What the validator owes for a candidate with header `h`, declared length
/// `len` and the bytes `nal` of it that are at hand; `r` is its verdict, and
/// `old_last` and `new_last` the frame numbers before and after.
pub open spec fn believable_outcome(
    limits: ScanLimits,
    h: NalHeader,
    len: u32,
    nal: Seq<u8>,
    old_last: u16,
    new_last: u16,
    r: bool,
) -> bool {
    let t = h.spec_unit_type();
    let idc = h.spec_ref_idc();
    if t == UNIT_SPS {
        r == (len < limits.parameter_set_max_len && nal.len() >= 1 && match rbsp_of(nal) {
            Some(p) => sps_decodes(p),
            None => false,
        }) && new_last == old_last
    } else if t == UNIT_PPS {
        (r ==> len < limits.parameter_set_max_len && nal.len() >= 1 && rbsp_of(nal) is Some) && new_last
            == old_last
    } else if t == UNIT_AUD || t == UNIT_SEI {
        r == (idc == 0 && len < limits.delimiter_max_len) && new_last == old_last
    } else if t == UNIT_FILLER {
        r == (idc == 0 && len < limits.filler_max_len && filler_ok(nal, limits.filler_tenths)) && new_last == old_last
    } else if t == UNIT_IDR_SLICE {
        (r ==> idc > 0 && len < limits.idr_slice_max_len && nal.len() >= 1 && !is_switching_slice(
            nal,
        ) && frame_order_ok(
            old_last,
            new_last,
        )) && (!r ==> new_last == old_last)
    } else if t == UNIT_NON_IDR_SLICE {
        (r ==> len < limits.non_idr_slice_max_len && nal.len() >= 1 && !is_switching_slice(nal)
            && frame_order_ok(old_last, new_last))
            && (!r ==> new_last == old_last)
    } else {
        !r && new_last == old_last
    }
}

/// The validator's verdict on a candidate where it depends neither on the
/// stored parameter sets nor on the last frame number; `None` where it does.
pub open spec fn settled_verdict(limits: ScanLimits, h: NalHeader, len: u32, nal: Seq<u8>) -> Option<bool> {
    let t = h.spec_unit_type();
    let idc = h.spec_ref_idc();
    if t == UNIT_SPS {
        Some(len < limits.parameter_set_max_len && nal.len() >= 1 && match rbsp_of(nal) {
            Some(p) => sps_decodes(p),
            None => false,
        })
    } else if t == UNIT_PPS {
        if len < limits.parameter_set_max_len && nal.len() >= 1 && rbsp_of(nal) is Some {
            None
        } else {
            Some(false)
        }
    } else if t == UNIT_AUD || t == UNIT_SEI {
        Some(idc == 0 && len < limits.delimiter_max_len)
    } else if t == UNIT_FILLER {
        Some(idc == 0 && len < limits.filler_max_len && filler_ok(nal, limits.filler_tenths))
    } else if t == UNIT_IDR_SLICE {
        if idc > 0 && len < limits.idr_slice_max_len && nal.len() >= 1 && !is_switching_slice(nal) {
            None
        } else {
            Some(false)
        }
    } else if t == UNIT_NON_IDR_SLICE {
        if len < limits.non_idr_slice_max_len && nal.len() >= 1 && !is_switching_slice(nal) {
            None
        } else {
            Some(false)
        }
    } else {
        Some(false)
    }
}

/// The first candidate of `buf` at or after `i`, searching from `start`.
pub open spec fn first_candidate(buf: Seq<u8>, start: int, threshold: u32, i: int) -> Option<int>
    decreases buf.len() - i,
{
    if i >= buf.len() {
        None
    } else if is_candidate(buf, start, i, threshold) {
        Some(i)
    } else {
        first_candidate(buf, start, threshold, i + 1)
    }
}

/// The bytes of the candidate at `c` with declared length `len` that the
/// window holds.
pub open spec fn candidate_nal(buf: Seq<u8>, c: int, len: int) -> Seq<u8> {
    buf.subrange(c, if c + len < buf.len() { c + len } else { buf.len() as int })
}

/// The verdict owed on the candidate at `c`, where it is settled.
pub open spec fn candidate_verdict(limits: ScanLimits, buf: Seq<u8>, c: int) -> Option<bool> {
    settled_verdict(
        limits,
        NalHeader { value: buf[c] },
        be32(buf, c - 4) as u32,
        candidate_nal(buf, c, be32(buf, c - 4)),
    )
}

/// A search of the window `buf` from `offset` may end by accepting the
/// candidate at `res`, or with none when `res` is `None`: candidates are taken
/// in order, each rejected one sends the search back `MIN_RESYNC_STEP` bytes
/// before its header byte, an accepted one has no settled rejection, and a
/// rejected one no settled acceptance.
pub open spec fn window_scan(limits: ScanLimits, buf: Seq<u8>, offset: int, res: Option<int>) -> bool
    decreases buf.len() - offset,
{
    match first_candidate(buf, offset, limits.length_threshold, offset) {
        None => res is None,
        Some(c) => if c - MIN_RESYNC_STEP <= offset || c >= buf.len() {
            false
        } else if res == Some(c) {
            candidate_verdict(limits, buf, c) != Some(false)
        } else {
            candidate_verdict(limits, buf, c) != Some(true) && window_scan(
                limits,
                buf,
                c - MIN_RESYNC_STEP,
                res,
            )
        },
    }
}

proof fn lemma_first_candidate_is_candidate(buf: Seq<u8>, start: int, threshold: u32, i: int)
    ensures
        first_candidate(buf, start, threshold, i) matches Some(c) ==> c >= i && is_candidate(
            buf,
            start,
            c,
            threshold,
        ),
    decreases buf.len() - i,
{
    if i < buf.len() && !is_candidate(buf, start, i, threshold) {
        lemma_first_candidate_is_candidate(buf, start, threshold, i + 1);
    }
}

proof fn lemma_first_candidate_located(
    buf: Seq<u8>,
    start: int,
    threshold: u32,
    k: int,
    r: Option<(usize, NalHeader, u32)>,
)
    requires
        locate_result(buf, start, threshold, r),
        start <= k,
        r matches Some((i, h, l)) ==> k <= i,
    ensures
        first_candidate(buf, start, threshold, k) == (match r {
            Some((i, h, l)) => Some(i as int),
            None => None::<int>,
        }),
    decreases buf.len() - k,
{
    if k < buf.len() && !is_candidate(buf, start, k, threshold) {
        lemma_first_candidate_located(buf, start, threshold, k + 1, r);
    }
}

proof fn lemma_window_scan_after(limits: ScanLimits, buf: Seq<u8>, offset: int, x: int)
    requires
        window_scan(limits, buf, offset, Some(x)),
    ensures
        x > offset + MIN_RESYNC_STEP,
    decreases buf.len() - offset,
{
    lemma_first_candidate_is_candidate(buf, offset, limits.length_threshold, offset);
    let c = first_candidate(buf, offset, limits.length_threshold, offset)->0;
    if x != c {
        lemma_window_scan_after(limits, buf, c - MIN_RESYNC_STEP, x);
    }
}

/// Accepted units: each range is not reversed, each starts after the one
/// before it, and each ends at or before the next one starts.
pub open spec fn units_ordered(u: Seq<(NalHeader, Range<u64>)>) -> bool {
    &&& forall|i: int| 0 <= i < u.len() ==> #[trigger] u[i].1.start <= u[i].1.end
    &&& forall|i: int, j: int|
        0 <= i < j < u.len() ==> #[trigger] u[i].1.end <= #[trigger] u[j].1.start && u[i].1.start
            < u[j].1.start
}

/// Unit `u` sits at a candidate of `data` found with the scan threshold, its
/// header is the byte there, and its range is as long as its length field.
pub open spec fn unit_located(threshold: u32, data: Seq<u8>, u: (NalHeader, Range<u64>)) -> bool {
    &&& is_candidate(data, 0, u.1.start as int, threshold)
    &&& u.0.value == data[u.1.start as int]
    &&& u.1.end - u.1.start == be32(data, u.1.start - 4)
}

/// The end of the last accepted unit, or zero.
pub open spec fn floor_of(u: Seq<(NalHeader, Range<u64>)>) -> u64 {
    if u.len() == 0 {
        0
    } else {
        u.last().1.end
    }
}

/// What a call of `scan_window` may do for a window of more than four bytes
/// at `pos`: accept the unit that the window's search ends with, record it
/// and seek to its end; or, where the search ends with none, leave the last
/// frame number as it was and move on by the searched part of the window less
/// one length field.
pub open spec fn window_step(
    limits: ScanLimits,
    old_units: Seq<(NalHeader, Range<u64>)>,
    new_units: Seq<(NalHeader, Range<u64>)>,
    old_last: u16,
    new_last: u16,
    pos: u64,
    buffer: Seq<u8>,
    r: ScanAction,
) -> bool {
    match r {
        ScanAction::Finished => false,
        ScanAction::SeekTo(p) => {
            ||| new_units == old_units && p == pos + (if buffer.len() < limits.window_len {
                buffer.len() as int
            } else {
                limits.window_len as int
            }) - LENGTH_FIELD_LEN && new_last == old_last && window_scan(limits, buffer, 0, None)
            ||| {
                let u = new_units.last();
                let i = u.1.start - pos;
                &&& new_units == old_units.push(u)
                &&& pos <= u.1.start
                &&& is_candidate(buffer, 0, i, limits.length_threshold)
                &&& u.0.value == buffer[i]
                &&& u.1.end - u.1.start == be32(buffer, i - 4)
                &&& p == u.1.end
                &&& window_scan(limits, buffer, 0, Some(i))
                &&& believable_outcome(
                    limits,
                    u.0,
                    be32(buffer, i - 4) as u32,
                    candidate_nal(buffer, i, be32(buffer, i - 4)),
                    old_last,
                    new_last,
                    true,
                )
            }
        },
    }
}

/// What the session asks of its reader next.
pub enum ScanAction {
    /// Move the reader to this stream position and hand over a new window.
    SeekTo(u64),
    /// The window was too small to hold a unit: the scan is over.
    Finished,
}

/// A scanning session: the decoded parameter sets, the last slice
/// `frame_num`, and the units accepted so far.
pub struct H264Stream {
    ctx: Context,
    last_frame_num: u16,
    nal_units: Vec<(NalHeader, Range<u64>)>,
    limits: ScanLimits,
}

impl H264Stream {
    pub closed spec fn spec_units(&self) -> Seq<(NalHeader, Range<u64>)> {
        self.nal_units@
    }

    pub closed spec fn spec_last_frame_num(&self) -> u16 {
        self.last_frame_num
    }

    pub closed spec fn spec_limits(&self) -> ScanLimits {
        self.limits
    }

    /// The decoded parameter sets.
    pub closed spec fn spec_ctx(&self) -> Context {
        self.ctx
    }

    /// The accepted units are ordered and apart, and the limits let the scan
    /// advance.
    pub open spec fn wf(&self) -> bool {
        units_ordered(self.spec_units()) && self.spec_limits().wf()
    }

    /// Position at or after which the next unit may start.
    pub open spec fn spec_scan_floor(&self) -> u64 {
        floor_of(self.spec_units())
    }

    /// A session with the standard limits, no parameter sets and no units.
    pub fn new() -> (r: H264Stream)
        ensures
            r.wf(),
            r.spec_units().len() == 0,
            r.spec_last_frame_num() == 0,
            r.spec_limits() == standard_limits(),
    {
        H264Stream::with_limits(ScanLimits::standard())
    }

    /// A session with the given limits, no parameter sets and no units.
    pub fn with_limits(limits: ScanLimits) -> (r: H264Stream)
        requires
            limits.wf(),
        ensures
            r.wf(),
            r.spec_units().len() == 0,
            r.spec_last_frame_num() == 0,
            r.spec_limits() == limits,
    {
        H264Stream { ctx: new_context(), last_frame_num: 0, nal_units: Vec::new(), limits }
    }

    /// The limits the session works with.
    pub fn limits(&self) -> (r: ScanLimits)
        ensures
            r == self.spec_limits(),
    {
        self.limits
    }

    /// The accepted units, each with the stream range of its bytes after the
    /// length field, in the order they were accepted.
    pub fn nal_units(&self) -> (r: &[(NalHeader, Range<u64>)])
        ensures
            r@ == self.spec_units(),
    {
        self.nal_units.as_slice()
    }

    /// The `frame_num` of the last accepted slice.
    pub fn last_frame_num(&self) -> (r: u16)
        ensures
            r == self.spec_last_frame_num(),
    {
        self.last_frame_num
    }
}

/// The frame-order rule on a decoded `frame_num`.
pub fn frame_order_accepts(last_frame_num: u16, frame_num: u16) -> (r: bool)
    ensures
        r == frame_order_ok(last_frame_num, frame_num),
{
    frame_num == 0 || frame_num >= last_frame_num
}

/// Whether `nal` looks like filler data: not empty, and at least `tenths`
/// tenths `0xFF`.
pub fn is_filler_payload(nal: &[u8], tenths: u64) -> (r: bool)
    ensures
        r == filler_ok(nal@, tenths),
{
    let n = nal.len();
    let mut count: usize = 0;
    let mut i: usize = 0;
    while i < n
        invariant
            n == nal@.len(),
            i <= n,
            count <= i,
            count == count_ff(nal@.subrange(0, i as int)),
        decreases n - i,
    {
        assert(nal@.subrange(0, i + 1).drop_last() == nal@.subrange(0, i as int));
        if nal[i] == 0xFF {
            count = count + 1;
        }
        i = i + 1;
    }
    assert(nal@.subrange(0, n as int) == nal@);
    assert((tenths as u128) * (n as u128) <= 0xFFFF_FFFF_FFFF_FFFFu128 * 0xFFFF_FFFF_FFFF_FFFFu128)
        by (nonlinear_arith)
        requires
            tenths <= 0xFFFF_FFFF_FFFF_FFFFu64,
            n <= 0xFFFF_FFFF_FFFF_FFFFu64,
    ;
    n > 0 && (count as u128) * 10 >= (tenths as u128) * (n as u128)
}


impl H264Stream {
    /// Applies the frame-order rule to the `frame_num` of a decoded slice
    /// header (`None` where decoding failed), and records it when accepted.
    pub fn accept_frame_num(&mut self, decoded: Option<u16>) -> (r: bool)
        ensures
            final(self).spec_units() == old(self).spec_units(),
            final(self).spec_limits() == old(self).spec_limits(),
            final(self).spec_ctx() == old(self).spec_ctx(),
            r == match decoded {
                Some(f) => frame_order_ok(old(self).spec_last_frame_num(), f),
                None => false,
            },
            r ==> decoded == Some(final(self).spec_last_frame_num()),
            !r ==> final(self).spec_last_frame_num() == old(self).spec_last_frame_num(),
    {
        match decoded {
            Some(frame_num) => {
                if frame_order_accepts(self.last_frame_num, frame_num) {
                    self.last_frame_num = frame_num;
                    true
                } else {
                    false
                }
            },
            None => false,
        }
    }

    /// Decodes the slice header of `nal` and applies the frame-order rule.
    fn is_slice_header_believeable(&mut self, header: NalHeader, nal_unit: &[u8]) -> (r: bool)
        requires
            header.wf(),
            nal_unit@.len() >= 1,
            !is_switching_slice(nal_unit@),
        ensures
            final(self).spec_ctx() == old(self).spec_ctx(),
            final(self).spec_units() == old(self).spec_units(),
            final(self).spec_limits() == old(self).spec_limits(),
            r ==> frame_order_ok(old(self).spec_last_frame_num(), final(self).spec_last_frame_num()),
            !r ==> final(self).spec_last_frame_num() == old(self).spec_last_frame_num(),
    {
        let decoded = slice_frame_num(&self.ctx, header.value, nal_unit);
        self.accept_frame_num(decoded)
    }

    /// Decides whether a candidate with `header` and declared length `len`,
    /// of which `nal` is the part at hand, is a real unit. Parameter sets that
    /// decode are stored, and an accepted slice's `frame_num` is recorded.
    /// Switching (SP and SI) slices are rejected without decoding them.
    /// `offset` is the stream position of the window that holds it.
    pub fn is_nal_believable(&mut self, header: NalHeader, len: u32, offset: u64, nal: &[u8]) -> (r: bool)
        requires
            header.wf(),
        ensures
            final(self).spec_units() == old(self).spec_units(),
            final(self).spec_limits() == old(self).spec_limits(),
            settled_verdict(old(self).spec_limits(), header, len, nal@) matches Some(v) ==> r == v,
            !r ==> final(self).spec_ctx() == old(self).spec_ctx(),
            header.spec_unit_type() != UNIT_SPS && header.spec_unit_type() != UNIT_PPS
                ==> final(self).spec_ctx() == old(self).spec_ctx(),
            believable_outcome(
                old(self).spec_limits(),
                header,
                len,
                nal@,
                old(self).spec_last_frame_num(),
                final(self).spec_last_frame_num(),
                r,
            ),
    {
        let t = header.nal_unit_type();
        let idc = header.nal_ref_idc();
        if t == UNIT_SPS {
            if len >= self.limits.parameter_set_max_len || nal.len() == 0 {
                return false;
            }
            match decode_rbsp(nal) {
                Some(rbsp) => match sps_from_rbsp(rbsp.as_slice()) {
                    Some(sps) => {
                        put_sps(&mut self.ctx, sps);
                        true
                    },
                    None => false,
                },
                None => false,
            }
        } else if t == UNIT_PPS {
            if len >= self.limits.parameter_set_max_len || nal.len() == 0 {
                return false;
            }
            match decode_rbsp(nal) {
                Some(rbsp) => match pps_from_rbsp(&self.ctx, rbsp.as_slice()) {
                    Some(pps) => {
                        put_pps(&mut self.ctx, pps);
                        true
                    },
                    None => false,
                },
                None => false,
            }
        } else if t == UNIT_AUD || t == UNIT_SEI {
            idc == 0 && len < self.limits.delimiter_max_len
        } else if t == UNIT_FILLER {
            idc == 0 && len < self.limits.filler_max_len && is_filler_payload(nal, self.limits.filler_tenths)
        } else if t == UNIT_IDR_SLICE {
            if idc == 0 || len >= self.limits.idr_slice_max_len || nal.len() == 0 || switching_slice(nal) {
                return false;
            }
            self.is_slice_header_believeable(header, nal)
        } else if t == UNIT_NON_IDR_SLICE {
            if len >= self.limits.non_idr_slice_max_len || nal.len() == 0 || switching_slice(nal) {
                return false;
            }
            self.is_slice_header_believeable(header, nal)
        } else {
            false
        }
    }
}


impl H264Stream {
    /// One round of the session on a window of the input that starts at
    /// stream position `buffer_pos`. Candidates are tried in order; after a
    /// rejection the search resumes `MIN_RESYNC_STEP` bytes before the
    /// rejected header byte. The first accepted unit is recorded and the
    /// reader is sent to its end; with none, the reader moves on by the
    /// searched part of the window less one length field. A window of four
    /// bytes or fewer ends the scan.
    pub fn scan_window(&mut self, buffer_pos: u64, buffer: &[u8]) -> (r: ScanAction)
        requires
            old(self).wf(),
            buffer_pos >= old(self).spec_scan_floor(),
            buffer_pos + buffer@.len() + 0xFFFF_FFFFu64 <= u64::MAX,
        ensures
            final(self).wf(),
            buffer@.len() <= LENGTH_FIELD_LEN ==> r == ScanAction::Finished && final(self).spec_units()
                == old(self).spec_units() && final(self).spec_last_frame_num() == old(
                self,
            ).spec_last_frame_num(),
            final(self).spec_limits() == old(self).spec_limits(),
            final(self).spec_units() == old(self).spec_units()
                ==> final(self).spec_ctx() == old(self).spec_ctx(),
            buffer@.len() > LENGTH_FIELD_LEN ==> window_step(
                old(self).spec_limits(),
                old(self).spec_units(),
                final(self).spec_units(),
                old(self).spec_last_frame_num(),
                final(self).spec_last_frame_num(),
                buffer_pos,
                buffer@,
                r,
            ),
    {
        let n = buffer.len();
        if n <= LENGTH_FIELD_LEN {
            return ScanAction::Finished;
        }
        let window_len = self.limits.window_len;
        let threshold = self.limits.length_threshold;
        let window: usize = if n < window_len {
            n
        } else {
            window_len
        };
        let ghost units0 = self.nal_units@;
        let mut offset: usize = 0;
        loop
            invariant
                n == buffer@.len(),
                n > LENGTH_FIELD_LEN,
                window == (if n < window_len { n } else { window_len }),
                window_len == old(self).spec_limits().window_len,
                window_len > LENGTH_FIELD_LEN,
                self.spec_limits().wf(),
                threshold == old(self).spec_limits().length_threshold,
                self.spec_limits() == old(self).spec_limits(),
                offset <= n,
                self.nal_units@ == units0,
                units0 == old(self).spec_units(),
                units_ordered(units0),
                buffer_pos >= floor_of(units0),
                buffer_pos + n + 0xFFFF_FFFFu64 <= u64::MAX,
                self.spec_last_frame_num() == old(self).spec_last_frame_num(),
                self.spec_ctx() == old(self).spec_ctx(),
                forall|res: Option<int>|
                    #[trigger] window_scan(self.spec_limits(), buffer@, offset as int, res) ==> window_scan(
                        self.spec_limits(),
                        buffer@,
                        0,
                        res,
                    ),
            decreases n - offset,
        {
            let found = locate_from(buffer, offset, threshold);
            proof {
                lemma_first_candidate_located(buffer@, offset as int, threshold, offset as int, found);
            }
            match found {
                None => {
                    assert(window_scan(self.spec_limits(), buffer@, offset as int, None));
                    return ScanAction::SeekTo(buffer_pos + window as u64 - LENGTH_FIELD_LEN as u64);
                },
                Some((i, header, len)) => {
                    let avail = n - i;
                    let take: usize = if (len as usize) < avail {
                        len as usize
                    } else {
                        avail
                    };
                    let nal = slice_subrange(buffer, i, i + take);
                    assert(nal@ == candidate_nal(buffer@, i as int, len as int));
                    if !self.is_nal_believable(header, len, buffer_pos, nal) {
                        proof {
                            assert forall|res: Option<int>|
                                #[trigger] window_scan(
                                    self.spec_limits(),
                                    buffer@,
                                    i - MIN_RESYNC_STEP,
                                    res,
                                ) implies window_scan(self.spec_limits(), buffer@, 0, res) by {
                                if res is Some {
                                    lemma_window_scan_after(
                                        self.spec_limits(),
                                        buffer@,
                                        i - MIN_RESYNC_STEP,
                                        res->0,
                                    );
                                }
                                assert(window_scan(self.spec_limits(), buffer@, offset as int, res));
                            }
                        }
                        offset = i - MIN_RESYNC_STEP;
                        continue ;
                    }
                    assert(window_scan(self.spec_limits(), buffer@, offset as int, Some(i as int)));
                    let start = buffer_pos + i as u64;
                    let end = start + len as u64;
                    let unit = (header, Range { start, end });
                    proof {
                        assert(is_candidate(buffer@, 0, i as int, threshold));
                        assert forall|k: int| 0 <= k < units0.len() implies #[trigger] units0[k].1.end
                            < start by {
                            if k < units0.len() - 1 {
                                assert(units0[k].1.end <= units0[units0.len() - 1].1.start);
                            }
                        }
                    }
                    self.nal_units.push(unit);
                    proof {
                        let u = self.nal_units@;
                        assert(u.last() == unit);
                        assert(u == units0.push(unit));
                        assert forall|a: int, b: int| 0 <= a < b < u.len() implies #[trigger] u[a].1.end
                            <= #[trigger] u[b].1.start && u[a].1.start < u[b].1.start by {
                            if b == u.len() - 1 {
                                assert(u[a] == units0[a]);
                            } else {
                                assert(u[a] == units0[a] && u[b] == units0[b]);
                            }
                        }
                        assert forall|a: int| 0 <= a < u.len() implies #[trigger] u[a].1.start
                            <= u[a].1.end by {
                            if a < u.len() - 1 {
                                assert(u[a] == units0[a]);
                            }
                        }
                    }
                    return ScanAction::SeekTo(end);
                },
            }
        }
    }
}

/// Accepted units start strictly in increasing order and do not overlap.
pub proof fn lemma_units_increasing(s: H264Stream, i: int, j: int)
    requires
        s.wf(),
        0 <= i < j < s.spec_units().len(),
    ensures
        s.spec_units()[i].1.start < s.spec_units()[j].1.start,
        s.spec_units()[i].1.end <= s.spec_units()[j].1.start,
{
    let u = s.spec_units();
    assert(u[i].1.end <= u[j].1.start && u[i].1.start < u[j].1.start);
}


/// The units that a whole session over `data` may collect from stream
/// position `pos` on. Each window is the rest of `data`; a window of four
/// bytes or fewer ends the session. A window whose search ends with no unit
/// moves the position on by the searched part less one length field; one
/// whose search ends with a unit contributes it, located in the window, and
/// the session goes on from its end.
pub open spec fn session(
    limits: ScanLimits,
    data: Seq<u8>,
    pos: int,
    units: Seq<(NalHeader, Range<u64>)>,
) -> bool
    decreases (if pos < data.len() { data.len() - pos } else { 0 }),
{
    if pos < 0 || data.len() - pos <= LENGTH_FIELD_LEN {
        units.len() == 0
    } else {
        let w = data.subrange(pos, data.len() as int);
        let step = (if w.len() < limits.window_len {
            w.len() as int
        } else {
            limits.window_len as int
        }) - LENGTH_FIELD_LEN;
        ||| step > 0 && window_scan(limits, w, 0, None) && session(limits, data, pos + step, units)
        ||| units.len() > 0 && {
            let u = units[0];
            let i = u.1.start - pos;
            &&& window_scan(limits, w, 0, Some(i))
            &&& 4 <= i < w.len()
            &&& u.0.value == w[i]
            &&& u.1.end - u.1.start == be32(w, i - 4)
            &&& u.1.end > pos
            &&& session(limits, data, u.1.end as int, units.drop_first())
        }
    }
}

impl H264Stream {
    /// Runs a whole session with the standard limits over `data`, as over a
    /// reader that starts at its first byte and hands out the rest of the
    /// input as each window.
    pub fn scan_bytes(data: &[u8]) -> (r: H264Stream)
        requires
            data@.len() + 0xFFFF_FFFFu64 <= u64::MAX,
        ensures
            r.wf(),
            r.spec_limits() == standard_limits(),
            session(standard_limits(), data@, 0, r.spec_units()),
            forall|k: int|
                0 <= k < r.spec_units().len() ==> unit_located(
                    INITIAL_LENGTH_THRESHOLD,
                    data@,
                    #[trigger] r.spec_units()[k],
                ),
    {
        H264Stream::scan_bytes_with(ScanLimits::standard(), data)
    }

    /// Runs a whole session with the given limits over `data`.
    pub fn scan_bytes_with(limits: ScanLimits, data: &[u8]) -> (r: H264Stream)
        requires
            limits.wf(),
            data@.len() + 0xFFFF_FFFFu64 <= u64::MAX,
        ensures
            r.wf(),
            r.spec_limits() == limits,
            session(limits, data@, 0, r.spec_units()),
            forall|k: int|
                0 <= k < r.spec_units().len() ==> unit_located(
                    limits.length_threshold,
                    data@,
                    #[trigger] r.spec_units()[k],
                ),
    {
        let n = data.len();
        let mut s = H264Stream::with_limits(limits);
        let mut pos: usize = 0;
        proof {
            assert forall|rest: Seq<(NalHeader, Range<u64>)>|
                #[trigger] session(limits, data@, 0, rest) implies session(
                limits,
                data@,
                0,
                s.spec_units() + rest,
            ) by {
                assert(s.spec_units() + rest =~= rest);
            }
        }
        while pos < n
            invariant
                n == data@.len(),
                n + 0xFFFF_FFFFu64 <= u64::MAX,
                s.wf(),
                s.spec_limits() == limits,
                floor_of(s.spec_units()) <= pos,
                forall|k: int|
                    0 <= k < s.spec_units().len() ==> unit_located(
                        limits.length_threshold,
                        data@,
                        #[trigger] s.spec_units()[k],
                    ),
                forall|rest: Seq<(NalHeader, Range<u64>)>|
                    #[trigger] session(limits, data@, pos as int, rest) ==> session(
                        limits,
                        data@,
                        0,
                        s.spec_units() + rest,
                    ),
            decreases n - pos,
        {
            let window = slice_subrange(data, pos, n);
            let ghost before = s.spec_units();
            let action = s.scan_window(pos as u64, window);
            let ghost after = s.spec_units();
            proof {
                assert(window@ == data@.subrange(pos as int, n as int));
                if after != before {
                    let u = after.last();
                    let i = u.1.start - pos;
                    assert(after == before.push(u));
                    assert(window@[i] == data@[u.1.start as int]);
                    assert(window@[i - 4] == data@[u.1.start - 4]);
                    assert(window@[i - 3] == data@[u.1.start - 3]);
                    assert(window@[i - 2] == data@[u.1.start - 2]);
                    assert(window@[i - 1] == data@[u.1.start - 1]);
                    assert(unit_located(limits.length_threshold, data@, u));
                    assert forall|k: int| 0 <= k < after.len() implies unit_located(
                        limits.length_threshold,
                        data@,
                        #[trigger] after[k],
                    ) by {
                        if k < before.len() {
                            assert(after[k] == before[k]);
                        }
                    }
                    assert(after[after.len() - 1].1.start <= after[after.len() - 1].1.end);
                    assert forall|rest: Seq<(NalHeader, Range<u64>)>|
                        #[trigger] session(limits, data@, u.1.end as int, rest) implies session(
                        limits,
                        data@,
                        0,
                        after + rest,
                    ) by {
                        let longer = seq![u] + rest;
                        assert(longer[0] == u);
                        assert(longer.drop_first() =~= rest);
                        assert(session(limits, data@, pos as int, longer));
                        assert(before + longer =~= after + rest);
                    }
                } else {
                    let step = (if window@.len() < limits.window_len {
                        window@.len() as int
                    } else {
                        limits.window_len as int
                    }) - LENGTH_FIELD_LEN;
                    if window@.len() > LENGTH_FIELD_LEN {
                        assert(after.len() == before.len());
                        assert(window_scan(limits, window@, 0, None));
                        assert forall|rest: Seq<(NalHeader, Range<u64>)>|
                            #[trigger] session(limits, data@, pos + step, rest) implies session(
                            limits,
                            data@,
                            0,
                            after + rest,
                        ) by {
                            assert(session(limits, data@, pos as int, rest));
                        }
                    }
                }
                assert(session(limits, data@, n as int, Seq::empty()));
            }
            match action {
                ScanAction::Finished => {
                    proof {
                        assert(session(limits, data@, pos as int, Seq::empty()));
                        assert(after + Seq::empty() =~= after);
                    }
                    return s;
                },
                ScanAction::SeekTo(p) => {
                    if p >= n as u64 {
                        proof {
                            assert(session(limits, data@, p as int, Seq::empty()));
                            assert(after + Seq::empty() =~= after);
                        }
                        return s;
                    }
                    pos = p as usize;
                },
            }
        }
        proof {
            assert(session(limits, data@, pos as int, Seq::empty()));
            assert(s.spec_units() + Seq::empty() =~= s.spec_units());
        }
        s
    }
}

impl Default for H264Stream {
    fn default() -> (r: Self)
        ensures
            r.wf(),
            r.spec_units().len() == 0,
            r.spec_last_frame_num() == 0,
    {
        H264Stream::new()
    }
}

} // verus!
