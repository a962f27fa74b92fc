use nal_extract::aac::{window_sequence, ONLY_LONG_SEQUENCE};
use nal_extract::bits::switching_slice;
use nal_extract::container::media_data_start;
use nal_extract::header::NalHeader;
use nal_extract::locate::{locate_from, locate_nal_unit, read_be32};
use nal_extract::stream::{
    frame_order_accepts, is_filler_payload, H264Stream, ScanAction, ScanLimits, FILLER_TENTHS,
};
use nal_extract::writer::{get_start_code_for_nal, write_nal_with_emulation, write_units, WriteError};
use std::ops::Range;

const SPS: [u8; 15] = [
    0x27, 0xd2, 0xd2, 0xd6, 0xd2, 0x27, 0x50, 0xaa, 0x27, 0x01, 0x56, 0x56, 0x08, 0x41, 0xc5,
];
const PPS: [u8; 8] = [0x28, 0xc5, 0x56, 0x6a, 0x08, 0x41, 0x00, 0xfd];

fn length_prefixed(units: &[&[u8]]) -> Vec<u8> {
    let mut out = Vec::new();
    for u in units {
        out.extend_from_slice(&(u.len() as u32).to_be_bytes());
        out.extend_from_slice(u);
    }
    out
}

fn header(value: u8) -> NalHeader {
    NalHeader::new(value).unwrap()
}

fn unit_types(stream: &H264Stream) -> Vec<u8> {
    stream.nal_units().iter().map(|u| u.0.nal_unit_type()).collect()
}

#[test]
fn short_buffers_hold_no_candidate() {
    for len in 0..5usize {
        for fill in [0x00u8, 0x09, 0x27, 0x65, 0xff] {
            let buf = vec![fill; len];
            assert_eq!(locate_nal_unit(&buf, u32::MAX), None);
        }
    }
    assert_eq!(locate_nal_unit(&[0, 0, 0, 4], 100), None);
}

#[test]
fn locator_reads_length_and_header() {
    let buf = [0u8, 0, 0, 8, 0x09, 0xf0];
    assert_eq!(locate_nal_unit(&buf, 100), Some((4, header(0x09), 8)));
    assert_eq!(read_be32(&[0x01, 0x02, 0x03, 0x04], 0), 0x01020304);
}

#[test]
fn locator_skips_bad_headers_and_long_lengths() {
    // Forbidden bit set at 4, unspecified type at 5, lengths over the
    // threshold before 6 and 10, then an acceptable one before 11.
    let buf = [0u8, 0, 0, 0, 0x89, 0x18, 0x09, 0, 0, 0, 0x05, 0x09];
    assert_eq!(locate_nal_unit(&buf, 1000), Some((11, header(0x09), 5)));
    assert_eq!(locate_nal_unit(&buf, 1), None);
    assert_eq!(locate_from(&buf, 8, 1000), None);
}

#[test]
fn header_fields() {
    assert_eq!(NalHeader::new(0x80), None);
    let h = header(0x65);
    assert_eq!(h.nal_unit_type(), 5);
    assert_eq!(h.nal_ref_idc(), 3);
    assert!(header(0x18).is_unspecified());
    assert!(!header(0x07).is_unspecified());
}

#[test]
fn frame_order_rule() {
    assert!(!frame_order_accepts(5, 3));
    assert!(frame_order_accepts(5, 0));
    assert!(frame_order_accepts(5, 5));
    assert!(frame_order_accepts(5, 6));
    assert!(frame_order_accepts(u16::MAX, 0));
}

#[test]
fn frame_order_on_session() {
    let mut s = H264Stream::new();
    assert!(s.accept_frame_num(Some(5)));
    assert_eq!(s.last_frame_num(), 5);
    assert!(!s.accept_frame_num(Some(3)));
    assert_eq!(s.last_frame_num(), 5);
    assert!(s.accept_frame_num(Some(6)));
    assert!(s.accept_frame_num(Some(0)));
    assert_eq!(s.last_frame_num(), 0);
    assert!(!s.accept_frame_num(None));
}

#[test]
fn filler_ratio() {
    let mut p = vec![0xffu8; 95];
    p.extend_from_slice(&[0u8; 5]);
    assert!(is_filler_payload(&p, FILLER_TENTHS));
    let mut q = vec![0xffu8; 80];
    q.extend_from_slice(&[0u8; 20]);
    assert!(!is_filler_payload(&q, FILLER_TENTHS));
    let mut r = vec![0xffu8; 90];
    r.extend_from_slice(&[0u8; 10]);
    assert!(is_filler_payload(&r, FILLER_TENTHS));
}

#[test]
fn filler_unit_believability() {
    let mut s = H264Stream::new();
    let mut p = vec![0x0cu8];
    p.extend_from_slice(&[0xffu8; 94]);
    p.extend_from_slice(&[0u8; 5]);
    assert!(s.is_nal_believable(header(0x0c), 100, 0, &p));
    let mut q = vec![0x0cu8];
    q.extend_from_slice(&[0xffu8; 79]);
    q.extend_from_slice(&[0u8; 20]);
    assert!(!s.is_nal_believable(header(0x0c), 100, 0, &q));
    assert!(!s.is_nal_believable(header(0x2c), 100, 0, &p));
}

#[test]
fn delimiter_and_sei_rules() {
    let mut s = H264Stream::new();
    assert!(s.is_nal_believable(header(0x09), 4, 0, &[0x09, 0xf0]));
    assert!(s.is_nal_believable(header(0x06), 5119, 0, &[0x06]));
    assert!(!s.is_nal_believable(header(0x06), 5120, 0, &[0x06]));
    assert!(!s.is_nal_believable(header(0x29), 4, 0, &[0x29]));
    assert!(s.is_nal_believable(header(0x09), 3, 0, &[0x09]));
    assert!(s.is_nal_believable(header(0x09), 2, 0, &[0x09, 0xf0]));
    assert!(!s.is_nal_believable(header(0x0a), 10, 0, &[0x0a]));
}

#[test]
fn parameter_sets_decode() {
    let mut s = H264Stream::new();
    assert!(s.is_nal_believable(header(SPS[0]), SPS.len() as u32, 0, &SPS));
    assert!(s.is_nal_believable(header(PPS[0]), PPS.len() as u32, 0, &PPS));
    assert!(!s.is_nal_believable(header(SPS[0]), 512, 0, &SPS));
    assert!(!s.is_nal_believable(header(0x67), 8, 0, &[0x67, 0xff, 0xff, 0xff]));
}

#[test]
fn round_trip_sps_then_pps() {
    let data = length_prefixed(&[&SPS, &PPS]);
    let s = H264Stream::scan_bytes(&data);
    let units = s.nal_units();
    assert_eq!(units.len(), 2);
    assert_eq!(units[0].0, header(0x27));
    assert_eq!(units[0].1, 4..19);
    assert_eq!(units[1].0, header(0x28));
    assert_eq!(units[1].1, 23..31);
}

#[test]
fn resync_past_invalid_header() {
    // An AUD header with a non-zero ref_idc at 4 is rejected; the valid AUD
    // at 9 is then found.
    let data = [0u8, 0, 0, 5, 0x29, 0, 0, 0, 4, 0x09, 0xf0, 0, 0];
    let s = H264Stream::scan_bytes(&data);
    let units = s.nal_units();
    assert_eq!(units.len(), 1);
    assert_eq!(units[0].0, header(0x09));
    assert_eq!(units[0].1, 9..13);
}

#[test]
fn ranges_increase() {
    let aud = [0x09u8, 0xf0, 0x00, 0x00];
    let mut filler = vec![0x0cu8];
    filler.extend_from_slice(&[0xff; 30]);
    let data = length_prefixed(&[&aud, &filler, &aud]);
    let s = H264Stream::scan_bytes(&data);
    let units = s.nal_units();
    assert_eq!(unit_types(&s), vec![9, 12, 9]);
    for w in units.windows(2) {
        assert!(w[0].1.start < w[1].1.start);
        assert!(w[0].1.end <= w[1].1.start);
    }
}

#[test]
fn scan_window_steps() {
    let mut s = H264Stream::new();
    assert_eq!(
        matches!(s.scan_window(0, &[0, 0, 0, 4]), ScanAction::Finished),
        true
    );
    let data = [0u8; 20];
    match s.scan_window(100, &data) {
        ScanAction::SeekTo(p) => assert_eq!(p, 116),
        ScanAction::Finished => panic!("window of twenty bytes ends the scan"),
    }
    let aud = [0u8, 0, 0, 4, 0x09, 0xf0, 0, 0, 0];
    match s.scan_window(200, &aud) {
        ScanAction::SeekTo(p) => assert_eq!(p, 208),
        ScanAction::Finished => panic!("unit not accepted"),
    }
    assert_eq!(s.nal_units()[0].1, 204..208);
}

#[test]
fn start_codes_by_type() {
    assert_eq!(get_start_code_for_nal(&header(0x67)), vec![0, 0, 0, 1]);
    assert_eq!(get_start_code_for_nal(&header(0x68)), vec![0, 0, 0, 1]);
    assert_eq!(get_start_code_for_nal(&header(0x06)), vec![0, 0, 0, 1]);
    assert_eq!(get_start_code_for_nal(&header(0x41)), vec![0, 0, 0, 1]);
    assert_eq!(get_start_code_for_nal(&header(0x65)), vec![0, 0, 1]);
    assert_eq!(get_start_code_for_nal(&header(0x09)), vec![0, 0, 1]);
    assert_eq!(get_start_code_for_nal(&header(0x0c)), vec![0, 0, 1]);
}

#[test]
fn writer_start_code_selection() {
    let data = [0u8, 0, 0, 3, 0x67, 0xaa, 0xbb, 0, 0, 0, 2, 0x65, 0xcc];
    let units: Vec<(NalHeader, Range<u64>)> = vec![(header(0x67), 4..7), (header(0x65), 11..13)];
    let out = write_units(&units, &data).unwrap();
    assert_eq!(out, vec![0, 0, 0, 1, 0x67, 0xaa, 0xbb, 0, 0, 1, 0x65, 0xcc]);
}

#[test]
fn writer_rejects_truncated_ranges() {
    let data = [0x09u8, 0xf0];
    let past_end: Vec<(NalHeader, Range<u64>)> = vec![(header(0x09), 0..3)];
    assert_eq!(write_units(&past_end, &data), Err(WriteError::Truncated));
    let reversed: Vec<(NalHeader, Range<u64>)> = vec![(header(0x09), 2..1)];
    assert_eq!(write_units(&reversed, &data), Err(WriteError::Truncated));
    assert_eq!(write_units(&[], &data), Ok(vec![]));
}

fn reframe(annex_b: &[u8]) -> Vec<u8> {
    let mut units: Vec<Vec<u8>> = Vec::new();
    let mut i = 0;
    while i < annex_b.len() {
        if annex_b[i..].starts_with(&[0, 0, 0, 1]) {
            units.push(Vec::new());
            i += 4;
        } else if annex_b[i..].starts_with(&[0, 0, 1]) {
            units.push(Vec::new());
            i += 3;
        } else {
            units.last_mut().unwrap().push(annex_b[i]);
            i += 1;
        }
    }
    let refs: Vec<&[u8]> = units.iter().map(|u| u.as_slice()).collect();
    length_prefixed(&refs)
}

#[test]
fn written_stream_scans_to_same_types() {
    let aud = [0x09u8, 0xf0, 0x10, 0x20];
    let mut filler = vec![0x0cu8];
    filler.extend_from_slice(&[0xff; 20]);
    let data = length_prefixed(&[&SPS, &PPS, &aud, &filler]);
    let first = H264Stream::scan_bytes(&data);
    assert_eq!(unit_types(&first), vec![7, 8, 9, 12]);
    let written = write_units(first.nal_units(), &data).unwrap();
    let second = H264Stream::scan_bytes(&reframe(&written));
    assert_eq!(unit_types(&second), unit_types(&first));
}

#[test]
fn media_data_marker_search() {
    let buf = b"\x00\x00\x00\x18ftypisom\x00\x00\x00\x08mdat\x00\x00";
    assert_eq!(media_data_start(buf), Some(20));
    assert_eq!(media_data_start(b"moovfree"), None);
}

#[test]
fn long_only_window_sequence() {
    assert_eq!(window_sequence(ONLY_LONG_SEQUENCE), (1, 1));
}

#[test]
fn emulation_prevention_escapes_triggers() {
    let mut out = vec![0xaau8];
    let nal = [0x65u8, 0, 0, 1, 0x10, 0, 0, 3, 0, 0, 2, 0, 0, 0, 4];
    write_nal_with_emulation(&mut out, &nal);
    assert_eq!(
        out,
        vec![
            0xaa, 0, 0, 0, 1, 0x65, 0, 0, 3, 1, 0x10, 0, 0, 3, 3, 0, 0, 3, 2, 0, 0, 0, 4
        ]
    );
}

#[test]
fn emulation_prevention_leaves_clean_payload() {
    let mut out = Vec::new();
    write_nal_with_emulation(&mut out, &[0x67, 0, 0, 0, 0x42]);
    assert_eq!(out, vec![0, 0, 0, 1, 0x67, 0, 0, 0, 0x42]);
    let mut empty = Vec::new();
    write_nal_with_emulation(&mut empty, &[]);
    assert_eq!(empty, vec![0, 0, 0, 1]);
}

#[test]
fn slice_with_bad_header_is_rejected() {
    let mut s = H264Stream::default();
    assert!(s.is_nal_believable(header(SPS[0]), SPS.len() as u32, 0, &SPS));
    assert!(s.is_nal_believable(header(PPS[0]), PPS.len() as u32, 0, &PPS));
    let slice = [0x41u8, 0x3f, 0x3f, 0x00, 0x00, 0x03, 0x00, 0x03, 0xed, 0x60, 0xbb, 0xbb, 0xbb];
    assert!(!s.is_nal_believable(header(0x41), slice.len() as u32, 0, &slice));
    assert_eq!(s.last_frame_num(), 0);
    assert!(!s.is_nal_believable(header(0x41), 512000, 0, &slice));
    assert!(!s.is_nal_believable(header(0x05), 100, 0, &[0x05, 0x88]));
}

#[test]
fn custom_limits() {
    let limits = ScanLimits { delimiter_max_len: 5, filler_tenths: 10, window_len: 8, ..ScanLimits::standard() };
    assert_eq!(ScanLimits::default(), ScanLimits::standard());
    assert_eq!(ScanLimits::standard().length_threshold, 10_000_000);
    let mut s = H264Stream::with_limits(limits);
    assert_eq!(s.limits(), limits);
    assert!(s.is_nal_believable(header(0x09), 4, 0, &[0x09]));
    assert!(!s.is_nal_believable(header(0x09), 5, 0, &[0x09]));
    let mut nearly = vec![0xffu8; 99];
    nearly.push(0);
    assert!(!s.is_nal_believable(header(0x0c), 100, 0, &nearly));
    match s.scan_window(0, &[0u8; 20]) {
        ScanAction::SeekTo(p) => assert_eq!(p, 4),
        ScanAction::Finished => panic!("window of twenty bytes ends the scan"),
    }
    let aud = [0x09u8, 0xf0, 0x00, 0x00];
    let data = length_prefixed(&[&aud, &aud]);
    let scanned = H264Stream::scan_bytes_with(limits, &data);
    assert_eq!(unit_types(&scanned), vec![9, 9]);
    let tight = ScanLimits { length_threshold: 3, ..ScanLimits::standard() };
    assert_eq!(H264Stream::scan_bytes_with(tight, &data).nal_units().len(), 0);
}

#[test]
fn short_filler_and_empty_filler() {
    let mut s = H264Stream::new();
    assert!(s.is_nal_believable(header(0x0c), 3, 0, &[0xff]));
    assert!(!s.is_nal_believable(header(0x0c), 3, 0, &[]));
    assert!(!is_filler_payload(&[], FILLER_TENTHS));
}

#[test]
fn two_byte_delimiters_are_scanned() {
    let aud = [0x09u8, 0xf0];
    let data = length_prefixed(&[&aud, &aud]);
    let s = H264Stream::scan_bytes(&data);
    let units = s.nal_units();
    assert_eq!(units.len(), 2);
    assert_eq!(units[0].1, 4..6);
    assert_eq!(units[1].1, 10..12);
}

#[test]
fn slice_type_reading() {
    // first_mb_in_slice = 0 ("1"), then slice_type in Exp-Golomb code.
    assert!(switching_slice(&[0x01, 0x90])); // type 3 (SP): 00100
    assert!(switching_slice(&[0x01, 0x89])); // type 8 (SI): 0001001
    assert!(!switching_slice(&[0x01, 0xc0])); // type 0 (P): 1
    assert!(!switching_slice(&[0x01, 0x98])); // type 5 (P): 00110
    assert!(!switching_slice(&[0x01]));
    assert!(!switching_slice(&[0x01, 0x00, 0x00, 0x00, 0x00, 0x00]));
}

#[test]
fn switching_slices_are_rejected_before_decoding() {
    let mut s = H264Stream::new();
    assert!(s.is_nal_believable(header(SPS[0]), SPS.len() as u32, 0, &SPS));
    assert!(s.is_nal_believable(header(PPS[0]), PPS.len() as u32, 0, &PPS));
    // SP slice referring to PPS 0, with a slice_qs_delta of the largest size.
    let sp = [0x41u8, 0x90, 0x80, 0x00, 0x00, 0x00, 0x00, 0x01, 0xff, 0xff, 0xff, 0xff];
    assert!(!s.is_nal_believable(header(0x41), sp.len() as u32, 0, &sp));
    assert!(!s.is_nal_believable(header(0x65), sp.len() as u32, 0, &[0x65, 0x90, 0x80]));
    assert_eq!(s.last_frame_num(), 0);
}
