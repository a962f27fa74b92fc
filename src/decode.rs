//! Calls into `h264_reader` for de-escaping and for decoding parameter sets
//! and slice headers.
use h264_reader::nal::pps::PicParameterSet;
use h264_reader::nal::slice::SliceHeader;
use h264_reader::nal::sps::SeqParameterSet;
use h264_reader::rbsp::BitReader;
use h264_reader::Context;
use crate::bits::is_switching_slice;
use vstd::prelude::*;

verus! {

#[verifier::external_type_specification]
#[verifier::external_body]
pub struct ExContext(Context);

#[verifier::external_type_specification]
#[verifier::external_body]
pub struct ExSeqParameterSet(SeqParameterSet);

#[verifier::external_type_specification]
#[verifier::external_body]
pub struct ExPicParameterSet(PicParameterSet);

/// The payload of a NAL unit once its header byte is skipped and its
/// emulation-prevention bytes are removed; `None` where that fails.
pub uninterp spec fn rbsp_of(nal: Seq<u8>) -> Option<Seq<u8>>;

/// Whether a payload decodes as a sequence parameter set.
pub uninterp spec fn sps_decodes(rbsp: Seq<u8>) -> bool;

pub open spec fn bytes_view(r: Option<Vec<u8>>) -> Option<Seq<u8>> {
    match r {
        Some(v) => Some(v@),
        None => None,
    }
}

/// Relies on `Context::new`: a table with no parameter sets.
#[verifier::external_body]
pub(crate) fn new_context() -> (r: Context) {
    Context::new()
}

/// Relies on `h264_reader::rbsp::decode_nal`: skips the header byte and
/// removes emulation-prevention bytes. The outcome depends on the bytes alone.
#[verifier::external_body]
pub(crate) fn decode_rbsp(nal: &[u8]) -> (r: Option<Vec<u8>>)
    requires
        nal@.len() >= 1,
    ensures
        bytes_view(r) == rbsp_of(nal@),
{
    match h264_reader::rbsp::decode_nal(nal) {
        Ok(bytes) => Some(bytes.into_owned()),
        Err(_) => None,
    }
}

/// Relies on `SeqParameterSet::from_bits`: decodes a sequence parameter set.
/// The outcome depends on the bytes alone.
#[verifier::external_body]
pub(crate) fn sps_from_rbsp(rbsp: &[u8]) -> (r: Option<SeqParameterSet>)
    ensures
        r.is_some() == sps_decodes(rbsp@),
{
    SeqParameterSet::from_bits(BitReader::new(rbsp)).ok()
}

/// Relies on `Context::put_seq_param_set`: stores the set under its id.
#[verifier::external_body]
pub(crate) fn put_sps(ctx: &mut Context, sps: SeqParameterSet) {
    ctx.put_seq_param_set(sps)
}

/// Relies on `PicParameterSet::from_bits`: decodes a picture parameter set,
/// looking up the sequence parameter set it refers to in `ctx`.
#[verifier::external_body]
pub(crate) fn pps_from_rbsp(ctx: &Context, rbsp: &[u8]) -> (r: Option<PicParameterSet>) {
    PicParameterSet::from_bits(ctx, BitReader::new(rbsp)).ok()
}

/// Relies on `Context::put_pic_param_set`: stores the set under its id.
#[verifier::external_body]
pub(crate) fn put_pps(ctx: &mut Context, pps: PicParameterSet) {
    ctx.put_pic_param_set(pps)
}

/// Relies on `SliceHeader::from_bits`: decodes the slice header that follows
/// the header byte of `nal`, against the parameter sets in `ctx`, and gives
/// its `frame_num`. Switching (SP and SI) slices are left out: for them the
/// decoder adds two unchecked Exp-Golomb values in `i32`, which can overflow.
#[verifier::external_body]
pub(crate) fn slice_frame_num(ctx: &Context, header: u8, nal: &[u8]) -> (r: Option<u16>)
    requires
        header < 128,
        nal@.len() >= 1,
        !is_switching_slice(nal@),
{
    let header = match h264_reader::nal::NalHeader::new(header) {
        Ok(h) => h,
        Err(_) => return None,
    };
    let mut reader = BitReader::new(&nal[1..]);
    match SliceHeader::from_bits(ctx, &mut reader, header) {
        Ok((slice, _, _)) => Some(slice.frame_num),
        Err(_) => None,
    }
}

} // verus!
