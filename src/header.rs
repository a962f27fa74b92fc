//! The one-byte NAL unit header.
use vstd::prelude::*;

verus! {

/// Coded slice of a non-IDR picture.
pub const UNIT_NON_IDR_SLICE: u8 = 1;
/// Coded slice of an IDR picture.
pub const UNIT_IDR_SLICE: u8 = 5;
/// Supplemental enhancement information.
pub const UNIT_SEI: u8 = 6;
/// Sequence parameter set.
pub const UNIT_SPS: u8 = 7;
/// Picture parameter set.
pub const UNIT_PPS: u8 = 8;
/// Access unit delimiter.
pub const UNIT_AUD: u8 = 9;
/// Filler data.
pub const UNIT_FILLER: u8 = 12;

/// A NAL unit header byte: forbidden bit, two bits of `nal_ref_idc` and five
/// bits of unit type.
#[derive(Clone, Copy, Debug, PartialEq, Eq, Structural)]
pub struct NalHeader {
    pub value: u8,
}

/// The unit type held in the five low bits of a header byte.
pub open spec fn type_of(b: u8) -> u8 {
    b % 32
}

/// The `nal_ref_idc` held in bits five and six of a header byte.
pub open spec fn ref_idc_of(b: u8) -> u8 {
    (b / 32) % 4
}

/// Type values that the standard leaves unspecified.
pub open spec fn is_unspecified_type(t: u8) -> bool {
    t == 0 || t >= 24
}

/// A byte that can head a candidate unit: the forbidden bit is clear and the
/// type is not an unspecified one.
pub open spec fn is_candidate_header(b: u8) -> bool {
    b < 128 && !is_unspecified_type(type_of(b))
}

impl NalHeader {
    /// A header is well formed when its forbidden bit is clear.
    pub open spec fn wf(&self) -> bool {
        self.value < 128
    }

    pub open spec fn spec_unit_type(&self) -> u8 {
        type_of(self.value)
    }

    pub open spec fn spec_ref_idc(&self) -> u8 {
        ref_idc_of(self.value)
    }

    /// Reads a header byte; `None` when the forbidden bit is set.
    pub fn new(value: u8) -> (r: Option<NalHeader>)
        ensures
            r == (if value < 128 { Some(NalHeader { value }) } else { None::<NalHeader> }),
    {
        if value < 128 {
            Some(NalHeader { value })
        } else {
            None
        }
    }

    pub fn nal_ref_idc(&self) -> (r: u8)
        ensures
            r == self.spec_ref_idc(),
            r < 4,
    {
        (self.value / 32) % 4
    }

    pub fn nal_unit_type(&self) -> (r: u8)
        ensures
            r == self.spec_unit_type(),
            r < 32,
    {
        self.value % 32
    }

    pub fn is_unspecified(&self) -> (r: bool)
        ensures
            r == is_unspecified_type(self.spec_unit_type()),
    {
        let t = self.nal_unit_type();
        t == 0 || t >= 24
    }
}

} // verus!
