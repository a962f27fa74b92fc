//! Window-sequence classification of an AAC individual channel stream.
use vstd::prelude::*;

verus! {

pub const ONLY_LONG_SEQUENCE: u8 = 0;
pub const LONG_START_SEQUENCE: u8 = 1;
pub const EIGHT_SHORT_SEQUENCE: u8 = 2;
pub const LONG_STOP_SEQUENCE: u8 = 3;

/// The number of windows and of window groups for a window sequence. Only
/// the long-only sequence is handled.
pub fn window_sequence(sequence: u8) -> (r: (u8, u8))
    requires
        sequence == ONLY_LONG_SEQUENCE,
    ensures
        r == (1u8, 1u8),
{
    let num_windows: u8 = 1;
    let num_window_groups: u8 = 1;
    (num_windows, num_window_groups)
}

} // verus!
