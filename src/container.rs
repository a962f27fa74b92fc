//! Locating the media-data region of a container.
use vstd::prelude::*;

verus! {

/// `pattern` occurs in `text` at `i`.
pub open spec fn occurs_at(text: Seq<u8>, pattern: Seq<u8>, i: int) -> bool {
    0 <= i && i + pattern.len() <= text.len() && text.subrange(i, i + pattern.len()) == pattern
}

/// The box type that marks the media-data region.
pub open spec fn media_data_marker() -> Seq<u8> {
    seq![0x6du8, 0x64u8, 0x61u8, 0x74u8]
}

/// Relies on `twoway::find_bytes`: the first occurrence of `pattern` in
/// `text`, or `None` when there is none.
#[verifier::external_body]
fn find_bytes(text: &[u8], pattern: &[u8]) -> (r: Option<usize>)
    ensures
        match r {
            Some(i) => occurs_at(text@, pattern@, i as int) && forall|j: int|
                0 <= j < i ==> !occurs_at(text@, pattern@, j),
            None => forall|j: int| 0 <= j ==> !occurs_at(text@, pattern@, j),
        },
{
    twoway::find_bytes(text, pattern)
}

/// The position just past the first media-data marker in `buf`, where the
/// scan starts; `None` when `buf` holds no marker.
pub fn media_data_start(buf: &[u8]) -> (r: Option<u64>)
    ensures
        match r {
            Some(p) => p >= 4 && occurs_at(buf@, media_data_marker(), p - 4) && forall|j: int|
                0 <= j < p - 4 ==> !occurs_at(buf@, media_data_marker(), j),
            None => forall|j: int| 0 <= j ==> !occurs_at(buf@, media_data_marker(), j),
        },
{
    let marker: Vec<u8> = vec![0x6du8, 0x64u8, 0x61u8, 0x74u8];
    assert(marker@ == media_data_marker());
    let n = buf.len();
    match find_bytes(buf, marker.as_slice()) {
        Some(i) => {
            assert(i + 4 <= n);
            Some(i as u64 + 4)
        },
        None => None,
    }
}

} // verus!
