//! Recovers an H.264 elementary stream from a length-prefixed byte region
//! whose framing cannot be trusted: candidate units are located by their
//! length field and header byte, checked for plausibility, and written back
//! out with start codes.
pub mod aac;
pub mod bits;
pub mod container;
pub mod decode;
pub mod header;
pub mod locate;
pub mod stream;
pub mod writer;
