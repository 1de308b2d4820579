//! The MP3 byte formats: frame headers, and the encoder's metadata.

use vstd::prelude::*;

pub mod frame;
pub mod lame;

pub use frame::{ChannelMode, FrameHeader, Layer, MpegVersion};
pub use lame::LameHeader;

verus! {

} // verus!
