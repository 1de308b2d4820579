//! Forensic analysis of MP3 files: detection of files that were transcoded
//! from a lossy source of lower quality.
//!
//! The crate parses MPEG audio frame headers, reads the Xing/Info header and
//! the LAME tag of the first frame, looks for the fingerprints of encoders,
//! and combines what it finds with the score of a spectral analysis into a
//! verdict.

use vstd::prelude::*;

pub mod text;
pub mod mp3;
pub mod analyzer;
pub mod report;

verus! {

} // verus!
