//! Layer III (MP3) bitstream decoding: frame sync, header and side-information
//! parsing, the main-data bit reservoir, scale-factor decoding and the count1 part of
//! Huffman decoding, with their contracts proved by Verus.
use vstd::prelude::*;

pub mod bits;
pub mod types;
pub mod maindata_buffer;
pub mod tables;
pub mod scale_factor;
pub mod huffman;
pub mod decoder;

verus! {

/// Largest number of channels in a stream.
pub const MP3_MAX_NUM_CHANNELS: usize = 2;

/// PCM samples per channel in one frame.
pub const MP3_NUM_SAMPLES_PER_FRAME: usize = 1152;

/// Granules in one frame.
pub const MP3_NUM_GRANLES_PER_FRAME: usize = 2;

/// Spectral values in one granule.
pub const MP3_NUM_SAMPLES_PER_GRANULE: usize = 576;

/// Critical bands of a long block (scale-factor slots).
pub const MP3_NUM_CRITICAL_BANDS_LONG: usize = 23;

/// Critical bands of a short block (scale-factor slots, per window).
pub const MP3_NUM_CRITICAL_BANDS_SHORT: usize = 13;

} // verus!
