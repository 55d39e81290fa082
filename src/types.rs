//! The values that a frame header and its side information carry.
use vstd::prelude::*;
use crate::{MP3_MAX_NUM_CHANNELS, MP3_NUM_GRANLES_PER_FRAME};

verus! {

/// MPEG version.
#[derive(Debug, Clone, Copy, PartialEq, Eq, Structural)]
pub enum MPEGVersion {
    /// MPEG-1
    MPEGVersion1,
    /// MPEG-2 (LSF, low sampling frequency)
    MPEGVersion2,
}

/// Window (block) type of a granule.
#[derive(Debug, Clone, Copy, PartialEq, Eq, Structural)]
pub enum MP3BlockType {
    /// Normal long window
    Normal,
    /// Transition from long to short windows
    Start,
    /// Three short windows
    Short,
    /// Transition from short to long windows
    Stop,
}

/// Channel mode.
#[derive(Debug, Clone, Copy, PartialEq, Eq, Structural)]
pub enum MP3ChannelMode {
    /// Stereo
    Stereo,
    /// Joint stereo
    JointStereo,
    /// Two independent channels
    DualChannel,
    /// Single channel
    Monoral,
}

/// Mode extension of joint stereo.
#[derive(Debug, Clone, Copy, PartialEq, Eq, Structural)]
pub enum MP3ExtChannelMode {
    /// Intensity stereo
    IntensityStereo,
    /// Middle/side stereo
    MSStereo,
    /// Intensity stereo and middle/side stereo together
    IntensityAndMSStereo,
    /// Neither
    NONE,
}

/// Layer.
#[derive(Debug, Clone, Copy, PartialEq, Eq, Structural)]
pub enum MP3Layer {
    /// Layer I
    Layer1,
    /// Layer II
    Layer2,
    /// Layer III
    Layer3,
}

/// Bit rate.
#[derive(Debug, Clone, Copy, PartialEq, Eq, Structural)]
pub enum MP3BitRate {
    /// Free format
    Kbps0,
    /// 32 kbit/s
    Kbps32,
    /// 40 kbit/s
    Kbps40,
    /// 48 kbit/s
    Kbps48,
    /// 56 kbit/s
    Kbps56,
    /// 64 kbit/s
    Kbps64,
    /// 80 kbit/s
    Kbps80,
    /// 96 kbit/s
    Kbps96,
    /// 112 kbit/s
    Kbps112,
    /// 128 kbit/s
    Kbps128,
    /// 160 kbit/s
    Kbps160,
    /// 192 kbit/s
    Kbps192,
    /// 224 kbit/s
    Kbps224,
    /// 256 kbit/s
    Kbps256,
    /// 320 kbit/s
    Kbps320,
}

/// Sampling rate.
#[derive(Debug, Clone, Copy, PartialEq, Eq, Structural)]
pub enum MP3SamplingRate {
    /// 44.1 kHz
    Hz44100,
    /// 48 kHz
    Hz48000,
    /// 32 kHz
    Hz32000,
}

/// Emphasis.
#[derive(Debug, Clone, Copy, PartialEq, Eq, Structural)]
pub enum MP3EmphasisMode {
    /// None
    NONE,
    /// 50/15 ms
    FiftyFifteenMs,
    /// Reserved value
    Reserved,
    /// CCITT J.17
    CCITTJ17,
}

/// Bits per second of a bit rate (0 for free format).
pub open spec fn bit_rate_bps(b: MP3BitRate) -> nat {
    match b {
        MP3BitRate::Kbps0 => 0,
        MP3BitRate::Kbps32 => 32_000,
        MP3BitRate::Kbps40 => 40_000,
        MP3BitRate::Kbps48 => 48_000,
        MP3BitRate::Kbps56 => 56_000,
        MP3BitRate::Kbps64 => 64_000,
        MP3BitRate::Kbps80 => 80_000,
        MP3BitRate::Kbps96 => 96_000,
        MP3BitRate::Kbps112 => 112_000,
        MP3BitRate::Kbps128 => 128_000,
        MP3BitRate::Kbps160 => 160_000,
        MP3BitRate::Kbps192 => 192_000,
        MP3BitRate::Kbps224 => 224_000,
        MP3BitRate::Kbps256 => 256_000,
        MP3BitRate::Kbps320 => 320_000,
    }
}

/// Samples per second of a sampling rate.
pub open spec fn sampling_rate_hz(s: MP3SamplingRate) -> nat {
    match s {
        MP3SamplingRate::Hz44100 => 44100,
        MP3SamplingRate::Hz48000 => 48000,
        MP3SamplingRate::Hz32000 => 32000,
    }
}

impl MP3BitRate {
    /// Bits per second (0 for free format).
    pub fn bits_per_second(&self) -> (r: u32)
        ensures
            r as nat == bit_rate_bps(*self),
    {
        match self {
            MP3BitRate::Kbps0 => 0,
            MP3BitRate::Kbps32 => 32_000,
            MP3BitRate::Kbps40 => 40_000,
            MP3BitRate::Kbps48 => 48_000,
            MP3BitRate::Kbps56 => 56_000,
            MP3BitRate::Kbps64 => 64_000,
            MP3BitRate::Kbps80 => 80_000,
            MP3BitRate::Kbps96 => 96_000,
            MP3BitRate::Kbps112 => 112_000,
            MP3BitRate::Kbps128 => 128_000,
            MP3BitRate::Kbps160 => 160_000,
            MP3BitRate::Kbps192 => 192_000,
            MP3BitRate::Kbps224 => 224_000,
            MP3BitRate::Kbps256 => 256_000,
            MP3BitRate::Kbps320 => 320_000,
        }
    }
}

impl MP3SamplingRate {
    /// Samples per second.
    pub fn hz(&self) -> (r: u32)
        ensures
            r as nat == sampling_rate_hz(*self),
    {
        match self {
            MP3SamplingRate::Hz44100 => 44100,
            MP3SamplingRate::Hz48000 => 48000,
            MP3SamplingRate::Hz32000 => 32000,
        }
    }
}

/// Frame header.
#[derive(Debug, Clone, Copy, PartialEq, Eq, Structural)]
pub struct MP3FrameHeader {
    /// Version
    pub version: MPEGVersion,
    /// Layer
    pub layer: MP3Layer,
    /// A CRC-16 follows the header
    pub error_protection: bool,
    /// Bit rate
    pub bit_rate: MP3BitRate,
    /// Sampling rate
    pub sampling_rate: MP3SamplingRate,
    /// One padding byte lengthens the frame
    pub padding: bool,
    /// Private bit
    pub extension: u8,
    /// Channel mode
    pub channel_mode: MP3ChannelMode,
    /// Mode extension
    pub ext_channel_mode: MP3ExtChannelMode,
    /// Copyright flag
    pub copyright: bool,
    /// Original (not a copy)
    pub original: bool,
    /// Emphasis
    pub emphasis: MP3EmphasisMode,
}

/// Side information of one granule of one channel.
#[derive(Debug, Clone, Copy)]
pub struct MP3GranuleInformation {
    /// Bits of scale factors and Huffman data (12 bits)
    pub part2_3_length: u16,
    /// Number of coded pairs in the big-values region (9 bits)
    pub big_values: u16,
    /// Quantizer step (8 bits)
    pub global_gain: u8,
    /// Index into the scale-factor width table (4 bits)
    pub scalefac_compress: u8,
    /// The block is not a normal long block
    pub window_switching_flag: bool,
    /// Window type
    pub block_type: MP3BlockType,
    /// The two lowest subbands use long windows, the rest short ones
    pub mixed_block_flag: bool,
    /// Huffman table of each big-values region
    pub table_select: [u8; 3],
    /// Gain offset of each short window (3 bits each)
    pub subblock_gain: [u8; 3],
    /// Scale-factor bands in region 0, minus one
    pub region0_count: u8,
    /// Scale-factor bands in region 1, minus one
    pub region1_count: u8,
    /// High-frequency pre-emphasis is applied
    pub preflag: bool,
    /// Scale-factor step: 0 for sqrt(2), 1 for 2
    pub scalefac_scale: u8,
    /// Quadruple table of the count1 region
    pub count1table_select: u8,
}

/// Side information of one channel.
#[derive(Debug, Clone, Copy)]
pub struct MP3ChannelSideInformation {
    /// Scale-factor sharing between the granules, for band groups 0-5, 6-10, 11-15, 16-20
    pub scfsi: [bool; 4],
    /// Each granule
    pub gr: [MP3GranuleInformation; MP3_NUM_GRANLES_PER_FRAME],
}

/// Side information of a frame.
#[derive(Debug, Clone, Copy)]
pub struct MP3SideInformation {
    /// Bytes back from this frame's main data to where its main data starts (9 bits)
    pub maindata_begin: u16,
    /// Private bits (5 for one channel, 3 for two)
    pub private_bits: u8,
    /// Each channel
    pub ch: [MP3ChannelSideInformation; MP3_MAX_NUM_CHANNELS],
}

/// What a stream holds, found without decoding its main data.
#[derive(Debug, Clone, Copy, PartialEq, Eq, Structural)]
pub struct MP3FormatInformation {
    /// Channels
    pub num_channels: usize,
    /// Samples per channel
    pub num_samples: usize,
    /// Sampling rate
    pub sampling_rate: MP3SamplingRate,
    /// Bit rate
    pub bit_rate: MP3BitRate,
}

/// A granule whose every field is zero (block type `Normal`).
pub open spec fn granule_is_zero(g: MP3GranuleInformation) -> bool {
    &&& g.part2_3_length == 0
    &&& g.big_values == 0
    &&& g.global_gain == 0
    &&& g.scalefac_compress == 0
    &&& !g.window_switching_flag
    &&& g.block_type == MP3BlockType::Normal
    &&& !g.mixed_block_flag
    &&& forall|i: int| 0 <= i < 3 ==> g.table_select[i] == 0 && g.subblock_gain[i] == 0
    &&& g.region0_count == 0
    &&& g.region1_count == 0
    &&& !g.preflag
    &&& g.scalefac_scale == 0
    &&& g.count1table_select == 0
}

impl Default for MP3GranuleInformation {
    fn default() -> (r: Self)
        ensures
            granule_is_zero(r),
    {
        Self {
            part2_3_length: 0,
            big_values: 0,
            global_gain: 0,
            scalefac_compress: 0,
            window_switching_flag: false,
            block_type: MP3BlockType::Normal,
            mixed_block_flag: false,
            table_select: [0; 3],
            subblock_gain: [0; 3],
            region0_count: 0,
            region1_count: 0,
            preflag: false,
            scalefac_scale: 0,
            count1table_select: 0,
        }
    }
}

} // verus!
