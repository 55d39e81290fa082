//! Frame synchronisation, header and side-information parsing, scale-factor decoding
//! and the decoder's reservoir bookkeeping.
use vstd::prelude::*;
use vstd::arithmetic::power2::{pow2, lemma2_to64};
use crate::bits::{bits_value, read_field};
use crate::maindata_buffer::{
    MP3MainDataBuffer, aligned_pos, ring_after_put, write_pos_after_put, MP3_MAINDATA_BUFFER_SIZE,
    MP3_MAINDATA_BUFFER_SIZE_BITS,
};
use crate::scale_factor::{
    GranuleScaleFactor, decode_granule_scale_factor, granule_scale_factor_is_zero,
    scale_factors_match,
};
use crate::types::{
    MPEGVersion, MP3BitRate, MP3BlockType, MP3ChannelMode, MP3EmphasisMode, MP3ExtChannelMode,
    MP3FrameHeader, MP3Layer, MP3SamplingRate, bit_rate_bps, sampling_rate_hz,
    MP3GranuleInformation, MP3ChannelSideInformation, MP3SideInformation, granule_is_zero,
    MP3FormatInformation,
};

verus! {

/// Sync word (12 bits).
const MP3_SYNC_CODE: u32 = 0xFFF;

/// Bytes of a frame header.
const MP3_FRAMEHEADER_SIZE: usize = 4;

/// Bytes of the side information of a single-channel frame.
const MP3_SIDEINFORMATION_SIZE_MONO: usize = 17;

/// Bytes of the side information of a two-channel frame.
const MP3_SIDEINFORMATION_SIZE_STEREO: usize = 32;

/// Decoding errors.
#[derive(Debug, Clone, Copy, PartialEq, Eq, Structural)]
pub enum MP3DecodeError {
    /// No further sync word
    EndOfStream,
    /// Reserved value in a header, or too few bytes
    InvalidHeader,
    /// Not MPEG-1, too few bytes, or a forbidden block type
    InvalidSideInformation,
    /// Not layer III, or free-format bit rate
    InvalidFormat,
    /// The caller's output has too few channels
    InsufficientBuffer,
}

// ---------------------------------------------------------------------------
// Frame header
// ---------------------------------------------------------------------------

/// A sync word starts at byte `p`: eight set bits, then four more.
pub open spec fn sync_at(s: Seq<u8>, p: int) -> bool {
    s[p] == 0xFFu8 && s[p + 1] & 0xF0u8 == 0xF0u8
}

/// Byte `p` is a place where a sync word is looked for: the scan stops two bytes
/// before the end.
pub open spec fn sync_candidate(s: Seq<u8>, p: int) -> bool {
    0 <= p && p + 2 < s.len()
}

/// The first position from `p` on where a sync word is found.
pub open spec fn sync_from(s: Seq<u8>, p: nat) -> Option<nat>
    decreases s.len() - p,
{
    if p + 2 >= s.len() {
        None
    } else if sync_at(s, p as int) {
        Some(p)
    } else {
        sync_from(s, p + 1)
    }
}

/// Finds the first byte position where a sync word starts.
pub fn find_sync_code(data: &[u8]) -> (r: Option<usize>)
    ensures
        r matches Some(p) ==> sync_from(data@, 0) == Some(p as nat),
        r is None ==> sync_from(data@, 0) is None,
        match r {
            Some(p) => sync_candidate(data@, p as int) && sync_at(data@, p as int) && forall|q: int|
                0 <= q < p ==> !#[trigger] sync_at(data@, q),
            None => forall|q: int| sync_candidate(data@, q) ==> !#[trigger] sync_at(data@, q),
        },
{
    let mut pos: usize = 0;
    while data.len() >= 3 && pos < data.len() - 2
        invariant
            forall|q: int| 0 <= q < pos ==> !#[trigger] sync_at(data@, q),
            pos <= data.len(),
            sync_from(data@, 0) == sync_from(data@, pos as nat),
        decreases data.len() - pos,
    {
        if data[pos] == 0xFFu8 && data[pos + 1] & 0xF0u8 == 0xF0u8 {
            return Some(pos);
        }
        pos = pos + 1;
    }
    None
}

/// Layer coded as `c` (after the check that `c` is not 0).
pub open spec fn layer_of_code(c: nat) -> MP3Layer {
    if c == 1 {
        MP3Layer::Layer3
    } else if c == 2 {
        MP3Layer::Layer2
    } else {
        MP3Layer::Layer1
    }
}

/// Bit rate coded as `c` (after the check that `c` is not 15).
pub open spec fn bit_rate_of_code(c: nat) -> MP3BitRate {
    if c == 0 {
        MP3BitRate::Kbps0
    } else if c == 1 {
        MP3BitRate::Kbps32
    } else if c == 2 {
        MP3BitRate::Kbps40
    } else if c == 3 {
        MP3BitRate::Kbps48
    } else if c == 4 {
        MP3BitRate::Kbps56
    } else if c == 5 {
        MP3BitRate::Kbps64
    } else if c == 6 {
        MP3BitRate::Kbps80
    } else if c == 7 {
        MP3BitRate::Kbps96
    } else if c == 8 {
        MP3BitRate::Kbps112
    } else if c == 9 {
        MP3BitRate::Kbps128
    } else if c == 10 {
        MP3BitRate::Kbps160
    } else if c == 11 {
        MP3BitRate::Kbps192
    } else if c == 12 {
        MP3BitRate::Kbps224
    } else if c == 13 {
        MP3BitRate::Kbps256
    } else {
        MP3BitRate::Kbps320
    }
}

/// Sampling rate coded as `c` (after the check that `c` is not 3).
pub open spec fn sampling_rate_of_code(c: nat) -> MP3SamplingRate {
    if c == 0 {
        MP3SamplingRate::Hz44100
    } else if c == 1 {
        MP3SamplingRate::Hz48000
    } else {
        MP3SamplingRate::Hz32000
    }
}

/// Channel mode coded as `c`.
pub open spec fn channel_mode_of_code(c: nat) -> MP3ChannelMode {
    if c == 0 {
        MP3ChannelMode::Stereo
    } else if c == 1 {
        MP3ChannelMode::JointStereo
    } else if c == 2 {
        MP3ChannelMode::DualChannel
    } else {
        MP3ChannelMode::Monoral
    }
}

/// Mode extension coded as `c`: the low bit selects intensity stereo and the high bit
/// middle/side stereo, each on its own.
pub open spec fn ext_channel_mode_of_code(c: nat) -> MP3ExtChannelMode {
    if c == 3 {
        MP3ExtChannelMode::IntensityAndMSStereo
    } else if c == 1 {
        MP3ExtChannelMode::IntensityStereo
    } else if c == 2 {
        MP3ExtChannelMode::MSStereo
    } else {
        MP3ExtChannelMode::NONE
    }
}

/// Emphasis coded as `c`.
pub open spec fn emphasis_of_code(c: nat) -> MP3EmphasisMode {
    if c == 0 {
        MP3EmphasisMode::NONE
    } else if c == 1 {
        MP3EmphasisMode::FiftyFifteenMs
    } else if c == 2 {
        MP3EmphasisMode::Reserved
    } else {
        MP3EmphasisMode::CCITTJ17
    }
}

/// `s` starts with a frame header: four bytes, the sync word, and no reserved layer,
/// bit rate or sampling rate.
pub open spec fn header_valid(s: Seq<u8>) -> bool {
    &&& s.len() >= 4
    &&& bits_value(s, 0, 12) == 0xFFF
    &&& bits_value(s, 13, 2) != 0
    &&& bits_value(s, 16, 4) != 15
    &&& bits_value(s, 20, 2) != 3
}

/// The header that the first four bytes of `s` code.
pub open spec fn header_of(s: Seq<u8>) -> MP3FrameHeader {
    MP3FrameHeader {
        version: if bits_value(s, 12, 1) == 1 {
            MPEGVersion::MPEGVersion1
        } else {
            MPEGVersion::MPEGVersion2
        },
        layer: layer_of_code(bits_value(s, 13, 2)),
        error_protection: bits_value(s, 15, 1) == 0,
        bit_rate: bit_rate_of_code(bits_value(s, 16, 4)),
        sampling_rate: sampling_rate_of_code(bits_value(s, 20, 2)),
        padding: bits_value(s, 22, 1) == 1,
        extension: bits_value(s, 23, 1) as u8,
        channel_mode: channel_mode_of_code(bits_value(s, 24, 2)),
        ext_channel_mode: ext_channel_mode_of_code(bits_value(s, 26, 2)),
        copyright: bits_value(s, 28, 1) == 1,
        original: bits_value(s, 29, 1) == 1,
        emphasis: emphasis_of_code(bits_value(s, 30, 2)),
    }
}

/// Decodes the frame header at the start of `data`.
#[verifier::rlimit(50)]
pub fn decode_frame_header(data: &[u8]) -> (r: Option<MP3FrameHeader>)
    ensures
        r == (if header_valid(data@) {
            Some(header_of(data@))
        } else {
            None
        }),
{
    if data.len() < MP3_FRAMEHEADER_SIZE {
        return None;
    }
    proof {
        lemma2_to64();
    }
    if read_field(data, 0, 12) != MP3_SYNC_CODE {
        return None;
    }
    let version = if read_field(data, 12, 1) == 1 {
        MPEGVersion::MPEGVersion1
    } else {
        MPEGVersion::MPEGVersion2
    };
    let layer = match read_field(data, 13, 2) {
        1 => MP3Layer::Layer3,
        2 => MP3Layer::Layer2,
        3 => MP3Layer::Layer1,
        _ => return None,
    };
    let error_protection = read_field(data, 15, 1) == 0;
    let bit_rate = match read_field(data, 16, 4) {
        0 => MP3BitRate::Kbps0,
        1 => MP3BitRate::Kbps32,
        2 => MP3BitRate::Kbps40,
        3 => MP3BitRate::Kbps48,
        4 => MP3BitRate::Kbps56,
        5 => MP3BitRate::Kbps64,
        6 => MP3BitRate::Kbps80,
        7 => MP3BitRate::Kbps96,
        8 => MP3BitRate::Kbps112,
        9 => MP3BitRate::Kbps128,
        10 => MP3BitRate::Kbps160,
        11 => MP3BitRate::Kbps192,
        12 => MP3BitRate::Kbps224,
        13 => MP3BitRate::Kbps256,
        14 => MP3BitRate::Kbps320,
        _ => return None,
    };
    let sampling_rate = match read_field(data, 20, 2) {
        0 => MP3SamplingRate::Hz44100,
        1 => MP3SamplingRate::Hz48000,
        2 => MP3SamplingRate::Hz32000,
        _ => return None,
    };
    let padding = read_field(data, 22, 1) == 1;
    let extension = read_field(data, 23, 1) as u8;
    let channel_mode = match read_field(data, 24, 2) {
        0 => MP3ChannelMode::Stereo,
        1 => MP3ChannelMode::JointStereo,
        2 => MP3ChannelMode::DualChannel,
        _ => MP3ChannelMode::Monoral,
    };
    let flags = read_field(data, 26, 2);
    let intensity = flags & 1 != 0;
    let ms = flags & 2 != 0;
    let ext_channel_mode = if intensity && ms {
        MP3ExtChannelMode::IntensityAndMSStereo
    } else if intensity {
        MP3ExtChannelMode::IntensityStereo
    } else if ms {
        MP3ExtChannelMode::MSStereo
    } else {
        MP3ExtChannelMode::NONE
    };
    assert(flags < 4 ==> (((flags & 1 != 0) && (flags & 2 != 0)) == (flags == 3) && ((flags & 1
        != 0) && !(flags & 2 != 0)) == (flags == 1) && (!(flags & 1 != 0) && (flags & 2 != 0)) == (
    flags == 2))) by (bit_vector);
    let copyright = read_field(data, 28, 1) == 1;
    let original = read_field(data, 29, 1) == 1;
    let emphasis = match read_field(data, 30, 2) {
        0 => MP3EmphasisMode::NONE,
        1 => MP3EmphasisMode::FiftyFifteenMs,
        2 => MP3EmphasisMode::Reserved,
        _ => MP3EmphasisMode::CCITTJ17,
    };
    Some(
        MP3FrameHeader {
            version,
            layer,
            error_protection,
            bit_rate,
            sampling_rate,
            padding,
            extension,
            channel_mode,
            ext_channel_mode,
            copyright,
            original,
            emphasis,
        },
    )
}

// ---------------------------------------------------------------------------
// Frame size
// ---------------------------------------------------------------------------

/// Channels coded in a frame with header `h`.
pub open spec fn num_channels_of(h: MP3FrameHeader) -> nat {
    if h.channel_mode == MP3ChannelMode::Monoral {
        1
    } else {
        2
    }
}

/// Bytes of the side information of a frame with header `h`.
pub open spec fn side_info_size(h: MP3FrameHeader) -> nat {
    if h.channel_mode == MP3ChannelMode::Monoral {
        17
    } else {
        32
    }
}

/// Bytes of the CRC that follows the header `h`.
pub open spec fn crc_size(h: MP3FrameHeader) -> nat {
    if h.error_protection {
        2
    } else {
        0
    }
}

/// Bytes of a frame with header `h`: `144 * bit rate / sampling rate`, plus the padding
/// byte.
pub open spec fn frame_bytes(h: MP3FrameHeader) -> nat {
    144 * bit_rate_bps(h.bit_rate) / sampling_rate_hz(h.sampling_rate) + if h.padding {
        1nat
    } else {
        0nat
    }
}

/// Bytes of main data in a frame with header `h`: the frame less its header, side
/// information and CRC.
pub open spec fn maindata_size_of(h: MP3FrameHeader) -> int {
    frame_bytes(h) - 4 - side_info_size(h) - crc_size(h)
}

/// Bytes of side information of a frame with header `header`.
fn get_sideinformation_size(header: &MP3FrameHeader) -> (r: usize)
    ensures
        r == side_info_size(*header),
{
    match header.channel_mode {
        MP3ChannelMode::Monoral => MP3_SIDEINFORMATION_SIZE_MONO,
        _ => MP3_SIDEINFORMATION_SIZE_STEREO,
    }
}

/// Bytes of main data in a frame with header `header`; the frame is
/// `144 * bit rate / sampling rate` bytes plus padding, and header, side information,
/// CRC and main data fill it exactly.
pub fn get_maindata_size(header: &MP3FrameHeader) -> (r: usize)
    requires
        header.bit_rate != MP3BitRate::Kbps0,
    ensures
        r == maindata_size_of(*header),
        4 + side_info_size(*header) + crc_size(*header) + r == frame_bytes(*header),
{
    let bps = header.bit_rate.bits_per_second() as usize;
    let hz = header.sampling_rate.hz() as usize;
    proof {
        let x: int = 144int * 32000int;
        vstd::arithmetic::div_mod::lemma_div_is_ordered_by_denominator(x, hz as int, 48000);
        vstd::arithmetic::div_mod::lemma_div_is_ordered(x, 144 * bps as int, hz as int);
        assert(x / 48000 == 96);
    }
    let mut size: usize = 144 * bps / hz;
    size = size - MP3_FRAMEHEADER_SIZE;
    size = size - get_sideinformation_size(header);
    if header.padding {
        size = size + 1;
    }
    if header.error_protection {
        size = size - 2;
    }
    size
}

// ---------------------------------------------------------------------------
// Side information
// ---------------------------------------------------------------------------

/// Bits of the side information of one granule of one channel.
pub open spec fn granule_info_bits() -> nat {
    59
}

/// Bit where the side information of granule `gr` of channel `ch` starts, in a frame of
/// `nch` channels (granule-major order, after the frame-wide fields).
pub open spec fn granule_base(nch: nat, gr: nat, ch: nat) -> nat {
    (if nch == 1 {
        18nat
    } else {
        20nat
    }) + 59 * (gr * nch + ch)
}

/// Bit where the scale-factor sharing flags of channel `ch` start.
pub open spec fn scfsi_base(nch: nat, ch: nat) -> nat {
    (if nch == 1 {
        14nat
    } else {
        12nat
    }) + 4 * ch
}

/// Block type coded as `c` in a window-switched granule (after the check that `c` is
/// not 0).
pub open spec fn block_type_of_code(c: nat) -> MP3BlockType {
    if c == 1 {
        MP3BlockType::Start
    } else if c == 2 {
        MP3BlockType::Short
    } else {
        MP3BlockType::Stop
    }
}

/// The granule side information at bit `b` of `s` is allowed: a window-switched granule
/// does not code the normal block type.
pub open spec fn granule_code_ok(s: Seq<u8>, b: int) -> bool {
    !(bits_value(s, b + 33, 1) == 1 && bits_value(s, b + 34, 2) == 0)
}

/// `g` holds the granule side information coded at bit `b` of `s`.
pub open spec fn granule_matches(s: Seq<u8>, b: int, g: MP3GranuleInformation) -> bool {
    let ws = bits_value(s, b + 33, 1) == 1;
    &&& g.part2_3_length as nat == bits_value(s, b, 12)
    &&& g.big_values as nat == bits_value(s, b + 12, 9)
    &&& g.global_gain as nat == bits_value(s, b + 21, 8)
    &&& g.scalefac_compress as nat == bits_value(s, b + 29, 4)
    &&& g.window_switching_flag == ws
    &&& if ws {
        &&& g.block_type == block_type_of_code(bits_value(s, b + 34, 2))
        &&& g.mixed_block_flag == (bits_value(s, b + 36, 1) == 1)
        &&& g.table_select[0] as nat == bits_value(s, b + 37, 5)
        &&& g.table_select[1] as nat == bits_value(s, b + 42, 5)
        &&& g.table_select[2] == 0
        &&& forall|i: int|
            0 <= i < 3 ==> #[trigger] g.subblock_gain[i] as nat == bits_value(s, b + 47 + 3 * i, 3)
        &&& g.region0_count == (if g.block_type == MP3BlockType::Short && !g.mixed_block_flag {
            8u8
        } else {
            7u8
        })
        &&& g.region1_count == 20 - g.region0_count
    } else {
        &&& g.block_type == MP3BlockType::Normal
        &&& !g.mixed_block_flag
        &&& forall|i: int|
            0 <= i < 3 ==> #[trigger] g.table_select[i] as nat == bits_value(s, b + 34 + 5 * i, 5)
        &&& forall|i: int| 0 <= i < 3 ==> #[trigger] g.subblock_gain[i] == 0
        &&& g.region0_count as nat == bits_value(s, b + 49, 4)
        &&& g.region1_count as nat == bits_value(s, b + 53, 3)
    }
    &&& g.preflag == (bits_value(s, b + 56, 1) == 1)
    &&& g.scalefac_scale as nat == bits_value(s, b + 57, 1)
    &&& g.count1table_select as nat == bits_value(s, b + 58, 1)
}

/// No granule of the `nch` channels in the side information `s` codes a forbidden
/// block type.
pub open spec fn granules_code_ok(nch: nat, s: Seq<u8>) -> bool {
    forall|gr: nat, ch: nat|
        gr < 2 && ch < nch ==> #[trigger] granule_code_ok(s, granule_base(nch, gr, ch) as int)
}

/// `s` starts with side information for a frame with header `h`: the frame is MPEG-1,
/// `s` is long enough, and no granule codes a forbidden block type.
pub open spec fn side_info_valid(h: MP3FrameHeader, s: Seq<u8>) -> bool {
    &&& h.version == MPEGVersion::MPEGVersion1
    &&& s.len() >= side_info_size(h)
    &&& granules_code_ok(num_channels_of(h), s)
}

/// `si` holds the side information that `s` codes for a frame of `nch` channels; the
/// channel that a single-channel frame lacks is all zero.
#[verifier::opaque]
pub open spec fn side_info_fields_match(nch: nat, s: Seq<u8>, si: MP3SideInformation) -> bool {
    &&& si.maindata_begin as nat == bits_value(s, 0, 9)
    &&& si.private_bits as nat == (if nch == 1 {
        bits_value(s, 9, 5)
    } else {
        bits_value(s, 9, 3)
    })
    &&& forall|ch: int, i: int|
        0 <= ch < 2 && 0 <= i < 4 ==> #[trigger] si.ch[ch].scfsi[i] == (ch < nch && bits_value(
            s,
            scfsi_base(nch, ch as nat) + i,
            1,
        ) == 1)
    &&& forall|ch: int, gr: int|
        0 <= ch < 2 && 0 <= gr < 2 ==> if ch < nch {
            granule_matches(
                s,
                granule_base(nch, gr as nat, ch as nat) as int,
                #[trigger] si.ch[ch].gr[gr],
            )
        } else {
            granule_is_zero(si.ch[ch].gr[gr])
        }
}

/// Every `scalefac_compress` of `si` fits its four bits.
pub open spec fn side_info_in_range(si: MP3SideInformation) -> bool {
    &&& si.maindata_begin < 512
    &&& forall|ch: int, gr: int|
        0 <= ch < 2 && 0 <= gr < 2 ==> #[trigger] si.ch[ch].gr[gr].scalefac_compress < 16
}

/// `si` holds the side information that `s` codes for a frame with header `h`.
pub open spec fn side_info_matches(h: MP3FrameHeader, s: Seq<u8>, si: MP3SideInformation) -> bool {
    side_info_fields_match(num_channels_of(h), s, si)
}

/// Decodes the side information of one granule of one channel at bit `b` of `data`.
fn decode_granule_information(data: &[u8], b: u64) -> (r: Option<MP3GranuleInformation>)
    requires
        b <= 256,
        b + 59 <= 8 * data@.len(),
    ensures
        r is Some == granule_code_ok(data@, b as int),
        r matches Some(g) ==> granule_matches(data@, b as int, g) && g.scalefac_compress < 16,
{
    proof {
        lemma2_to64();
    }
    let part2_3_length = read_field(data, b, 12) as u16;
    let big_values = read_field(data, b + 12, 9) as u16;
    let global_gain = read_field(data, b + 21, 8) as u8;
    let scalefac_compress = read_field(data, b + 29, 4) as u8;
    let window_switching_flag = read_field(data, b + 33, 1) == 1;
    let block_type;
    let mixed_block_flag;
    let table_select: [u8; 3];
    let subblock_gain: [u8; 3];
    let region0_count: u8;
    let region1_count: u8;
    if window_switching_flag {
        block_type = match read_field(data, b + 34, 2) {
            1 => MP3BlockType::Start,
            2 => MP3BlockType::Short,
            3 => MP3BlockType::Stop,
            _ => return None,
        };
        mixed_block_flag = read_field(data, b + 36, 1) == 1;
        table_select = [read_field(data, b + 37, 5) as u8, read_field(data, b + 42, 5) as u8, 0];
        subblock_gain = [
            read_field(data, b + 47, 3) as u8,
            read_field(data, b + 50, 3) as u8,
            read_field(data, b + 53, 3) as u8,
        ];
        region0_count = match block_type {
            MP3BlockType::Short if !mixed_block_flag => 8,
            _ => 7,
        };
        region1_count = 20 - region0_count;
    } else {
        block_type = MP3BlockType::Normal;
        mixed_block_flag = false;
        table_select = [
            read_field(data, b + 34, 5) as u8,
            read_field(data, b + 39, 5) as u8,
            read_field(data, b + 44, 5) as u8,
        ];
        subblock_gain = [0; 3];
        region0_count = read_field(data, b + 49, 4) as u8;
        region1_count = read_field(data, b + 53, 3) as u8;
    }
    let preflag = read_field(data, b + 56, 1) == 1;
    let scalefac_scale = read_field(data, b + 57, 1) as u8;
    let count1table_select = read_field(data, b + 58, 1) as u8;
    let g = MP3GranuleInformation {
        part2_3_length,
        big_values,
        global_gain,
        scalefac_compress,
        window_switching_flag,
        block_type,
        mixed_block_flag,
        table_select,
        subblock_gain,
        region0_count,
        region1_count,
        preflag,
        scalefac_scale,
        count1table_select,
    };
    assert(granule_matches(data@, b as int, g));
    Some(g)
}

/// Decodes single-channel side information.
#[verifier::rlimit(60)]
fn decode_side_information_mono(data: &[u8]) -> (r: Option<MP3SideInformation>)
    requires
        data@.len() >= 17,
    ensures
        r is Some == granules_code_ok(1, data@),
        r matches Some(si) ==> side_info_fields_match(1, data@, si) && side_info_in_range(si),
{
    reveal(side_info_fields_match);
    proof {
        lemma2_to64();
    }
    let maindata_begin = read_field(data, 0, 9) as u16;
    let private_bits = read_field(data, 9, 5) as u8;
    let scfsi = [
        read_field(data, 14, 1) == 1,
        read_field(data, 15, 1) == 1,
        read_field(data, 16, 1) == 1,
        read_field(data, 17, 1) == 1,
    ];
    let g0 = decode_granule_information(data, 18);
    let g1 = decode_granule_information(data, 77);
    assert(granule_base(1, 0, 0) == 18 && granule_base(1, 1, 0) == 77);
    match (g0, g1) {
        (Some(g0), Some(g1)) => {
            let si = MP3SideInformation {
                maindata_begin,
                private_bits,
                ch: [
                    MP3ChannelSideInformation { scfsi, gr: [g0, g1] },
                    MP3ChannelSideInformation {
                        scfsi: [false; 4],
                        gr: [MP3GranuleInformation::default(), MP3GranuleInformation::default()],
                    },
                ],
            };
            assert forall|ch: int, gr: int| 0 <= ch < 2 && 0 <= gr < 2 implies if ch < 1 {
                granule_matches(
                    data@,
                    granule_base(1, gr as nat, ch as nat) as int,
                    #[trigger] si.ch[ch].gr[gr],
                )
            } else {
                granule_is_zero(si.ch[ch].gr[gr])
            } by {
                if ch == 0 && gr == 0 {
                } else if ch == 0 {
                } else if gr == 0 {
                } else {
                }
            }
            assert forall|ch: int, i: int| 0 <= ch < 2 && 0 <= i < 4 implies #[trigger] si.ch[ch].scfsi[i]
                == (ch < 1 && bits_value(data@, scfsi_base(1, ch as nat) + i, 1) == 1) by {
                if ch == 0 {
                    assert(scfsi_base(1, 0) == 14);
                }
            }
            Some(si)
        },
        _ => {
            proof {
                if g0 is None {
                    assert(!granule_code_ok(data@, granule_base(1, 0, 0) as int));
                } else {
                    assert(!granule_code_ok(data@, granule_base(1, 1, 0) as int));
                }
            }
            None
        },
    }
}

/// Decodes two-channel side information.
#[verifier::rlimit(60)]
fn decode_side_information_stereo(data: &[u8]) -> (r: Option<MP3SideInformation>)
    requires
        data@.len() >= 32,
    ensures
        r is Some == granules_code_ok(2, data@),
        r matches Some(si) ==> side_info_fields_match(2, data@, si) && side_info_in_range(si),
{
    reveal(side_info_fields_match);
    proof {
        lemma2_to64();
    }
    let maindata_begin = read_field(data, 0, 9) as u16;
    let private_bits = read_field(data, 9, 3) as u8;
    let scfsi0 = [
        read_field(data, 12, 1) == 1,
        read_field(data, 13, 1) == 1,
        read_field(data, 14, 1) == 1,
        read_field(data, 15, 1) == 1,
    ];
    let scfsi1 = [
        read_field(data, 16, 1) == 1,
        read_field(data, 17, 1) == 1,
        read_field(data, 18, 1) == 1,
        read_field(data, 19, 1) == 1,
    ];
    let g00 = decode_granule_information(data, 20);
    let g10 = decode_granule_information(data, 79);
    let g01 = decode_granule_information(data, 138);
    let g11 = decode_granule_information(data, 197);
    assert(granule_base(2, 0, 0) == 20 && granule_base(2, 0, 1) == 79);
    assert(granule_base(2, 1, 0) == 138 && granule_base(2, 1, 1) == 197);
    match (g00, g01, g10, g11) {
        (Some(g00), Some(g01), Some(g10), Some(g11)) => {
            let si = MP3SideInformation {
                maindata_begin,
                private_bits,
                ch: [
                    MP3ChannelSideInformation { scfsi: scfsi0, gr: [g00, g01] },
                    MP3ChannelSideInformation { scfsi: scfsi1, gr: [g10, g11] },
                ],
            };
            assert forall|ch: int, gr: int| 0 <= ch < 2 && 0 <= gr < 2 implies if ch < 2 {
                granule_matches(
                    data@,
                    granule_base(2, gr as nat, ch as nat) as int,
                    #[trigger] si.ch[ch].gr[gr],
                )
            } else {
                granule_is_zero(si.ch[ch].gr[gr])
            } by {
                if ch == 0 && gr == 0 {
                } else if ch == 0 {
                } else if gr == 0 {
                } else {
                }
            }
            assert forall|ch: int, i: int| 0 <= ch < 2 && 0 <= i < 4 implies #[trigger] si.ch[ch].scfsi[i]
                == (ch < 2 && bits_value(data@, scfsi_base(2, ch as nat) + i, 1) == 1) by {
                assert(scfsi_base(2, 0) == 12 && scfsi_base(2, 1) == 16);
            }
            Some(si)
        },
        _ => {
            proof {
                if g00 is None {
                    assert(!granule_code_ok(data@, granule_base(2, 0, 0) as int));
                } else if g01 is None {
                    assert(!granule_code_ok(data@, granule_base(2, 1, 0) as int));
                } else if g10 is None {
                    assert(!granule_code_ok(data@, granule_base(2, 0, 1) as int));
                } else {
                    assert(!granule_code_ok(data@, granule_base(2, 1, 1) as int));
                }
            }
            None
        },
    }
}

/// Decodes the side information at the start of `data` for a frame with header
/// `header`.
pub fn decode_side_information(header: &MP3FrameHeader, data: &[u8]) -> (r: Option<
    MP3SideInformation,
>)
    ensures
        r is Some == side_info_valid(*header, data@),
        r matches Some(si) ==> side_info_matches(*header, data@, si) && side_info_in_range(si),
{
    match header.version {
        MPEGVersion::MPEGVersion1 => {},
        MPEGVersion::MPEGVersion2 => return None,
    }
    if data.len() < get_sideinformation_size(header) {
        return None;
    }
    match header.channel_mode {
        MP3ChannelMode::Monoral => decode_side_information_mono(data),
        _ => decode_side_information_stereo(data),
    }
}

// ---------------------------------------------------------------------------
// Frames
// ---------------------------------------------------------------------------

/// What decoding the frame information at the start of `s` gives: the offset of the
/// main data, the bytes of main data present, and the header; or the error.
pub open spec fn frame_info_spec(s: Seq<u8>) -> Result<(nat, nat, MP3FrameHeader), MP3DecodeError> {
    match sync_from(s, 0) {
        None => Err(MP3DecodeError::EndOfStream),
        Some(p) => {
            let t = s.subrange(p as int, s.len() as int);
            if !header_valid(t) {
                Err(MP3DecodeError::InvalidHeader)
            } else {
                let h = header_of(t);
                let hs = p + 4 + side_info_size(h) + crc_size(h);
                if !side_info_valid(h, s.subrange(p + 4int, s.len() as int)) || hs > s.len() {
                    Err(MP3DecodeError::InvalidSideInformation)
                } else if h.layer != MP3Layer::Layer3 || h.bit_rate == MP3BitRate::Kbps0 {
                    Err(MP3DecodeError::InvalidFormat)
                } else {
                    let avail = (s.len() - hs) as nat;
                    let ms = maindata_size_of(h);
                    Ok((hs, if avail < ms { avail } else { ms as nat }, h))
                }
            }
        },
    }
}

/// Decodes the frame information at the start of `data`: finds the sync word, decodes
/// the header and the side information, and skips the CRC. Returns the offset of the
/// main data, the bytes of main data present (at most what the header gives), the
/// header and the side information.
pub fn decode_frame_information(data: &[u8]) -> (r: Result<
    (usize, usize, MP3FrameHeader, MP3SideInformation),
    MP3DecodeError,
>)
    ensures
        match r {
            Ok((hs, ms, h, si)) => {
                &&& frame_info_spec(data@) == Ok::<_, MP3DecodeError>((hs as nat, ms as nat, h))
                &&& side_info_matches(
                    h,
                    data@.subrange(hs - side_info_size(h) - crc_size(h), data@.len() as int),
                    si,
                )
                &&& hs + ms <= data@.len()
                &&& side_info_in_range(si)
            },
            Err(e) => frame_info_spec(data@) == Err::<(nat, nat, MP3FrameHeader), _>(e),
        },
{
    let sync_pos = match find_sync_code(data) {
        Some(p) => p,
        None => return Err(MP3DecodeError::EndOfStream),
    };
    let mut read_pos = sync_pos;
    let header = match decode_frame_header(vstd::slice::slice_subrange(data, read_pos, data.len())) {
        Some(h) => h,
        None => return Err(MP3DecodeError::InvalidHeader),
    };
    read_pos = read_pos + MP3_FRAMEHEADER_SIZE;
    let side_info = match decode_side_information(
        &header,
        vstd::slice::slice_subrange(data, read_pos, data.len()),
    ) {
        Some(si) => si,
        None => return Err(MP3DecodeError::InvalidSideInformation),
    };
    read_pos = read_pos + get_sideinformation_size(&header);
    if header.error_protection {
        if data.len() - read_pos < 2 {
            return Err(MP3DecodeError::InvalidSideInformation);
        }
        read_pos = read_pos + 2;
    }
    match (header.layer, header.bit_rate) {
        (MP3Layer::Layer3, MP3BitRate::Kbps0) => return Err(MP3DecodeError::InvalidFormat),
        (MP3Layer::Layer3, _) => {},
        _ => return Err(MP3DecodeError::InvalidFormat),
    }
    let avail = data.len() - read_pos;
    let size = get_maindata_size(&header);
    let maindata_size = if avail < size {
        avail
    } else {
        size
    };
    Ok((read_pos, maindata_size, header, side_info))
}

/// The format found by walking the frames of `s` from byte `pos` on, given what was
/// found before: (channels, frames, sampling rate, bit rate). A stereo frame makes two
/// channels; the rates are those of the last frame; the walk ends at the end of the
/// stream and stops at the first other error.
pub open spec fn format_walk(s: Seq<u8>, pos: nat, acc: (nat, nat, MP3SamplingRate, MP3BitRate)) -> Result<
    (nat, nat, MP3SamplingRate, MP3BitRate),
    MP3DecodeError,
>
    decreases s.len() - pos,
{
    if pos > s.len() {
        Ok(acc)
    } else {
        match frame_info_spec(s.subrange(pos as int, s.len() as int)) {
            Ok((hs, ms, h)) => if hs + ms > 0 && pos + hs + ms <= s.len() {
                format_walk(
                    s,
                    pos + hs + ms,
                    (
                        if h.channel_mode == MP3ChannelMode::Monoral {
                            acc.0
                        } else {
                            2
                        },
                        acc.1 + 1,
                        h.sampling_rate,
                        h.bit_rate,
                    ),
                )
            } else {
                Ok(acc)
            },
            Err(e) => if e == MP3DecodeError::EndOfStream {
                Ok(acc)
            } else {
                Err(e)
            },
        }
    }
}

/// The format of the whole stream `s`: the walk from its start, with one channel,
/// no frames, 44.1 kHz and 128 kbit/s until a frame says otherwise.
pub open spec fn format_spec(s: Seq<u8>) -> Result<(nat, nat, MP3SamplingRate, MP3BitRate), MP3DecodeError> {
    format_walk(s, 0, (1, 0, MP3SamplingRate::Hz44100, MP3BitRate::Kbps128))
}

/// Walks all frames of `data` without touching their main data: 1152 samples per frame,
/// two channels if any frame is not single-channel, the rates of the last frame.
pub fn get_format_information(data: &[u8]) -> (r: Result<MP3FormatInformation, MP3DecodeError>)
    requires
        data@.len() <= usize::MAX / 64,
    ensures
        match r {
            Ok(f) => format_spec(data@) == Ok::<_, MP3DecodeError>(
                (f.num_channels as nat, f.num_samples as nat / 1152, f.sampling_rate, f.bit_rate),
            ) && f.num_samples % 1152 == 0,
            Err(e) => format_spec(data@) == Err::<(nat, nat, MP3SamplingRate, MP3BitRate), _>(e),
        },
{
    let mut format = MP3FormatInformation {
        num_channels: 1,
        num_samples: 0,
        sampling_rate: MP3SamplingRate::Hz44100,
        bit_rate: MP3BitRate::Kbps128,
    };
    let mut read_pos: usize = 0;
    let ghost mut frames: nat = 0;
    loop
        invariant
            read_pos <= data.len(),
            data@.len() <= usize::MAX / 64,
            format.num_samples == 1152 * frames,
            21 * frames <= read_pos,
            format_spec(data@) == format_walk(
                data@,
                read_pos as nat,
                (format.num_channels as nat, frames, format.sampling_rate, format.bit_rate),
            ),
        ensures
            format_spec(data@) == Ok::<_, MP3DecodeError>(
                (format.num_channels as nat, frames, format.sampling_rate, format.bit_rate),
            ),
        decreases data.len() - read_pos,
    {
        let rest = vstd::slice::slice_subrange(data, read_pos, data.len());
        assert(rest@ == data@.subrange(read_pos as int, data@.len() as int));
        match decode_frame_information(rest) {
            Ok((header_size, maindata_size, header, _)) => {
                proof {
                    reveal_with_fuel(format_walk, 1);
                }
                format.num_channels = match header.channel_mode {
                    MP3ChannelMode::Stereo
                    | MP3ChannelMode::JointStereo
                    | MP3ChannelMode::DualChannel => 2,
                    _ => format.num_channels,
                };
                format.sampling_rate = header.sampling_rate;
                format.bit_rate = header.bit_rate;
                format.num_samples = format.num_samples + 1152;
                proof {
                    frames = frames + 1;
                }
                read_pos = read_pos + header_size + maindata_size;
            },
            Err(e) => {
                proof {
                    reveal_with_fuel(format_walk, 1);
                }
                match e {
                    MP3DecodeError::EndOfStream => break,
                    _ => return Err(e),
                }
            },
        }
    }
    assert(format.num_samples as nat / 1152 == frames);
    Ok(format)
}

/// Bytes of an ID3v2 tag at the start of `s`: its ten-byte header plus the size it
/// codes in bytes 6 to 9, seven bits each; 0 when `s` does not start with "ID3".
pub open spec fn id3v2_size(s: Seq<u8>) -> nat {
    if s[0] == 0x49u8 && s[1] == 0x44u8 && s[2] == 0x33u8 {
        10 + (((s[6] as u32) << 21u32) | ((s[7] as u32) << 14u32) | ((s[8] as u32) << 7u32) | (
        s[9] as u32)) as nat
    } else {
        0
    }
}

/// Bytes of the ID3v2 tag at the start of `data`, 0 if there is none; an error when
/// `data` is shorter than a tag header.
pub fn get_id3v2tag_size(data: &[u8]) -> (r: Result<usize, MP3DecodeError>)
    ensures
        data@.len() < 10 ==> r == Err::<usize, _>(MP3DecodeError::InvalidHeader),
        data@.len() >= 10 ==> r == Ok::<_, MP3DecodeError>(id3v2_size(data@) as usize),
        data@.len() >= 10 ==> id3v2_size(data@) < 0x2000_0010,
{
    if data.len() < 10 {
        return Err(MP3DecodeError::InvalidHeader);
    }
    let (c6, c7, c8, c9) = (data[6] as u32, data[7] as u32, data[8] as u32, data[9] as u32);
    assert(((c6 << 21u32) | (c7 << 14u32) | (c8 << 7u32) | c9) < 0x2000_0000) by (bit_vector)
        requires
            c6 < 256 && c7 < 256 && c8 < 256 && c9 < 256,
    ;
    if data[0] != 0x49u8 || data[1] != 0x44u8 || data[2] != 0x33u8 {
        return Ok(0);
    }
    let (b6, b7, b8, b9) = (data[6] as u32, data[7] as u32, data[8] as u32, data[9] as u32);
    let size = (b6 << 21u32) | (b7 << 14u32) | (b8 << 7u32) | b9;
    assert(size < 0x2000_0000) by (bit_vector)
        requires
            b6 < 256 && b7 < 256 && b8 < 256 && b9 < 256,
            size == (b6 << 21u32) | (b7 << 14u32) | (b8 << 7u32) | b9,
    ;
    Ok(10 + size as usize)
}

// ---------------------------------------------------------------------------
// Decoder state
// ---------------------------------------------------------------------------

/// Scale factors of both granules of one channel.
#[derive(Debug, Clone, Copy)]
pub struct FrameScaleFactor {
    /// Each granule
    pub gr: [GranuleScaleFactor; 2],
}

/// Scale factors of a frame.
#[derive(Debug, Clone, Copy)]
pub struct MP3ScaleFactor {
    /// Each channel
    pub ch: [FrameScaleFactor; 2],
}

impl Default for MP3ScaleFactor {
    fn default() -> (r: Self)
        ensures
            forall|ch: int, gr: int|
                0 <= ch < 2 && 0 <= gr < 2 ==> granule_scale_factor_is_zero(#[trigger] r.ch[ch].gr[gr]),
    {
        Self {
            ch: [
                FrameScaleFactor { gr: [GranuleScaleFactor::zero(), GranuleScaleFactor::zero()] },
                FrameScaleFactor { gr: [GranuleScaleFactor::zero(), GranuleScaleFactor::zero()] },
            ],
        }
    }
}

/// The main-data start after a frame of `m` main-data bytes, from `start`, modulo the ring.
pub open spec fn maindata_start_after(start: nat, m: nat) -> nat {
    (start + m) % 4096
}

/// Byte of the ring where a frame's main data starts: `begin` bytes before the
/// main-data start, modulo the ring.
pub open spec fn maindata_target(start: nat, begin: nat) -> nat {
    ((start - begin) % 4096) as nat
}

/// The back-pointer `begin`, counted from the main-data start, reaches further back
/// than the bytes that the reservoir still holds ahead of the read byte `read_byte`.
pub open spec fn maindata_missing(start: nat, read_byte: nat, begin: nat) -> bool {
    4096 + start < read_byte + begin
}

/// MP3 decoder state: the bit reservoir and where the next frame's main data starts.
pub struct MP3Decoder {
    /// The bit reservoir
    maindata_buffer: MP3MainDataBuffer,
    /// Where the main data of the next frame is appended (byte)
    maindata_start: usize,
}

impl MP3Decoder {
    /// The bit reservoir.
    pub closed spec fn reservoir(&self) -> MP3MainDataBuffer {
        self.maindata_buffer
    }

    /// Where the main data of the next frame is appended, in bytes.
    pub closed spec fn maindata_start(&self) -> nat {
        self.maindata_start as nat
    }

    /// The reservoir is well formed and the main-data start lies inside the ring.
    pub open spec fn wf(&self) -> bool {
        &&& self.reservoir().wf()
        &&& self.maindata_start() < 4096
    }

    /// The state of a new decoder.
    pub open spec fn is_fresh(&self) -> bool {
        &&& self.reservoir().is_empty_state()
        &&& self.maindata_start() == 0
    }

    /// Everything that the decoder's behaviour depends on.
    pub open spec fn state(&self) -> (Seq<u8>, nat, nat, nat) {
        (
            self.reservoir().bytes(),
            self.reservoir().write_pos(),
            self.reservoir().read_pos(),
            self.maindata_start(),
        )
    }

    /// Creates a decoder.
    pub fn new() -> (r: Self)
        ensures
            r.wf(),
            r.is_fresh(),
    {
        Self { maindata_buffer: MP3MainDataBuffer::new(), maindata_start: 0 }
    }

    /// Brings the decoder back to the state of a new one.
    pub fn reset(&mut self)
        ensures
            final(self).wf(),
            final(self).is_fresh(),
    {
        self.maindata_buffer.reset();
        self.maindata_start = 0;
    }

    /// Moves the reservoir's read position to where the frame's main data starts:
    /// byte-aligns it, then skips to `maindata_begin` bytes before the main-data start.
    /// Returns false, and moves nothing further, when the back-pointer reaches beyond
    /// what the reservoir holds; else also advances the main-data start by the frame's
    /// main-data size.
    fn locate_maindata(&mut self, header: &MP3FrameHeader, side_info: &MP3SideInformation) -> (found: bool)
        requires
            old(self).wf(),
            header.bit_rate != MP3BitRate::Kbps0,
            side_info.maindata_begin < 512,
        ensures
            final(self).wf(),
            final(self).reservoir().bytes() == old(self).reservoir().bytes(),
            final(self).reservoir().write_pos() == old(self).reservoir().write_pos(),
            found == !maindata_missing(
                old(self).maindata_start(),
                aligned_pos(old(self).reservoir().read_pos()) / 8,
                side_info.maindata_begin as nat,
            ),
            found ==> final(self).reservoir().read_pos() == 8 * maindata_target(
                old(self).maindata_start(),
                side_info.maindata_begin as nat,
            ),
            found ==> final(self).maindata_start() == maindata_start_after(
                old(self).maindata_start(),
                maindata_size_of(*header) as nat,
            ),
            !found ==> final(self).reservoir().read_pos() == aligned_pos(
                old(self).reservoir().read_pos(),
            ),
            !found ==> final(self).maindata_start() == old(self).maindata_start(),
    {
        self.maindata_buffer.align_next_byte();
        let aligned = self.maindata_buffer.get_total_read_bits();
        proof {
            let p = old(self).maindata_buffer.read_pos();
            assert(aligned_pos(p) % 8 == 0) by (nonlinear_arith)
                requires
                    aligned_pos(p) == ((p + 7) / 8 * 8) % 32768,
            {
                vstd::arithmetic::div_mod::lemma_mod_mod(((p + 7) / 8) as int, 8, 4096);
                vstd::arithmetic::div_mod::lemma_mul_mod_noop_right(((p + 7) / 8) as int, 8, 4096);
            }
        }
        let prev_maindata_end = (aligned / 8) as usize;
        let maindata_offset = prev_maindata_end + side_info.maindata_begin as usize;
        let discard_bytes = if self.maindata_start >= maindata_offset {
            self.maindata_start - maindata_offset
        } else {
            if MP3_MAINDATA_BUFFER_SIZE + self.maindata_start < maindata_offset {
                return false;
            }
            MP3_MAINDATA_BUFFER_SIZE + self.maindata_start - maindata_offset
        };
        self.maindata_buffer.skip(discard_bytes as u64 * 8);
        let size = get_maindata_size(header);
        proof {
            assert(size <= 1441) by {
                assert(frame_bytes(*header) <= 1441) by (nonlinear_arith)
                    requires
                        bit_rate_bps(header.bit_rate) <= 320000,
                        sampling_rate_hz(header.sampling_rate) >= 32000,
                        frame_bytes(*header) <= 144 * bit_rate_bps(header.bit_rate)
                            / sampling_rate_hz(header.sampling_rate) + 1,
                {
                    vstd::arithmetic::div_mod::lemma_div_is_ordered_by_denominator(
                        144 * bit_rate_bps(header.bit_rate) as int,
                        32000,
                        sampling_rate_hz(header.sampling_rate) as int,
                    );
                    vstd::arithmetic::div_mod::lemma_div_is_ordered(
                        144 * bit_rate_bps(header.bit_rate) as int,
                        144int * 320000int,
                        32000,
                    );
                }
            }
        }
        self.maindata_start = (self.maindata_start + size) % MP3_MAINDATA_BUFFER_SIZE;
        true
    }

    /// Decodes the scale factors of one granule of one channel and moves the read
    /// position past the granule's `part2_3_length` bits (scale factors and Huffman
    /// data).
    fn decode_granule(
        &mut self,
        granule: &MP3GranuleInformation,
        second_granule: bool,
        scfsi: &[bool; 4],
        first: &GranuleScaleFactor,
    ) -> (r: GranuleScaleFactor)
        requires
            old(self).wf(),
            granule.scalefac_compress < 16,
        ensures
            final(self).wf(),
            final(self).reservoir().bytes() == old(self).reservoir().bytes(),
            final(self).reservoir().write_pos() == old(self).reservoir().write_pos(),
            final(self).maindata_start() == old(self).maindata_start(),
            final(self).reservoir().read_pos() == (old(self).reservoir().read_pos()
                + granule.part2_3_length) % 32768,
            scale_factors_match(
                old(self).reservoir().bytes(),
                old(self).reservoir().read_pos(),
                *granule,
                second_granule,
                scfsi@,
                *first,
                r,
            ),
    {
        let part2_start = self.maindata_buffer.get_total_read_bits();
        let sf = decode_granule_scale_factor(
            &mut self.maindata_buffer,
            granule,
            second_granule,
            scfsi,
            first,
        );
        let part3_end = (part2_start + granule.part2_3_length as u64) % MP3_MAINDATA_BUFFER_SIZE_BITS;
        self.maindata_buffer.seek(part3_end);
        sf
    }

    /// Decodes the scale factors of all granules of a frame, granule by granule and
    /// channel by channel, from the read position on; each granule takes
    /// `part2_3_length` bits.
    fn decode_scale_factors(&mut self, header: &MP3FrameHeader, side_info: &MP3SideInformation) -> (r: MP3ScaleFactor)
        requires
            old(self).wf(),
            side_info_in_range(*side_info),
        ensures
            final(self).wf(),
            final(self).reservoir().bytes() == old(self).reservoir().bytes(),
            final(self).reservoir().write_pos() == old(self).reservoir().write_pos(),
            final(self).maindata_start() == old(self).maindata_start(),
            final(self).reservoir().read_pos() == (old(self).reservoir().read_pos() + bits_before(
                *side_info,
                num_channels_of(*header),
                2 * num_channels_of(*header),
            )) % 32768,
            frame_scale_factors_match(
                old(self).reservoir().bytes(),
                old(self).reservoir().read_pos(),
                *side_info,
                num_channels_of(*header),
                r,
            ),
    {
        match header.channel_mode {
            MP3ChannelMode::Monoral => self.decode_scale_factors_mono(side_info),
            _ => self.decode_scale_factors_stereo(side_info),
        }
    }

    /// `decode_scale_factors` for a single-channel frame.
    #[verifier::rlimit(60)]
    fn decode_scale_factors_mono(&mut self, side_info: &MP3SideInformation) -> (r: MP3ScaleFactor)
        requires
            old(self).wf(),
            side_info_in_range(*side_info),
        ensures
            final(self).wf(),
            final(self).reservoir().bytes() == old(self).reservoir().bytes(),
            final(self).reservoir().write_pos() == old(self).reservoir().write_pos(),
            final(self).maindata_start() == old(self).maindata_start(),
            final(self).reservoir().read_pos() == (old(self).reservoir().read_pos() + bits_before(
                *side_info,
                1,
                2,
            )) % 32768,
            frame_scale_factors_match(
                old(self).reservoir().bytes(),
                old(self).reservoir().read_pos(),
                *side_info,
                1,
                r,
            ),
    {
        let ghost buf = self.reservoir().bytes();
        let ghost pos0 = self.reservoir().read_pos();
        let ghost si = *side_info;
        let zero = GranuleScaleFactor::zero();
        reveal(frame_scale_factors_match);
        proof {
            vstd::arithmetic::div_mod::lemma_small_mod(pos0, 32768);
            reveal_with_fuel(bits_before, 3);
            assert(si.ch[0].gr[0].scalefac_compress < 16 && si.ch[0].gr[1].scalefac_compress < 16);
        }
        let a0 = self.decode_granule(&side_info.ch[0].gr[0], false, &side_info.ch[0].scfsi, &zero);
        let a1 = self.decode_granule(&side_info.ch[0].gr[1], true, &side_info.ch[0].scfsi, &a0);
        let r = MP3ScaleFactor {
            ch: [
                FrameScaleFactor { gr: [a0, a1] },
                FrameScaleFactor { gr: [GranuleScaleFactor::zero(), GranuleScaleFactor::zero()] },
            ],
        };
        proof {
            crate::scale_factor::lemma_mod_advance(pos0, bits_before(si, 1, 0), si.ch[0].gr[0].part2_3_length as nat);
            crate::scale_factor::lemma_mod_advance(pos0, bits_before(si, 1, 1), si.ch[0].gr[1].part2_3_length as nat);
            crate::scale_factor::lemma_first_granule_shares_nothing(
                buf,
                pos0 % 32768,
                si.ch[0].gr[0],
                si.ch[0].scfsi@,
                zero,
                a0,
                a0,
            );
            assert forall|ch: int, gr: int| 0 <= ch < 2 && 0 <= gr < 2 implies if ch < 1 {
                scale_factors_match(
                    buf,
                    (pos0 + bits_before(si, 1, (gr * 1 + ch) as nat)) % 32768,
                    si.ch[ch].gr[gr],
                    gr == 1,
                    si.ch[ch].scfsi@,
                    r.ch[ch].gr[0],
                    #[trigger] r.ch[ch].gr[gr],
                )
            } else {
                granule_scale_factor_is_zero(r.ch[ch].gr[gr])
            } by {
                if ch == 0 && gr == 0 {
                    assert(bits_before(si, 1, 0) == 0);
                } else if ch == 0 {
                    assert(granule_at(si, 1, 0) == si.ch[0].gr[0]);
                }
            }
        }
        r
    }

    /// `decode_scale_factors` for a two-channel frame.
    #[verifier::rlimit(60)]
    fn decode_scale_factors_stereo(&mut self, side_info: &MP3SideInformation) -> (r: MP3ScaleFactor)
        requires
            old(self).wf(),
            side_info_in_range(*side_info),
        ensures
            final(self).wf(),
            final(self).reservoir().bytes() == old(self).reservoir().bytes(),
            final(self).reservoir().write_pos() == old(self).reservoir().write_pos(),
            final(self).maindata_start() == old(self).maindata_start(),
            final(self).reservoir().read_pos() == (old(self).reservoir().read_pos() + bits_before(
                *side_info,
                2,
                4,
            )) % 32768,
            frame_scale_factors_match(
                old(self).reservoir().bytes(),
                old(self).reservoir().read_pos(),
                *side_info,
                2,
                r,
            ),
    {
        let ghost buf = self.reservoir().bytes();
        let ghost pos0 = self.reservoir().read_pos();
        let ghost si = *side_info;
        let zero = GranuleScaleFactor::zero();
        reveal(frame_scale_factors_match);
        proof {
            vstd::arithmetic::div_mod::lemma_small_mod(pos0, 32768);
            reveal_with_fuel(bits_before, 5);
            assert(si.ch[0].gr[0].scalefac_compress < 16 && si.ch[0].gr[1].scalefac_compress < 16);
            assert(si.ch[1].gr[0].scalefac_compress < 16 && si.ch[1].gr[1].scalefac_compress < 16);
            assert(granule_at(si, 2, 0) == si.ch[0].gr[0]);
            assert(granule_at(si, 2, 1) == si.ch[1].gr[0]);
            assert(granule_at(si, 2, 2) == si.ch[0].gr[1]);
            assert(granule_at(si, 2, 3) == si.ch[1].gr[1]);
        }
        let a00 = self.decode_granule(&side_info.ch[0].gr[0], false, &side_info.ch[0].scfsi, &zero);
        let a10 = self.decode_granule(&side_info.ch[1].gr[0], false, &side_info.ch[1].scfsi, &zero);
        let a01 = self.decode_granule(&side_info.ch[0].gr[1], true, &side_info.ch[0].scfsi, &a00);
        let a11 = self.decode_granule(&side_info.ch[1].gr[1], true, &side_info.ch[1].scfsi, &a10);
        let r = MP3ScaleFactor {
            ch: [FrameScaleFactor { gr: [a00, a01] }, FrameScaleFactor { gr: [a10, a11] }],
        };
        proof {
            crate::scale_factor::lemma_mod_advance(pos0, bits_before(si, 2, 0), si.ch[0].gr[0].part2_3_length as nat);
            crate::scale_factor::lemma_mod_advance(pos0, bits_before(si, 2, 1), si.ch[1].gr[0].part2_3_length as nat);
            crate::scale_factor::lemma_mod_advance(pos0, bits_before(si, 2, 2), si.ch[0].gr[1].part2_3_length as nat);
            crate::scale_factor::lemma_mod_advance(pos0, bits_before(si, 2, 3), si.ch[1].gr[1].part2_3_length as nat);
            crate::scale_factor::lemma_first_granule_shares_nothing(
                buf,
                pos0 % 32768,
                si.ch[0].gr[0],
                si.ch[0].scfsi@,
                zero,
                a00,
                a00,
            );
            crate::scale_factor::lemma_first_granule_shares_nothing(
                buf,
                (pos0 + bits_before(si, 2, 1)) % 32768,
                si.ch[1].gr[0],
                si.ch[1].scfsi@,
                zero,
                a10,
                a10,
            );
            assert forall|ch: int, gr: int| 0 <= ch < 2 && 0 <= gr < 2 implies if ch < 2 {
                scale_factors_match(
                    buf,
                    (pos0 + bits_before(si, 2, (gr * 2 + ch) as nat)) % 32768,
                    si.ch[ch].gr[gr],
                    gr == 1,
                    si.ch[ch].scfsi@,
                    r.ch[ch].gr[0],
                    #[trigger] r.ch[ch].gr[gr],
                )
            } else {
                granule_scale_factor_is_zero(r.ch[ch].gr[gr])
            } by {
                if ch == 0 && gr == 0 {
                    assert(bits_before(si, 2, 0) == 0);
                } else if ch == 0 {
                } else if gr == 0 {
                } else {
                }
            }
        }
        r
    }

    /// Reads one frame from the start of `data` into the decoder: decodes its header and
    /// side information, checks that the caller's output has room for its channels
    /// (`num_output_channels`), appends its main data to the reservoir, follows the
    /// back-pointer to where its main data starts and decodes the scale factors of every
    /// granule. The scale factors are `None` when the back-pointer reaches beyond what
    /// the reservoir holds (the frame's granules are then skipped, without an error).
    /// Returns the bytes of `data` that the frame took, the header, the side
    /// information and the scale factors.
    #[verifier::rlimit(80)]
    pub fn read_frame(&mut self, data: &[u8], num_output_channels: usize) -> (r: Result<
        (usize, MP3FrameHeader, MP3SideInformation, Option<MP3ScaleFactor>),
        MP3DecodeError,
    >)
        requires
            old(self).wf(),
        ensures
            final(self).wf(),
            match frame_info_spec(data@) {
                Err(e) => r == Err::<
                    (usize, MP3FrameHeader, MP3SideInformation, Option<MP3ScaleFactor>),
                    _,
                >(e) && final(self).state() == old(self).state(),
                Ok((hs, ms, h)) => if num_channels_of(h) > num_output_channels {
                    r == Err::<
                        (usize, MP3FrameHeader, MP3SideInformation, Option<MP3ScaleFactor>),
                        _,
                    >(MP3DecodeError::InsufficientBuffer) && final(self).state() == old(
                        self,
                    ).state()
                } else {
                    &&& r is Ok
                    &&& r->Ok_0.0 == hs + ms
                    &&& r->Ok_0.1 == h
                    &&& side_info_matches(
                        h,
                        data@.subrange(hs - side_info_size(h) - crc_size(h), data@.len() as int),
                        r->Ok_0.2,
                    )
                    &&& frame_decoded(
                        *old(self),
                        *final(self),
                        data@.subrange(hs as int, (hs + ms) as int),
                        h,
                        r->Ok_0.2,
                        r->Ok_0.3,
                    )
                },
            },
    {
        let info = decode_frame_information(data);
        let (header_size, maindata_size, header, side_info) = match info {
            Ok(info) => info,
            Err(e) => return Err(e),
        };
        assert(header_size + maindata_size <= data.len());
        let needed: usize = match header.channel_mode {
            MP3ChannelMode::Monoral => 1,
            _ => 2,
        };
        if num_output_channels < needed {
            return Err(MP3DecodeError::InsufficientBuffer);
        }
        proof {
            lemma2_to64();
            assert(side_info.maindata_begin < 512);
            assert(maindata_size <= 1441) by {
                lemma_maindata_size_bound(header);
            }
        }
        self.maindata_buffer.put_data(
            vstd::slice::slice_subrange(data, header_size, header_size + maindata_size),
        );
        if self.locate_maindata(&header, &side_info) {
            let sf = self.decode_scale_factors(&header, &side_info);
            Ok((header_size + maindata_size, header, side_info, Some(sf)))
        } else {
            Ok((header_size + maindata_size, header, side_info, None))
        }
    }

    /// Decodes the whole stream `data` for an output of `num_output_channels` channels:
    /// resets the decoder, skips an ID3v2 tag, then reads frame after frame until the
    /// end of the stream. Returns the bytes taken and the samples per channel (1152 per
    /// frame), or the first error other than the end of the stream.
    pub fn decode_whole(&mut self, data: &[u8], num_output_channels: usize) -> (r: Result<
        (usize, usize),
        MP3DecodeError,
    >)
        requires
            data@.len() <= usize::MAX / 64,
        ensures
            final(self).wf(),
            data@.len() < 10 ==> r == Err::<(usize, usize), _>(MP3DecodeError::InvalidHeader),
            match decode_whole_spec(data@, num_output_channels as nat) {
                Ok((consumed, frames)) => r == Ok::<_, MP3DecodeError>(
                    (consumed as usize, (1152 * frames) as usize),
                ) && 1152 * frames <= usize::MAX,
                Err(e) => r == Err::<(usize, usize), _>(e),
            },
    {
        self.reset();
        let start = match get_id3v2tag_size(data) {
            Ok(n) => n,
            Err(e) => return Err(e),
        };
        if start > data.len() {
            return Err(MP3DecodeError::InvalidHeader);
        }
        let ghost nout = num_output_channels as nat;
        let mut read_pos = start;
        let mut num_samples: usize = 0;
        let ghost mut frames: nat = 0;
        loop
            invariant
                self.wf(),
                start <= read_pos <= data.len(),
                data@.len() <= usize::MAX / 64,
                nout == num_output_channels as nat,
                num_samples == 1152 * frames,
                21 * frames + start <= read_pos,
                decode_whole_spec(data@, nout) == decode_walk(data@, read_pos as nat, frames, nout),
            ensures
                self.wf(),
                num_samples == 1152 * frames,
                decode_whole_spec(data@, nout) == Ok::<_, MP3DecodeError>((read_pos as nat, frames)),
            decreases data.len() - read_pos,
        {
            let rest = vstd::slice::slice_subrange(data, read_pos, data.len());
            assert(rest@ == data@.subrange(read_pos as int, data@.len() as int));
            match self.read_frame(rest, num_output_channels) {
                Ok((size, _, _, _)) => {
                    read_pos = read_pos + size;
                    num_samples = num_samples + 1152;
                    proof {
                        frames = frames + 1;
                    }
                },
                Err(e) => {
                    match e {
                        MP3DecodeError::EndOfStream => break,
                        _ => return Err(e),
                    }
                },
            }
        }
        Ok((read_pos, num_samples))
    }
}

/// A frame with header `h` has at most 1441 bytes of main data.
proof fn lemma_maindata_size_bound(h: MP3FrameHeader)
    requires
        h.bit_rate != MP3BitRate::Kbps0,
    ensures
        maindata_size_of(h) <= 1441,
{
    vstd::arithmetic::div_mod::lemma_div_is_ordered_by_denominator(
        144 * bit_rate_bps(h.bit_rate) as int,
        32000,
        sampling_rate_hz(h.sampling_rate) as int,
    );
    vstd::arithmetic::div_mod::lemma_div_is_ordered(
        144 * bit_rate_bps(h.bit_rate) as int,
        144int * 320000int,
        32000,
    );
}

/// The decoder went from `before` to `after` on a frame with header `h`, side
/// information `si` and main-data bytes `main`: the bytes were appended to the
/// reservoir; then, unless the back-pointer reaches beyond what the reservoir holds,
/// the read position went to the frame's main-data start, the scale factors `sf` were
/// decoded from there and the read position went past all granules.
pub open spec fn frame_decoded(
    before: MP3Decoder,
    after: MP3Decoder,
    main: Seq<u8>,
    h: MP3FrameHeader,
    si: MP3SideInformation,
    sf: Option<MP3ScaleFactor>,
) -> bool {
    let bytes = ring_after_put(before.reservoir().bytes(), before.reservoir().write_pos(), main);
    let nch = num_channels_of(h);
    let begin = si.maindata_begin as nat;
    let found = !maindata_missing(
        before.maindata_start(),
        aligned_pos(before.reservoir().read_pos()) / 8,
        begin,
    );
    &&& after.reservoir().bytes() == bytes
    &&& after.reservoir().write_pos() == write_pos_after_put(
        before.reservoir().write_pos(),
        main.len(),
    )
    &&& sf is Some == found
    &&& if found {
        let pos0 = 8 * maindata_target(before.maindata_start(), begin);
        &&& after.maindata_start() == maindata_start_after(
            before.maindata_start(),
            maindata_size_of(h) as nat,
        )
        &&& after.reservoir().read_pos() == (pos0 + bits_before(si, nch, 2 * nch)) % 32768
        &&& frame_scale_factors_match(bytes, pos0, si, nch, sf->Some_0)
    } else {
        &&& after.maindata_start() == before.maindata_start()
        &&& after.reservoir().read_pos() == aligned_pos(before.reservoir().read_pos())
    }
}

/// Granule number `idx` of a frame of `nch` channels in decoding order (granule by
/// granule, channel by channel).
pub open spec fn granule_at(si: MP3SideInformation, nch: nat, idx: nat) -> MP3GranuleInformation {
    si.ch[(idx % nch) as int].gr[(idx / nch) as int]
}

/// Bits of main data that the granules before number `idx` take.
pub open spec fn bits_before(si: MP3SideInformation, nch: nat, idx: nat) -> nat
    decreases idx,
{
    if idx == 0 {
        0
    } else {
        bits_before(si, nch, (idx - 1) as nat) + granule_at(si, nch, (idx - 1) as nat).part2_3_length as nat
    }
}

/// `r` holds the scale factors of the frame whose main data starts at bit `pos0` of the
/// ring `buf`: each granule's scale factors start where the granules before it end; the
/// channel that a single-channel frame lacks is all zero.
#[verifier::opaque]
pub open spec fn frame_scale_factors_match(
    buf: Seq<u8>,
    pos0: nat,
    si: MP3SideInformation,
    nch: nat,
    r: MP3ScaleFactor,
) -> bool {
    forall|ch: int, gr: int|
        0 <= ch < 2 && 0 <= gr < 2 ==> if ch < nch {
            scale_factors_match(
                buf,
                (pos0 + bits_before(si, nch, (gr * nch + ch) as nat)) % 32768,
                si.ch[ch].gr[gr],
                gr == 1,
                si.ch[ch].scfsi@,
                r.ch[ch].gr[0],
                #[trigger] r.ch[ch].gr[gr],
            )
        } else {
            granule_scale_factor_is_zero(r.ch[ch].gr[gr])
        }
}


/// A reset decoder is in exactly the state of a new one, so that whatever is decoded
/// afterwards comes out the same from both.
pub proof fn lemma_reset_matches_new(reset: MP3Decoder, fresh: MP3Decoder)
    requires
        reset.is_fresh(),
        fresh.is_fresh(),
    ensures
        reset.state() == fresh.state(),
{
}

/// Decoding a frame is determined by the decoder's state: two decoders in the same
/// state that take the same frame end in the same state, and both find or both miss
/// the frame's main data.
pub proof fn lemma_frame_decoding_deterministic(
    before1: MP3Decoder,
    before2: MP3Decoder,
    after1: MP3Decoder,
    after2: MP3Decoder,
    main: Seq<u8>,
    h: MP3FrameHeader,
    si: MP3SideInformation,
    sf1: Option<MP3ScaleFactor>,
    sf2: Option<MP3ScaleFactor>,
)
    requires
        before1.state() == before2.state(),
        frame_decoded(before1, after1, main, h, si, sf1),
        frame_decoded(before2, after2, main, h, si, sf2),
    ensures
        after1.state() == after2.state(),
        sf1 is Some == sf2 is Some,
{
}

/// On a new decoder, the first frame's back-pointer is always followed (no frame is
/// skipped and no error arises), and when the frame's main data is appended and
/// `maindata_begin` is above zero, its main data starts in the part of the ring that
/// still holds zero bytes.
pub proof fn lemma_first_frame_reads_zeros(dec: MP3Decoder, begin: nat, main: Seq<u8>)
    requires
        dec.is_fresh(),
        0 < begin < 512,
        main.len() + begin <= 4096,
    ensures
        !maindata_missing(dec.maindata_start(), aligned_pos(dec.reservoir().read_pos()) / 8, begin),
        maindata_target(dec.maindata_start(), begin) == 4096 - begin,
        forall|j: int|
            4096 - begin <= j < 4096 ==> #[trigger] ring_after_put(
                dec.reservoir().bytes(),
                dec.reservoir().write_pos(),
                main,
            )[j] == 0,
{
    assert(aligned_pos(0) == 0);
    assert forall|j: int| 4096 - begin <= j < 4096 implies #[trigger] ring_after_put(
        dec.reservoir().bytes(),
        dec.reservoir().write_pos(),
        main,
    )[j] == 0 by {
        assert(crate::maindata_buffer::ring_offset(0, j) == j);
    }
}

/// What decoding the frames of `s` from byte `pos` on gives, after `frames` frames, for
/// an output of `nout` channels: each frame is taken where the previous one ended; at
/// the end of the stream, the byte reached and the frames taken; otherwise the first
/// error, where a frame with more channels than the output gives `InsufficientBuffer`.
pub open spec fn decode_walk(s: Seq<u8>, pos: nat, frames: nat, nout: nat) -> Result<
    (nat, nat),
    MP3DecodeError,
>
    decreases s.len() - pos,
{
    if pos > s.len() {
        Ok((pos, frames))
    } else {
        match frame_info_spec(s.subrange(pos as int, s.len() as int)) {
            Ok((hs, ms, h)) => if num_channels_of(h) > nout {
                Err(MP3DecodeError::InsufficientBuffer)
            } else if hs + ms > 0 && pos + hs + ms <= s.len() {
                decode_walk(s, pos + hs + ms, frames + 1, nout)
            } else {
                Ok((pos, frames))
            },
            Err(e) => if e == MP3DecodeError::EndOfStream {
                Ok((pos, frames))
            } else {
                Err(e)
            },
        }
    }
}

/// What decoding the whole stream `s` gives for an output of `nout` channels: the walk
/// from the end of its ID3v2 tag; an error when `s` is shorter than a tag header or than
/// its tag.
pub open spec fn decode_whole_spec(s: Seq<u8>, nout: nat) -> Result<(nat, nat), MP3DecodeError> {
    if s.len() < 10 || id3v2_size(s) > s.len() {
        Err(MP3DecodeError::InvalidHeader)
    } else {
        decode_walk(s, id3v2_size(s), 0, nout)
    }
}

/// Probing the format reads the same frames as decoding: from the same place, with a
/// two-channel output, the format walk succeeds exactly when the decoding walk does,
/// and counts one frame for each frame decoded.
pub proof fn lemma_format_counts_decoded_frames(
    s: Seq<u8>,
    pos: nat,
    acc: (nat, nat, MP3SamplingRate, MP3BitRate),
    frames: nat,
)
    ensures
        format_walk(s, pos, acc) is Ok == decode_walk(s, pos, frames, 2) is Ok,
        format_walk(s, pos, acc) is Ok ==> format_walk(s, pos, acc)->Ok_0.1 + frames
            == decode_walk(s, pos, frames, 2)->Ok_0.1 + acc.1,
    decreases s.len() - pos,
{
    if pos <= s.len() {
        match frame_info_spec(s.subrange(pos as int, s.len() as int)) {
            Ok((hs, ms, h)) => {
                if hs + ms > 0 && pos + hs + ms <= s.len() {
                    let next = (
                        if h.channel_mode == MP3ChannelMode::Monoral {
                            acc.0
                        } else {
                            2
                        },
                        acc.1 + 1,
                        h.sampling_rate,
                        h.bit_rate,
                    );
                    lemma_format_counts_decoded_frames(s, pos + hs + ms, next, frames + 1);
                }
            },
            Err(e) => {},
        }
    }
}

} // verus!
