use baremp3::decoder::{
    decode_frame_header, decode_frame_information, find_sync_code, get_format_information,
    get_id3v2tag_size, get_maindata_size, MP3DecodeError,
};
use baremp3::types::{
    MP3BitRate, MP3ChannelMode, MP3EmphasisMode, MP3ExtChannelMode, MP3FrameHeader, MP3Layer,
    MP3SamplingRate, MPEGVersion,
};

fn mono_header_128k() -> MP3FrameHeader {
    MP3FrameHeader {
        version: MPEGVersion::MPEGVersion1,
        layer: MP3Layer::Layer3,
        error_protection: false,
        bit_rate: MP3BitRate::Kbps128,
        sampling_rate: MP3SamplingRate::Hz44100,
        padding: false,
        extension: 0,
        channel_mode: MP3ChannelMode::Monoral,
        ext_channel_mode: MP3ExtChannelMode::NONE,
        copyright: false,
        original: false,
        emphasis: MP3EmphasisMode::NONE,
    }
}

/// A frame of `frame_bytes` bytes: the header bytes, zero side information and zero
/// main data.
fn zero_frame(header: [u8; 4], frame_bytes: usize) -> Vec<u8> {
    let mut v = header.to_vec();
    v.resize(frame_bytes, 0);
    v
}

#[test]
fn find_sync_code_returns_first_position() {
    assert_eq!(find_sync_code(&[0x00, 0xFF, 0xFB, 0x90, 0xC0]), Some(1));
    assert_eq!(find_sync_code(&[0xFF, 0xF0, 0x00, 0xFF, 0xFB, 0x00]), Some(0));
    assert_eq!(find_sync_code(&[0x12, 0xFF, 0xEF, 0xFF, 0xF3, 0x00]), Some(3));
}

#[test]
fn find_sync_code_none_without_room() {
    assert_eq!(find_sync_code(&[]), None);
    assert_eq!(find_sync_code(&[0xFF]), None);
    // the scan stops two bytes before the end
    assert_eq!(find_sync_code(&[0xFF, 0xFB]), None);
    assert_eq!(find_sync_code(&[0x00, 0xFF, 0xFB]), None);
    assert_eq!(find_sync_code(&[0xFF, 0xFB, 0x00]), Some(0));
    assert_eq!(find_sync_code(&[0x00, 0x11, 0x22, 0x33]), None);
}

#[test]
fn decode_frame_header_mono_128k() {
    let h = decode_frame_header(&[0xFF, 0xFB, 0x90, 0xC0]).unwrap();
    assert_eq!(h, mono_header_128k());
}

#[test]
fn decode_frame_header_all_flags() {
    // MPEG-2, layer I, CRC present, 320 kbit/s, 32 kHz, padding, private bit,
    // joint stereo with both extension bits, copyright, original, CCITT J.17
    let h = decode_frame_header(&[0xFF, 0xF6, 0xEB, 0x7F]).unwrap();
    assert_eq!(h.version, MPEGVersion::MPEGVersion2);
    assert_eq!(h.layer, MP3Layer::Layer1);
    assert!(h.error_protection);
    assert_eq!(h.bit_rate, MP3BitRate::Kbps320);
    assert_eq!(h.sampling_rate, MP3SamplingRate::Hz32000);
    assert!(h.padding);
    assert_eq!(h.extension, 1);
    assert_eq!(h.channel_mode, MP3ChannelMode::JointStereo);
    assert_eq!(h.ext_channel_mode, MP3ExtChannelMode::IntensityAndMSStereo);
    assert!(h.copyright);
    assert!(h.original);
    assert_eq!(h.emphasis, MP3EmphasisMode::CCITTJ17);
}

#[test]
fn decode_frame_header_mode_extension() {
    let ms = decode_frame_header(&[0xFF, 0xFB, 0x90, 0x60]).unwrap();
    assert_eq!(ms.channel_mode, MP3ChannelMode::JointStereo);
    assert_eq!(ms.ext_channel_mode, MP3ExtChannelMode::MSStereo);
    let is = decode_frame_header(&[0xFF, 0xFB, 0x90, 0x50]).unwrap();
    assert_eq!(is.ext_channel_mode, MP3ExtChannelMode::IntensityStereo);
    let dual = decode_frame_header(&[0xFF, 0xFB, 0x50, 0x80]).unwrap();
    assert_eq!(dual.channel_mode, MP3ChannelMode::DualChannel);
    assert_eq!(dual.bit_rate, MP3BitRate::Kbps64);
    assert_eq!(dual.sampling_rate, MP3SamplingRate::Hz44100);
    let st = decode_frame_header(&[0xFF, 0xFB, 0x14, 0x00]).unwrap();
    assert_eq!(st.channel_mode, MP3ChannelMode::Stereo);
    assert_eq!(st.bit_rate, MP3BitRate::Kbps32);
    assert_eq!(st.sampling_rate, MP3SamplingRate::Hz48000);
}

#[test]
fn decode_frame_header_rejects_reserved_values() {
    // too short
    assert_eq!(decode_frame_header(&[0xFF, 0xFB, 0x90]), None);
    // no sync word
    assert_eq!(decode_frame_header(&[0xFF, 0xEB, 0x90, 0xC0]), None);
    // layer 0
    assert_eq!(decode_frame_header(&[0xFF, 0xF9, 0x90, 0xC0]), None);
    // bit rate 15
    assert_eq!(decode_frame_header(&[0xFF, 0xFB, 0xF0, 0xC0]), None);
    // sampling rate 3
    assert_eq!(decode_frame_header(&[0xFF, 0xFB, 0x9C, 0xC0]), None);
    // reserved emphasis is accepted and marked
    let h = decode_frame_header(&[0xFF, 0xFB, 0x90, 0xC2]).unwrap();
    assert_eq!(h.emphasis, MP3EmphasisMode::Reserved);
    // free format is a valid header
    let f = decode_frame_header(&[0xFF, 0xFB, 0x00, 0xC0]).unwrap();
    assert_eq!(f.bit_rate, MP3BitRate::Kbps0);
}

#[test]
fn get_maindata_size_fills_frame() {
    let mono = mono_header_128k();
    // 144 * 128000 / 44100 = 417 bytes, less 4 header and 17 side information
    assert_eq!(get_maindata_size(&mono), 396);
    let mut stereo = mono_header_128k();
    stereo.channel_mode = MP3ChannelMode::Stereo;
    stereo.padding = true;
    stereo.error_protection = true;
    // 417 + 1 padding - 4 - 32 - 2
    assert_eq!(get_maindata_size(&stereo), 380);
    let mut big = mono_header_128k();
    big.bit_rate = MP3BitRate::Kbps320;
    big.sampling_rate = MP3SamplingRate::Hz32000;
    big.padding = true;
    // 1440 + 1 - 4 - 17
    assert_eq!(get_maindata_size(&big), 1420);
    let mut small = mono_header_128k();
    small.bit_rate = MP3BitRate::Kbps32;
    small.sampling_rate = MP3SamplingRate::Hz48000;
    small.channel_mode = MP3ChannelMode::JointStereo;
    // 96 - 4 - 32
    assert_eq!(get_maindata_size(&small), 60);
}

#[test]
fn bit_rate_and_sampling_rate_values() {
    assert_eq!(MP3BitRate::Kbps0.bits_per_second(), 0);
    assert_eq!(MP3BitRate::Kbps40.bits_per_second(), 40_000);
    assert_eq!(MP3BitRate::Kbps320.bits_per_second(), 320_000);
    assert_eq!(MP3SamplingRate::Hz44100.hz(), 44100);
    assert_eq!(MP3SamplingRate::Hz48000.hz(), 48000);
    assert_eq!(MP3SamplingRate::Hz32000.hz(), 32000);
}

#[test]
fn decode_frame_information_sizes() {
    let mut data = vec![0x00, 0x00];
    data.extend(zero_frame([0xFF, 0xFB, 0x90, 0xC0], 417));
    let (hs, ms, h, si) = decode_frame_information(&data).unwrap();
    assert_eq!(hs, 2 + 4 + 17);
    assert_eq!(ms, 396);
    assert_eq!(h, mono_header_128k());
    assert_eq!(si.maindata_begin, 0);
    // truncated main data
    let (hs, ms, _, _) = decode_frame_information(&data[..100]).unwrap();
    assert_eq!(hs, 23);
    assert_eq!(ms, 77);
    // CRC skipped
    let crc = zero_frame([0xFF, 0xFA, 0x90, 0x00], 417);
    let (hs, ms, h, _) = decode_frame_information(&crc).unwrap();
    assert!(h.error_protection);
    assert_eq!(hs, 4 + 32 + 2);
    assert_eq!(ms, 379);
}

#[test]
fn decode_frame_information_errors() {
    assert_eq!(
        decode_frame_information(&[0u8; 64]).unwrap_err(),
        MP3DecodeError::EndOfStream
    );
    assert_eq!(
        decode_frame_information(&zero_frame([0xFF, 0xFB, 0xF0, 0xC0], 64)).unwrap_err(),
        MP3DecodeError::InvalidHeader
    );
    // MPEG-2
    assert_eq!(
        decode_frame_information(&zero_frame([0xFF, 0xF3, 0x90, 0xC0], 417)).unwrap_err(),
        MP3DecodeError::InvalidSideInformation
    );
    // side information cut short
    assert_eq!(
        decode_frame_information(&zero_frame([0xFF, 0xFB, 0x90, 0x00], 20)).unwrap_err(),
        MP3DecodeError::InvalidSideInformation
    );
    // layer II
    assert_eq!(
        decode_frame_information(&zero_frame([0xFF, 0xFD, 0x90, 0xC0], 417)).unwrap_err(),
        MP3DecodeError::InvalidFormat
    );
    // free format
    assert_eq!(
        decode_frame_information(&zero_frame([0xFF, 0xFB, 0x00, 0xC0], 417)).unwrap_err(),
        MP3DecodeError::InvalidFormat
    );
}

#[test]
fn get_format_information_counts_frames() {
    let mut data = Vec::new();
    for _ in 0..3 {
        data.extend(zero_frame([0xFF, 0xFB, 0x90, 0xC0], 417));
    }
    let f = get_format_information(&data).unwrap();
    assert_eq!(f.num_channels, 1);
    assert_eq!(f.num_samples, 3 * 1152);
    assert_eq!(f.sampling_rate, MP3SamplingRate::Hz44100);
    assert_eq!(f.bit_rate, MP3BitRate::Kbps128);
}

#[test]
fn get_format_information_keeps_stereo_and_last_rates() {
    let mut data = Vec::new();
    data.extend(zero_frame([0xFF, 0xFB, 0x90, 0x00], 417));
    // 64 kbit/s, 48 kHz, mono: 144 * 64000 / 48000 = 192 bytes
    data.extend(zero_frame([0xFF, 0xFB, 0x54, 0xC0], 192));
    let f = get_format_information(&data).unwrap();
    assert_eq!(f.num_channels, 2);
    assert_eq!(f.num_samples, 2 * 1152);
    assert_eq!(f.sampling_rate, MP3SamplingRate::Hz48000);
    assert_eq!(f.bit_rate, MP3BitRate::Kbps64);
}

#[test]
fn get_format_information_empty_and_errors() {
    let f = get_format_information(&[]).unwrap();
    assert_eq!(f.num_channels, 1);
    assert_eq!(f.num_samples, 0);
    assert_eq!(f.sampling_rate, MP3SamplingRate::Hz44100);
    assert_eq!(f.bit_rate, MP3BitRate::Kbps128);
    let mut data = zero_frame([0xFF, 0xFB, 0x90, 0xC0], 417);
    data.extend(zero_frame([0xFF, 0xFD, 0x90, 0xC0], 417));
    assert_eq!(get_format_information(&data).unwrap_err(), MP3DecodeError::InvalidFormat);
}

#[test]
fn get_id3v2tag_size_values() {
    assert_eq!(get_id3v2tag_size(&[0u8; 9]).unwrap_err(), MP3DecodeError::InvalidHeader);
    assert_eq!(get_id3v2tag_size(&[0xFF, 0xFB, 0x90, 0xC0, 0, 0, 0, 0, 0, 0]).unwrap(), 0);
    let tag = [b'I', b'D', b'3', 4, 0, 0, 0x00, 0x00, 0x02, 0x01];
    assert_eq!(get_id3v2tag_size(&tag).unwrap(), 10 + 257);
    let big = [b'I', b'D', b'3', 4, 0, 0, 0x01, 0x02, 0x03, 0x04];
    assert_eq!(
        get_id3v2tag_size(&big).unwrap(),
        10 + ((1 << 21) | (2 << 14) | (3 << 7) | 4)
    );
}
