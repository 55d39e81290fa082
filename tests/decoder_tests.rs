use baremp3::decoder::{get_format_information, MP3DecodeError, MP3Decoder, MP3ScaleFactor};
use baremp3::maindata_buffer::MP3MainDataBuffer;
use baremp3::scale_factor::{decode_granule_scale_factor, GranuleScaleFactor};
use baremp3::types::{MP3BlockType, MP3GranuleInformation};

struct Bits {
    bytes: Vec<u8>,
    n: usize,
}

impl Bits {
    fn new() -> Self {
        Bits { bytes: Vec::new(), n: 0 }
    }

    fn put(&mut self, value: u32, width: usize) {
        for i in (0..width).rev() {
            if self.n % 8 == 0 {
                self.bytes.push(0);
            }
            let bit = ((value >> i) & 1) as u8;
            let last = self.bytes.len() - 1;
            self.bytes[last] |= bit << (7 - self.n % 8);
            self.n += 1;
        }
    }

    fn finish(mut self, len: usize) -> Vec<u8> {
        self.bytes.resize(len, 0);
        self.bytes
    }
}

fn long_granule(scalefac_compress: u8) -> MP3GranuleInformation {
    let mut g = MP3GranuleInformation::default();
    g.scalefac_compress = scalefac_compress;
    g
}

fn short_granule(scalefac_compress: u8, mixed: bool) -> MP3GranuleInformation {
    let mut g = MP3GranuleInformation::default();
    g.scalefac_compress = scalefac_compress;
    g.window_switching_flag = true;
    g.block_type = MP3BlockType::Short;
    g.mixed_block_flag = mixed;
    g
}

/// The 74 bits of long-block scale factors for scalefac_compress 15: bands 0-10 of 4
/// bits holding k + 1, bands 11-20 of 3 bits holding k % 8.
fn put_long_pattern(b: &mut Bits) {
    for k in 0..11u32 {
        b.put(k + 1, 4);
    }
    for k in 11..21u32 {
        b.put(k % 8, 3);
    }
}

fn long_pattern_value(k: usize) -> u8 {
    if k < 11 {
        (k + 1) as u8
    } else if k < 21 {
        (k % 8) as u8
    } else {
        0
    }
}

fn buffer_with(bytes: &[u8]) -> MP3MainDataBuffer {
    let mut b = MP3MainDataBuffer::new();
    b.put_data(bytes);
    b
}

#[test]
fn scale_factors_long_block() {
    let mut bits = Bits::new();
    put_long_pattern(&mut bits);
    let mut buf = buffer_with(&bits.finish(16));
    let zero = GranuleScaleFactor::zero();
    let sf = decode_granule_scale_factor(&mut buf, &long_granule(15), false, &[true; 4], &zero);
    assert_eq!(buf.get_total_read_bits(), 74);
    for k in 0..23 {
        assert_eq!(sf.long[k], long_pattern_value(k));
    }
    for w in 0..3 {
        assert_eq!(sf.short[w], [0u8; 13]);
    }
}

#[test]
fn scale_factors_second_granule_shares_groups() {
    let first = {
        let mut bits = Bits::new();
        put_long_pattern(&mut bits);
        let mut buf = buffer_with(&bits.finish(16));
        decode_granule_scale_factor(&mut buf, &long_granule(15), false, &[false; 4], &GranuleScaleFactor::zero())
    };
    // only groups 1 (bands 6-10, 4 bits) and 3 (bands 16-20, 3 bits) are read
    let mut bits = Bits::new();
    for _ in 6..11 {
        bits.put(15, 4);
    }
    for _ in 16..21 {
        bits.put(5, 3);
    }
    let mut buf = buffer_with(&bits.finish(8));
    let sf = decode_granule_scale_factor(&mut buf, &long_granule(15), true, &[true, false, true, false], &first);
    assert_eq!(buf.get_total_read_bits(), 35);
    for k in 0..23 {
        let expected = if (6..11).contains(&k) {
            15
        } else if (16..21).contains(&k) {
            5
        } else {
            long_pattern_value(k)
        };
        assert_eq!(sf.long[k], expected, "band {}", k);
    }
    // sharing is ignored in a first granule
    let mut bits = Bits::new();
    put_long_pattern(&mut bits);
    let mut buf = buffer_with(&bits.finish(16));
    let sf = decode_granule_scale_factor(&mut buf, &long_granule(15), false, &[true; 4], &first);
    assert_eq!(buf.get_total_read_bits(), 74);
    assert_eq!(sf.long[0], 1);
}

#[test]
fn scale_factors_short_block() {
    let mut bits = Bits::new();
    for k in 0..6u32 {
        for w in 0..3u32 {
            bits.put((k * 3 + w) % 16, 4);
        }
    }
    for k in 6..12u32 {
        for w in 0..3u32 {
            bits.put((k * 3 + w) % 8, 3);
        }
    }
    let mut buf = buffer_with(&bits.finish(20));
    let sf = decode_granule_scale_factor(&mut buf, &short_granule(15, false), false, &[false; 4], &GranuleScaleFactor::zero());
    assert_eq!(buf.get_total_read_bits(), 72 + 54);
    for w in 0..3 {
        for k in 0..13 {
            let expected = if k < 6 {
                (k * 3 + w) % 16
            } else if k < 12 {
                (k * 3 + w) % 8
            } else {
                0
            };
            assert_eq!(sf.short[w][k] as usize, expected);
        }
    }
    assert_eq!(sf.long, [0u8; 23]);
}

#[test]
fn scale_factors_mixed_block() {
    // scalefac_compress 12: widths 3 and 2
    let mut bits = Bits::new();
    for k in 0..8u32 {
        bits.put(k, 3);
    }
    for k in 0..6u32 {
        for w in 0..3u32 {
            bits.put((k + w) % 8, 3);
        }
    }
    for k in 6..12u32 {
        for w in 0..3u32 {
            bits.put((k + w) % 4, 2);
        }
    }
    let mut buf = buffer_with(&bits.finish(20));
    let sf = decode_granule_scale_factor(&mut buf, &short_granule(12, true), false, &[false; 4], &GranuleScaleFactor::zero());
    assert_eq!(buf.get_total_read_bits(), 24 + 54 + 36);
    for k in 0..23 {
        assert_eq!(sf.long[k] as usize, if k < 8 { k } else { 0 });
    }
    for w in 0..3 {
        for k in 0..13 {
            let expected = if k < 6 {
                (k + w) % 8
            } else if k < 12 {
                (k + w) % 4
            } else {
                0
            };
            assert_eq!(sf.short[w][k] as usize, expected);
        }
    }
}

#[test]
fn scale_factors_zero_width() {
    let mut buf = buffer_with(&[0xFF; 32]);
    let sf = decode_granule_scale_factor(&mut buf, &long_granule(0), false, &[false; 4], &GranuleScaleFactor::zero());
    assert_eq!(buf.get_total_read_bits(), 0);
    assert_eq!(sf.long, [0u8; 23]);
    // scalefac_compress 4: widths 3 and 0
    let sf = decode_granule_scale_factor(&mut buf, &long_granule(4), false, &[false; 4], &GranuleScaleFactor::zero());
    assert_eq!(buf.get_total_read_bits(), 33);
    for k in 0..23 {
        assert_eq!(sf.long[k], if k < 11 { 7 } else { 0 });
    }
}

/// Side information of a single-channel frame with two long-block granules,
/// scalefac_compress 15, part2_3_length 74 and 35, and sharing flags 1010.
fn mono_side_info(begin: u32) -> Vec<u8> {
    let mut b = Bits::new();
    b.put(begin, 9);
    b.put(0, 5);
    b.put(0b1010, 4);
    for len23 in [74u32, 35] {
        b.put(len23, 12);
        b.put(0, 9);
        b.put(0, 8);
        b.put(15, 4);
        b.put(0, 1);
        b.put(0, 22);
        b.put(0, 3);
    }
    b.finish(17)
}

/// Main data for `mono_side_info`: granule 0 holds the long pattern; granule 1 reads
/// groups 1 and 3 only.
fn mono_main_data() -> Vec<u8> {
    let mut b = Bits::new();
    put_long_pattern(&mut b);
    for _ in 6..11 {
        b.put(9, 4);
    }
    for _ in 16..21 {
        b.put(2, 3);
    }
    b.finish(396)
}

fn mono_frame(begin: u32, main: &[u8]) -> Vec<u8> {
    let mut v = vec![0xFF, 0xFB, 0x90, 0xC0];
    v.extend(mono_side_info(begin));
    v.extend_from_slice(main);
    v
}

fn check_mono_scale_factors(sf: &MP3ScaleFactor) {
    for k in 0..23 {
        assert_eq!(sf.ch[0].gr[0].long[k], long_pattern_value(k));
        let second = if (6..11).contains(&k) {
            9
        } else if (16..21).contains(&k) {
            2
        } else {
            long_pattern_value(k)
        };
        assert_eq!(sf.ch[0].gr[1].long[k], second);
        assert_eq!(sf.ch[1].gr[0].long[k], 0);
    }
}

#[test]
fn read_frame_decodes_scale_factors() {
    let frame = mono_frame(0, &mono_main_data());
    let mut dec = MP3Decoder::new();
    let (size, header, side_info, sf) = dec.read_frame(&frame, 1).unwrap();
    assert_eq!(size, 417);
    assert_eq!(header.bit_rate.bits_per_second(), 128_000);
    assert_eq!(side_info.ch[0].gr[0].part2_3_length, 74);
    check_mono_scale_factors(&sf.unwrap());
}

#[test]
fn read_frame_follows_back_pointer() {
    // the second frame's main data starts 10 bytes back, inside the first frame's
    let mut first_main = vec![0u8; 396];
    first_main[386..].copy_from_slice(&mono_main_data()[..10]);
    let mut second_main = mono_main_data()[10..].to_vec();
    second_main.resize(396, 0);
    let mut stream = mono_frame(0, &first_main);
    stream.extend(mono_frame(10, &second_main));
    let mut dec = MP3Decoder::new();
    let (size, _, _, _) = dec.read_frame(&stream, 2).unwrap();
    assert_eq!(size, 417);
    let (size, _, si, sf) = dec.read_frame(&stream[417..], 2).unwrap();
    assert_eq!(size, 417);
    assert_eq!(si.maindata_begin, 10);
    check_mono_scale_factors(&sf.unwrap());
    assert_eq!(dec.read_frame(&stream[834..], 2).unwrap_err(), MP3DecodeError::EndOfStream);
}

#[test]
fn read_frame_first_frame_with_back_pointer_reads_zeros() {
    let frame = mono_frame(100, &mono_main_data());
    let mut dec = MP3Decoder::new();
    let (size, _, _, sf) = dec.read_frame(&frame, 1).unwrap();
    assert_eq!(size, 417);
    let sf = sf.unwrap();
    for k in 0..23 {
        assert_eq!(sf.ch[0].gr[0].long[k], 0);
        assert_eq!(sf.ch[0].gr[1].long[k], 0);
    }
}

#[test]
fn read_frame_insufficient_buffer() {
    let mut stereo = vec![0xFF, 0xFB, 0x90, 0x00];
    stereo.resize(417, 0);
    let mut dec = MP3Decoder::new();
    assert_eq!(dec.read_frame(&stereo, 1).unwrap_err(), MP3DecodeError::InsufficientBuffer);
    assert!(dec.read_frame(&stereo, 2).is_ok());
    let mono = mono_frame(0, &mono_main_data());
    assert_eq!(dec.read_frame(&mono, 0).unwrap_err(), MP3DecodeError::InsufficientBuffer);
    assert!(dec.read_frame(&mono, 1).is_ok());
}

fn stream_of_frames() -> Vec<u8> {
    let mut stream = Vec::new();
    for i in 0..5u8 {
        let mut main = mono_main_data();
        main[200] = i;
        stream.extend(mono_frame((i as u32) * 7, &main));
    }
    stream
}

fn decode_all(dec: &mut MP3Decoder, data: &[u8]) -> Vec<String> {
    let mut out = Vec::new();
    let mut pos = 0;
    loop {
        match dec.read_frame(&data[pos..], 2) {
            Ok((size, h, si, sf)) => {
                out.push(format!("{:?} {:?} {:?}", h, si, sf));
                pos += size;
            }
            Err(e) => {
                assert_eq!(e, MP3DecodeError::EndOfStream);
                break;
            }
        }
    }
    out
}

#[test]
fn reset_decodes_like_new() {
    let stream = stream_of_frames();
    let mut fresh = MP3Decoder::new();
    let expected = decode_all(&mut fresh, &stream);
    let mut used = MP3Decoder::new();
    let _ = decode_all(&mut used, &stream[417..]);
    used.reset();
    assert_eq!(decode_all(&mut used, &stream), expected);
}

#[test]
fn decode_whole_walks_all_frames() {
    let stream = stream_of_frames();
    let mut dec = MP3Decoder::new();
    assert_eq!(dec.decode_whole(&stream, 1).unwrap(), (5 * 417, 5 * 1152));
    // decoding again gives the same, the decoder being reset first
    assert_eq!(dec.decode_whole(&stream, 2).unwrap(), (5 * 417, 5 * 1152));
    // an ID3v2 tag is skipped
    let mut tagged = vec![b'I', b'D', b'3', 4, 0, 0, 0, 0, 0, 20];
    tagged.extend(vec![0u8; 20]);
    tagged.extend(&stream);
    assert_eq!(dec.decode_whole(&tagged, 1).unwrap(), (30 + 5 * 417, 5 * 1152));
    // trailing bytes without a sync word end the stream where the walk stopped looking
    let mut trailing = stream.clone();
    trailing.extend(vec![0u8; 7]);
    assert_eq!(dec.decode_whole(&trailing, 1).unwrap(), (5 * 417, 5 * 1152));
}

#[test]
fn decode_whole_errors() {
    let mut dec = MP3Decoder::new();
    assert_eq!(dec.decode_whole(&[0xFF; 9], 2).unwrap_err(), MP3DecodeError::InvalidHeader);
    // a tag longer than the stream
    let tag = [b'I', b'D', b'3', 4, 0, 0, 0, 0, 1, 0];
    assert_eq!(dec.decode_whole(&tag, 2).unwrap_err(), MP3DecodeError::InvalidHeader);
    let mut stereo = vec![0xFF, 0xFB, 0x90, 0x00];
    stereo.resize(417, 0);
    assert_eq!(dec.decode_whole(&stereo, 1).unwrap_err(), MP3DecodeError::InsufficientBuffer);
    assert_eq!(dec.decode_whole(&stereo, 2).unwrap(), (417, 1152));
    let mut bad = stream_of_frames();
    bad.extend(vec![0xFF, 0xFD, 0x90, 0xC0]);
    bad.resize(bad.len() + 413, 0);
    assert_eq!(dec.decode_whole(&bad, 2).unwrap_err(), MP3DecodeError::InvalidFormat);
    assert_eq!(dec.decode_whole(&[0u8; 64], 2).unwrap(), (0, 0));
}

#[test]
fn probing_does_not_change_frame_count() {
    let stream = stream_of_frames();
    let format = get_format_information(&stream).unwrap();
    let mut dec = MP3Decoder::new();
    let frames = decode_all(&mut dec, &stream);
    assert_eq!(format.num_samples, 1152 * frames.len());
    let mut whole = MP3Decoder::new();
    assert_eq!(whole.decode_whole(&stream, 2).unwrap().1, format.num_samples);
    assert_eq!(format.num_channels, 1);
    let again = get_format_information(&stream).unwrap();
    assert_eq!(again, format);
}
