use baremp3::huffman::{
    big_value_linbits, decode_big_value_pair, decode_count1_quad, decode_count1_region,
    huffman_region_bounds,
};
use baremp3::maindata_buffer::MP3MainDataBuffer;
use baremp3::types::{
    MP3BitRate, MP3BlockType, MP3ChannelMode, MP3EmphasisMode, MP3ExtChannelMode, MP3FrameHeader,
    MP3GranuleInformation, MP3Layer, MP3SamplingRate, MPEGVersion,
};

fn header(sr: MP3SamplingRate) -> MP3FrameHeader {
    MP3FrameHeader {
        version: MPEGVersion::MPEGVersion1,
        layer: MP3Layer::Layer3,
        error_protection: false,
        bit_rate: MP3BitRate::Kbps128,
        sampling_rate: sr,
        padding: false,
        extension: 0,
        channel_mode: MP3ChannelMode::Stereo,
        ext_channel_mode: MP3ExtChannelMode::NONE,
        copyright: false,
        original: false,
        emphasis: MP3EmphasisMode::NONE,
    }
}

fn buffer_from_bits(bits: &str) -> MP3MainDataBuffer {
    let mut bytes = vec![0u8; (bits.len() + 7) / 8];
    for (i, c) in bits.chars().enumerate() {
        if c == '1' {
            bytes[i / 8] |= 1 << (7 - i % 8);
        }
    }
    let mut b = MP3MainDataBuffer::new();
    b.put_data(&bytes);
    b
}

fn count1_granule(big_values: u16, part2_3_length: u16, table: u8) -> MP3GranuleInformation {
    let mut g = MP3GranuleInformation::default();
    g.big_values = big_values;
    g.part2_3_length = part2_3_length;
    g.count1table_select = table;
    g
}

#[test]
fn region_bounds_long_and_short() {
    let mut g = MP3GranuleInformation::default();
    g.region0_count = 3;
    g.region1_count = 4;
    assert_eq!(huffman_region_bounds(&header(MP3SamplingRate::Hz44100), &g), (16, 44));
    g.region0_count = 7;
    g.region1_count = 13;
    assert_eq!(huffman_region_bounds(&header(MP3SamplingRate::Hz44100), &g), (36, 576));
    g.region0_count = 5;
    g.region1_count = 2;
    assert_eq!(huffman_region_bounds(&header(MP3SamplingRate::Hz48000), &g), (24, 42));
    g.region0_count = 10;
    g.region1_count = 5;
    assert_eq!(huffman_region_bounds(&header(MP3SamplingRate::Hz32000), &g), (66, 240));
    let mut s = MP3GranuleInformation::default();
    s.window_switching_flag = true;
    s.block_type = MP3BlockType::Short;
    s.region0_count = 8;
    s.region1_count = 12;
    assert_eq!(huffman_region_bounds(&header(MP3SamplingRate::Hz44100), &s), (36, 576));
}

#[test]
fn count1_quad_table_a() {
    let cases: [(&str, (i32, i32, i32, i32)); 8] = [
        ("1", (0, 0, 0, 0)),
        ("01011", (0, 0, 0, -1)),
        ("01000", (0, 0, 1, 0)),
        ("01110", (1, 0, 0, 0)),
        ("0001101", (1, 0, 0, -1)),
        ("0000011010", (-1, 1, -1, 1)),
        ("000100101", (0, -1, 1, -1)),
        ("000010010", (1, -1, 0, 1)),
    ];
    for (bits, expected) in cases.iter() {
        let mut b = buffer_from_bits(bits);
        assert_eq!(decode_count1_quad(&mut b, 0), *expected, "bits {}", bits);
        assert_eq!(b.get_total_read_bits() as usize, bits.len(), "bits {}", bits);
    }
    // 00100 codes 0110: two sign bits follow
    let mut b = buffer_from_bits("0010010");
    assert_eq!(decode_count1_quad(&mut b, 0), (0, -1, 1, 0));
    assert_eq!(b.get_total_read_bits(), 7);
}

#[test]
fn count1_quad_table_b() {
    let mut b = buffer_from_bits("011010");
    assert_eq!(decode_count1_quad(&mut b, 1), (-1, 0, 0, 1));
    assert_eq!(b.get_total_read_bits(), 6);
    let mut b = buffer_from_bits("1111");
    assert_eq!(decode_count1_quad(&mut b, 1), (0, 0, 0, 0));
    assert_eq!(b.get_total_read_bits(), 4);
    let mut b = buffer_from_bits("00001111");
    assert_eq!(decode_count1_quad(&mut b, 1), (-1, -1, -1, -1));
    assert_eq!(b.get_total_read_bits(), 8);
}

#[test]
fn count1_last_quadruple_writes_first_pair_only() {
    // big_values 287: count1 starts at index 574
    let mut b = buffer_from_bits("00001100");
    let mut out = [7i32; 576];
    decode_count1_region(&mut b, &count1_granule(287, 20, 1), 0, &mut out);
    assert_eq!(out[574], -1);
    assert_eq!(out[575], -1);
    assert!(out[..574].iter().all(|&v| v == 7));
    assert_eq!(b.get_total_read_bits(), 20);
}

#[test]
fn count1_drops_quadruple_read_past_end() {
    // 5 bits decode (1, 0, 0, 0); the next quadruple ends at bit 10, past the end at 6
    let mut b = buffer_from_bits("0111011100");
    let mut out = [9i32; 576];
    decode_count1_region(&mut b, &count1_granule(0, 6, 1), 0, &mut out);
    assert_eq!(out[0], 1);
    assert!(out[1..].iter().all(|&v| v == 0));
    assert_eq!(b.get_total_read_bits(), 6);
}

#[test]
fn count1_stops_exactly_at_end() {
    let mut b = buffer_from_bits("0111000000");
    let mut out = [9i32; 576];
    decode_count1_region(&mut b, &count1_granule(2, 5, 1), 0, &mut out);
    assert_eq!(&out[..4], &[9, 9, 9, 9]);
    assert_eq!(out[4], 1);
    assert!(out[5..].iter().all(|&v| v == 0));
    assert_eq!(b.get_total_read_bits(), 5);
}

#[test]
fn count1_region_wraps_round_reservoir() {
    let mut data = vec![0u8; 4096];
    data[4095] = 0b0111_0111;
    data[0] = 0b1110_0000;
    let mut b = MP3MainDataBuffer::new();
    b.put_data(&data);
    b.seek(32760);
    let mut out = [5i32; 576];
    decode_count1_region(&mut b, &count1_granule(0, 16, 1), 32760, &mut out);
    let mut expected = [0i32; 576];
    expected[0] = 1;
    expected[10] = 1;
    expected[11] = 1;
    assert_eq!(out.to_vec(), expected.to_vec());
    assert_eq!(b.get_total_read_bits(), 8);
}

#[test]
fn count1_empty_region_zero_fills() {
    let mut b = buffer_from_bits("0000");
    let mut out = [3i32; 576];
    decode_count1_region(&mut b, &count1_granule(100, 0, 0), 0, &mut out);
    assert!(out[..200].iter().all(|&v| v == 3));
    assert!(out[200..].iter().all(|&v| v == 0));
    assert_eq!(b.get_total_read_bits(), 0);
}

#[test]
fn big_value_linbits_table() {
    assert_eq!(big_value_linbits(0), 0);
    assert_eq!(big_value_linbits(15), 0);
    assert_eq!(big_value_linbits(16), 1);
    assert_eq!(big_value_linbits(23), 13);
    assert_eq!(big_value_linbits(24), 4);
    assert_eq!(big_value_linbits(30), 11);
    assert_eq!(big_value_linbits(31), 13);
}

#[test]
fn big_value_pair_escape_and_signs() {
    // x: escape, 4 extra bits 0101 -> 20, sign 1; y: 3, sign 0
    let mut b = buffer_from_bits("010110");
    assert_eq!(decode_big_value_pair(&mut b, 15, 3, 4), (-20, 3));
    assert_eq!(b.get_total_read_bits(), 6);
    // zeros take no bits
    let mut b = buffer_from_bits("1111");
    assert_eq!(decode_big_value_pair(&mut b, 0, 0, 4), (0, 0));
    assert_eq!(b.get_total_read_bits(), 0);
    // without extra bits 15 stays 15
    let mut b = buffer_from_bits("01");
    assert_eq!(decode_big_value_pair(&mut b, 15, 15, 0), (15, -15));
    assert_eq!(b.get_total_read_bits(), 2);
    // an escape whose extra bits are zero, then y escaped too
    let mut b = buffer_from_bits("00");
    assert_eq!(decode_big_value_pair(&mut b, 0, 15, 1), (0, 15));
    assert_eq!(b.get_total_read_bits(), 2);
}
