use baremp3::maindata_buffer::MP3MainDataBuffer;

#[test]
fn get_bits_reads_msb_first() {
    let mut b = MP3MainDataBuffer::new();
    b.put_data(&[0b1011_0010, 0b0111_0000, 0xAB, 0xCD, 0xEF, 0x12]);
    assert_eq!(b.get_bits(0), 0);
    assert_eq!(b.get_total_read_bits(), 0);
    assert_eq!(b.get_bits(1), 1);
    assert_eq!(b.get_bits(3), 0b011);
    assert_eq!(b.get_bits(8), 0b0010_0111);
    assert_eq!(b.get_total_read_bits(), 12);
    assert_eq!(b.get_bits(4), 0);
    assert_eq!(b.get_bits(32), 0xABCD_EF12);
    assert_eq!(b.get_total_read_bits(), 48);
}

#[test]
fn get_bits_wraps_at_end_of_ring() {
    let mut b = MP3MainDataBuffer::new();
    let mut data = vec![0u8; 4096];
    data[4094] = 0x12;
    data[4095] = 0x34;
    b.put_data(&data);
    b.put_data(&[0x56, 0x78]);
    b.seek(8 * 4094);
    assert_eq!(b.get_bits(32), 0x1234_5678);
    assert_eq!(b.get_total_read_bits(), 16);
    // a read that ends exactly at the end of the ring goes back to its start
    b.seek(8 * 4094 + 4);
    assert_eq!(b.get_bits(12), 0x234);
    assert_eq!(b.get_total_read_bits(), 0);
}

#[test]
fn put_data_wraps_and_keeps_last_bytes() {
    // 4096 + k bytes from the start: the write position ends at k and the ring holds
    // the last 4096 bytes
    let k = 10usize;
    let data: Vec<u8> = (0..(4096 + k)).map(|i| (i % 251) as u8).collect();
    let mut b = MP3MainDataBuffer::new();
    b.put_data(&data);
    b.seek(8 * k as u64);
    for t in 0..4096 {
        assert_eq!(b.get_bits(8), data[k + t] as u32);
    }
    // the next write lands at k
    b.put_data(&[0xEE]);
    b.seek(8 * k as u64);
    assert_eq!(b.get_bits(8), 0xEE);
}

#[test]
fn put_data_full_ring_leaves_write_position_at_start() {
    // exactly 4096 bytes: the next write lands at byte 0
    let mut b = MP3MainDataBuffer::new();
    b.put_data(&vec![3u8; 4000]);
    b.put_data(&vec![4u8; 96]);
    b.put_data(&[0xAB]);
    b.seek(0);
    assert_eq!(b.get_bits(8), 0xAB);
    assert_eq!(b.get_bits(8), 3);
    b.seek(8 * 4095);
    assert_eq!(b.get_bits(8), 4);
}

#[test]
fn put_data_in_pieces_wraps() {
    let mut b = MP3MainDataBuffer::new();
    b.put_data(&vec![1u8; 4000]);
    b.put_data(&vec![2u8; 200]);
    b.seek(8 * 3999);
    assert_eq!(b.get_bits(8), 1);
    assert_eq!(b.get_bits(8), 2);
    b.seek(8 * 103);
    assert_eq!(b.get_bits(8), 2);
    // beyond what the second write reached, the first write's bytes remain
    assert_eq!(b.get_bits(8), 1);
}

#[test]
fn align_next_byte_rounds_up() {
    let mut b = MP3MainDataBuffer::new();
    b.align_next_byte();
    assert_eq!(b.get_total_read_bits(), 0);
    b.seek(16);
    b.align_next_byte();
    assert_eq!(b.get_total_read_bits(), 16);
    b.seek(17);
    b.align_next_byte();
    assert_eq!(b.get_total_read_bits(), 24);
    b.seek(23);
    b.align_next_byte();
    assert_eq!(b.get_total_read_bits(), 24);
    b.seek(32767);
    b.align_next_byte();
    assert_eq!(b.get_total_read_bits(), 0);
}

#[test]
fn skip_wraps_modulo_ring() {
    let mut b = MP3MainDataBuffer::new();
    b.skip(100);
    assert_eq!(b.get_total_read_bits(), 100);
    b.skip(32768);
    assert_eq!(b.get_total_read_bits(), 100);
    b.skip(32700);
    assert_eq!(b.get_total_read_bits(), 32);
}

#[test]
fn reset_empties_buffer() {
    let mut b = MP3MainDataBuffer::new();
    b.put_data(&[0xFF; 16]);
    b.skip(20);
    b.reset();
    assert_eq!(b.get_total_read_bits(), 0);
    assert_eq!(b.get_bits(32), 0);
    b.put_data(&[0xA5]);
    b.seek(0);
    assert_eq!(b.get_bits(8), 0xA5);
}
