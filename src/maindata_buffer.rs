//! The bit reservoir: a ring of main-data bytes, written a frame at a time and read
//! bit by bit.
use vstd::prelude::*;
use vstd::arithmetic::power2::{pow2, lemma_pow2_adds, lemma_pow2_pos, lemma2_to64};
use vstd::arithmetic::mul::lemma_mul_strict_inequality;
use vstd::bits::lemma_u32_shl_is_mul;
use crate::bits::{bits_value, read_field, lemma_byte_field};

verus! {

/// Bytes in the reservoir.
pub const MP3_MAINDATA_BUFFER_SIZE: usize = 4096;

/// Bits in the reservoir.
pub const MP3_MAINDATA_BUFFER_SIZE_BITS: u64 = 32768;

/// Where the byte written at `wp` + `k` lands, as a distance from the write position:
/// the distance of ring index `j` from `wp`, going forward.
pub open spec fn ring_offset(wp: nat, j: int) -> int {
    let w = (wp % 4096) as int;
    if j >= w {
        j - w
    } else {
        j + 4096 - w
    }
}

/// The ring `old` after `data` has been written into it from byte `wp` on, wrapping at
/// the end: each index holds the last byte written to it.
pub open spec fn ring_after_put(old: Seq<u8>, wp: nat, data: Seq<u8>) -> Seq<u8> {
    Seq::new(
        4096,
        |j: int|
            {
                let off = ring_offset(wp, j);
                if off + 4096 < data.len() {
                    data[off + 4096]
                } else if off < data.len() {
                    data[off]
                } else {
                    old[j]
                }
            },
    )
}

/// The write position after `len` bytes were written from `wp`, modulo the ring.
pub open spec fn write_pos_after_put(wp: nat, len: nat) -> nat {
    (wp + len) % 4096
}

/// The `n` bits of the ring `buf` from bit `pos` on, most significant first, going on at
/// the ring's start after its end (for `pos` inside the ring).
pub open spec fn ring_bits(buf: Seq<u8>, pos: nat, n: nat) -> nat {
    if pos + n <= 32768 {
        bits_value(buf, pos as int, n)
    } else {
        let tail = (32768 - pos) as nat;
        bits_value(buf, pos as int, tail) * pow2((n - tail) as nat) + bits_value(
            buf,
            0,
            (n - tail) as nat,
        )
    }
}

/// The bit position `((pos + 7) / 8) * 8` taken modulo the ring: the next byte boundary.
pub open spec fn aligned_pos(pos: nat) -> nat {
    (((pos + 7) / 8 * 8) % 32768) as nat
}

/// The main-data reservoir.
pub struct MP3MainDataBuffer {
    /// The ring of bytes
    buffer: [u8; MP3_MAINDATA_BUFFER_SIZE],
    /// Where the next byte is written (byte)
    write_pos: usize,
    /// Where the next bit is read (bit)
    read_pos_bits: u64,
}

impl MP3MainDataBuffer {
    /// The bytes of the ring.
    pub closed spec fn bytes(&self) -> Seq<u8> {
        self.buffer@
    }

    /// Where the next byte is written, in bytes.
    pub closed spec fn write_pos(&self) -> nat {
        self.write_pos as nat
    }

    /// Where the next bit is read, in bits.
    pub closed spec fn read_pos(&self) -> nat {
        self.read_pos_bits as nat
    }

    /// The ring holds 4096 bytes and both positions lie inside it.
    pub open spec fn wf(&self) -> bool {
        &&& self.bytes().len() == 4096
        &&& self.write_pos() < 4096
        &&& self.read_pos() < 32768
    }

    /// An empty reservoir: all bytes zero, both positions at the start.
    pub open spec fn is_empty_state(&self) -> bool {
        &&& self.wf()
        &&& self.bytes() == Seq::new(4096, |i: int| 0u8)
        &&& self.write_pos() == 0
        &&& self.read_pos() == 0
    }

    /// Creates an empty reservoir.
    pub fn new() -> (r: Self)
        ensures
            r.is_empty_state(),
    {
        let r = Self { buffer: [0u8; MP3_MAINDATA_BUFFER_SIZE], write_pos: 0, read_pos_bits: 0 };
        assert(r.bytes() =~= Seq::new(4096, |i: int| 0u8));
        r
    }

    /// Empties the reservoir.
    pub fn reset(&mut self)
        ensures
            final(self).is_empty_state(),
    {
        let mut i: usize = 0;
        while i < MP3_MAINDATA_BUFFER_SIZE
            invariant
                self.buffer@.len() == 4096,
                i <= 4096,
                forall|k: int| 0 <= k < i ==> self.buffer@[k] == 0u8,
            decreases 4096 - i,
        {
            self.buffer[i] = 0u8;
            i = i + 1;
        }
        self.write_pos = 0;
        self.read_pos_bits = 0;
        assert(self.bytes() =~= Seq::new(4096, |i: int| 0u8));
    }

    /// The read position in bits.
    pub fn get_total_read_bits(&self) -> (r: u64)
        ensures
            r as nat == self.read_pos(),
    {
        self.read_pos_bits
    }

    /// Appends `data` at the write position, going on at the ring's start after its end.
    pub fn put_data(&mut self, data: &[u8])
        requires
            old(self).wf(),
            old(self).write_pos() + data@.len() <= 8192,
        ensures
            final(self).wf(),
            final(self).bytes() == ring_after_put(old(self).bytes(), old(self).write_pos(), data@),
            final(self).write_pos() == write_pos_after_put(old(self).write_pos(), data@.len()),
            final(self).read_pos() == old(self).read_pos(),
    {
        let ghost old_bytes = self.buffer@;
        let ghost wp = self.write_pos as nat;
        let ghost rp = self.read_pos_bits;
        let size = data.len();
        let mut i: usize = 0;
        while i < size
            invariant
                self.buffer@.len() == 4096,
                self.write_pos == wp,
                self.read_pos_bits == rp,
                rp < 32768,
                wp <= 4096,
                wp + size <= 8192,
                size == data@.len(),
                i <= size,
                self.buffer@ == ring_after_put(old_bytes, wp, data@.subrange(0, i as int)),
            decreases size - i,
        {
            let j: usize = if self.write_pos + i >= MP3_MAINDATA_BUFFER_SIZE {
                self.write_pos + i - MP3_MAINDATA_BUFFER_SIZE
            } else {
                self.write_pos + i
            };
            proof {
                assert(ring_offset(wp, j as int) == (i as int) % 4096);
            }
            self.buffer[j] = data[i];
            proof {
                let pre = data@.subrange(0, i as int);
                let post = data@.subrange(0, i + 1);
                assert forall|k: int| 0 <= k < 4096 implies self.buffer@[k] == ring_after_put(
                    old_bytes,
                    wp,
                    post,
                )[k] by {
                    let off = ring_offset(wp, k);
                    if k != j {
                        assert(off != (i as int) % 4096);
                    }
                }
                assert(self.buffer@ =~= ring_after_put(old_bytes, wp, post));
            }
            i = i + 1;
        }
        assert(data@.subrange(0, size as int) =~= data@);
        self.write_pos = (self.write_pos + size) % MP3_MAINDATA_BUFFER_SIZE;
    }

    /// Reads the next `nbits` bits, most significant first, going on at the ring's start
    /// after its end.
    pub fn get_bits(&mut self, nbits: u8) -> (r: u32)
        requires
            old(self).wf(),
            nbits <= 32,
        ensures
            final(self).wf(),
            r as nat == ring_bits(old(self).bytes(), old(self).read_pos(), nbits as nat),
            (r as nat) < pow2(nbits as nat),
            final(self).read_pos() == (old(self).read_pos() + nbits) % 32768,
            final(self).bytes() == old(self).bytes(),
            final(self).write_pos() == old(self).write_pos(),
    {
        if nbits == 0 {
            assert(ring_bits(self.bytes(), self.read_pos(), 0) == 0);
            proof { lemma2_to64(); }
            return 0;
        }
        let pos = self.read_pos_bits;
        if pos + nbits as u64 >= MP3_MAINDATA_BUFFER_SIZE_BITS {
            let tail_bits = MP3_MAINDATA_BUFFER_SIZE_BITS - pos;
            let remain_bits = nbits as u64 - tail_bits;
            let tail = read_field(self.buffer.as_slice(), pos, tail_bits as u8);
            let head = read_field(self.buffer.as_slice(), 0, remain_bits as u8);
            self.read_pos_bits = remain_bits;
            let sh = remain_bits as u32;
            proof {
                lemma_pow2_adds(tail_bits as nat, remain_bits as nat);
                lemma_pow2_pos(remain_bits as nat);
                lemma_mul_strict_inequality(
                    tail as int,
                    pow2(tail_bits as nat) as int,
                    pow2(remain_bits as nat) as int,
                );
                assert(pow2(nbits as nat) <= pow2(32)) by {
                    if nbits < 32 {
                        vstd::arithmetic::power2::lemma_pow2_strictly_increases(
                            nbits as nat,
                            32,
                        );
                    }
                }
                lemma2_to64();
                lemma_u32_shl_is_mul(tail, sh);
                lemma_u32_shl_is_mul(1u32, sh);
                assert(head < (1u32 << sh));
                assert((tail << sh) | head == (tail << sh) + head) by (bit_vector)
                    requires
                        sh < 32,
                        head < (1u32 << sh),
                ;
                assert((tail << sh) | head == tail * pow2(sh as nat) + head);
                let buf = old(self).bytes();
                assert(buf == self.buffer@);
                if pos + nbits as u64 == MP3_MAINDATA_BUFFER_SIZE_BITS {
                    assert(remain_bits == 0);
                    assert(bits_value(buf, 0, 0) == 0);
                    assert(pow2(0) == 1);
                    assert(tail * pow2(remain_bits as nat) == tail) by (nonlinear_arith)
                        requires
                            pow2(remain_bits as nat) == 1,
                    ;
                    assert(ring_bits(buf, pos as nat, nbits as nat) == bits_value(buf, pos as int, nbits as nat));
                } else {
                    assert(ring_bits(buf, pos as nat, nbits as nat) == bits_value(buf, pos as int, tail_bits as nat) * pow2(remain_bits as nat) + bits_value(buf, 0, remain_bits as nat));
                }
                vstd::arithmetic::mul::lemma_mul_inequality(
                    tail as int + 1,
                    pow2(tail_bits as nat) as int,
                    pow2(remain_bits as nat) as int,
                );
                assert((tail as int + 1) * pow2(remain_bits as nat) == tail as int * pow2(
                    remain_bits as nat,
                ) + pow2(remain_bits as nat)) by (nonlinear_arith);
                assert(((tail << sh) | head) as nat == ring_bits(old(self).bytes(), old(self).read_pos(), nbits as nat));
            }
            (tail << sh) | head
        } else {
            let r = read_field(self.buffer.as_slice(), pos, nbits);
            self.read_pos_bits = pos + nbits as u64;
            assert(r as nat == ring_bits(old(self).bytes(), old(self).read_pos(), nbits as nat));
            r
        }
    }

    /// Moves the read position on to the next byte boundary (taken modulo the ring).
    pub fn align_next_byte(&mut self)
        requires
            old(self).wf(),
        ensures
            final(self).wf(),
            final(self).read_pos() == aligned_pos(old(self).read_pos()),
            final(self).bytes() == old(self).bytes(),
            final(self).write_pos() == old(self).write_pos(),
    {
        let q = self.read_pos_bits + 7;
        let up = (q >> 3u64) << 3u64;
        assert(up == q / 8 * 8) by (bit_vector)
            requires
                q < 32768 + 7,
                up == (q >> 3u64) << 3u64,
        ;
        self.read_pos_bits = up % MP3_MAINDATA_BUFFER_SIZE_BITS;
    }

    /// Skips `nbits` bits (the read position is taken modulo the ring).
    pub fn skip(&mut self, nbits: u64)
        requires
            old(self).wf(),
            old(self).read_pos() + nbits <= u64::MAX,
        ensures
            final(self).wf(),
            final(self).read_pos() == (old(self).read_pos() + nbits) % 32768,
            final(self).bytes() == old(self).bytes(),
            final(self).write_pos() == old(self).write_pos(),
    {
        self.read_pos_bits = (self.read_pos_bits + nbits) % MP3_MAINDATA_BUFFER_SIZE_BITS;
    }

    /// Moves the read position to bit `position` of the ring.
    pub fn seek(&mut self, position: u64)
        requires
            old(self).wf(),
            position < 32768,
        ensures
            final(self).wf(),
            final(self).read_pos() == position,
            final(self).bytes() == old(self).bytes(),
            final(self).write_pos() == old(self).write_pos(),
    {
        self.read_pos_bits = position;
    }
}

/// After a write, the write position has moved on by the number of bytes written,
/// modulo the ring.
pub proof fn lemma_write_pos_advances(wp: nat, len: nat)
    requires
        wp < 4096,
        wp + len <= 8192,
    ensures
        write_pos_after_put(wp, len) % 4096 == (wp + len) % 4096,
{
}

/// Aligning a read position that already lies on a byte boundary leaves it unchanged.
pub proof fn lemma_align_when_aligned(pos: nat)
    requires
        pos < 32768,
        pos % 8 == 0,
    ensures
        aligned_pos(pos) == pos,
{
    assert((pos + 7) / 8 * 8 == pos) by (nonlinear_arith)
        requires
            pos % 8 == 0,
    ;
}

/// Writing `4096 + k` bytes into a ring whose write position is at its start leaves
/// the write position at `k`, and the ring, read from there on, holds the last 4096
/// bytes written, in order.
pub proof fn lemma_reservoir_wrap(old: Seq<u8>, data: Seq<u8>, k: nat)
    requires
        old.len() == 4096,
        data.len() == 4096 + k,
        k < 4096,
    ensures
        write_pos_after_put(0, data.len()) == k,
        forall|t: int|
            0 <= t < 4096 ==> #[trigger] ring_after_put(old, 0, data)[(k + t) % 4096] == data[k
                + t],
{
    assert forall|t: int| 0 <= t < 4096 implies #[trigger] ring_after_put(old, 0, data)[(k + t)
        % 4096] == data[k + t] by {
        let j = (k + t) % 4096;
        if k + t < 4096 {
            assert(j == k + t);
        } else {
            assert(j == k + t - 4096);
        }
        assert(ring_offset(0, j) == j);
    }
}

/// Every byte written survives the wrap: after `data` (at most 4096 bytes) was written
/// from byte `wp`, its byte `j` is read back, as eight bits, from bit
/// `8 * ((wp + j) % 4096)` of the ring.
pub proof fn lemma_written_bytes_read_back(old: Seq<u8>, wp: nat, data: Seq<u8>, j: int)
    requires
        old.len() == 4096,
        wp < 4096,
        data.len() <= 4096,
        0 <= j < data.len(),
    ensures
        ring_bits(ring_after_put(old, wp, data), 8 * ((wp + j) % 4096) as nat, 8) == data[j] as nat,
{
    let idx = (wp + j) % 4096;
    let ring = ring_after_put(old, wp, data);
    assert(ring_offset(wp, idx) == j);
    assert(ring[idx] == data[j]);
    lemma_byte_field(ring, idx);
}

} // verus!
