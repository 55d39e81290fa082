//! The parts of Huffman decoding that do not need the big-value code tables: the
//! boundaries of the big-value regions, and the count1 region with its two quadruple
//! tables, the treatment of the region's end and the cursor reconciliation.
use vstd::prelude::*;
use vstd::arithmetic::power2::lemma2_to64;
use crate::maindata_buffer::{MP3MainDataBuffer, ring_bits, MP3_MAINDATA_BUFFER_SIZE_BITS};
use crate::tables::{sfb_long, sfb_long_index};
use crate::types::{MP3BlockType, MP3FrameHeader, MP3GranuleInformation};
use crate::MP3_NUM_SAMPLES_PER_GRANULE;

verus! {

// ---------------------------------------------------------------------------
// Big-value regions
// ---------------------------------------------------------------------------

/// Where regions 1 and 2 of the big values start: 36 and 576 for short blocks, else
/// at the long-block bands `region0_count + 1` and
/// `region0_count + region1_count + 2`.
pub open spec fn region_bounds(h: MP3FrameHeader, g: MP3GranuleInformation) -> (nat, nat) {
    if g.block_type == MP3BlockType::Short && g.window_switching_flag {
        (36, 576)
    } else {
        (
            sfb_long(h.sampling_rate)[g.region0_count + 1],
            sfb_long(h.sampling_rate)[g.region0_count + g.region1_count + 2],
        )
    }
}

/// The first spectral lines of big-value regions 1 and 2 of `granule`.
pub fn huffman_region_bounds(header: &MP3FrameHeader, granule: &MP3GranuleInformation) -> (r: (
    usize,
    usize,
))
    requires
        granule.block_type == MP3BlockType::Short && granule.window_switching_flag
            || granule.region0_count + granule.region1_count + 2 < 23,
    ensures
        (r.0 as nat, r.1 as nat) == region_bounds(*header, *granule),
{
    match granule.block_type {
        MP3BlockType::Short if granule.window_switching_flag => (36, MP3_NUM_SAMPLES_PER_GRANULE),
        _ => {
            let r0 = granule.region0_count as usize;
            let r1 = granule.region1_count as usize;
            (
                sfb_long_index(header.sampling_rate, r0 + 1),
                sfb_long_index(header.sampling_rate, r0 + r1 + 2),
            )
        },
    }
}

/// Extra bits that big-value table `table` appends to a magnitude of 15 (the escape).
pub open spec fn linbits_of(table: nat) -> nat {
    seq![0nat, 0, 0, 0, 0, 0, 0, 0, 0, 0, 0, 0, 0, 0, 0, 0, 1, 2, 3, 4, 6, 8, 10, 13, 4, 5, 6, 7, 8, 9, 11, 13][table as int]
}

/// Extra bits that big-value table `table` appends to a magnitude of 15.
pub fn big_value_linbits(table: u8) -> (r: u8)
    requires
        table < 32,
    ensures
        r as nat == linbits_of(table as nat),
        r <= 13,
{
    let t: [u8; 32] = [
        0, 0, 0, 0, 0, 0, 0, 0, 0, 0, 0, 0, 0, 0, 0, 0, 1, 2, 3, 4, 6, 8, 10, 13, 4, 5, 6, 7, 8, 9,
        11, 13,
    ];
    t[table as usize]
}

/// One component of a big-value pair: magnitude `m` from the code, then, for the escape
/// magnitude 15 with `lb` extra bits, those bits added to it, then a sign bit (1 for
/// negative) when the value is not zero. Gives the value and the bits taken from `p`.
pub open spec fn big_value_component(buf: Seq<u8>, p: nat, m: nat, lb: nat) -> (int, nat) {
    let esc = m == 15 && lb > 0;
    let mag = if esc {
        m + ring_bits(buf, p % 32768, lb)
    } else {
        m
    };
    let q = if esc {
        p + lb
    } else {
        p
    };
    if mag == 0 {
        (0, (q - p) as nat)
    } else if rbit(buf, q) == 1 {
        (-mag, (q + 1 - p) as nat)
    } else {
        (mag as int, (q + 1 - p) as nat)
    }
}

/// Reads one component of a big-value pair after its code.
fn decode_big_value_component(buffer: &mut MP3MainDataBuffer, m: u32, lb: u8, Ghost(abs): Ghost<nat>) -> (r: i32)
    requires
        old(buffer).wf(),
        old(buffer).read_pos() == abs % 32768,
        m <= 15,
        lb <= 13,
    ensures
        final(buffer).wf(),
        final(buffer).bytes() == old(buffer).bytes(),
        final(buffer).write_pos() == old(buffer).write_pos(),
        r as int == big_value_component(old(buffer).bytes(), abs, m as nat, lb as nat).0,
        final(buffer).read_pos() == (abs + big_value_component(
            old(buffer).bytes(),
            abs,
            m as nat,
            lb as nat,
        ).1) % 32768,
{
    let ghost buf = buffer.bytes();
    let mut mag = m;
    let ghost mut q = abs;
    if m == 15 && lb > 0 {
        let extra = buffer.get_bits(lb);
        proof {
            vstd::arithmetic::power2::lemma2_to64();
            if lb < 13 {
                vstd::arithmetic::power2::lemma_pow2_strictly_increases(lb as nat, 13);
            }
            vstd::arithmetic::div_mod::lemma_add_mod_noop(abs as int, lb as int, 32768);
            vstd::arithmetic::div_mod::lemma_mod_twice(abs as int, 32768);
            vstd::arithmetic::div_mod::lemma_small_mod(lb as nat, 32768);
            q = abs + lb as nat;
        }
        mag = 15 + extra;
    }
    if mag == 0 {
        return 0;
    }
    if read_bit(buffer, Ghost(q)) == 1 {
        -(mag as i32)
    } else {
        mag as i32
    }
}

/// Finishes a big-value pair whose code gave the magnitudes `x` and `y` (at most 15),
/// for a table with `linbits` extra bits: the escape bits and sign of `x`, then those
/// of `y`, read from the read position on.
pub fn decode_big_value_pair(buffer: &mut MP3MainDataBuffer, x: u32, y: u32, linbits: u8) -> (r: (i32, i32))
    requires
        old(buffer).wf(),
        x <= 15,
        y <= 15,
        linbits <= 13,
    ensures
        final(buffer).wf(),
        final(buffer).bytes() == old(buffer).bytes(),
        final(buffer).write_pos() == old(buffer).write_pos(),
        ({
            let p = old(buffer).read_pos();
            let cx = big_value_component(old(buffer).bytes(), p, x as nat, linbits as nat);
            let cy = big_value_component(old(buffer).bytes(), p + cx.1, y as nat, linbits as nat);
            &&& r.0 as int == cx.0
            &&& r.1 as int == cy.0
            &&& final(buffer).read_pos() == (p + cx.1 + cy.1) % 32768
        }),
{
    let ghost buf = buffer.bytes();
    let ghost p = buffer.read_pos();
    proof {
        vstd::arithmetic::div_mod::lemma_small_mod(p, 32768);
    }
    let vx = decode_big_value_component(buffer, x, linbits, Ghost(p));
    let ghost n = big_value_component(buf, p, x as nat, linbits as nat).1;
    let vy = decode_big_value_component(buffer, y, linbits, Ghost(p + n));
    (vx, vy)
}

// ---------------------------------------------------------------------------
// Count1 region
// ---------------------------------------------------------------------------

/// Bit `p` of the ring `buf`, for a bit position `p` that may have gone round it.
pub open spec fn rbit(buf: Seq<u8>, p: nat) -> nat {
    ring_bits(buf, p % 32768, 1)
}

/// The magnitudes (v, w, x, y) that count1 table A codes from bit `p` on, and the
/// length of the code.
#[verifier::opaque]
pub open spec fn quad_a(buf: Seq<u8>, p: nat) -> (Seq<nat>, nat) {
    let b0 = rbit(buf, p);
    let b1 = rbit(buf, p + 1);
    let b2 = rbit(buf, p + 2);
    let b3 = rbit(buf, p + 3);
    let b4 = rbit(buf, p + 4);
    let b5 = rbit(buf, p + 5);
    if b0 == 1 {
        (seq![0nat, 0, 0, 0], 1)
    } else if b1 == 1 {
        // 0100, 0101, 0110, 0111
        (
            if b2 == 0 && b3 == 0 {
                seq![0nat, 0, 1, 0]
            } else if b2 == 0 {
                seq![0nat, 0, 0, 1]
            } else if b3 == 0 {
                seq![0nat, 1, 0, 0]
            } else {
                seq![1nat, 0, 0, 0]
            },
            4,
        )
    } else if b2 == 1 {
        // 00100, 00101, 00110, 00111
        (
            if b3 == 0 && b4 == 0 {
                seq![0nat, 1, 1, 0]
            } else if b3 == 0 {
                seq![0nat, 0, 1, 1]
            } else if b4 == 0 {
                seq![1nat, 0, 1, 0]
            } else {
                seq![1nat, 1, 0, 0]
            },
            5,
        )
    } else if b3 == 1 {
        if b4 == 1 {
            // 00011
            (seq![1nat, 0, 0, 1], 5)
        } else {
            // 000100, 000101
            (
                if b5 == 0 {
                    seq![0nat, 1, 1, 1]
                } else {
                    seq![0nat, 1, 0, 1]
                },
                6,
            )
        }
    } else if b4 == 1 {
        // 000010, 000011
        (
            if b5 == 0 {
                seq![1nat, 1, 0, 1]
            } else {
                seq![1nat, 1, 1, 0]
            },
            6,
        )
    } else {
        // 000000, 000001
        (
            if b5 == 0 {
                seq![1nat, 0, 1, 1]
            } else {
                seq![1nat, 1, 1, 1]
            },
            6,
        )
    }
}

/// The magnitudes that count1 table B codes from bit `p` on (four bits, each the
/// complement of its magnitude), and the length of the code.
pub open spec fn quad_b(buf: Seq<u8>, p: nat) -> (Seq<nat>, nat) {
    (
        seq![
            (1 - rbit(buf, p)) as nat,
            (1 - rbit(buf, p + 1)) as nat,
            (1 - rbit(buf, p + 2)) as nat,
            (1 - rbit(buf, p + 3)) as nat,
        ],
        4,
    )
}

/// 1 for a non-zero magnitude (which a sign bit follows), else 0.
pub open spec fn nz(m: nat) -> nat {
    if m != 0 {
        1
    } else {
        0
    }
}

/// Magnitude `m` with the sign bit at `p` (1 for negative) when `m` is not zero.
pub open spec fn signed(buf: Seq<u8>, p: nat, m: nat) -> int {
    if m == 0 {
        0
    } else if rbit(buf, p) == 1 {
        -m
    } else {
        m as int
    }
}

/// The values (v, w, x, y) of the count1 quadruple coded from bit `p` with table
/// `table` (0 for A, 1 for B): the code, then a sign bit for each non-zero magnitude in
/// order; and the bits taken.
#[verifier::opaque]
pub open spec fn count1_quad(buf: Seq<u8>, p: nat, table: nat) -> (Seq<int>, nat) {
    let (m, l) = if table == 0 {
        quad_a(buf, p)
    } else {
        quad_b(buf, p)
    };
    let s0 = p + l;
    let s1 = s0 + nz(m[0]);
    let s2 = s1 + nz(m[1]);
    let s3 = s2 + nz(m[2]);
    (
        seq![signed(buf, s0, m[0]), signed(buf, s1, m[1]), signed(buf, s2, m[2]), signed(buf, s3, m[3])],
        l + nz(m[0]) + nz(m[1]) + nz(m[2]) + nz(m[3]),
    )
}

/// Bit position `pos` of the ring lies in the count1 data of a granule whose data runs
/// from `s` up to `e` (going round the ring when `e` is below `s`).
pub open spec fn in_count1_region(pos: nat, s: nat, e: nat) -> bool {
    if e >= s {
        s <= pos && pos < e
    } else {
        pos >= s || pos < e
    }
}

/// `out` with the quadruple `q` written from index `i` on; only the first pair when the
/// second would pass index 575.
pub open spec fn write_quad(out: Seq<int>, i: nat, q: Seq<int>) -> Seq<int> {
    let o = out.update(i as int, q[0]).update(i + 1int, q[1]);
    if i + 2 < 576 {
        o.update(i + 2int, q[2]).update(i + 3int, q[3])
    } else {
        o
    }
}

/// Count1 decoding from bit `p` of the ring and index `i`: quadruples are decoded while
/// fewer than 576 values are out and the read position lies in the count1 data. Gives
/// the values, the read position and the index reached.
pub open spec fn count1_run(
    buf: Seq<u8>,
    p: nat,
    i: nat,
    s: nat,
    e: nat,
    table: nat,
    out: Seq<int>,
) -> (Seq<int>, nat, nat)
    decreases 580 - i,
{
    if i < 576 && in_count1_region(p, s, e) {
        let (q, n) = count1_quad(buf, p, table);
        count1_run(buf, (p + n) % 32768, i + 4, s, e, table, write_quad(out, i, q))
    } else {
        (out, p, i)
    }
}

/// The index from which the spectrum is zero after the count1 run ended at index `i`
/// and read position `pos`: the last quadruple is dropped when it was read past the end
/// `e` of the granule's data.
pub open spec fn count1_end(i0: nat, i: nat, pos: nat, s: nat, e: nat) -> nat {
    if i > i0 && pos != e && !in_count1_region(pos, s, e) {
        (i - 4) as nat
    } else {
        i
    }
}

/// Reads one bit at the ring position of `abs`.
fn read_bit(buffer: &mut MP3MainDataBuffer, Ghost(abs): Ghost<nat>) -> (r: u32)
    requires
        old(buffer).wf(),
        old(buffer).read_pos() == abs % 32768,
    ensures
        final(buffer).wf(),
        final(buffer).bytes() == old(buffer).bytes(),
        final(buffer).write_pos() == old(buffer).write_pos(),
        final(buffer).read_pos() == (abs + 1) % 32768,
        r as nat == rbit(old(buffer).bytes(), abs),
        r <= 1,
{
    proof {
        lemma2_to64();
        vstd::arithmetic::div_mod::lemma_add_mod_noop(abs as int, 1, 32768);
        vstd::arithmetic::div_mod::lemma_mod_twice(abs as int, 32768);
    }
    buffer.get_bits(1)
}

/// Decodes the magnitudes of a count1 quadruple with table A.
fn decode_quad_a(buffer: &mut MP3MainDataBuffer, Ghost(abs): Ghost<nat>) -> (r: (u32, u32, u32, u32))
    requires
        old(buffer).wf(),
        old(buffer).read_pos() == abs % 32768,
    ensures
        final(buffer).wf(),
        final(buffer).bytes() == old(buffer).bytes(),
        final(buffer).write_pos() == old(buffer).write_pos(),
        final(buffer).read_pos() == (abs + quad_a(old(buffer).bytes(), abs).1) % 32768,
        seq![r.0 as nat, r.1 as nat, r.2 as nat, r.3 as nat] == quad_a(old(buffer).bytes(), abs).0,
        r.0 <= 1 && r.1 <= 1 && r.2 <= 1 && r.3 <= 1,
{
    reveal(quad_a);
    if read_bit(buffer, Ghost(abs)) == 1 {
        return (0, 0, 0, 0);
    }
    if read_bit(buffer, Ghost(abs + 1)) == 1 {
        let b2 = read_bit(buffer, Ghost(abs + 2));
        let b3 = read_bit(buffer, Ghost(abs + 3));
        return if b2 == 0 && b3 == 0 {
            (0, 0, 1, 0)
        } else if b2 == 0 {
            (0, 0, 0, 1)
        } else if b3 == 0 {
            (0, 1, 0, 0)
        } else {
            (1, 0, 0, 0)
        };
    }
    if read_bit(buffer, Ghost(abs + 2)) == 1 {
        let b3 = read_bit(buffer, Ghost(abs + 3));
        let b4 = read_bit(buffer, Ghost(abs + 4));
        return if b3 == 0 && b4 == 0 {
            (0, 1, 1, 0)
        } else if b3 == 0 {
            (0, 0, 1, 1)
        } else if b4 == 0 {
            (1, 0, 1, 0)
        } else {
            (1, 1, 0, 0)
        };
    }
    let b3 = read_bit(buffer, Ghost(abs + 3));
    let b4 = read_bit(buffer, Ghost(abs + 4));
    if b3 == 1 && b4 == 1 {
        return (1, 0, 0, 1);
    }
    let b5 = read_bit(buffer, Ghost(abs + 5));
    if b3 == 1 {
        if b5 == 0 {
            (0, 1, 1, 1)
        } else {
            (0, 1, 0, 1)
        }
    } else if b4 == 1 {
        if b5 == 0 {
            (1, 1, 0, 1)
        } else {
            (1, 1, 1, 0)
        }
    } else {
        if b5 == 0 {
            (1, 0, 1, 1)
        } else {
            (1, 1, 1, 1)
        }
    }
}

/// Decodes the magnitudes of a count1 quadruple with table B.
fn decode_quad_b(buffer: &mut MP3MainDataBuffer, Ghost(abs): Ghost<nat>) -> (r: (u32, u32, u32, u32))
    requires
        old(buffer).wf(),
        old(buffer).read_pos() == abs % 32768,
    ensures
        final(buffer).wf(),
        final(buffer).bytes() == old(buffer).bytes(),
        final(buffer).write_pos() == old(buffer).write_pos(),
        final(buffer).read_pos() == (abs + quad_b(old(buffer).bytes(), abs).1) % 32768,
        seq![r.0 as nat, r.1 as nat, r.2 as nat, r.3 as nat] == quad_b(old(buffer).bytes(), abs).0,
        r.0 <= 1 && r.1 <= 1 && r.2 <= 1 && r.3 <= 1,
{
    let v = 1 - read_bit(buffer, Ghost(abs));
    let w = 1 - read_bit(buffer, Ghost(abs + 1));
    let x = 1 - read_bit(buffer, Ghost(abs + 2));
    let y = 1 - read_bit(buffer, Ghost(abs + 3));
    (v, w, x, y)
}

/// Reads the sign bit of the magnitude `m` when it is not zero.
fn apply_sign(buffer: &mut MP3MainDataBuffer, m: u32, Ghost(abs): Ghost<nat>) -> (r: i32)
    requires
        old(buffer).wf(),
        old(buffer).read_pos() == abs % 32768,
        m <= 1,
    ensures
        final(buffer).wf(),
        final(buffer).bytes() == old(buffer).bytes(),
        final(buffer).write_pos() == old(buffer).write_pos(),
        final(buffer).read_pos() == (abs + nz(m as nat)) % 32768,
        r as int == signed(old(buffer).bytes(), abs, m as nat),
{
    if m == 0 {
        return 0;
    }
    if read_bit(buffer, Ghost(abs)) == 1 {
        -(m as i32)
    } else {
        m as i32
    }
}

/// Decodes one count1 quadruple (v, w, x, y) with table `table` (0 for A, 1 for B).
#[verifier::rlimit(60)]
pub fn decode_count1_quad(buffer: &mut MP3MainDataBuffer, table: u8) -> (r: (i32, i32, i32, i32))
    requires
        old(buffer).wf(),
        table < 2,
    ensures
        final(buffer).wf(),
        final(buffer).bytes() == old(buffer).bytes(),
        final(buffer).write_pos() == old(buffer).write_pos(),
        ({
            let (q, n) = count1_quad(old(buffer).bytes(), old(buffer).read_pos(), table as nat);
            &&& final(buffer).read_pos() == (old(buffer).read_pos() + n) % 32768
            &&& r.0 as int == q[0]
            &&& r.1 as int == q[1]
            &&& r.2 as int == q[2]
            &&& r.3 as int == q[3]
        }),
{
    reveal(count1_quad);
    let ghost buf = buffer.bytes();
    let ghost p = buffer.read_pos();
    proof {
        vstd::arithmetic::div_mod::lemma_small_mod(p, 32768);
    }
    let (v, w, x, y) = if table == 0 {
        decode_quad_a(buffer, Ghost(p))
    } else {
        decode_quad_b(buffer, Ghost(p))
    };
    let ghost m = if table == 0 {
        quad_a(buf, p)
    } else {
        quad_b(buf, p)
    };
    assert(m.0[0] == v as nat && m.0[1] == w as nat && m.0[2] == x as nat && m.0[3] == y as nat);
    let ghost s0 = p + m.1;
    let sv = apply_sign(buffer, v, Ghost(s0));
    let sw = apply_sign(buffer, w, Ghost(s0 + nz(v as nat)));
    let sx = apply_sign(buffer, x, Ghost(s0 + nz(v as nat) + nz(w as nat)));
    let sy = apply_sign(buffer, y, Ghost(s0 + nz(v as nat) + nz(w as nat) + nz(x as nat)));
    (sv, sw, sx, sy)
}

/// Tells whether bit position `pos` lies in the count1 data running from `s` up to `e`.
fn position_in_count1(pos: u64, s: u64, e: u64) -> (r: bool)
    ensures
        r == in_count1_region(pos as nat, s as nat, e as nat),
{
    if e >= s {
        pos >= s && pos < e
    } else {
        pos >= s || pos < e
    }
}

/// The spectrum as integers.
pub open spec fn spectrum(out: [i32; 576]) -> Seq<int> {
    out@.map_values(|v: i32| v as int)
}

/// Decodes the count1 region of `granule`, whose data starts at bit `part2_start`,
/// from the read position on, into `output` from index `2 * big_values` on: quadruples
/// until 576 values are out or the read position leaves the granule's data (a
/// quadruple that would pass index 575 gives only its first pair). A quadruple read
/// past the end of the data is dropped; the rest of `output` is set to zero, and the
/// read position goes to the end of the granule's data,
/// `part2_start + part2_3_length` modulo the ring.
pub fn decode_count1_region(
    buffer: &mut MP3MainDataBuffer,
    granule: &MP3GranuleInformation,
    part2_start: u64,
    output: &mut [i32; MP3_NUM_SAMPLES_PER_GRANULE],
)
    requires
        old(buffer).wf(),
        part2_start < 32768,
        granule.big_values <= 288,
        granule.count1table_select < 2,
    ensures
        final(buffer).wf(),
        final(buffer).bytes() == old(buffer).bytes(),
        final(buffer).write_pos() == old(buffer).write_pos(),
        final(buffer).read_pos() == (part2_start + granule.part2_3_length) % 32768,
        ({
            let s = part2_start as nat;
            let e = ((part2_start + granule.part2_3_length) % 32768) as nat;
            let i0 = 2 * granule.big_values as nat;
            let run = count1_run(
                old(buffer).bytes(),
                old(buffer).read_pos(),
                i0,
                s,
                e,
                granule.count1table_select as nat,
                spectrum(*old(output)),
            );
            let end = count1_end(i0, run.2, run.1, s, e);
            forall|k: int|
                0 <= k < 576 ==> #[trigger] final(output)[k] as int == if k < end {
                    run.0[k]
                } else {
                    0
                }
        }),
{
    let ghost buf = buffer.bytes();
    let ghost out0 = spectrum(*output);
    let part3_end = (part2_start + granule.part2_3_length as u64) % MP3_MAINDATA_BUFFER_SIZE_BITS;
    let i0: usize = 2 * granule.big_values as usize;
    let mut i: usize = i0;
    let mut position = buffer.get_total_read_bits();
    let ghost pos0 = position as nat;
    let ghost s = part2_start as nat;
    let ghost e = part3_end as nat;
    let ghost t = granule.count1table_select as nat;
    while i < MP3_NUM_SAMPLES_PER_GRANULE && position_in_count1(position, part2_start, part3_end)
        invariant
            buffer.wf(),
            buffer.bytes() == buf,
            buf == old(buffer).bytes(),
            buffer.write_pos() == old(buffer).write_pos(),
            granule.count1table_select < 2,
            t == granule.count1table_select as nat,
            s == part2_start as nat,
            e == part3_end as nat,
            i % 2 == 0,
            i0 <= i <= 578,
            (i - i0) % 4 == 0,
            position as nat == buffer.read_pos(),
            count1_run(buf, pos0, i0 as nat, s, e, t, out0) == count1_run(
                buf,
                position as nat,
                i as nat,
                s,
                e,
                t,
                spectrum(*output),
            ),
        decreases 580 - i,
    {
        let ghost before = spectrum(*output);
        let ghost pos_before = position as nat;
        let ghost i_before = i as nat;
        proof {
            assert(count1_run(buf, pos_before, i_before, s, e, t, before) == count1_run(
                buf,
                (pos_before + count1_quad(buf, pos_before, t).1) % 32768,
                i_before + 4,
                s,
                e,
                t,
                write_quad(before, i_before, count1_quad(buf, pos_before, t).0),
            ));
        }
        let q = decode_count1_quad(buffer, granule.count1table_select);
        let ghost qs = count1_quad(buf, position as nat, t);
        output[i] = q.0;
        output[i + 1] = q.1;
        if i + 2 < MP3_NUM_SAMPLES_PER_GRANULE {
            output[i + 2] = q.2;
            output[i + 3] = q.3;
        }
        proof {
            assert(spectrum(*output) =~= write_quad(before, i as nat, qs.0));
        }
        i = i + 4;
        position = buffer.get_total_read_bits();
    }
    let ghost run_out = spectrum(*output);
    if i > i0 && position != part3_end && !position_in_count1(position, part2_start, part3_end) {
        i = i - 4;
    }
    let ghost end = i;
    while i < MP3_NUM_SAMPLES_PER_GRANULE
        invariant
            end <= i,
            end <= 578,
            forall|k: int|
                0 <= k < 576 ==> #[trigger] output[k] as int == if k < end {
                    run_out[k]
                } else if k < i {
                    0
                } else {
                    run_out[k]
                },
            run_out.len() == 576,
        decreases 576 - i,
    {
        output[i] = 0;
        i = i + 1;
    }
    if position != part3_end {
        buffer.seek(part3_end);
    }
}

/// A quadruple decoded at index 574 writes only indices 574 and 575, and decoding
/// stops after it.
pub proof fn lemma_count1_last_pair(buf: Seq<u8>, p: nat, s: nat, e: nat, table: nat, out: Seq<int>)
    requires
        p < 32768,
        in_count1_region(p, s, e),
    ensures
        ({
            let (q, n) = count1_quad(buf, p, table);
            count1_run(buf, p, 574, s, e, table, out) == (
                out.update(574, q[0]).update(575, q[1]),
                (p + n) % 32768,
                578nat,
            )
        }),
{
    reveal_with_fuel(count1_run, 2);
}

} // verus!
