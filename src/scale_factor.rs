//! Scale-factor decoding: reading each band's scale factor out of the reservoir, with
//! sharing of long-block bands between the two granules of a frame.
use vstd::prelude::*;
use vstd::arithmetic::power2::{pow2, lemma2_to64};
use vstd::arithmetic::div_mod::{lemma_add_mod_noop, lemma_small_mod};
use crate::maindata_buffer::{MP3MainDataBuffer, ring_bits};
use crate::types::{MP3BlockType, MP3GranuleInformation};
use crate::{MP3_NUM_CRITICAL_BANDS_LONG, MP3_NUM_CRITICAL_BANDS_SHORT};

verus! {

/// Scale factors of one granule.
#[derive(Debug, Clone, Copy)]
pub struct GranuleScaleFactor {
    /// Long-block bands
    pub long: [u8; MP3_NUM_CRITICAL_BANDS_LONG],
    /// Short-block bands of each of the three windows
    pub short: [[u8; MP3_NUM_CRITICAL_BANDS_SHORT]; 3],
}

/// Every scale factor of `s` is zero.
pub open spec fn granule_scale_factor_is_zero(s: GranuleScaleFactor) -> bool {
    &&& forall|k: int| 0 <= k < 23 ==> #[trigger] s.long[k] == 0
    &&& forall|w: int, k: int| 0 <= w < 3 && 0 <= k < 13 ==> #[trigger] s.short[w][k] == 0
}

impl GranuleScaleFactor {
    /// All scale factors zero.
    pub fn zero() -> (r: Self)
        ensures
            granule_scale_factor_is_zero(r),
    {
        Self { long: [0u8; MP3_NUM_CRITICAL_BANDS_LONG], short: [[0u8; MP3_NUM_CRITICAL_BANDS_SHORT]; 3] }
    }
}

/// Bit width of the scale factors of slot column `k` (0 for the low bands, 1 for the
/// high ones) for `scalefac_compress` = `c`.
pub open spec fn slen_of(k: nat, c: nat) -> nat {
    if k == 0 {
        seq![0nat, 0, 0, 0, 3, 1, 1, 1, 2, 2, 2, 3, 3, 3, 4, 4][c as int]
    } else {
        seq![0nat, 1, 2, 3, 0, 1, 2, 3, 1, 2, 3, 1, 2, 3, 2, 3][c as int]
    }
}

/// The scale-factor bit width of column `k` for `scalefac_compress` = `c`.
fn slen(k: usize, c: u8) -> (r: u8)
    requires
        k < 2,
        c < 16,
    ensures
        r as nat == slen_of(k as nat, c as nat),
        r <= 4,
{
    let table: [u8; 16] = if k == 0 {
        [0, 0, 0, 0, 3, 1, 1, 1, 2, 2, 2, 3, 3, 3, 4, 4]
    } else {
        [0, 1, 2, 3, 0, 1, 2, 3, 1, 2, 3, 1, 2, 3, 2, 3]
    };
    table[c as usize]
}

/// The scale factor of width `w` that starts `off` bits after bit `pos` of the ring `buf`.
pub open spec fn sf_read(buf: Seq<u8>, pos: nat, off: nat, w: nat) -> nat {
    ring_bits(buf, (pos + off) % 32768, w)
}

/// Moving on by `a` and then by `b` bits is moving on by `a + b` bits, modulo the ring.
pub(crate) proof fn lemma_mod_advance(p: nat, a: nat, b: nat)
    ensures
        ((p + a) % 32768 + b) % 32768 == (p + a + b) % 32768,
{
    let x = (p + a) % 32768;
    lemma_add_mod_noop((p + a) as int, b as int, 32768);
    lemma_add_mod_noop(x as int, b as int, 32768);
    vstd::arithmetic::div_mod::lemma_mod_twice((p + a) as int, 32768);
}

/// A scale factor `off` bits after a position `a` bits on from `p` is `a + off` bits
/// on from `p`.
proof fn lemma_sf_read_shift(buf: Seq<u8>, p: nat, a: nat, off: nat, w: nat)
    ensures
        sf_read(buf, (p + a) % 32768, off, w) == sf_read(buf, p, a + off, w),
{
    lemma_mod_advance(p, a, off);
}

/// A width of at most 4 bits holds values below 16.
proof fn lemma_pow2_le_16(w: nat)
    requires
        w <= 4,
    ensures
        pow2(w) <= 16,
{
    lemma2_to64();
    if w < 4 {
        vstd::arithmetic::power2::lemma_pow2_strictly_increases(w, 4);
    }
}

/// Reads the long-block bands `from..to`, each `w` bits wide, in order.
fn read_long_bands(
    buffer: &mut MP3MainDataBuffer,
    long: &mut [u8; MP3_NUM_CRITICAL_BANDS_LONG],
    from: usize,
    to: usize,
    w: u8,
)
    requires
        old(buffer).wf(),
        from <= to <= 23,
        w <= 4,
    ensures
        final(buffer).wf(),
        final(buffer).bytes() == old(buffer).bytes(),
        final(buffer).write_pos() == old(buffer).write_pos(),
        final(buffer).read_pos() == (old(buffer).read_pos() + (to - from) * w) % 32768,
        forall|k: int|
            0 <= k < 23 ==> #[trigger] final(long)[k] as nat == if from <= k < to {
                sf_read(old(buffer).bytes(), old(buffer).read_pos(), ((k - from) * w) as nat, w as nat)
            } else {
                old(long)[k] as nat
            },
{
    let ghost buf = buffer.bytes();
    let ghost pos0 = buffer.read_pos();
    let ghost start = *long;
    let mut i = from;
    proof {
        lemma_small_mod(pos0, 32768);
        lemma_pow2_le_16(w as nat);
        assert((i - from) * 3 * w == 0) by (nonlinear_arith)
            requires
                i == from,
        ;
    }
    while i < to
        invariant
            from <= i <= to <= 23,
            w <= 4,
            pow2(w as nat) <= 16,
            buffer.wf(),
            buffer.bytes() == buf,
            buffer.write_pos() == old(buffer).write_pos(),
            buf == old(buffer).bytes(),
            pos0 == old(buffer).read_pos(),
            start == *old(long),
            buffer.read_pos() == (pos0 + (i - from) * w) % 32768,
            forall|k: int|
                0 <= k < 23 ==> #[trigger] long[k] as nat == if from <= k < i {
                    sf_read(buf, pos0, ((k - from) * w) as nat, w as nat)
                } else {
                    start[k] as nat
                },
        decreases to - i,
    {
        let v = buffer.get_bits(w) as u8;
        proof {
            lemma_mod_advance(pos0, ((i - from) * w) as nat, w as nat);
            assert((i - from) * w + w == (i + 1 - from) * w) by (nonlinear_arith);
        }
        long[i] = v;
        i = i + 1;
    }
}

/// Reads the short-block bands `from..to` of the three windows, each `w` bits wide,
/// band by band and, within a band, window by window.
fn read_short_bands(
    buffer: &mut MP3MainDataBuffer,
    short: &mut [[u8; MP3_NUM_CRITICAL_BANDS_SHORT]; 3],
    from: usize,
    to: usize,
    w: u8,
)
    requires
        old(buffer).wf(),
        from <= to <= 13,
        w <= 4,
    ensures
        final(buffer).wf(),
        final(buffer).bytes() == old(buffer).bytes(),
        final(buffer).write_pos() == old(buffer).write_pos(),
        final(buffer).read_pos() == (old(buffer).read_pos() + (to - from) * 3 * w) % 32768,
        forall|win: int, k: int|
            0 <= win < 3 && 0 <= k < 13 ==> #[trigger] final(short)[win][k] as nat == if from <= k
                < to {
                sf_read(
                    old(buffer).bytes(),
                    old(buffer).read_pos(),
                    (((k - from) * 3 + win) * w) as nat,
                    w as nat,
                )
            } else {
                old(short)[win][k] as nat
            },
{
    let ghost buf = buffer.bytes();
    let ghost pos0 = buffer.read_pos();
    let ghost start = *short;
    let mut i = from;
    proof {
        lemma_small_mod(pos0, 32768);
        lemma_pow2_le_16(w as nat);
        assert((i - from) * 3 * w == 0) by (nonlinear_arith)
            requires
                i == from,
        ;
    }
    while i < to
        invariant
            from <= i <= to <= 13,
            w <= 4,
            pow2(w as nat) <= 16,
            buffer.wf(),
            buffer.bytes() == buf,
            buffer.write_pos() == old(buffer).write_pos(),
            buf == old(buffer).bytes(),
            pos0 == old(buffer).read_pos(),
            start == *old(short),
            buffer.read_pos() == (pos0 + (i - from) * 3 * w) % 32768,
            forall|win: int, k: int|
                0 <= win < 3 && 0 <= k < 13 ==> #[trigger] short[win][k] as nat == if from <= k
                    < i {
                    sf_read(buf, pos0, (((k - from) * 3 + win) * w) as nat, w as nat)
                } else {
                    start[win][k] as nat
                },
        decreases to - i,
    {
        let ghost base = ((i - from) * 3 * w) as nat;
        let v0 = buffer.get_bits(w) as u8;
        proof {
            lemma_mod_advance(pos0, base, w as nat);
        }
        let v1 = buffer.get_bits(w) as u8;
        proof {
            lemma_mod_advance(pos0, (base + w) as nat, w as nat);
        }
        let v2 = buffer.get_bits(w) as u8;
        proof {
            lemma_mod_advance(pos0, (base + 2 * w) as nat, w as nat);
            assert(base + 3 * w == (i + 1 - from) * 3 * w) by (nonlinear_arith)
                requires
                    base == (i - from) * 3 * w,
            ;
            assert(((i - from) * 3 + 1) * w == base + w) by (nonlinear_arith)
                requires
                    base == (i - from) * 3 * w,
            ;
            assert(((i - from) * 3 + 2) * w == base + 2 * w) by (nonlinear_arith)
                requires
                    base == (i - from) * 3 * w,
            ;
        }
        let mut row0 = short[0];
        let mut row1 = short[1];
        let mut row2 = short[2];
        row0[i] = v0;
        row1[i] = v1;
        row2[i] = v2;
        *short = [row0, row1, row2];
        i = i + 1;
    }
}

/// The block is a short (window-switched) block.
pub open spec fn is_short_granule(g: MP3GranuleInformation) -> bool {
    g.block_type == MP3BlockType::Short && g.window_switching_flag
}

/// First band of long-block group `grp` (groups 0-5, 6-10, 11-15, 16-20; 21 ends them).
pub open spec fn long_group_start(grp: int) -> int {
    if grp <= 0 {
        0
    } else if grp == 1 {
        6
    } else if grp == 2 {
        11
    } else if grp == 3 {
        16
    } else {
        21
    }
}

/// Long-block group of band `sfb` (below 21).
pub open spec fn long_group_of(sfb: int) -> int {
    if sfb < 6 {
        0
    } else if sfb < 11 {
        1
    } else if sfb < 16 {
        2
    } else {
        3
    }
}

/// Bit width of the scale factors of long-block group `grp`.
pub open spec fn long_group_width(c: nat, grp: int) -> nat {
    if grp < 2 {
        slen_of(0, c)
    } else {
        slen_of(1, c)
    }
}

/// Group `grp` of the second granule takes the first granule's scale factors.
pub open spec fn long_group_shared(second: bool, scfsi: Seq<bool>, grp: int) -> bool {
    second && scfsi[grp]
}

/// Bits read for the long-block groups before group `grp`.
pub open spec fn long_group_offset(c: nat, second: bool, scfsi: Seq<bool>, grp: int) -> nat
    decreases grp,
{
    if grp <= 0 {
        0
    } else {
        long_group_offset(c, second, scfsi, grp - 1) + if long_group_shared(second, scfsi, grp - 1) {
            0
        } else {
            ((long_group_start(grp) - long_group_start(grp - 1)) * long_group_width(
                c,
                grp - 1,
            )) as nat
        }
    }
}

/// Bits of scale factors that granule `g` codes.
pub open spec fn scale_factor_bits(g: MP3GranuleInformation, second: bool, scfsi: Seq<bool>) -> nat {
    let c = g.scalefac_compress as nat;
    if is_short_granule(g) {
        if g.mixed_block_flag {
            26 * slen_of(0, c) + 18 * slen_of(1, c)
        } else {
            18 * slen_of(0, c) + 18 * slen_of(1, c)
        }
    } else {
        long_group_offset(c, second, scfsi, 4)
    }
}

/// `r` holds the scale factors of granule `g` coded from bit `pos` of the ring `buf`:
/// short blocks read bands 0-5 and 6-11 of the three windows (after eight long bands
/// when mixed); long blocks read the four band groups, taking a group from `first`
/// where the second granule shares it. Everything not read is zero.
pub open spec fn scale_factors_match(
    buf: Seq<u8>,
    pos: nat,
    g: MP3GranuleInformation,
    second: bool,
    scfsi: Seq<bool>,
    first: GranuleScaleFactor,
    r: GranuleScaleFactor,
) -> bool {
    let c = g.scalefac_compress as nat;
    let s0 = slen_of(0, c);
    let s1 = slen_of(1, c);
    if is_short_granule(g) {
        let lo = if g.mixed_block_flag {
            8 * s0
        } else {
            0
        };
        &&& forall|k: int|
            0 <= k < 23 ==> #[trigger] r.long[k] as nat == if g.mixed_block_flag && k < 8 {
                sf_read(buf, pos, (k * s0) as nat, s0)
            } else {
                0
            }
        &&& forall|win: int, k: int|
            0 <= win < 3 && 0 <= k < 13 ==> #[trigger] r.short[win][k] as nat == if k < 6 {
                sf_read(buf, pos, (lo + (k * 3 + win) * s0) as nat, s0)
            } else if k < 12 {
                sf_read(buf, pos, (lo + 18 * s0 + ((k - 6) * 3 + win) * s1) as nat, s1)
            } else {
                0
            }
    } else {
        &&& forall|win: int, k: int| 0 <= win < 3 && 0 <= k < 13 ==> #[trigger] r.short[win][k] == 0
        &&& forall|k: int|
            0 <= k < 23 ==> #[trigger] r.long[k] as nat == if k < 21 {
                if long_group_shared(second, scfsi, long_group_of(k)) {
                    first.long[k] as nat
                } else {
                    sf_read(
                        buf,
                        pos,
                        long_group_offset(c, second, scfsi, long_group_of(k)) + ((k
                            - long_group_start(long_group_of(k))) * long_group_width(
                            c,
                            long_group_of(k),
                        )) as nat,
                        long_group_width(c, long_group_of(k)),
                    )
                }
            } else {
                0
            }
    }
}

/// In a first granule nothing is shared, so the scale factors do not depend on `first`.
pub proof fn lemma_first_granule_shares_nothing(
    buf: Seq<u8>,
    pos: nat,
    g: MP3GranuleInformation,
    scfsi: Seq<bool>,
    first: GranuleScaleFactor,
    other: GranuleScaleFactor,
    r: GranuleScaleFactor,
)
    requires
        scale_factors_match(buf, pos, g, false, scfsi, first, r),
    ensures
        scale_factors_match(buf, pos, g, false, scfsi, other, r),
{
    reveal(scale_factors_match);
}

/// First band of long-block group `grp`.
fn long_group_start_index(grp: usize) -> (r: usize)
    requires
        grp <= 4,
    ensures
        r as int == long_group_start(grp as int),
{
    if grp == 0 {
        0
    } else if grp == 1 {
        6
    } else if grp == 2 {
        11
    } else if grp == 3 {
        16
    } else {
        21
    }
}

/// Decodes the long-block scale factors: each of the four band groups is read, or, in
/// the second granule of a group with its sharing flag set, taken from `first`.
fn decode_long_scale_factors(
    buffer: &mut MP3MainDataBuffer,
    c: u8,
    second_granule: bool,
    scfsi: &[bool; 4],
    first: &GranuleScaleFactor,
) -> (r: [u8; MP3_NUM_CRITICAL_BANDS_LONG])
    requires
        old(buffer).wf(),
        c < 16,
    ensures
        final(buffer).wf(),
        final(buffer).bytes() == old(buffer).bytes(),
        final(buffer).write_pos() == old(buffer).write_pos(),
        final(buffer).read_pos() == (old(buffer).read_pos() + long_group_offset(
            c as nat,
            second_granule,
            scfsi@,
            4,
        )) % 32768,
        forall|k: int|
            0 <= k < 23 ==> #[trigger] r[k] as nat == if k < 21 {
                if long_group_shared(second_granule, scfsi@, long_group_of(k)) {
                    first.long[k] as nat
                } else {
                    sf_read(
                        old(buffer).bytes(),
                        old(buffer).read_pos(),
                        long_group_offset(c as nat, second_granule, scfsi@, long_group_of(k)) + ((k
                            - long_group_start(long_group_of(k))) * long_group_width(
                            c as nat,
                            long_group_of(k),
                        )) as nat,
                        long_group_width(c as nat, long_group_of(k)),
                    )
                }
            } else {
                0
            },
{
    let ghost buf = buffer.bytes();
    let ghost pos0 = buffer.read_pos();
    let ghost cn = c as nat;
    let ghost sc = scfsi@;
    let mut long = [0u8; MP3_NUM_CRITICAL_BANDS_LONG];
    let mut grp: usize = 0;
    proof {
        vstd::arithmetic::div_mod::lemma_small_mod(pos0, 32768);
    }
    while grp < 4
        invariant
            grp <= 4,
            c < 16,
            buffer.wf(),
            buffer.bytes() == buf,
            buf == old(buffer).bytes(),
            pos0 == old(buffer).read_pos(),
            cn == c as nat,
            sc == scfsi@,
            buffer.write_pos() == old(buffer).write_pos(),
            buffer.read_pos() == (pos0 + long_group_offset(cn, second_granule, sc, grp as int))
                % 32768,
            forall|k: int|
                0 <= k < 23 ==> #[trigger] long[k] as nat == if k < long_group_start(grp as int) {
                    if long_group_shared(second_granule, sc, long_group_of(k)) {
                        first.long[k] as nat
                    } else {
                        sf_read(
                            buf,
                            pos0,
                            long_group_offset(cn, second_granule, sc, long_group_of(k)) + ((k
                                - long_group_start(long_group_of(k))) * long_group_width(
                                cn,
                                long_group_of(k),
                            )) as nat,
                            long_group_width(cn, long_group_of(k)),
                        )
                    }
                } else {
                    0
                },
        decreases 4 - grp,
    {
        let from = long_group_start_index(grp);
        let to = long_group_start_index(grp + 1);
        let ghost g = grp as int;
        let ghost before = long;
        let ghost off = long_group_offset(cn, second_granule, sc, g);
        proof {
            assert(forall|k: int| from <= k < to ==> long_group_of(k) == g);
            reveal_with_fuel(long_group_offset, 2);
        }
        if scfsi[grp] && second_granule {
            let mut sfb = from;
            while sfb < to
                invariant
                    from <= sfb <= to <= 21,
                    forall|k: int|
                        0 <= k < 23 ==> #[trigger] long[k] == if from <= k < sfb {
                            first.long[k]
                        } else {
                            before[k]
                        },
                decreases to - sfb,
            {
                long[sfb] = first.long[sfb];
                sfb = sfb + 1;
            }
        } else {
            let w = if grp < 2 {
                slen(0, c)
            } else {
                slen(1, c)
            };
            let ghost pos1 = buffer.read_pos();
            read_long_bands(buffer, &mut long, from, to, w);
            proof {
                assert forall|k: int| from <= k < to implies #[trigger] long[k] as nat == sf_read(
                    buf,
                    pos0,
                    off + ((k - from) * w) as nat,
                    w as nat,
                ) by {
                    lemma_sf_read_shift(buf, pos0, off, ((k - from) * w) as nat, w as nat);
                }
                lemma_mod_advance(pos0, off, ((to - from) * w) as nat);
            }
        }
        grp = grp + 1;
    }
    long
}

/// Decodes the scale factors of one granule of one channel from the reservoir.
/// `second_granule` tells the second granule of a frame, which may share long-block
/// band groups with `first_gr_scale_factor` according to `scfsi`.
pub fn decode_granule_scale_factor(
    buffer: &mut MP3MainDataBuffer,
    granule: &MP3GranuleInformation,
    second_granule: bool,
    scfsi: &[bool; 4],
    first_gr_scale_factor: &GranuleScaleFactor,
) -> (r: GranuleScaleFactor)
    requires
        old(buffer).wf(),
        granule.scalefac_compress < 16,
    ensures
        final(buffer).wf(),
        final(buffer).bytes() == old(buffer).bytes(),
        final(buffer).write_pos() == old(buffer).write_pos(),
        final(buffer).read_pos() == (old(buffer).read_pos() + scale_factor_bits(
            *granule,
            second_granule,
            scfsi@,
        )) % 32768,
        scale_factors_match(
            old(buffer).bytes(),
            old(buffer).read_pos(),
            *granule,
            second_granule,
            scfsi@,
            *first_gr_scale_factor,
            r,
        ),
{
    reveal(scale_factors_match);
    let ghost buf = buffer.bytes();
    let ghost pos0 = buffer.read_pos();
    let c = granule.scalefac_compress;
    let s0 = slen(0, c);
    let s1 = slen(1, c);
    match granule.block_type {
        MP3BlockType::Short if granule.window_switching_flag => {
            let mut long = [0u8; MP3_NUM_CRITICAL_BANDS_LONG];
            let mut short = [[0u8; MP3_NUM_CRITICAL_BANDS_SHORT]; 3];
            proof {
                vstd::arithmetic::div_mod::lemma_small_mod(pos0, 32768);
            }
            let ghost lo: nat = 0;
            if granule.mixed_block_flag {
                read_long_bands(buffer, &mut long, 0, 8, s0);
                proof {
                    lo = 8 * s0 as nat;
                }
            }
            let ghost pos1 = buffer.read_pos();
            assert(pos1 == (pos0 + lo) % 32768);
            read_short_bands(buffer, &mut short, 0, 6, s0);
            let ghost pos2 = buffer.read_pos();
            read_short_bands(buffer, &mut short, 6, 12, s1);
            proof {
                lemma_mod_advance(pos0, lo, (6 * 3 * s0) as nat);
                lemma_mod_advance(pos0, (lo + 18 * s0) as nat, (6 * 3 * s1) as nat);
                assert forall|win: int, k: int| 0 <= win < 3 && 0 <= k < 12 implies #[trigger] short[win][k] as nat == if k < 6 {
                    sf_read(buf, pos0, (lo + (k * 3 + win) * s0) as nat, s0 as nat)
                } else {
                    sf_read(buf, pos0, (lo + 18 * s0 + ((k - 6) * 3 + win) * s1) as nat, s1 as nat)
                } by {
                    if k < 6 {
                        lemma_sf_read_shift(buf, pos0, lo, ((k * 3 + win) * s0) as nat, s0 as nat);
                    } else {
                        lemma_sf_read_shift(
                            buf,
                            pos0,
                            (lo + 18 * s0) as nat,
                            (((k - 6) * 3 + win) * s1) as nat,
                            s1 as nat,
                        );
                    }
                }
            }
            GranuleScaleFactor { long, short }
        },
        _ => {
            let long = decode_long_scale_factors(buffer, c, second_granule, scfsi, first_gr_scale_factor);
            GranuleScaleFactor { long, short: [[0u8; MP3_NUM_CRITICAL_BANDS_SHORT]; 3] }
        },
    }
}

} // verus!
