//! Reading big-endian bit fields out of byte sequences.
use vstd::prelude::*;
use vstd::arithmetic::power2::{pow2, lemma_pow2_unfold, lemma2_to64};
use bitreader::BitReader;

verus! {

/// Bit `i` of `s`, counted from the most significant bit of `s[0]`.
pub open spec fn bit_at(s: Seq<u8>, i: int) -> nat {
    ((s[i / 8] >> ((7 - i % 8) as u8)) & 1u8) as nat
}

/// The `n` bits of `s` that start at bit `pos`, most significant first, as a number.
pub open spec fn bits_value(s: Seq<u8>, pos: int, n: nat) -> nat
    decreases n,
{
    if n == 0 {
        0
    } else {
        2 * bits_value(s, pos, (n - 1) as nat) + bit_at(s, pos + n - 1)
    }
}

/// A bit is 0 or 1.
pub proof fn lemma_bit_at_le_one(s: Seq<u8>, i: int)
    ensures
        bit_at(s, i) <= 1,
{
    let b = s[i / 8];
    let k = (7 - i % 8) as u8;
    assert((b >> k) & 1u8 <= 1u8) by (bit_vector);
}

/// An `n`-bit field is below `2^n`.
pub proof fn lemma_bits_value_bound(s: Seq<u8>, pos: int, n: nat)
    ensures
        bits_value(s, pos, n) < pow2(n),
    decreases n,
{
    if n == 0 {
        lemma2_to64();
    } else {
        lemma_bits_value_bound(s, pos, (n - 1) as nat);
        lemma_bit_at_le_one(s, pos + n - 1);
        lemma_pow2_unfold(n);
    }
}

/// Relies on bitreader's `BitReader`: `new` over `data`, `skip(pos)`, then `read_u32(n)`
/// returns the `n` bits that follow, most significant first (at most 32 bits, all inside
/// the slice; the crate asks for slices under 2^61 bytes).
#[verifier::external_body]
pub(crate) fn read_bits(data: &[u8], pos: u64, n: u8) -> (r: u32)
    requires
        n <= 32,
        data@.len() < 0x2000_0000_0000_0000,
        pos + n <= 8 * data@.len(),
    ensures
        r as nat == bits_value(data@, pos as int, n as nat),
{
    let mut reader = BitReader::new(data);
    reader.skip(pos).unwrap();
    reader.read_u32(n).unwrap()
}

/// The eight bits of byte `i`, read as a field, are the byte.
pub proof fn lemma_byte_field(s: Seq<u8>, i: int)
    requires
        0 <= i < s.len(),
    ensures
        bits_value(s, 8 * i, 8) == s[i] as nat,
{
    reveal_with_fuel(bits_value, 9);
    let b = s[i];
    assert(bit_at(s, 8 * i + 0) == ((b >> 7u8) & 1u8) as nat);
    assert(bit_at(s, 8 * i + 1) == ((b >> 6u8) & 1u8) as nat);
    assert(bit_at(s, 8 * i + 2) == ((b >> 5u8) & 1u8) as nat);
    assert(bit_at(s, 8 * i + 3) == ((b >> 4u8) & 1u8) as nat);
    assert(bit_at(s, 8 * i + 4) == ((b >> 3u8) & 1u8) as nat);
    assert(bit_at(s, 8 * i + 5) == ((b >> 2u8) & 1u8) as nat);
    assert(bit_at(s, 8 * i + 6) == ((b >> 1u8) & 1u8) as nat);
    assert(bit_at(s, 8 * i + 7) == ((b >> 0u8) & 1u8) as nat);
    assert(b as int == ((b >> 7u8) & 1u8) as int * 128 + ((b >> 6u8) & 1u8) as int * 64 + ((b
        >> 5u8) & 1u8) as int * 32 + ((b >> 4u8) & 1u8) as int * 16 + ((b >> 3u8) & 1u8) as int
        * 8 + ((b >> 2u8) & 1u8) as int * 4 + ((b >> 1u8) & 1u8) as int * 2 + ((b >> 0u8) & 1u8)
        as int) by (bit_vector);
}

/// A field read from the bytes `a..b` of `s` is the field at the same place of `s`.
pub proof fn lemma_bits_value_subrange(s: Seq<u8>, a: int, b: int, p: int, n: nat)
    requires
        0 <= a <= b <= s.len(),
        0 <= p,
        p + n <= 8 * (b - a),
    ensures
        bits_value(s.subrange(a, b), p, n) == bits_value(s, 8 * a + p, n),
    decreases n,
{
    if n > 0 {
        lemma_bits_value_subrange(s, a, b, p, (n - 1) as nat);
        let i = p + n - 1;
        assert((8 * a + i) / 8 == a + i / 8 && (8 * a + i) % 8 == i % 8) by (nonlinear_arith)
            requires
                a >= 0,
                i >= 0,
        ;
        assert(s.subrange(a, b)[i / 8] == s[a + i / 8]);
        assert(8 * a + p + n - 1 == 8 * a + i);
    }
}

/// Reads the `n`-bit field of `data` at bit `pos`; the result is below `2^n`.
pub(crate) fn read_field(data: &[u8], pos: u64, n: u8) -> (r: u32)
    requires
        n <= 32,
        pos + n <= 8 * data@.len(),
    ensures
        r as nat == bits_value(data@, pos as int, n as nat),
        (r as nat) < pow2(n as nat),
{
    let start = pos / 8;
    let end: usize = if data.len() - (start as usize) < 5 {
        data.len()
    } else {
        start as usize + 5
    };
    let window = vstd::slice::slice_subrange(data, start as usize, end);
    let r = read_bits(window, pos % 8, n);
    proof {
        lemma_bits_value_subrange(data@, start as int, end as int, (pos % 8) as int, n as nat);
        lemma_bits_value_bound(data@, pos as int, n as nat);
    }
    r
}

} // verus!
