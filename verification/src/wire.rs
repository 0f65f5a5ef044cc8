//! Byte-level primitives shared by the codecs: big-endian integers,
//! length-delimited copies, and the bridge between strings and their UTF-8
//! bytes.

use vstd::prelude::*;
use vstd::utf8::{decode_utf8, valid_utf8};

verus! {

/// The big-endian two-byte encoding of a 16-bit integer.
pub open spec fn be16_enc(n: u16) -> Seq<u8> {
    seq![(n / 256) as u8, (n % 256) as u8]
}

/// The 16-bit integer read big-endian from two bytes.
pub open spec fn be16_dec(b0: u8, b1: u8) -> u16 {
    (b0 * 256 + b1) as u16
}

/// The bit pattern of a 32-bit signed integer, as a non-negative number
/// (two's complement).
pub open spec fn i32_bits(n: i32) -> int {
    if n >= 0 {
        n as int
    } else {
        n + 0x1_0000_0000
    }
}

/// The signed 32-bit integer whose bit pattern is the given number in
/// `[0, 2^32)`.
pub open spec fn bits_to_i32(m: int) -> i32 {
    if m < 0x8000_0000 {
        m as i32
    } else {
        (m - 0x1_0000_0000) as i32
    }
}

/// The big-endian four-byte encoding of a number in `[0, 2^32)`.
pub open spec fn be32_enc_bits(m: int) -> Seq<u8> {
    seq![
        (m / 0x100_0000) as u8,
        ((m / 0x1_0000) % 256) as u8,
        ((m / 256) % 256) as u8,
        (m % 256) as u8,
    ]
}

/// The number in `[0, 2^32)` read big-endian from four bytes.
pub open spec fn be32_dec_bits(b0: u8, b1: u8, b2: u8, b3: u8) -> int {
    b0 * 0x100_0000 + b1 * 0x1_0000 + b2 * 256 + b3
}

/// The big-endian four-byte encoding of a 32-bit signed integer.
pub open spec fn i32_enc(n: i32) -> Seq<u8> {
    be32_enc_bits(i32_bits(n))
}

/// The 32-bit signed integer read big-endian from four bytes.
pub open spec fn i32_dec(b0: u8, b1: u8, b2: u8, b3: u8) -> i32 {
    bits_to_i32(be32_dec_bits(b0, b1, b2, b3))
}

/// Decoding inverts encoding for 16-bit integers.
pub proof fn lemma_be16_round_trip(n: u16)
    ensures
        be16_dec(be16_enc(n)[0], be16_enc(n)[1]) == n,
{
}

/// The four digits of `be32_enc_bits` recombine to the encoded number.
proof fn lemma_be32_digits(m: int)
    requires
        0 <= m < 0x1_0000_0000,
    ensures
        be32_dec_bits(
            (m / 0x100_0000) as u8,
            ((m / 0x1_0000) % 256) as u8,
            ((m / 256) % 256) as u8,
            (m % 256) as u8,
        ) == m,
{
    assert((m / 0x100_0000) * 0x100_0000 + ((m / 0x1_0000) % 256) * 0x1_0000 + ((m / 256) % 256)
        * 256 + m % 256 == m) by (nonlinear_arith)
        requires
            0 <= m < 0x1_0000_0000,
    ;
}

/// Decoding inverts encoding for 32-bit signed integers.
pub proof fn lemma_i32_round_trip(n: i32)
    ensures
        i32_dec(i32_enc(n)[0], i32_enc(n)[1], i32_enc(n)[2], i32_enc(n)[3]) == n,
{
    lemma_be32_digits(i32_bits(n));
}

/// Appends the big-endian encoding of a 16-bit integer.
pub fn push_u16_be(buf: &mut Vec<u8>, n: u16)
    ensures
        final(buf)@ == old(buf)@ + be16_enc(n),
{
    buf.push((n / 256) as u8);
    buf.push((n % 256) as u8);
    proof {
        assert(buf@ =~= old(buf)@ + be16_enc(n));
    }
}

/// Appends the big-endian encoding of a 32-bit signed integer.
pub fn push_i32_be(buf: &mut Vec<u8>, n: i32)
    ensures
        final(buf)@ == old(buf)@ + i32_enc(n),
{
    let m: u32 = if n >= 0 {
        n as u32
    } else {
        ((n + 0x4000_0000 + 0x4000_0000) as u32) + 0x8000_0000
    };
    assert(m == i32_bits(n));
    buf.push((m / 0x100_0000) as u8);
    buf.push(((m / 0x1_0000) % 256) as u8);
    buf.push(((m / 256) % 256) as u8);
    buf.push((m % 256) as u8);
    proof {
        assert(buf@ =~= old(buf)@ + i32_enc(n));
    }
}

/// Reads a 32-bit signed integer big-endian from four bytes.
pub fn i32_from_be(b0: u8, b1: u8, b2: u8, b3: u8) -> (n: i32)
    ensures
        n == i32_dec(b0, b1, b2, b3),
{
    let m: u32 = (b0 as u32) * 0x100_0000 + (b1 as u32) * 0x1_0000 + (b2 as u32) * 256 + (
    b3 as u32);
    if m < 0x8000_0000 {
        m as i32
    } else {
        ((m - 0x8000_0000) as i32) - 0x4000_0000 - 0x4000_0000
    }
}

/// Reads a 16-bit integer big-endian from two bytes.
pub fn u16_from_be(b0: u8, b1: u8) -> (n: u16)
    ensures
        n == be16_dec(b0, b1),
{
    (b0 as u16) * 256 + (b1 as u16)
}

/// Copies the bytes of `buf` between `from` and `to` into a fresh vector.
pub fn copy_range(buf: &Vec<u8>, from: usize, to: usize) -> (r: Vec<u8>)
    requires
        from <= to <= buf@.len(),
    ensures
        r@ == buf@.subrange(from as int, to as int),
{
    let mut out: Vec<u8> = Vec::new();
    let mut i: usize = from;
    while i < to
        invariant
            from <= i <= to <= buf@.len(),
            out@ == buf@.subrange(from as int, i as int),
        decreases to - i,
    {
        out.push(buf[i]);
        i = i + 1;
        proof {
            assert(out@ =~= buf@.subrange(from as int, i as int));
        }
    }
    out
}

/// Relies on `String::from_utf8`: it succeeds exactly on valid UTF-8 input
/// and yields the string whose characters are that input's decoding.
#[verifier::external_body]
pub fn bytes_to_string(v: Vec<u8>) -> (r: Option<String>)
    ensures
        (match r {
            Some(s) => valid_utf8(v@) && s@ == decode_utf8(v@),
            None => !valid_utf8(v@),
        }),
{
    String::from_utf8(v).ok()
}

} // verus!
