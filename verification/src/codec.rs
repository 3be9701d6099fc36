//! Little-endian codec for 32-bit samples.
//!
//! A sample crosses the byte-buffer boundary as four bytes, least significant
//! first. On this side it is the `u32` bit pattern of the number; sign,
//! exponent and mantissa are never interpreted, so every pattern survives,
//! including negative zero, subnormals and NaN payloads.

use vstd::arithmetic::div_mod::lemma_fundamental_div_mod_converse;
use vstd::prelude::*;

verus! {

/// Width of one sample on the wire, in bytes.
pub const SAMPLE_BYTES: usize = 4;

/// The bit pattern whose little-endian form is `b0 b1 b2 b3`.
pub open spec fn le_word(b0: u8, b1: u8, b2: u8, b3: u8) -> u32 {
    (b0 as int + 256 * (b1 as int) + 65536 * (b2 as int) + 16777216 * (b3 as int)) as u32
}

/// Byte `k` of the little-endian form of `bits`; byte 0 is the least significant.
pub open spec fn le_byte(bits: u32, k: int) -> u8 {
    if k == 0 {
        (bits as int % 256) as u8
    } else if k == 1 {
        (bits as int / 256 % 256) as u8
    } else if k == 2 {
        (bits as int / 65536 % 256) as u8
    } else {
        (bits as int / 16777216 % 256) as u8
    }
}

/// The samples held by a byte sequence: one per full group of four bytes.
pub open spec fn decode_samples(bytes: Seq<u8>) -> Seq<u32> {
    Seq::new(
        (bytes.len() / 4) as nat,
        |i: int| le_word(bytes[4 * i], bytes[4 * i + 1], bytes[4 * i + 2], bytes[4 * i + 3]),
    )
}

/// The wire form of a sample sequence: four bytes per sample, in order.
pub open spec fn encode_samples(samples: Seq<u32>) -> Seq<u8> {
    Seq::new(4 * samples.len(), |j: int| le_byte(samples[j / 4], j % 4))
}

/// Four bytes and the pattern they encode determine each other.
pub proof fn lemma_word_bytes(b0: u8, b1: u8, b2: u8, b3: u8)
    ensures
        le_byte(le_word(b0, b1, b2, b3), 0) == b0,
        le_byte(le_word(b0, b1, b2, b3), 1) == b1,
        le_byte(le_word(b0, b1, b2, b3), 2) == b2,
        le_byte(le_word(b0, b1, b2, b3), 3) == b3,
{
    let w: int = b0 as int + 256 * (b1 as int) + 65536 * (b2 as int) + 16777216 * (b3 as int);
    assert(le_word(b0, b1, b2, b3) as int == w);
    lemma_fundamental_div_mod_converse(
        w,
        256,
        b1 as int + 256 * (b2 as int) + 65536 * (b3 as int),
        b0 as int,
    );
    lemma_fundamental_div_mod_converse(
        b1 as int + 256 * (b2 as int) + 65536 * (b3 as int),
        256,
        b2 as int + 256 * (b3 as int),
        b1 as int,
    );
    lemma_fundamental_div_mod_converse(
        w,
        65536,
        b2 as int + 256 * (b3 as int),
        b0 as int + 256 * (b1 as int),
    );
    lemma_fundamental_div_mod_converse(b2 as int + 256 * (b3 as int), 256, b3 as int, b2 as int);
    lemma_fundamental_div_mod_converse(
        w,
        16777216,
        b3 as int,
        b0 as int + 256 * (b1 as int) + 65536 * (b2 as int),
    );
    lemma_fundamental_div_mod_converse(b3 as int, 256, 0, b3 as int);
}

/// Encoding a pattern and decoding the four bytes gives the pattern back.
pub proof fn lemma_bytes_word(bits: u32)
    ensures
        le_word(le_byte(bits, 0), le_byte(bits, 1), le_byte(bits, 2), le_byte(bits, 3)) == bits,
{
    assert(bits % 256 + 256 * (bits / 256 % 256) + 65536 * (bits / 65536 % 256) + 16777216 * (bits
        / 16777216 % 256) == bits) by (bit_vector);
    assert(bits % 256 < 256 && bits / 256 % 256 < 256 && bits / 65536 % 256 < 256 && bits
        / 16777216 % 256 < 256) by (bit_vector);
}

/// Reads one sample from its four wire bytes.
pub fn decode_sample(bytes: [u8; 4]) -> (bits: u32)
    ensures
        bits == le_word(bytes[0], bytes[1], bytes[2], bytes[3]),
{
    bytes[0] as u32 + 256 * (bytes[1] as u32) + 65536 * (bytes[2] as u32) + 16777216 * (
    bytes[3] as u32)
}

/// Writes one sample as its four wire bytes.
pub fn encode_sample(bits: u32) -> (bytes: [u8; 4])
    ensures
        bytes[0] == le_byte(bits, 0),
        bytes[1] == le_byte(bits, 1),
        bytes[2] == le_byte(bits, 2),
        bytes[3] == le_byte(bits, 3),
{
    [
        (bits % 256) as u8,
        (bits / 256 % 256) as u8,
        (bits / 65536 % 256) as u8,
        (bits / 16777216 % 256) as u8,
    ]
}

/// The bit pattern of the number one.
pub const UNITY: u32 = 0x3F80_0000;

/// The byte order under which four bytes in memory hold the number one.
#[derive(Clone, Copy, Debug, PartialEq, Eq, Structural)]
pub enum ByteOrder {
    /// Least significant byte first: `00 00 80 3F`.
    LittleEndian,
    /// Most significant byte first: `3F 80 00 00`.
    BigEndian,
    /// Neither layout of the number one.
    Unknown,
}

/// The byte order that `b0 b1 b2 b3`, read as the number one, reveals.
pub open spec fn unity_layout(b0: u8, b1: u8, b2: u8, b3: u8) -> ByteOrder {
    if le_word(b0, b1, b2, b3) == UNITY {
        ByteOrder::LittleEndian
    } else if le_word(b3, b2, b1, b0) == UNITY {
        ByteOrder::BigEndian
    } else {
        ByteOrder::Unknown
    }
}

/// Tells from the bytes that hold the number one in memory which byte order
/// wrote them.
pub fn classify_unity(bytes: [u8; 4]) -> (order: ByteOrder)
    ensures
        order == unity_layout(bytes[0], bytes[1], bytes[2], bytes[3]),
{
    if bytes[0] == 0x00 && bytes[1] == 0x00 && bytes[2] == 0x80 && bytes[3] == 0x3F {
        ByteOrder::LittleEndian
    } else if bytes[0] == 0x3F && bytes[1] == 0x80 && bytes[2] == 0x00 && bytes[3] == 0x00 {
        ByteOrder::BigEndian
    } else {
        ByteOrder::Unknown
    }
}

/// Decoding the wire form of any sample sequence reproduces every bit pattern.
pub proof fn lemma_decode_encode(samples: Seq<u32>)
    ensures
        decode_samples(encode_samples(samples)) == samples,
{
    let bytes = encode_samples(samples);
    assert forall|i: int| 0 <= i < samples.len() implies decode_samples(bytes)[i] == samples[i] by {
        lemma_bytes_word(samples[i]);
    }
    assert(decode_samples(bytes) =~= samples);
}

/// Re-encoding the samples of a whole number of groups reproduces every byte.
pub proof fn lemma_encode_decode(bytes: Seq<u8>)
    requires
        bytes.len() % 4 == 0,
    ensures
        encode_samples(decode_samples(bytes)) == bytes,
{
    let samples = decode_samples(bytes);
    assert forall|j: int| 0 <= j < bytes.len() implies encode_samples(samples)[j] == bytes[j] by {
        let i = j / 4;
        lemma_word_bytes(bytes[4 * i], bytes[4 * i + 1], bytes[4 * i + 2], bytes[4 * i + 3]);
    }
    assert(encode_samples(samples) =~= bytes);
}

} // verus!
