//! The SCALE encodings of the plain values that the signed messages are made
//! of, as the `parity-scale-codec` crate writes them, and the facts about them
//! that let a reader take an encoding apart again.
use vstd::prelude::*;

verus! {

/// The eight little-endian bytes of `v`.
pub open spec fn u64_le_bytes(v: u64) -> Seq<u8> {
    seq![
        v as u8,
        (v >> 8u64) as u8,
        (v >> 16u64) as u8,
        (v >> 24u64) as u8,
        (v >> 32u64) as u8,
        (v >> 40u64) as u8,
        (v >> 48u64) as u8,
        (v >> 56u64) as u8,
    ]
}

/// The four little-endian bytes of `v`.
pub open spec fn u32_le_bytes(v: u32) -> Seq<u8> {
    seq![v as u8, (v >> 8u32) as u8, (v >> 16u32) as u8, (v >> 24u32) as u8]
}

/// The two little-endian bytes of `v`.
pub open spec fn u16_le_bytes(v: u16) -> Seq<u8> {
    seq![v as u8, (v >> 8u16) as u8]
}

/// The SCALE compact encoding of a 32-bit length or count: the two low bits of
/// the first byte give the mode (single byte, two bytes, four bytes, or a
/// marker byte followed by the four bytes of the value).
pub open spec fn compact_u32_bytes(n: u32) -> Seq<u8> {
    if n < 0x40 {
        seq![((n as u8) << 2u8)]
    } else if n < 0x4000 {
        u16_le_bytes((((n as u16) << 2u16) | 1u16) as u16)
    } else if n < 0x4000_0000 {
        u32_le_bytes(((n << 2u32) | 2u32) as u32)
    } else {
        seq![3u8] + u32_le_bytes(n)
    }
}

/// The SCALE encoding of a byte vector: its compact length, then its bytes.
pub open spec fn byte_vec_bytes(bytes: Seq<u8>) -> Seq<u8>
    recommends
        bytes.len() <= u32::MAX,
{
    compact_u32_bytes(bytes.len() as u32) + bytes
}

/// Appends the SCALE encoding of a `u64` to `dest`.
///
/// Calls `<u64 as parity_scale_codec::Encode>::encode_to`, which the crate
/// writes as the value's little-endian bytes; this contract claims exactly that.
#[verifier::external_body]
pub(crate) fn encode_u64_to(v: u64, dest: &mut Vec<u8>)
    ensures
        final(dest)@ == old(dest)@ + u64_le_bytes(v),
{
    parity_scale_codec::Encode::encode_to(&v, dest);
}

/// Appends the SCALE compact encoding of `n` to `dest`.
///
/// Calls `<Compact<u32> as parity_scale_codec::Encode>::encode_to`; the
/// contract claims the four modes that its source writes for `u32` values.
#[verifier::external_body]
pub(crate) fn encode_compact_u32_to(n: u32, dest: &mut Vec<u8>)
    ensures
        final(dest)@ == old(dest)@ + compact_u32_bytes(n),
{
    parity_scale_codec::Encode::encode_to(&parity_scale_codec::Compact(n), dest);
}

/// Appends the SCALE encoding of a byte vector to `dest`.
///
/// Calls `<Vec<u8> as parity_scale_codec::Encode>::encode_to`, which writes the
/// compact length and then the raw bytes. That function panics on a vector of
/// more than `u32::MAX` items, which `requires` leaves out.
#[verifier::external_body]
pub(crate) fn encode_byte_vec_to(bytes: &Vec<u8>, dest: &mut Vec<u8>)
    requires
        bytes@.len() <= u32::MAX,
    ensures
        final(dest)@ == old(dest)@ + byte_vec_bytes(bytes@),
{
    parity_scale_codec::Encode::encode_to(bytes, dest);
}

/// Appends the SCALE encoding of a fixed-size byte array to `dest`.
///
/// Calls `<[u8; N] as parity_scale_codec::Encode>::encode_to`, which writes the
/// array's bytes as they are, with no length in front; this contract claims that.
#[verifier::external_body]
pub(crate) fn encode_byte_array_to<const N: usize>(bytes: &[u8; N], dest: &mut Vec<u8>)
    ensures
        final(dest)@ == old(dest)@ + bytes@,
{
    parity_scale_codec::Encode::encode_to(bytes, dest);
}

/// Two values whose little-endian bytes agree are equal.
pub proof fn lemma_u64_le_bytes_injective(a: u64, b: u64)
    requires
        u64_le_bytes(a) == u64_le_bytes(b),
    ensures
        a == b,
{
    assert(u64_le_bytes(a)[0] == u64_le_bytes(b)[0]);
    assert(u64_le_bytes(a)[1] == u64_le_bytes(b)[1]);
    assert(u64_le_bytes(a)[2] == u64_le_bytes(b)[2]);
    assert(u64_le_bytes(a)[3] == u64_le_bytes(b)[3]);
    assert(u64_le_bytes(a)[4] == u64_le_bytes(b)[4]);
    assert(u64_le_bytes(a)[5] == u64_le_bytes(b)[5]);
    assert(u64_le_bytes(a)[6] == u64_le_bytes(b)[6]);
    assert(u64_le_bytes(a)[7] == u64_le_bytes(b)[7]);
    assert(a == b) by (bit_vector)
        requires
            a as u8 == b as u8,
            (a >> 8u64) as u8 == (b >> 8u64) as u8,
            (a >> 16u64) as u8 == (b >> 16u64) as u8,
            (a >> 24u64) as u8 == (b >> 24u64) as u8,
            (a >> 32u64) as u8 == (b >> 32u64) as u8,
            (a >> 40u64) as u8 == (b >> 40u64) as u8,
            (a >> 48u64) as u8 == (b >> 48u64) as u8,
            (a >> 56u64) as u8 == (b >> 56u64) as u8,
    ;
}

/// The eight bytes of a `u64` are its base-256 digits, least significant first.
pub proof fn lemma_u64_le_bytes_value(v: u64)
    ensures
        u64_le_bytes(v).len() == 8,
        v == u64_le_bytes(v)[0] + 0x100 * u64_le_bytes(v)[1] + 0x1_0000 * u64_le_bytes(v)[2]
            + 0x100_0000 * u64_le_bytes(v)[3] + 0x1_0000_0000 * u64_le_bytes(v)[4]
            + 0x100_0000_0000 * u64_le_bytes(v)[5] + 0x1_0000_0000_0000 * u64_le_bytes(v)[6]
            + 0x100_0000_0000_0000 * u64_le_bytes(v)[7],
{
    let b = u64_le_bytes(v);
    assert(v == (v as u8) + 0x100 * ((v >> 8u64) as u8) + 0x1_0000 * ((v >> 16u64) as u8)
        + 0x100_0000 * ((v >> 24u64) as u8) + 0x1_0000_0000 * ((v >> 32u64) as u8)
        + 0x100_0000_0000 * ((v >> 40u64) as u8) + 0x1_0000_0000_0000 * ((v >> 48u64) as u8)
        + 0x100_0000_0000_0000 * ((v >> 56u64) as u8)) by (bit_vector);
}

/// A compact encoding reads back as its value: one byte holds four times the
/// value; two or four little-endian bytes hold four times the value plus the
/// mode; the marker byte 3 is followed by the value's four little-endian bytes.
pub proof fn lemma_compact_u32_value(n: u32)
    ensures
        n < 0x40 ==> compact_u32_bytes(n).len() == 1 && compact_u32_bytes(n)[0] == 4 * n,
        0x40 <= n < 0x4000 ==> compact_u32_bytes(n).len() == 2 && compact_u32_bytes(n)[0]
            + 0x100 * compact_u32_bytes(n)[1] == 4 * n + 1,
        0x4000 <= n < 0x4000_0000 ==> compact_u32_bytes(n).len() == 4 && compact_u32_bytes(n)[0]
            + 0x100 * compact_u32_bytes(n)[1] + 0x1_0000 * compact_u32_bytes(n)[2] + 0x100_0000
            * compact_u32_bytes(n)[3] == 4 * n + 2,
        0x4000_0000 <= n ==> compact_u32_bytes(n).len() == 5 && compact_u32_bytes(n)[0] == 3
            && compact_u32_bytes(n)[1] + 0x100 * compact_u32_bytes(n)[2] + 0x1_0000
            * compact_u32_bytes(n)[3] + 0x100_0000 * compact_u32_bytes(n)[4] == n,
{
    if n < 0x40 {
        assert(((n as u8) << 2u8) == 4 * n) by (bit_vector)
            requires
                n < 0x40u32,
        ;
    } else if n < 0x4000 {
        assert(((((n as u16) << 2u16) | 1u16) as u16) as u8 + 0x100 * (((((n as u16) << 2u16)
            | 1u16) as u16) >> 8u16) as u8 == 4 * n + 1) by (bit_vector)
            requires
                0x40u32 <= n < 0x4000u32,
        ;
    } else if n < 0x4000_0000 {
        let v = ((n << 2u32) | 2u32) as u32;
        assert((((n << 2u32) | 2u32) as u32) as u8 + 0x100 * (((((n << 2u32) | 2u32) as u32)
            >> 8u32) as u8) + 0x1_0000 * (((((n << 2u32) | 2u32) as u32) >> 16u32) as u8)
            + 0x100_0000 * (((((n << 2u32) | 2u32) as u32) >> 24u32) as u8) == 4 * n + 2)
            by (bit_vector)
            requires
                0x4000u32 <= n < 0x4000_0000u32,
        ;
        assert(compact_u32_bytes(n) == u32_le_bytes(v));
    } else {
        assert((n as u8) + 0x100 * ((n >> 8u32) as u8) + 0x1_0000 * ((n >> 16u32) as u8)
            + 0x100_0000 * ((n >> 24u32) as u8) == n) by (bit_vector);
        assert((seq![3u8] + u32_le_bytes(n))[1] == n as u8);
    }
}

/// The mode that the first byte of a compact encoding announces.
pub open spec fn compact_mode(n: u32) -> u8 {
    if n < 0x40 {
        0
    } else if n < 0x4000 {
        1
    } else if n < 0x4000_0000 {
        2
    } else {
        3
    }
}

/// The number of bytes that a compact encoding of each mode takes.
pub open spec fn compact_mode_len(mode: u8) -> nat {
    if mode == 0 {
        1
    } else if mode == 1 {
        2
    } else if mode == 2 {
        4
    } else {
        5
    }
}

/// The first byte of a compact encoding carries its mode in its two low bits,
/// and the mode fixes the encoding's length.
pub proof fn lemma_compact_first_byte(n: u32)
    ensures
        compact_u32_bytes(n).len() == compact_mode_len(compact_mode(n)),
        compact_u32_bytes(n)[0] & 3u8 == compact_mode(n),
{
    if n < 0x40 {
        assert(((n as u8) << 2u8) & 3u8 == 0u8) by (bit_vector);
    } else if n < 0x4000 {
        assert(((((n as u16) << 2u16) | 1u16) as u16) as u8 & 3u8 == 1u8) by (bit_vector);
    } else if n < 0x4000_0000 {
        assert(((((n << 2u32) | 2u32) as u32) as u8) & 3u8 == 2u8) by (bit_vector);
    } else {
        assert(3u8 & 3u8 == 3u8) by (bit_vector);
    }
}

/// A compact encoding is never the start of the encoding of another value:
/// when two encodings, each followed by more bytes, agree, so do the values and
/// the bytes that follow.
pub proof fn lemma_compact_prefix_injective(a: u32, b: u32, x: Seq<u8>, y: Seq<u8>)
    requires
        compact_u32_bytes(a) + x == compact_u32_bytes(b) + y,
    ensures
        a == b,
        x == y,
{
    let ca = compact_u32_bytes(a);
    let cb = compact_u32_bytes(b);
    lemma_compact_first_byte(a);
    lemma_compact_first_byte(b);
    assert((ca + x)[0] == ca[0]);
    assert((cb + y)[0] == cb[0]);
    assert(compact_mode(a) == compact_mode(b));
    let len = ca.len();
    assert(cb.len() == len);
    assert((ca + x).subrange(0, len as int) =~= ca);
    assert((cb + y).subrange(0, len as int) =~= cb);
    assert(ca == cb);
    if a < 0x40 {
        assert(ca[0] == cb[0]);
        assert(a == b) by (bit_vector)
            requires
                a < 0x40u32,
                b < 0x40u32,
                ((a as u8) << 2u8) == ((b as u8) << 2u8),
        ;
    } else if a < 0x4000 {
        assert(ca[0] == cb[0]);
        assert(ca[1] == cb[1]);
        assert(a == b) by (bit_vector)
            requires
                0x40u32 <= a < 0x4000u32,
                0x40u32 <= b < 0x4000u32,
                ((((a as u16) << 2u16) | 1u16) as u16) as u8 == ((((b as u16) << 2u16) | 1u16) as u16) as u8,
                (((((a as u16) << 2u16) | 1u16) as u16) >> 8u16) as u8 == (((((b as u16) << 2u16) | 1u16) as u16) >> 8u16) as u8,
        ;
    } else if a < 0x4000_0000 {
        assert(ca[0] == cb[0]);
        assert(ca[1] == cb[1]);
        assert(ca[2] == cb[2]);
        assert(ca[3] == cb[3]);
        assert(a == b) by (bit_vector)
            requires
                a < 0x4000_0000u32,
                b < 0x4000_0000u32,
                (((a << 2u32) | 2u32) as u32) as u8 == (((b << 2u32) | 2u32) as u32) as u8,
                ((((a << 2u32) | 2u32) as u32) >> 8u32) as u8 == ((((b << 2u32) | 2u32) as u32) >> 8u32) as u8,
                ((((a << 2u32) | 2u32) as u32) >> 16u32) as u8 == ((((b << 2u32) | 2u32) as u32) >> 16u32) as u8,
                ((((a << 2u32) | 2u32) as u32) >> 24u32) as u8 == ((((b << 2u32) | 2u32) as u32) >> 24u32) as u8,
        ;
    } else {
        assert(ca[1] == cb[1]);
        assert(ca[2] == cb[2]);
        assert(ca[3] == cb[3]);
        assert(ca[4] == cb[4]);
        assert(a == b) by (bit_vector)
            requires
                a as u8 == b as u8,
                (a >> 8u32) as u8 == (b >> 8u32) as u8,
                (a >> 16u32) as u8 == (b >> 16u32) as u8,
                (a >> 24u32) as u8 == (b >> 24u32) as u8,
        ;
    }
    assert((ca + x).subrange(len as int, (ca + x).len() as int) =~= x);
    assert((cb + y).subrange(len as int, (cb + y).len() as int) =~= y);
}

} // verus!
