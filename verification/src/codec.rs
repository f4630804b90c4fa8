//! The persisted record layout and the derived record address.
//!
//! A record is stored as a fixed-width byte string: an eight-byte
//! discriminator naming the record type, the count as eight little-endian
//! bytes, then the authority as four 64-bit words, each little-endian. A
//! record's address is the domain-separator seed followed by the same
//! authority bytes, so that addresses are stable and collision-free per
//! authority.

use crate::identity::Identity;
use crate::record::Counter;
use vstd::prelude::*;

verus! {

/// The discriminator that opens every persisted record: the ASCII bytes of
/// "COUNTER" and a version byte.
pub open spec fn spec_record_tag() -> Seq<u8> {
    seq![0x43u8, 0x4fu8, 0x55u8, 0x4eu8, 0x54u8, 0x45u8, 0x52u8, 0x01u8]
}

/// The domain-separator seed that opens every derived address: the ASCII
/// bytes of "counter".
pub open spec fn spec_address_tag() -> Seq<u8> {
    seq![0x63u8, 0x6fu8, 0x75u8, 0x6eu8, 0x74u8, 0x65u8, 0x72u8]
}

/// The eight little-endian bytes of a 64-bit word.
pub open spec fn spec_u64_le(x: u64) -> Seq<u8> {
    seq![
        (x & 0xff) as u8,
        ((x >> 8) & 0xff) as u8,
        ((x >> 16) & 0xff) as u8,
        ((x >> 24) & 0xff) as u8,
        ((x >> 32) & 0xff) as u8,
        ((x >> 40) & 0xff) as u8,
        ((x >> 48) & 0xff) as u8,
        ((x >> 56) & 0xff) as u8,
    ]
}

/// The 32 bytes of an identity: its four words, each little-endian.
pub open spec fn spec_identity_bytes(a: Identity) -> Seq<u8> {
    spec_u64_le(a.w0) + spec_u64_le(a.w1) + spec_u64_le(a.w2) + spec_u64_le(a.w3)
}

/// The full persisted layout of a record: discriminator, count, authority.
pub open spec fn spec_encode_record(c: Counter) -> Seq<u8> {
    spec_record_tag() + spec_u64_le(c.count) + spec_identity_bytes(c.authority)
}

/// The derived address of the record owned by `a`: seed, then authority.
pub open spec fn spec_address(a: Identity) -> Seq<u8> {
    spec_address_tag() + spec_identity_bytes(a)
}

/// Appends the eight little-endian bytes of `x`.
fn push_u64_le(out: &mut Vec<u8>, x: u64)
    ensures
        final (out)@ == old(out)@ + spec_u64_le(x),
{
    proof {
        assert(x & 0xff < 256 && (x >> 8) & 0xff < 256 && (x >> 16) & 0xff < 256 && (x >> 24)
            & 0xff < 256 && (x >> 32) & 0xff < 256 && (x >> 40) & 0xff < 256 && (x >> 48) & 0xff
            < 256 && (x >> 56) & 0xff < 256) by (bit_vector);
    }
    out.push((x & 0xff) as u8);
    out.push(((x >> 8) & 0xff) as u8);
    out.push(((x >> 16) & 0xff) as u8);
    out.push(((x >> 24) & 0xff) as u8);
    out.push(((x >> 32) & 0xff) as u8);
    out.push(((x >> 40) & 0xff) as u8);
    out.push(((x >> 48) & 0xff) as u8);
    out.push(((x >> 56) & 0xff) as u8);
    proof {
        assert(out@ =~= old(out)@ + spec_u64_le(x));
    }
}

/// Reads the 64-bit word whose eight little-endian bytes sit at `off`.
fn read_u64_le(bytes: &Vec<u8>, off: usize) -> (x: u64)
    requires
        off + 8 <= bytes@.len(),
    ensures
        spec_u64_le(x) == bytes@.subrange(off as int, off as int + 8),
{
    let _n = bytes.len();
    let b0 = bytes[off] as u64;
    let b1 = bytes[off + 1] as u64;
    let b2 = bytes[off + 2] as u64;
    let b3 = bytes[off + 3] as u64;
    let b4 = bytes[off + 4] as u64;
    let b5 = bytes[off + 5] as u64;
    let b6 = bytes[off + 6] as u64;
    let b7 = bytes[off + 7] as u64;
    let x = b0 | (b1 << 8) | (b2 << 16) | (b3 << 24) | (b4 << 32) | (b5 << 40) | (b6 << 48) | (b7
        << 56);
    proof {
        assert(x & 0xff == b0 && (x >> 8) & 0xff == b1 && (x >> 16) & 0xff == b2 && (x >> 24)
            & 0xff == b3 && (x >> 32) & 0xff == b4 && (x >> 40) & 0xff == b5 && (x >> 48) & 0xff
            == b6 && (x >> 56) & 0xff == b7) by (bit_vector)
            requires
                b0 < 256 && b1 < 256 && b2 < 256 && b3 < 256 && b4 < 256 && b5 < 256 && b6 < 256
                    && b7 < 256,
                x == b0 | (b1 << 8) | (b2 << 16) | (b3 << 24) | (b4 << 32) | (b5 << 40) | (b6
                    << 48) | (b7 << 56),
        ;
        assert(spec_u64_le(x) =~= bytes@.subrange(off as int, off as int + 8));
    }
    x
}

/// Serialises a record into its persisted layout.
pub fn encode_record(c: &Counter) -> (r: Vec<u8>)
    ensures
        r@ == spec_encode_record(*c),
{
    let mut out: Vec<u8> = Vec::new();
    out.push(0x43u8);
    out.push(0x4fu8);
    out.push(0x55u8);
    out.push(0x4eu8);
    out.push(0x54u8);
    out.push(0x45u8);
    out.push(0x52u8);
    out.push(0x01u8);
    push_u64_le(&mut out, c.count);
    push_u64_le(&mut out, c.authority.w0);
    push_u64_le(&mut out, c.authority.w1);
    push_u64_le(&mut out, c.authority.w2);
    push_u64_le(&mut out, c.authority.w3);
    proof {
        assert(out@ =~= spec_encode_record(*c));
    }
    out
}

/// Derives the address of the record owned by `authority`.
pub fn derive_address(authority: &Identity) -> (r: Vec<u8>)
    ensures
        r@ == spec_address(*authority),
{
    let mut out: Vec<u8> = Vec::new();
    out.push(0x63u8);
    out.push(0x6fu8);
    out.push(0x75u8);
    out.push(0x6eu8);
    out.push(0x74u8);
    out.push(0x65u8);
    out.push(0x72u8);
    push_u64_le(&mut out, authority.w0);
    push_u64_le(&mut out, authority.w1);
    push_u64_le(&mut out, authority.w2);
    push_u64_le(&mut out, authority.w3);
    proof {
        assert(out@ =~= spec_address(*authority));
    }
    out
}

/// Parses a persisted record. Returns the record exactly when the bytes are
/// its persisted layout, and nothing when the bytes encode no record at all.
pub fn decode_record(bytes: &Vec<u8>) -> (r: Option<Counter>)
    ensures
        r matches Some(c) ==> bytes@ == spec_encode_record(c),
        r is None ==> forall|c: Counter| bytes@ != spec_encode_record(c),
{
    proof {
        assert forall|c: Counter| spec_encode_record(c).len() == 48 by {}
    }
    if bytes.len() != 48 {
        return None;
    }
    if bytes[0] != 0x43 || bytes[1] != 0x4f || bytes[2] != 0x55 || bytes[3] != 0x4e || bytes[4]
        != 0x54 || bytes[5] != 0x45 || bytes[6] != 0x52 || bytes[7] != 0x01 {
        proof {
            assert forall|c: Counter| bytes@ != spec_encode_record(c) by {
                assert(spec_encode_record(c)[0] == 0x43 && spec_encode_record(c)[1] == 0x4f
                    && spec_encode_record(c)[2] == 0x55 && spec_encode_record(c)[3] == 0x4e
                    && spec_encode_record(c)[4] == 0x54 && spec_encode_record(c)[5] == 0x45
                    && spec_encode_record(c)[6] == 0x52 && spec_encode_record(c)[7] == 0x01);
            }
        }
        return None;
    }
    let count = read_u64_le(bytes, 8);
    let w0 = read_u64_le(bytes, 16);
    let w1 = read_u64_le(bytes, 24);
    let w2 = read_u64_le(bytes, 32);
    let w3 = read_u64_le(bytes, 40);
    let c = Counter { count, authority: Identity { w0, w1, w2, w3 } };
    proof {
        assert forall|i: int| 0 <= i < 48 implies bytes@[i] == spec_encode_record(c)[i] by {
            if 8 <= i < 16 {
                assert(bytes@.subrange(8, 16)[i - 8] == bytes@[i]);
            } else if 16 <= i < 24 {
                assert(bytes@.subrange(16, 24)[i - 16] == bytes@[i]);
            } else if 24 <= i < 32 {
                assert(bytes@.subrange(24, 32)[i - 24] == bytes@[i]);
            } else if 32 <= i < 40 {
                assert(bytes@.subrange(32, 40)[i - 32] == bytes@[i]);
            } else if 40 <= i < 48 {
                assert(bytes@.subrange(40, 48)[i - 40] == bytes@[i]);
            }
        }
        assert(bytes@ =~= spec_encode_record(c));
    }
    Some(c)
}

/// Two words with the same little-endian bytes are the same word.
pub proof fn lemma_u64_le_injective(x: u64, y: u64)
    requires
        spec_u64_le(x) == spec_u64_le(y),
    ensures
        x == y,
{
    assert(x & 0xff < 256 && (x >> 8) & 0xff < 256 && (x >> 16) & 0xff < 256 && (x >> 24) & 0xff
        < 256 && (x >> 32) & 0xff < 256 && (x >> 40) & 0xff < 256 && (x >> 48) & 0xff < 256 && (x
        >> 56) & 0xff < 256) by (bit_vector);
    assert(y & 0xff < 256 && (y >> 8) & 0xff < 256 && (y >> 16) & 0xff < 256 && (y >> 24) & 0xff
        < 256 && (y >> 32) & 0xff < 256 && (y >> 40) & 0xff < 256 && (y >> 48) & 0xff < 256 && (y
        >> 56) & 0xff < 256) by (bit_vector);
    assert(spec_u64_le(x)[0] == spec_u64_le(y)[0]);
    assert(spec_u64_le(x)[1] == spec_u64_le(y)[1]);
    assert(spec_u64_le(x)[2] == spec_u64_le(y)[2]);
    assert(spec_u64_le(x)[3] == spec_u64_le(y)[3]);
    assert(spec_u64_le(x)[4] == spec_u64_le(y)[4]);
    assert(spec_u64_le(x)[5] == spec_u64_le(y)[5]);
    assert(spec_u64_le(x)[6] == spec_u64_le(y)[6]);
    assert(spec_u64_le(x)[7] == spec_u64_le(y)[7]);
    assert(x == y) by (bit_vector)
        requires
            x & 0xff == y & 0xff,
            (x >> 8) & 0xff == (y >> 8) & 0xff,
            (x >> 16) & 0xff == (y >> 16) & 0xff,
            (x >> 24) & 0xff == (y >> 24) & 0xff,
            (x >> 32) & 0xff == (y >> 32) & 0xff,
            (x >> 40) & 0xff == (y >> 40) & 0xff,
            (x >> 48) & 0xff == (y >> 48) & 0xff,
            (x >> 56) & 0xff == (y >> 56) & 0xff,
    ;
}

/// Two identities with the same 32 bytes are the same identity.
pub proof fn lemma_identity_bytes_injective(a: Identity, b: Identity)
    requires
        spec_identity_bytes(a) == spec_identity_bytes(b),
    ensures
        a == b,
{
    assert(spec_u64_le(a.w0) =~= spec_identity_bytes(a).subrange(0, 8));
    assert(spec_u64_le(b.w0) =~= spec_identity_bytes(b).subrange(0, 8));
    assert(spec_u64_le(a.w1) =~= spec_identity_bytes(a).subrange(8, 16));
    assert(spec_u64_le(b.w1) =~= spec_identity_bytes(b).subrange(8, 16));
    assert(spec_u64_le(a.w2) =~= spec_identity_bytes(a).subrange(16, 24));
    assert(spec_u64_le(b.w2) =~= spec_identity_bytes(b).subrange(16, 24));
    assert(spec_u64_le(a.w3) =~= spec_identity_bytes(a).subrange(24, 32));
    assert(spec_u64_le(b.w3) =~= spec_identity_bytes(b).subrange(24, 32));
    lemma_u64_le_injective(a.w0, b.w0);
    lemma_u64_le_injective(a.w1, b.w1);
    lemma_u64_le_injective(a.w2, b.w2);
    lemma_u64_le_injective(a.w3, b.w3);
}

/// The persisted layout is injective: equal bytes mean equal records, so a
/// decoded record is the one that was stored.
pub proof fn lemma_record_encoding_injective(c1: Counter, c2: Counter)
    requires
        spec_encode_record(c1) == spec_encode_record(c2),
    ensures
        c1 == c2,
{
    assert(spec_u64_le(c1.count) =~= spec_encode_record(c1).subrange(8, 16));
    assert(spec_u64_le(c2.count) =~= spec_encode_record(c2).subrange(8, 16));
    assert(spec_identity_bytes(c1.authority) =~= spec_encode_record(c1).subrange(16, 48));
    assert(spec_identity_bytes(c2.authority) =~= spec_encode_record(c2).subrange(16, 48));
    lemma_u64_le_injective(c1.count, c2.count);
    lemma_identity_bytes_injective(c1.authority, c2.authority);
}

/// Derived addresses are collision-free per authority: equal addresses mean
/// equal authorities, so exactly one record can ever sit at an address.
pub proof fn lemma_address_injective(a: Identity, b: Identity)
    requires
        spec_address(a) == spec_address(b),
    ensures
        a == b,
{
    assert(spec_identity_bytes(a) =~= spec_address(a).subrange(7, 39));
    assert(spec_identity_bytes(b) =~= spec_address(b).subrange(7, 39));
    lemma_identity_bytes_injective(a, b);
}

} // verus!
