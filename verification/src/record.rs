//! The record codec: the 64-byte identity key and the 168-byte trust value
//! that a node stores in the shared overlay, with rejecting decoders.

use vstd::prelude::*;
use crate::CodecError;
use crate::field::{
    FieldElement, field_modulus, le_int, le_bytes, lemma_le_bytes_len, lemma_fe_round_trip,
    lemma_fe_canonical,
};
use rand::RngCore;

verus! {

broadcast use vstd::array::group_array_axioms;

/// The big-endian 4-byte encoding of a score.
pub open spec fn be32(x: u32) -> Seq<u8> {
    seq![
        (x / 0x1000000) as u8,
        ((x / 0x10000) % 0x100) as u8,
        ((x / 0x100) % 0x100) as u8,
        (x % 0x100) as u8,
    ]
}

/// The integer a 4-byte sequence denotes when read in big-endian order.
pub open spec fn be32_val(s: Seq<u8>) -> int {
    0x1000000 * s[0] + 0x10000 * s[1] + 0x100 * s[2] + s[3]
}

/// Round trip: decoding the big-endian encoding of a score gives it back.
pub proof fn lemma_be32_round_trip(x: u32)
    ensures
        be32(x).len() == 4,
        be32_val(be32(x)) == x,
{
    vstd::arithmetic::div_mod::lemma_fundamental_div_mod(x as int, 0x100);
    vstd::arithmetic::div_mod::lemma_fundamental_div_mod(x as int / 0x100, 0x100);
    vstd::arithmetic::div_mod::lemma_div_denominator(x as int, 0x100, 0x100);
    vstd::arithmetic::div_mod::lemma_fundamental_div_mod(x as int / 0x10000, 0x100);
    vstd::arithmetic::div_mod::lemma_div_denominator(x as int, 0x10000, 0x100);
}

/// Canonical form: re-encoding the score a 4-byte buffer decodes to gives
/// back the identical bytes.
pub proof fn lemma_be32_canonical(s: Seq<u8>)
    requires
        s.len() == 4,
    ensures
        0 <= be32_val(s) < 0x100000000,
        be32(be32_val(s) as u32) == s,
{
    let v = be32_val(s);
    let q1: int = 0x10000 * s[0] + 0x100 * s[1] + s[2];
    let q2: int = 0x100 * s[0] + s[1];
    vstd::arithmetic::div_mod::lemma_fundamental_div_mod_converse(v, 0x100, q1, s[3] as int);
    vstd::arithmetic::div_mod::lemma_fundamental_div_mod_converse(q1, 0x100, q2, s[2] as int);
    vstd::arithmetic::div_mod::lemma_div_denominator(v, 0x100, 0x100);
    vstd::arithmetic::div_mod::lemma_fundamental_div_mod_converse(q2, 0x100, s[0] as int, s[1] as int);
    vstd::arithmetic::div_mod::lemma_div_denominator(v, 0x10000, 0x100);
    assert(be32(v as u32) =~= s);
}

/// Relies on rand's `thread_rng` and `RngCore::next_u32` for a fresh score.
#[verifier::external_body]
fn random_u32() -> u32 {
    rand::thread_rng().next_u32()
}

/// Appends the big-endian 4-byte encoding of x.
fn u32_write_be(x: u32, out: &mut Vec<u8>)
    ensures
        final(out)@ == old(out)@ + be32(x),
{
    let ghost base = out@;
    out.push((x / 0x1000000) as u8);
    out.push(((x / 0x10000) % 0x100) as u8);
    out.push(((x / 0x100) % 0x100) as u8);
    out.push((x % 0x100) as u8);
    proof {
        assert(out@ =~= base + be32(x));
    }
}

/// Reads the 4 bytes at off as a big-endian integer.
fn u32_read_be(b: &Vec<u8>, off: usize) -> (x: u32)
    requires
        off + 4 <= b@.len(),
    ensures
        x == be32_val(b@.subrange(off as int, off as int + 4)),
{
    let _n = b.len();
    (b[off] as u32) * 0x1000000 + (b[off + 1] as u32) * 0x10000 + (b[off + 2] as u32) * 0x100
        + (b[off + 3] as u32)
}

/// A node's overlay lookup key: a coordinate pair of field elements, encoded
/// as 32 + 32 bytes in the fixed order x then y.
#[derive(Clone, Copy, PartialEq, Eq, Debug)]
pub struct DHTKey {
    pub x: FieldElement,
    pub y: FieldElement,
}

impl DHTKey {
    /// Both coordinates lie below the field modulus.
    pub open spec fn wf(self) -> bool {
        self.x.wf() && self.y.wf()
    }

    /// The canonical 64-byte encoding.
    pub open spec fn enc(self) -> Seq<u8> {
        le_bytes(self.x.value(), 32) + le_bytes(self.y.value(), 32)
    }

    /// A buffer decodes to a key exactly when it is 64 bytes long and both
    /// halves lie below the field modulus.
    pub open spec fn valid_enc(b: Seq<u8>) -> bool {
        b.len() == 64 && le_int(b.subrange(0, 32)) < field_modulus() && le_int(
            b.subrange(32, 64),
        ) < field_modulus()
    }

    /// The key a valid 64-byte buffer denotes.
    pub open spec fn dec(b: Seq<u8>) -> DHTKey {
        DHTKey {
            x: FieldElement::of_int(le_int(b.subrange(0, 32))),
            y: FieldElement::of_int(le_int(b.subrange(32, 64))),
        }
    }

    pub fn new(x: FieldElement, y: FieldElement) -> (k: DHTKey)
        ensures
            k.x == x,
            k.y == y,
    {
        DHTKey { x, y }
    }

    /// A key with both coordinates drawn at random from the field.
    pub fn random() -> (k: DHTKey)
        ensures
            k.wf(),
    {
        DHTKey { x: FieldElement::random(), y: FieldElement::random() }
    }

    /// The canonical 64-byte encoding: x's 32 bytes, then y's.
    pub fn to_bytes(&self) -> (r: Vec<u8>)
        ensures
            r@ == self.enc(),
            r@.len() == 64,
    {
        let mut out: Vec<u8> = Vec::new();
        self.x.write_le(&mut out);
        self.y.write_le(&mut out);
        proof {
            assert(out@ =~= self.enc());
            lemma_le_bytes_len(self.x.value(), 32);
            lemma_le_bytes_len(self.y.value(), 32);
        }
        out
    }

    /// Decodes a 64-byte buffer; any other length is malformed, and either
    /// half at or above the field modulus is an invalid encoding.
    pub fn from_bytes(bytes: Vec<u8>) -> (r: Result<DHTKey, CodecError>)
        ensures
            r is Ok <==> Self::valid_enc(bytes@),
            (match r {
                Ok(k) => k == Self::dec(bytes@) && k.wf(),
                Err(e) => if bytes@.len() != 64 {
                    e == CodecError::MalformedKey
                } else {
                    e == CodecError::InvalidFieldEncoding
                },
            }),
    {
        if bytes.len() != 64 {
            return Err(CodecError::MalformedKey);
        }
        let x = match FieldElement::read_le(&bytes, 0) {
            Ok(fe) => fe,
            Err(e) => return Err(e),
        };
        let y = match FieldElement::read_le(&bytes, 32) {
            Ok(fe) => fe,
            Err(e) => return Err(e),
        };
        Ok(DHTKey { x, y })
    }
}

/// Round trip: a well-formed key's encoding is 64 bytes, decodes validly, and
/// decodes back to the same key.
pub proof fn lemma_key_round_trip(k: DHTKey)
    requires
        k.wf(),
    ensures
        k.enc().len() == 64,
        DHTKey::valid_enc(k.enc()),
        DHTKey::dec(k.enc()) == k,
{
    lemma_le_bytes_len(k.x.value(), 32);
    lemma_le_bytes_len(k.y.value(), 32);
    assert(k.enc().subrange(0, 32) =~= le_bytes(k.x.value(), 32));
    assert(k.enc().subrange(32, 64) =~= le_bytes(k.y.value(), 32));
    lemma_fe_round_trip(k.x);
    lemma_fe_round_trip(k.y);
}

/// A node's signed attestation about two neighbours: a signature triple, two
/// neighbour identities and their two scores, in that fixed order, encoded as
/// 32 * 5 + 4 * 2 = 168 bytes. Neighbours and scores are paired by position.
///
/// The signature fields are carried and encoded but nothing here signs or
/// verifies: what is signed, and with which key, is an open question of the
/// protocol, deliberately not guessed at by this codec.
#[verifier::ext_equal]
#[derive(Clone, Copy, PartialEq, Eq, Debug)]
pub struct DHTValue {
    pub sig_r_x: FieldElement,
    pub sig_r_y: FieldElement,
    pub sig_s: FieldElement,
    pub neighbours: [FieldElement; 2],
    pub scores: [u32; 2],
}

impl DHTValue {
    /// All five field elements lie below the field modulus.
    pub open spec fn wf(self) -> bool {
        self.sig_r_x.wf() && self.sig_r_y.wf() && self.sig_s.wf() && self.neighbours[0].wf()
            && self.neighbours[1].wf()
    }

    /// The canonical 168-byte encoding, in the fixed field order.
    pub open spec fn enc(self) -> Seq<u8> {
        le_bytes(self.sig_r_x.value(), 32) + le_bytes(self.sig_r_y.value(), 32) + le_bytes(
            self.sig_s.value(),
            32,
        ) + le_bytes(self.neighbours[0].value(), 32) + le_bytes(self.neighbours[1].value(), 32)
            + be32(self.scores[0]) + be32(self.scores[1])
    }

    /// A buffer decodes to a value exactly when it is 168 bytes long and all
    /// five 32-byte fields lie below the field modulus.
    pub open spec fn valid_enc(b: Seq<u8>) -> bool {
        b.len() == 168 && le_int(b.subrange(0, 32)) < field_modulus() && le_int(b.subrange(32, 64))
            < field_modulus() && le_int(b.subrange(64, 96)) < field_modulus() && le_int(
            b.subrange(96, 128),
        ) < field_modulus() && le_int(b.subrange(128, 160)) < field_modulus()
    }

    /// The value a valid 168-byte buffer denotes.
    pub open spec fn dec(b: Seq<u8>) -> DHTValue {
        DHTValue {
            sig_r_x: FieldElement::of_int(le_int(b.subrange(0, 32))),
            sig_r_y: FieldElement::of_int(le_int(b.subrange(32, 64))),
            sig_s: FieldElement::of_int(le_int(b.subrange(64, 96))),
            neighbours: [
                FieldElement::of_int(le_int(b.subrange(96, 128))),
                FieldElement::of_int(le_int(b.subrange(128, 160))),
            ],
            scores: [(be32_val(b.subrange(160, 164)) as u32), (be32_val(b.subrange(164, 168)) as u32)],
        }
    }

    pub fn new(
        sig_r_x: FieldElement,
        sig_r_y: FieldElement,
        sig_s: FieldElement,
        neighbours: [FieldElement; 2],
        scores: [u32; 2],
    ) -> (v: DHTValue)
        ensures
            v.sig_r_x == sig_r_x,
            v.sig_r_y == sig_r_y,
            v.sig_s == sig_s,
            v.neighbours == neighbours,
            v.scores == scores,
    {
        DHTValue { sig_r_x, sig_r_y, sig_s, neighbours, scores }
    }

    /// A value with random signature fields, neighbours and scores.
    pub fn random() -> (v: DHTValue)
        ensures
            v.wf(),
    {
        let n0 = FieldElement::random();
        let n1 = FieldElement::random();
        let v = DHTValue {
            sig_r_x: FieldElement::random(),
            sig_r_y: FieldElement::random(),
            sig_s: FieldElement::random(),
            neighbours: [n0, n1],
            scores: [random_u32(), random_u32()],
        };
        v
    }

    /// The canonical 168-byte encoding, in the fixed field order.
    pub fn to_bytes(&self) -> (r: Vec<u8>)
        ensures
            r@ == self.enc(),
            r@.len() == 168,
    {
        let mut out: Vec<u8> = Vec::new();
        self.sig_r_x.write_le(&mut out);
        self.sig_r_y.write_le(&mut out);
        self.sig_s.write_le(&mut out);
        let n0 = self.neighbours[0];
        n0.write_le(&mut out);
        let n1 = self.neighbours[1];
        n1.write_le(&mut out);
        u32_write_be(self.scores[0], &mut out);
        u32_write_be(self.scores[1], &mut out);
        proof {
            assert(out@ =~= self.enc());
            lemma_le_bytes_len(self.sig_r_x.value(), 32);
            lemma_le_bytes_len(self.sig_r_y.value(), 32);
            lemma_le_bytes_len(self.sig_s.value(), 32);
            lemma_le_bytes_len(self.neighbours[0].value(), 32);
            lemma_le_bytes_len(self.neighbours[1].value(), 32);
        }
        out
    }

    /// Decodes a 168-byte buffer; any other length is malformed, and any of
    /// the five 32-byte fields at or above the modulus is an invalid encoding.
    pub fn from_bytes(bytes: Vec<u8>) -> (r: Result<DHTValue, CodecError>)
        ensures
            r is Ok <==> Self::valid_enc(bytes@),
            (match r {
                Ok(v) => v == Self::dec(bytes@) && v.wf(),
                Err(e) => if bytes@.len() != 168 {
                    e == CodecError::MalformedValue
                } else {
                    e == CodecError::InvalidFieldEncoding
                },
            }),
    {
        if bytes.len() != 168 {
            return Err(CodecError::MalformedValue);
        }
        let sig_r_x = match FieldElement::read_le(&bytes, 0) {
            Ok(fe) => fe,
            Err(e) => return Err(e),
        };
        let sig_r_y = match FieldElement::read_le(&bytes, 32) {
            Ok(fe) => fe,
            Err(e) => return Err(e),
        };
        let sig_s = match FieldElement::read_le(&bytes, 64) {
            Ok(fe) => fe,
            Err(e) => return Err(e),
        };
        let n0 = match FieldElement::read_le(&bytes, 96) {
            Ok(fe) => fe,
            Err(e) => return Err(e),
        };
        let n1 = match FieldElement::read_le(&bytes, 128) {
            Ok(fe) => fe,
            Err(e) => return Err(e),
        };
        let s0 = u32_read_be(&bytes, 160);
        let s1 = u32_read_be(&bytes, 164);
        let v = DHTValue { sig_r_x, sig_r_y, sig_s, neighbours: [n0, n1], scores: [s0, s1] };
        proof {
            assert(v =~= Self::dec(bytes@));
        }
        Ok(v)
    }
}

/// Round trip: a well-formed value's encoding is 168 bytes, decodes validly,
/// and decodes back to the same value.
pub proof fn lemma_value_round_trip(v: DHTValue)
    requires
        v.wf(),
    ensures
        v.enc().len() == 168,
        DHTValue::valid_enc(v.enc()),
        DHTValue::dec(v.enc()) == v,
{
    lemma_le_bytes_len(v.sig_r_x.value(), 32);
    lemma_le_bytes_len(v.sig_r_y.value(), 32);
    lemma_le_bytes_len(v.sig_s.value(), 32);
    lemma_le_bytes_len(v.neighbours[0].value(), 32);
    lemma_le_bytes_len(v.neighbours[1].value(), 32);
    lemma_be32_round_trip(v.scores[0]);
    lemma_be32_round_trip(v.scores[1]);
    assert(v.enc().subrange(0, 32) =~= le_bytes(v.sig_r_x.value(), 32));
    assert(v.enc().subrange(32, 64) =~= le_bytes(v.sig_r_y.value(), 32));
    assert(v.enc().subrange(64, 96) =~= le_bytes(v.sig_s.value(), 32));
    assert(v.enc().subrange(96, 128) =~= le_bytes(v.neighbours[0].value(), 32));
    assert(v.enc().subrange(128, 160) =~= le_bytes(v.neighbours[1].value(), 32));
    assert(v.enc().subrange(160, 164) =~= be32(v.scores[0]));
    assert(v.enc().subrange(164, 168) =~= be32(v.scores[1]));
    lemma_fe_round_trip(v.sig_r_x);
    lemma_fe_round_trip(v.sig_r_y);
    lemma_fe_round_trip(v.sig_s);
    lemma_fe_round_trip(v.neighbours[0]);
    lemma_fe_round_trip(v.neighbours[1]);
    assert(DHTValue::dec(v.enc()).neighbours =~= v.neighbours);
    assert(DHTValue::dec(v.enc()).scores =~= v.scores);
    assert(DHTValue::dec(v.enc()) =~= v);
}

/// Canonical form: re-encoding the key a valid 64-byte buffer decodes to
/// gives back the identical bytes.
pub proof fn lemma_key_canonical(b: Seq<u8>)
    requires
        DHTKey::valid_enc(b),
    ensures
        DHTKey::dec(b).enc() == b,
{
    lemma_fe_canonical(b.subrange(0, 32));
    lemma_fe_canonical(b.subrange(32, 64));
    assert(DHTKey::dec(b).enc() =~= b);
}

/// Canonical form: re-encoding the value a valid 168-byte buffer decodes to
/// gives back the identical bytes.
pub proof fn lemma_value_canonical(b: Seq<u8>)
    requires
        DHTValue::valid_enc(b),
    ensures
        DHTValue::dec(b).enc() == b,
{
    lemma_fe_canonical(b.subrange(0, 32));
    lemma_fe_canonical(b.subrange(32, 64));
    lemma_fe_canonical(b.subrange(64, 96));
    lemma_fe_canonical(b.subrange(96, 128));
    lemma_fe_canonical(b.subrange(128, 160));
    lemma_be32_canonical(b.subrange(160, 164));
    lemma_be32_canonical(b.subrange(164, 168));
    assert(DHTValue::dec(b).enc() =~= b);
}

/// Positional pairing: after a round trip each neighbour still stands beside
/// its own score, in the order the value was built with.
pub proof fn lemma_positional_pairing(v: DHTValue)
    requires
        v.wf(),
    ensures
        DHTValue::dec(v.enc()).neighbours[0] == v.neighbours[0],
        DHTValue::dec(v.enc()).neighbours[1] == v.neighbours[1],
        DHTValue::dec(v.enc()).scores[0] == v.scores[0],
        DHTValue::dec(v.enc()).scores[1] == v.scores[1],
{
    lemma_value_round_trip(v);
}

} // verus!
