use trust_dht::field::FieldElement;
use trust_dht::record::{DHTKey, DHTValue};
use trust_dht::CodecError;

/// The little-endian bytes of the bn256 scalar-field modulus.
fn modulus_le_bytes() -> Vec<u8> {
    let limbs: [u64; 4] = [
        0x43e1f593f0000001,
        0x2833e84879b97091,
        0xb85045b68181585d,
        0x30644e72e131a029,
    ];
    let mut out = Vec::new();
    for l in limbs {
        out.extend_from_slice(&l.to_le_bytes());
    }
    out
}

#[test]
fn fe_round_trip_small() {
    let fe = FieldElement::from_u64(123456789);
    let bytes = fe.to_le_bytes();
    assert_eq!(bytes.len(), 32);
    let back = FieldElement::from_le_bytes(&bytes).unwrap();
    assert_eq!(back, fe);
}

#[test]
fn fe_encode_exact() {
    let fe = FieldElement::from_u64(0x0102);
    let bytes = fe.to_le_bytes();
    assert_eq!(bytes[0], 0x02);
    assert_eq!(bytes[1], 0x01);
    for i in 2..32 {
        assert_eq!(bytes[i], 0);
    }
}

#[test]
fn fe_rejects_modulus() {
    let bytes = modulus_le_bytes();
    assert_eq!(
        FieldElement::from_le_bytes(&bytes),
        Err(CodecError::InvalidFieldEncoding)
    );
}

#[test]
fn fe_rejects_all_ones() {
    let bytes = vec![0xffu8; 32];
    assert_eq!(
        FieldElement::from_le_bytes(&bytes),
        Err(CodecError::InvalidFieldEncoding)
    );
}

#[test]
fn fe_accepts_modulus_minus_one() {
    let mut bytes = modulus_le_bytes();
    bytes[0] = 0x00;
    let fe = FieldElement::from_le_bytes(&bytes).unwrap();
    assert_eq!(fe.to_le_bytes(), bytes);
}

#[test]
fn fe_random_round_trip() {
    let fe = FieldElement::random();
    let bytes = fe.to_le_bytes();
    assert_eq!(bytes.len(), 32);
    assert_eq!(FieldElement::from_le_bytes(&bytes).unwrap(), fe);
}

#[test]
fn key_round_trip() {
    let k = DHTKey::new(FieldElement::from_u64(1), FieldElement::from_u64(2));
    let bytes = k.to_bytes();
    assert_eq!(bytes.len(), 64);
    let back = DHTKey::from_bytes(bytes).unwrap();
    assert_eq!(back, k);
}

#[test]
fn key_encode_layout() {
    let k = DHTKey::new(FieldElement::from_u64(1), FieldElement::from_u64(2));
    let bytes = k.to_bytes();
    assert_eq!(bytes[0], 1);
    assert_eq!(bytes[32], 2);
    for i in 1..32 {
        assert_eq!(bytes[i], 0);
    }
    for i in 33..64 {
        assert_eq!(bytes[i], 0);
    }
}

#[test]
fn key_length_guard() {
    assert_eq!(DHTKey::from_bytes(vec![0u8; 63]), Err(CodecError::MalformedKey));
    assert_eq!(DHTKey::from_bytes(vec![0u8; 65]), Err(CodecError::MalformedKey));
    assert_eq!(DHTKey::from_bytes(Vec::new()), Err(CodecError::MalformedKey));
}

#[test]
fn key_rejecting_decode() {
    let mut bytes = vec![0u8; 64];
    for i in 0..32 {
        bytes[i] = 0xff;
    }
    assert_eq!(DHTKey::from_bytes(bytes), Err(CodecError::InvalidFieldEncoding));
}

#[test]
fn key_random_round_trip() {
    let k = DHTKey::random();
    let bytes = k.to_bytes();
    assert_eq!(bytes.len(), 64);
    assert_eq!(DHTKey::from_bytes(bytes).unwrap(), k);
}

fn sample_value() -> DHTValue {
    DHTValue::new(
        FieldElement::from_u64(11),
        FieldElement::from_u64(12),
        FieldElement::from_u64(13),
        [FieldElement::from_u64(1), FieldElement::from_u64(2)],
        [10, 20],
    )
}

#[test]
fn value_round_trip() {
    let v = sample_value();
    let bytes = v.to_bytes();
    assert_eq!(bytes.len(), 168);
    let back = DHTValue::from_bytes(bytes).unwrap();
    assert_eq!(back, v);
}

#[test]
fn value_positional_pairing() {
    let a = FieldElement::from_u64(1);
    let b = FieldElement::from_u64(2);
    let v = DHTValue::new(
        FieldElement::from_u64(11),
        FieldElement::from_u64(12),
        FieldElement::from_u64(13),
        [a, b],
        [10, 20],
    );
    let back = DHTValue::from_bytes(v.to_bytes()).unwrap();
    assert_eq!(back.neighbours[0], a);
    assert_eq!(back.scores[0], 10);
    assert_eq!(back.neighbours[1], b);
    assert_eq!(back.scores[1], 20);
}

#[test]
fn value_score_encoding_exact() {
    let mut v = sample_value();
    v.scores = [0x01020304, 5];
    let bytes = v.to_bytes();
    assert_eq!(&bytes[160..164], &[1, 2, 3, 4]);
    assert_eq!(&bytes[164..168], &[0, 0, 0, 5]);
}

#[test]
fn value_length_guard() {
    assert_eq!(DHTValue::from_bytes(vec![0u8; 167]), Err(CodecError::MalformedValue));
    assert_eq!(DHTValue::from_bytes(vec![0u8; 169]), Err(CodecError::MalformedValue));
    assert_eq!(DHTValue::from_bytes(Vec::new()), Err(CodecError::MalformedValue));
}

#[test]
fn value_rejecting_decode() {
    let mut bytes = vec![0u8; 168];
    for i in 64..96 {
        bytes[i] = 0xff;
    }
    assert_eq!(DHTValue::from_bytes(bytes), Err(CodecError::InvalidFieldEncoding));
}

#[test]
fn value_random_round_trip() {
    let v = DHTValue::random();
    let bytes = v.to_bytes();
    assert_eq!(bytes.len(), 168);
    assert_eq!(DHTValue::from_bytes(bytes).unwrap(), v);
}
