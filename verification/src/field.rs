//! The field-element codec: values of the bn256 scalar field, held as four
//! 64-bit limbs, with their canonical 32-byte little-endian encoding.

use vstd::prelude::*;
use vstd::arithmetic::div_mod::{
    lemma_fundamental_div_mod, lemma_fundamental_div_mod_converse, lemma_div_denominator,
    lemma_multiply_divide_lt, lemma_div_pos_is_pos, lemma_mod_bound, lemma_small_mod,
};
use crate::CodecError;
use halo2curves::ff::Field;

verus! {

/// The prime modulus of the bn256 scalar field.
pub open spec fn field_modulus() -> int {
    0x30644e72e131a029b85045b68181585d2833e84879b9709143e1f593f0000001int
}

/// 256 to the power n.
pub open spec fn pow256(n: nat) -> int
    decreases n,
{
    if n == 0 {
        1
    } else {
        256 * pow256((n - 1) as nat)
    }
}

/// The integer a byte sequence denotes when read in little-endian order.
pub open spec fn le_int(s: Seq<u8>) -> int
    decreases s.len(),
{
    if s.len() == 0 {
        0
    } else {
        s[0] + 256 * le_int(s.skip(1))
    }
}

/// The n-byte little-endian encoding of v (of v mod 256^n, for larger v).
pub open spec fn le_bytes(v: int, n: nat) -> Seq<u8>
    decreases n,
{
    if n == 0 {
        Seq::empty()
    } else {
        seq![(v % 256) as u8] + le_bytes(v / 256, (n - 1) as nat)
    }
}

pub proof fn lemma_pow256_constants()
    ensures
        pow256(8) == 0x1_0000_0000_0000_0000int,
        pow256(16) == 0x1_0000_0000_0000_0000_0000_0000_0000_0000int,
        pow256(24) == 0x1_0000_0000_0000_0000_0000_0000_0000_0000_0000_0000_0000_0000int,
        pow256(32) == 0x1_0000_0000_0000_0000_0000_0000_0000_0000_0000_0000_0000_0000_0000_0000_0000_0000int,
{
    reveal_with_fuel(pow256, 33);
}

/// A byte sequence denotes a non-negative integer below 256^len.
pub proof fn lemma_le_int_bound(s: Seq<u8>)
    ensures
        0 <= le_int(s) < pow256(s.len()),
    decreases s.len(),
{
    if s.len() > 0 {
        lemma_le_int_bound(s.skip(1));
    }
}

pub proof fn lemma_le_bytes_len(v: int, n: nat)
    ensures
        le_bytes(v, n).len() == n,
    decreases n,
{
    if n > 0 {
        lemma_le_bytes_len(v / 256, (n - 1) as nat);
    }
}

/// Decoding the n-byte encoding of v gives back v, for v in range.
pub proof fn lemma_le_int_le_bytes(v: int, n: nat)
    requires
        0 <= v < pow256(n),
    ensures
        le_int(le_bytes(v, n)) == v,
    decreases n,
{
    if n == 0 {
    } else {
        let rest = le_bytes(v / 256, (n - 1) as nat);
        assert((seq![(v % 256) as u8] + rest).skip(1) =~= rest);
        lemma_div_pos_is_pos(v, 256);
        lemma_multiply_divide_lt(v, 256, pow256((n - 1) as nat));
        lemma_le_int_le_bytes(v / 256, (n - 1) as nat);
        lemma_fundamental_div_mod(v, 256);
    }
}

/// Re-encoding the integer a byte sequence denotes gives back the same bytes:
/// the little-endian form is canonical.
pub proof fn lemma_le_bytes_le_int(s: Seq<u8>)
    ensures
        le_bytes(le_int(s), s.len()) == s,
    decreases s.len(),
{
    if s.len() == 0 {
        assert(le_bytes(le_int(s), s.len()) =~= s);
    } else {
        let v = le_int(s);
        lemma_le_int_bound(s.skip(1));
        lemma_fundamental_div_mod_converse(v, 256, le_int(s.skip(1)), s[0] as int);
        lemma_le_bytes_le_int(s.skip(1));
        assert(le_bytes(v, s.len()) =~= seq![(v % 256) as u8] + le_bytes(v / 256, (s.len() - 1) as nat));
        assert(le_bytes(v, s.len()) =~= s);
    }
}

/// Concatenation: the bytes of b contribute above those of a.
pub proof fn lemma_le_int_concat(a: Seq<u8>, b: Seq<u8>)
    ensures
        le_int(a + b) == le_int(a) + pow256(a.len()) * le_int(b),
    decreases a.len(),
{
    if a.len() == 0 {
        assert(a + b =~= b);
    } else {
        assert((a + b).skip(1) =~= a.skip(1) + b);
        lemma_le_int_concat(a.skip(1), b);
        let p1 = pow256((a.len() - 1) as nat);
        assert(256 * (p1 * le_int(b)) == (256 * p1) * le_int(b)) by (nonlinear_arith);
    }
}

/// A value of the prime field. The four limbs hold its canonical integer in
/// little-endian order; a well-formed element lies strictly below the modulus.
#[derive(Clone, Copy, PartialEq, Eq, Debug)]
pub struct FieldElement {
    l0: u64,
    l1: u64,
    l2: u64,
    l3: u64,
}

impl FieldElement {
    /// The integer this element denotes.
    pub closed spec fn value(self) -> int {
        self.l0 + 0x1_0000_0000_0000_0000int * self.l1
            + 0x1_0000_0000_0000_0000_0000_0000_0000_0000int * self.l2
            + 0x1_0000_0000_0000_0000_0000_0000_0000_0000_0000_0000_0000_0000int * self.l3
    }

    /// A field element is well formed when its value lies below the modulus.
    pub open spec fn wf(self) -> bool {
        self.value() < field_modulus()
    }

    /// The element whose value is v: the spec-level decoding of an integer.
    pub closed spec fn of_int(v: int) -> FieldElement {
        FieldElement {
            l0: (v % 0x1_0000_0000_0000_0000int) as u64,
            l1: ((v / 0x1_0000_0000_0000_0000int) % 0x1_0000_0000_0000_0000int) as u64,
            l2: ((v / 0x1_0000_0000_0000_0000_0000_0000_0000_0000int) % 0x1_0000_0000_0000_0000int) as u64,
            l3: ((v / 0x1_0000_0000_0000_0000_0000_0000_0000_0000_0000_0000_0000_0000int)
                % 0x1_0000_0000_0000_0000int) as u64,
        }
    }
}

/// A field element's value is non-negative and below 256^32.
pub proof fn lemma_value_bound(fe: FieldElement)
    ensures
        0 <= fe.value() < pow256(32),
{
    lemma_pow256_constants();
}

/// Rebuilding an element from its own value gives back the element: the value
/// determines the limbs.
pub proof fn lemma_of_int_value(fe: FieldElement)
    ensures
        FieldElement::of_int(fe.value()) == fe,
{
    let m: int = 0x1_0000_0000_0000_0000int;
    let v = fe.value();
    let q1: int = fe.l1 + m * fe.l2 + m * m * fe.l3;
    let q2: int = fe.l2 + m * fe.l3;
    lemma_fundamental_div_mod_converse(v, m, q1, fe.l0 as int);
    lemma_fundamental_div_mod_converse(q1, m, q2, fe.l1 as int);
    lemma_div_denominator(v, m, m);
    lemma_fundamental_div_mod_converse(q2, m, fe.l3 as int, fe.l2 as int);
    lemma_div_denominator(v, m * m, m);
}

/// The element built from an integer below 256^32 carries that integer.
pub proof fn lemma_value_of_int(v: int)
    requires
        0 <= v < pow256(32),
    ensures
        FieldElement::of_int(v).value() == v,
{
    let m: int = 0x1_0000_0000_0000_0000int;
    lemma_pow256_constants();
    lemma_mod_bound(v, m);
    lemma_fundamental_div_mod(v, m);
    lemma_div_pos_is_pos(v, m);
    lemma_mod_bound(v / m, m);
    lemma_fundamental_div_mod(v / m, m);
    lemma_div_denominator(v, m, m);
    lemma_div_pos_is_pos(v, m * m);
    lemma_mod_bound(v / (m * m), m);
    lemma_fundamental_div_mod(v / (m * m), m);
    lemma_div_denominator(v, m * m, m);
    lemma_div_pos_is_pos(v, m * m * m);
    lemma_multiply_divide_lt(v, m * m * m, m);
    lemma_small_mod((v / (m * m * m)) as nat, m as nat);
}

/// Canonical form: re-encoding the element a valid 32-byte buffer decodes to
/// gives back the identical bytes.
pub proof fn lemma_fe_canonical(b: Seq<u8>)
    requires
        b.len() == 32,
        le_int(b) < field_modulus(),
    ensures
        FieldElement::of_int(le_int(b)).wf(),
        le_bytes(FieldElement::of_int(le_int(b)).value(), 32) == b,
{
    lemma_le_int_bound(b);
    lemma_pow256_constants();
    lemma_value_of_int(le_int(b));
    lemma_le_bytes_le_int(b);
}

impl FieldElement {
    /// The element with the given small value.
    pub fn from_u64(x: u64) -> (r: FieldElement)
        ensures
            r.value() == x,
            r.wf(),
    {
        FieldElement { l0: x, l1: 0, l2: 0, l3: 0 }
    }
}

/// Relies on halo2curves' `Fr::random` and `Fr::to_bytes`: a scalar drawn from
/// the bn256 scalar field, handed back as its canonical 32-byte little-endian
/// encoding, whose value lies below the field modulus.
#[verifier::external_body]
fn random_field_bytes() -> (r: Vec<u8>)
    ensures
        r@.len() == 32,
        0 <= le_int(r@) < field_modulus(),
{
    let fr = halo2curves::bn256::Fr::random(rand::thread_rng());
    fr.to_bytes().to_vec()
}

/// Appends the 8-byte little-endian encoding of x.
pub(crate) fn u64_write(x: u64, out: &mut Vec<u8>)
    ensures
        final(out)@ == old(out)@ + le_bytes(x as int, 8),
{
    let ghost base = out@;
    let mut v: u64 = x;
    out.push((v % 256) as u8);
    v = v / 256;
    out.push((v % 256) as u8);
    v = v / 256;
    out.push((v % 256) as u8);
    v = v / 256;
    out.push((v % 256) as u8);
    v = v / 256;
    out.push((v % 256) as u8);
    v = v / 256;
    out.push((v % 256) as u8);
    v = v / 256;
    out.push((v % 256) as u8);
    v = v / 256;
    out.push((v % 256) as u8);
    proof {
        reveal_with_fuel(le_bytes, 9);
        assert(out@ =~= base + le_bytes(x as int, 8));
    }
}

/// Reads the 8 bytes at off as a little-endian integer.
pub(crate) fn u64_read(b: &Vec<u8>, off: usize) -> (x: u64)
    requires
        off + 8 <= b@.len(),
    ensures
        x == le_int(b@.subrange(off as int, off as int + 8)),
{
    let _n = b.len();
    let mut x: u64 = b[off + 7] as u64;
    x = x * 256 + b[off + 6] as u64;
    x = x * 256 + b[off + 5] as u64;
    x = x * 256 + b[off + 4] as u64;
    x = x * 256 + b[off + 3] as u64;
    x = x * 256 + b[off + 2] as u64;
    x = x * 256 + b[off + 1] as u64;
    x = x * 256 + b[off] as u64;
    proof {
        reveal_with_fuel(le_int, 9);
        assert(x == le_int(b@.subrange(off as int, off as int + 8)));
    }
    x
}

impl FieldElement {
    /// True exactly when the element's value lies below the field modulus.
    pub(crate) fn below_modulus(&self) -> (r: bool)
        ensures
            r <==> self.wf(),
    {
        let r = if self.l3 != 0x30644e72e131a029 {
            self.l3 < 0x30644e72e131a029
        } else if self.l2 != 0xb85045b68181585d {
            self.l2 < 0xb85045b68181585d
        } else if self.l1 != 0x2833e84879b97091 {
            self.l1 < 0x2833e84879b97091
        } else {
            self.l0 < 0x43e1f593f0000001
        };
        r
    }

    /// Appends this element's canonical 32-byte encoding.
    pub(crate) fn write_le(&self, out: &mut Vec<u8>)
        ensures
            final(out)@ == old(out)@ + le_bytes(self.value(), 32),
    {
        let ghost base = out@;
        u64_write(self.l0, out);
        u64_write(self.l1, out);
        u64_write(self.l2, out);
        u64_write(self.l3, out);
        proof {
            let s = le_bytes(self.l0 as int, 8) + le_bytes(self.l1 as int, 8)
                + le_bytes(self.l2 as int, 8) + le_bytes(self.l3 as int, 8);
            assert(out@ =~= base + s);
            lemma_pow256_constants();
            lemma_le_bytes_len(self.l0 as int, 8);
            lemma_le_bytes_len(self.l1 as int, 8);
            lemma_le_bytes_len(self.l2 as int, 8);
            lemma_le_bytes_len(self.l3 as int, 8);
            lemma_le_int_le_bytes(self.l0 as int, 8);
            lemma_le_int_le_bytes(self.l1 as int, 8);
            lemma_le_int_le_bytes(self.l2 as int, 8);
            lemma_le_int_le_bytes(self.l3 as int, 8);
            let t23 = le_bytes(self.l2 as int, 8) + le_bytes(self.l3 as int, 8);
            let t123 = le_bytes(self.l1 as int, 8) + t23;
            assert(s =~= le_bytes(self.l0 as int, 8) + t123);
            lemma_le_int_concat(le_bytes(self.l2 as int, 8), le_bytes(self.l3 as int, 8));
            lemma_le_int_concat(le_bytes(self.l1 as int, 8), t23);
            lemma_le_int_concat(le_bytes(self.l0 as int, 8), t123);
            assert(le_int(s) == self.value());
            lemma_le_bytes_le_int(s);
            assert(le_bytes(self.value(), 32) == s);
        }
    }

    /// Decodes the 32 bytes at off; rejects a value at or above the modulus.
    pub(crate) fn read_le(b: &Vec<u8>, off: usize) -> (r: Result<FieldElement, CodecError>)
        requires
            off + 32 <= b@.len(),
        ensures
            ({
                let v = le_int(b@.subrange(off as int, off as int + 32));
                match r {
                    Ok(fe) => v < field_modulus() && fe == FieldElement::of_int(v) && fe.wf()
                        && fe.value() == v,
                    Err(e) => v >= field_modulus() && e == CodecError::InvalidFieldEncoding,
                }
            }),
    {
        let _n = b.len();
        let l0 = u64_read(b, off);
        let l1 = u64_read(b, off + 8);
        let l2 = u64_read(b, off + 16);
        let l3 = u64_read(b, off + 24);
        let fe = FieldElement { l0, l1, l2, l3 };
        proof {
            let s = b@.subrange(off as int, off as int + 32);
            let s0 = b@.subrange(off as int, off as int + 8);
            let s1 = b@.subrange(off as int + 8, off as int + 16);
            let s2 = b@.subrange(off as int + 16, off as int + 24);
            let s3 = b@.subrange(off as int + 24, off as int + 32);
            let t23 = s2 + s3;
            let t123 = s1 + t23;
            assert(s =~= s0 + t123);
            lemma_le_int_concat(s2, s3);
            lemma_le_int_concat(s1, t23);
            lemma_le_int_concat(s0, t123);
            lemma_pow256_constants();
            assert(le_int(s) == fe.value());
            lemma_of_int_value(fe);
        }
        if fe.below_modulus() {
            Ok(fe)
        } else {
            Err(CodecError::InvalidFieldEncoding)
        }
    }

    /// The canonical 32-byte little-endian encoding of this element.
    pub fn to_le_bytes(&self) -> (r: Vec<u8>)
        ensures
            r@ == le_bytes(self.value(), 32),
            r@.len() == 32,
    {
        let mut out: Vec<u8> = Vec::new();
        self.write_le(&mut out);
        proof {
            assert(out@ =~= le_bytes(self.value(), 32));
            lemma_le_bytes_len(self.value(), 32);
        }
        out
    }

    /// Decodes a canonical 32-byte encoding; rejects a value at or above the
    /// modulus, so that decoding never wraps.
    pub fn from_le_bytes(bytes: &Vec<u8>) -> (r: Result<FieldElement, CodecError>)
        requires
            bytes@.len() == 32,
        ensures
            r is Ok <==> le_int(bytes@) < field_modulus(),
            (match r {
                Ok(fe) => fe == FieldElement::of_int(le_int(bytes@)) && fe.wf()
                    && fe.value() == le_int(bytes@),
                Err(e) => e == CodecError::InvalidFieldEncoding,
            }),
    {
        proof {
            assert(bytes@.subrange(0, 32) =~= bytes@);
        }
        FieldElement::read_le(bytes, 0)
    }

    /// A fresh element drawn from the whole field.
    pub fn random() -> (r: FieldElement)
        ensures
            r.wf(),
    {
        let bytes = random_field_bytes();
        match FieldElement::from_le_bytes(&bytes) {
            Ok(fe) => fe,
            Err(_) => vstd::pervasive::unreached(),
        }
    }
}

/// Round trip: re-decoding a well-formed element's canonical encoding gives
/// back the element, and the encoding is accepted by the rejecting decode.
pub proof fn lemma_fe_round_trip(fe: FieldElement)
    requires
        fe.wf(),
    ensures
        le_bytes(fe.value(), 32).len() == 32,
        le_int(le_bytes(fe.value(), 32)) == fe.value(),
        le_int(le_bytes(fe.value(), 32)) < field_modulus(),
        FieldElement::of_int(le_int(le_bytes(fe.value(), 32))) == fe,
{
    lemma_value_bound(fe);
    lemma_le_bytes_len(fe.value(), 32);
    lemma_le_int_le_bytes(fe.value(), 32);
    lemma_of_int_value(fe);
}

} // verus!
