use vstd::prelude::*;

use crate::error::CryptoError;
use starknet_crypto::Felt;

verus! {

/// 256^k (1 for k <= 0).
pub open spec fn pow256(k: int) -> int
    decreases k,
{
    if k <= 0 {
        1
    } else {
        256 * pow256(k - 1)
    }
}

/// The field modulus p = 2^251 + 17 * 2^192 + 1, written from its two
/// 128-bit halves (the hex digits of p are 0800000000000011 0000000000000000
/// 0000000000000000 0000000000000001).
pub open spec fn field_modulus() -> int {
    1 + pow256(16) * 0x08000000000000110000000000000000
}

/// The order n of the cyclic group generated by the curve's base point,
/// written from its two 128-bit halves (the hex digits of n are
/// 0800000000000010 ffffffffffffffff b781126dcae7b232 1e66a241adc64d2f).
pub open spec fn curve_order() -> int {
    0xb781126dcae7b2321e66a241adc64d2f + pow256(16) * 0x0800000000000010ffffffffffffffff
}

/// The exclusive upper bound 2^251 that the signature scheme places on
/// message hashes and on the components of a signature.
pub open spec fn element_bound() -> int {
    pow256(16) * 0x08000000000000000000000000000000
}

/// The integer value of the byte range [lo, hi) of s, read little-endian.
pub open spec fn byte_range_val(s: Seq<u8>, lo: int, hi: int) -> int
    decreases hi - lo,
{
    if lo < 0 || hi > s.len() || lo >= hi {
        0
    } else {
        s[lo] + 256 * byte_range_val(s, lo + 1, hi)
    }
}

/// The integer value of a whole byte sequence, read little-endian.
pub open spec fn byte_seq_val(s: Seq<u8>) -> int {
    byte_range_val(s, 0, s.len() as int)
}

/// base^e for a non-negative exponent e (1 for e <= 0).
pub open spec fn int_pow(base: int, e: int) -> int
    decreases e,
{
    if e <= 0 {
        1
    } else {
        base * int_pow(base, e - 1)
    }
}

/// 2^128 as the square of 2^64, for ground reasoning about the constants.
pub(crate) proof fn lemma_pow256_16()
    ensures
        pow256(16) == 0x10000000000000000 * 0x10000000000000000,
{
    lemma_pow256_add(8, 8);
    assert(pow256(8) == 0x10000000000000000) by {
        reveal_with_fuel(pow256, 9);
    };
}

/// How the fixed constants relate: 2^64 < 2^251 < n < p.
pub proof fn lemma_constant_order()
    ensures
        0x10000000000000000 < element_bound(),
        element_bound() < curve_order(),
        curve_order() < field_modulus(),
{
    lemma_pow256_16();
    assert(0x10000000000000000 < element_bound() && element_bound() < curve_order()
        && curve_order() < field_modulus()) by (nonlinear_arith)
        requires
            pow256(16) == 0x10000000000000000 * 0x10000000000000000,
            element_bound() == pow256(16) * 0x08000000000000000000000000000000,
            curve_order() == 0xb781126dcae7b2321e66a241adc64d2f + pow256(16)
                * 0x0800000000000010ffffffffffffffff,
            field_modulus() == 1 + pow256(16) * 0x08000000000000110000000000000000,
    ;
}

proof fn lemma_pow256_add(a: int, b: int)
    requires
        0 <= a,
        0 <= b,
    ensures
        pow256(a + b) == pow256(a) * pow256(b),
    decreases a,
{
    if a == 0 {
    } else {
        lemma_pow256_add(a - 1, b);
        assert(256 * (pow256(a - 1) * pow256(b)) == (256 * pow256(a - 1)) * pow256(b))
            by (nonlinear_arith);
    }
}

proof fn lemma_pow256_pos(k: int)
    ensures
        pow256(k) >= 1,
    decreases k,
{
    if k > 0 {
        lemma_pow256_pos(k - 1);
    }
}

proof fn lemma_byte_range_val_nonneg(s: Seq<u8>, lo: int, hi: int)
    ensures
        0 <= byte_range_val(s, lo, hi),
    decreases hi - lo,
{
    if !(lo < 0 || hi > s.len() || lo >= hi) {
        lemma_byte_range_val_nonneg(s, lo + 1, hi);
    }
}

proof fn lemma_byte_range_val_bound(s: Seq<u8>, lo: int, hi: int)
    requires
        0 <= lo,
        hi <= s.len(),
    ensures
        byte_range_val(s, lo, hi) < pow256(hi - lo),
    decreases hi - lo,
{
    if lo >= hi {
        lemma_pow256_pos(hi - lo);
    } else {
        lemma_byte_range_val_bound(s, lo + 1, hi);
    }
}

pub(crate) proof fn lemma_byte_range_val_split(s: Seq<u8>, lo: int, mid: int, hi: int)
    requires
        0 <= lo <= mid <= hi <= s.len(),
    ensures
        byte_range_val(s, lo, hi) == byte_range_val(s, lo, mid) + pow256(mid - lo)
            * byte_range_val(s, mid, hi),
    decreases mid - lo,
{
    if lo == mid {
    } else {
        lemma_byte_range_val_split(s, lo + 1, mid, hi);
        assert(256 * (byte_range_val(s, lo + 1, mid) + pow256(mid - lo - 1) * byte_range_val(
            s,
            mid,
            hi,
        )) == 256 * byte_range_val(s, lo + 1, mid) + (256 * pow256(mid - lo - 1))
            * byte_range_val(s, mid, hi)) by (nonlinear_arith);
    }
}

proof fn lemma_byte_range_val_zero(s: Seq<u8>, lo: int, hi: int)
    requires
        0 <= lo,
        hi <= s.len(),
    ensures
        (byte_range_val(s, lo, hi) == 0) <==> (forall|j: int| lo <= j < hi ==> s[j] == 0),
    decreases hi - lo,
{
    if lo >= hi {
    } else {
        lemma_byte_range_val_zero(s, lo + 1, hi);
        lemma_byte_range_val_nonneg(s, lo + 1, hi);
    }
}

proof fn lemma_val_lt_from_high(va: int, vb: int, a0: int, b0: int, xa: int, xb: int, pw: int)
    requires
        va == a0 + pw * xa,
        vb == b0 + pw * xb,
        0 <= a0 < pw,
        0 <= b0,
        xa + 1 <= xb,
        1 <= pw,
    ensures
        va < vb,
{
    assert(va < vb) by (nonlinear_arith)
        requires
            va == a0 + pw * xa,
            vb == b0 + pw * xb,
            0 <= a0 < pw,
            0 <= b0,
            xa + 1 <= xb,
            1 <= pw,
    ;
}

/// True iff the value of a, read little-endian, is less than the value of b.
fn bytes_lt(a: &[u8; 32], b: &[u8; 32]) -> (r: bool)
    ensures
        r == (byte_seq_val(a@) < byte_seq_val(b@)),
{
    let mut i: usize = 32;
    while i > 0
        invariant
            i <= 32,
            byte_range_val(a@, i as int, 32) == byte_range_val(b@, i as int, 32),
        decreases i,
    {
        i = i - 1;
        let x = a[i];
        let y = b[i];
        if x != y {
            proof {
                let ii = i as int;
                lemma_byte_range_val_split(a@, 0, ii, 32);
                lemma_byte_range_val_split(b@, 0, ii, 32);
                lemma_byte_range_val_bound(a@, 0, ii);
                lemma_byte_range_val_bound(b@, 0, ii);
                lemma_byte_range_val_nonneg(a@, 0, ii);
                lemma_byte_range_val_nonneg(b@, 0, ii);
                lemma_byte_range_val_nonneg(a@, ii + 1, 32);
                lemma_pow256_pos(ii);
                if x < y {
                    lemma_val_lt_from_high(
                        byte_seq_val(a@),
                        byte_seq_val(b@),
                        byte_range_val(a@, 0, ii),
                        byte_range_val(b@, 0, ii),
                        byte_range_val(a@, ii, 32),
                        byte_range_val(b@, ii, 32),
                        pow256(ii),
                    );
                } else {
                    lemma_val_lt_from_high(
                        byte_seq_val(b@),
                        byte_seq_val(a@),
                        byte_range_val(b@, 0, ii),
                        byte_range_val(a@, 0, ii),
                        byte_range_val(b@, ii, 32),
                        byte_range_val(a@, ii, 32),
                        pow256(ii),
                    );
                }
            }
            return x < y;
        }
    }
    false
}

/// The little-endian bytes of the field modulus p.
fn modulus_bytes() -> (r: [u8; 32])
    ensures
        byte_seq_val(r@) == field_modulus(),
{
    let pb: [u8; 32] = [
        1, 0, 0, 0, 0, 0, 0, 0, 0, 0, 0, 0, 0, 0, 0, 0, 0, 0, 0, 0, 0, 0, 0, 0, 0x11, 0, 0, 0, 0,
        0, 0, 0x08,
    ];
    proof {
        lemma_byte_range_val_split(pb@, 0, 16, 32);
        assert(byte_range_val(pb@, 0, 16) == 1) by {
            reveal_with_fuel(byte_range_val, 18);
        };
        assert(byte_range_val(pb@, 16, 32) == 0x08000000000000110000000000000000) by {
            reveal_with_fuel(byte_range_val, 18);
        };
    }
    pb
}

/// The little-endian bytes of the curve order n.
fn order_bytes() -> (r: [u8; 32])
    ensures
        byte_seq_val(r@) == curve_order(),
{
    let nb: [u8; 32] = [
        0x2f, 0x4d, 0xc6, 0xad, 0x41, 0xa2, 0x66, 0x1e, 0x32, 0xb2, 0xe7, 0xca, 0x6d, 0x12, 0x81,
        0xb7, 0xff, 0xff, 0xff, 0xff, 0xff, 0xff, 0xff, 0xff, 0x10, 0, 0, 0, 0, 0, 0, 0x08,
    ];
    proof {
        lemma_byte_range_val_split(nb@, 0, 16, 32);
        assert(byte_range_val(nb@, 0, 16) == 0xb781126dcae7b2321e66a241adc64d2f) by {
            reveal_with_fuel(byte_range_val, 18);
        };
        assert(byte_range_val(nb@, 16, 32) == 0x0800000000000010ffffffffffffffff) by {
            reveal_with_fuel(byte_range_val, 18);
        };
    }
    nb
}

/// The little-endian bytes of 2^251.
fn element_bound_bytes() -> (r: [u8; 32])
    ensures
        byte_seq_val(r@) == element_bound(),
{
    let bb: [u8; 32] = [
        0, 0, 0, 0, 0, 0, 0, 0, 0, 0, 0, 0, 0, 0, 0, 0, 0, 0, 0, 0, 0, 0, 0, 0, 0, 0, 0, 0, 0, 0,
        0, 0x08,
    ];
    proof {
        lemma_byte_range_val_split(bb@, 0, 16, 32);
        assert(byte_range_val(bb@, 0, 16) == 0) by {
            reveal_with_fuel(byte_range_val, 18);
        };
        assert(byte_range_val(bb@, 16, 32) == 0x08000000000000000000000000000000) by {
            reveal_with_fuel(byte_range_val, 18);
        };
    }
    bb
}

/// An element of the prime field, held in canonical little-endian byte form.
#[derive(Clone, Copy, Debug, PartialEq, Eq)]
pub struct FieldElement {
    pub(crate) bytes: [u8; 32],
}

impl FieldElement {
    /// The integer this element represents.
    pub closed spec fn value(&self) -> int {
        byte_seq_val(self.bytes@)
    }

    /// Canonical form: the represented integer is reduced modulo p.
    pub open spec fn wf(&self) -> bool {
        0 <= self.value() < field_modulus()
    }

    /// Strict constructor: accepts exactly the little-endian byte strings whose
    /// value is below the modulus, and rejects the rest with `OutOfRange`.
    pub fn from_bytes_le(bytes: [u8; 32]) -> (r: Result<FieldElement, CryptoError>)
        ensures
            (r is Ok) <==> byte_seq_val(bytes@) < field_modulus(),
            r matches Ok(f) ==> f.wf() && f.value() == byte_seq_val(bytes@),
            r matches Err(e) ==> e == CryptoError::OutOfRange,
    {
        let pb = modulus_bytes();
        proof {
            lemma_byte_range_val_nonneg(bytes@, 0, 32);
        }
        if bytes_lt(&bytes, &pb) {
            Ok(FieldElement { bytes })
        } else {
            Err(CryptoError::OutOfRange)
        }
    }

    /// The canonical little-endian byte string of this element.
    pub fn to_bytes_le(&self) -> (r: [u8; 32])
        ensures
            byte_seq_val(r@) == self.value(),
    {
        self.bytes
    }

    /// The element whose value is the given single byte.
    pub fn from_byte(x: u8) -> (r: FieldElement)
        ensures
            r.wf(),
            r.value() == x,
    {
        let b: [u8; 32] = [
            x, 0, 0, 0, 0, 0, 0, 0, 0, 0, 0, 0, 0, 0, 0, 0, 0, 0, 0, 0, 0, 0, 0, 0, 0, 0, 0, 0, 0,
            0, 0, 0,
        ];
        proof {
            lemma_byte_range_val_zero(b@, 1, 32);
            lemma_byte_range_val_split(b@, 0, 1, 32);
            assert(byte_range_val(b@, 0, 1) == x) by {
                reveal_with_fuel(byte_range_val, 3);
            };
            lemma_constant_order();
        }
        FieldElement { bytes: b }
    }

    /// True iff this element is the additive identity.
    pub fn is_zero(&self) -> (r: bool)
        ensures
            r == (self.value() == 0),
    {
        let mut i: usize = 0;
        while i < 32
            invariant
                i <= 32,
                forall|j: int| 0 <= j < i ==> self.bytes@[j] == 0,
            decreases 32 - i,
        {
            if self.bytes[i] != 0 {
                proof {
                    lemma_byte_range_val_zero(self.bytes@, 0, 32);
                }
                return false;
            }
            i = i + 1;
        }
        proof {
            lemma_byte_range_val_zero(self.bytes@, 0, 32);
        }
        true
    }

    /// True iff the two elements represent the same integer.
    pub fn equals(&self, other: &FieldElement) -> (r: bool)
        ensures
            r == (self.value() == other.value()),
    {
        !bytes_lt(&self.bytes, &other.bytes) && !bytes_lt(&other.bytes, &self.bytes)
    }

    /// True iff this element's value is below the curve order n.
    pub fn below_curve_order(&self) -> (r: bool)
        ensures
            r == (self.value() < curve_order()),
    {
        let nb = order_bytes();
        bytes_lt(&self.bytes, &nb)
    }

    /// True iff this element's value is below 2^251.
    pub fn below_element_bound(&self) -> (r: bool)
        ensures
            r == (self.value() < element_bound()),
    {
        let bb = element_bound_bytes();
        bytes_lt(&self.bytes, &bb)
    }
}

/// The square root of a field element, when it has one: deterministic — the
/// smaller of the two roots is picked.
pub uninterp spec fn sqrt_of(a: int) -> Option<int>;

/// Relies on starknet-crypto's Felt::sqrt: a returned root squares back to
/// the operand, and whether a root is returned depends on the operand alone.
#[verifier::external_body]
pub(crate) fn felt_sqrt_call(a: &FieldElement) -> (r: Option<FieldElement>)
    requires
        a.wf(),
    ensures
        r matches Some(y) ==> sqrt_of(a.value()) == Some(y.value()) && y.wf() && (y.value()
            * y.value()) % field_modulus() == a.value(),
        r is None ==> sqrt_of(a.value()) is None,
{
    match starknet_crypto::Felt::from_bytes_le(&a.bytes).sqrt() {
        Some(y) => Some(FieldElement { bytes: y.to_bytes_le() }),
        None => None,
    }
}

/// Builds an element from canonical little-endian bytes whose value is
/// already known to be reduced.
pub(crate) fn make_element(bytes: [u8; 32]) -> (r: FieldElement)
    requires
        0 <= byte_seq_val(bytes@) < field_modulus(),
    ensures
        r.wf(),
        r.value() == byte_seq_val(bytes@),
{
    FieldElement { bytes }
}

/// Relies on starknet-crypto's Felt addition: addition modulo p.
#[verifier::external_body]
fn felt_add_call(a: &FieldElement, b: &FieldElement) -> (r: FieldElement)
    requires
        a.wf(),
        b.wf(),
    ensures
        r.wf(),
        r.value() == (a.value() + b.value()) % field_modulus(),
{
    let x = Felt::from_bytes_le(&a.bytes);
    let y = Felt::from_bytes_le(&b.bytes);
    FieldElement { bytes: (x + y).to_bytes_le() }
}

/// Relies on starknet-crypto's Felt subtraction: subtraction modulo p.
#[verifier::external_body]
fn felt_sub_call(a: &FieldElement, b: &FieldElement) -> (r: FieldElement)
    requires
        a.wf(),
        b.wf(),
    ensures
        r.wf(),
        r.value() == (a.value() - b.value() + field_modulus()) % field_modulus(),
{
    let x = Felt::from_bytes_le(&a.bytes);
    let y = Felt::from_bytes_le(&b.bytes);
    FieldElement { bytes: (x - y).to_bytes_le() }
}

/// Relies on starknet-crypto's Felt multiplication: multiplication modulo p.
#[verifier::external_body]
fn felt_mul_call(a: &FieldElement, b: &FieldElement) -> (r: FieldElement)
    requires
        a.wf(),
        b.wf(),
    ensures
        r.wf(),
        r.value() == (a.value() * b.value()) % field_modulus(),
{
    let x = Felt::from_bytes_le(&a.bytes);
    let y = Felt::from_bytes_le(&b.bytes);
    FieldElement { bytes: (x * y).to_bytes_le() }
}

/// Relies on starknet-crypto's Felt negation: the additive inverse modulo p.
#[verifier::external_body]
fn felt_neg_call(a: &FieldElement) -> (r: FieldElement)
    requires
        a.wf(),
    ensures
        r.wf(),
        r.value() == (field_modulus() - a.value()) % field_modulus(),
{
    let x = Felt::from_bytes_le(&a.bytes);
    FieldElement { bytes: (-x).to_bytes_le() }
}

/// Relies on starknet-crypto's Felt::inverse: the multiplicative inverse
/// modulo p of a nonzero element.
#[verifier::external_body]
fn felt_inverse_call(a: &FieldElement) -> (r: FieldElement)
    requires
        a.wf(),
        a.value() != 0,
    ensures
        r.wf(),
        (a.value() * r.value()) % field_modulus() == 1,
{
    let x = Felt::from_bytes_le(&a.bytes);
    FieldElement { bytes: x.inverse().unwrap().to_bytes_le() }
}

/// Relies on starknet-crypto's Felt::pow_felt: exponentiation modulo p by the
/// integer value of the exponent element.
#[verifier::external_body]
fn felt_pow_call(a: &FieldElement, e: &FieldElement) -> (r: FieldElement)
    requires
        a.wf(),
        e.wf(),
    ensures
        r.wf(),
        r.value() == int_pow(a.value(), e.value()) % field_modulus(),
{
    let x = Felt::from_bytes_le(&a.bytes);
    let y = Felt::from_bytes_le(&e.bytes);
    FieldElement { bytes: x.pow_felt(&y).to_bytes_le() }
}

/// Relies on starknet-crypto's Felt::from_bytes_le_slice: reads a byte string
/// of any length as a little-endian integer and reduces it modulo p.
#[verifier::external_body]
fn felt_reduce_call(bytes: &Vec<u8>) -> (r: FieldElement)
    ensures
        r.wf(),
        r.value() == byte_seq_val(bytes@) % field_modulus(),
{
    FieldElement { bytes: Felt::from_bytes_le_slice(bytes.as_slice()).to_bytes_le() }
}

impl FieldElement {
    /// Reducing constructor: reads a little-endian byte string of any length
    /// and reduces its integer value modulo p.
    pub fn from_bytes_le_reduced(bytes: &Vec<u8>) -> (r: FieldElement)
        ensures
            r.wf(),
            r.value() == byte_seq_val(bytes@) % field_modulus(),
    {
        felt_reduce_call(bytes)
    }

    /// Field addition.
    pub fn add(&self, rhs: &FieldElement) -> (r: FieldElement)
        requires
            self.wf(),
            rhs.wf(),
        ensures
            r.wf(),
            r.value() == (self.value() + rhs.value()) % field_modulus(),
    {
        felt_add_call(self, rhs)
    }

    /// Field subtraction.
    pub fn sub(&self, rhs: &FieldElement) -> (r: FieldElement)
        requires
            self.wf(),
            rhs.wf(),
        ensures
            r.wf(),
            r.value() == (self.value() - rhs.value() + field_modulus()) % field_modulus(),
    {
        felt_sub_call(self, rhs)
    }

    /// Field multiplication.
    pub fn mul(&self, rhs: &FieldElement) -> (r: FieldElement)
        requires
            self.wf(),
            rhs.wf(),
        ensures
            r.wf(),
            r.value() == (self.value() * rhs.value()) % field_modulus(),
    {
        felt_mul_call(self, rhs)
    }

    /// Additive inverse.
    pub fn neg(&self) -> (r: FieldElement)
        requires
            self.wf(),
        ensures
            r.wf(),
            r.value() == (field_modulus() - self.value()) % field_modulus(),
    {
        felt_neg_call(self)
    }

    /// Multiplicative inverse; the additive identity is rejected with
    /// `DivisionByZero`, and every accepted element satisfies
    /// x * invert(x) == 1 modulo p.
    pub fn invert(&self) -> (r: Result<FieldElement, CryptoError>)
        requires
            self.wf(),
        ensures
            (r is Err) <==> self.value() == 0,
            r matches Err(e) ==> e == CryptoError::DivisionByZero,
            r matches Ok(f) ==> f.wf() && (self.value() * f.value()) % field_modulus() == 1,
    {
        if self.is_zero() {
            Err(CryptoError::DivisionByZero)
        } else {
            Ok(felt_inverse_call(self))
        }
    }

    /// Exponentiation by the integer value of `exponent`.
    pub fn pow(&self, exponent: &FieldElement) -> (r: FieldElement)
        requires
            self.wf(),
            exponent.wf(),
        ensures
            r.wf(),
            r.value() == int_pow(self.value(), exponent.value()) % field_modulus(),
    {
        felt_pow_call(self, exponent)
    }
}

} // verus!
