use vstd::prelude::*;

use crate::field::{
    byte_range_val, byte_seq_val, curve_order, field_modulus, lemma_byte_range_val_split,
    lemma_constant_order, lemma_pow256_16, make_element, pow256, FieldElement,
};

verus! {

/// The x-coordinate of the curve's base point G, written from its two
/// 128-bit halves (big-endian hex digits 01ef15c18599971b7beced415a40f0c7
/// deacfd9b0d1819e03d723d8bc943cfca).
pub open spec fn generator_x() -> int {
    0xdeacfd9b0d1819e03d723d8bc943cfca + pow256(16) * 0x1ef15c18599971b7beced415a40f0c7
}

/// The y-coordinate of the curve's base point G, written from its two
/// 128-bit halves (big-endian hex digits 005668060aa49730b7be4801df46ec62
/// de53ecd11abe43a32873000c36e8dc1f).
pub open spec fn generator_y() -> int {
    0xde53ecd11abe43a32873000c36e8dc1f + pow256(16) * 0x5668060aa49730b7be4801df46ec62
}

/// The curve's beta parameter, fixed by the published base point lying on
/// the curve y^2 = x^3 + x + beta. It equals the published constant
/// 06f21413efbe40de150e596d72f7a8c5609ad26c15c915c1f4cdfcb99cee9e89.
pub open spec fn curve_beta() -> int {
    (generator_y() * generator_y() - generator_x() * generator_x() * generator_x()
        - generator_x()) % field_modulus()
}

/// The right-hand side of the curve equation at x, with alpha = 1.
pub open spec fn curve_rhs(x: int) -> int {
    (x * x * x + x + curve_beta()) % field_modulus()
}

/// Whether (x, y) satisfies the curve equation.
pub open spec fn on_curve(x: int, y: int) -> bool {
    (y * y) % field_modulus() == curve_rhs(x)
}

/// The base point satisfies the curve equation.
pub proof fn lemma_generator_on_curve()
    ensures
        on_curve(generator_x(), generator_y()),
{
    let p = field_modulus();
    let a = generator_y() * generator_y();
    let b = generator_x() * generator_x() * generator_x() + generator_x();
    lemma_constant_order();
    vstd::arithmetic::div_mod::lemma_add_mod_noop_right(b, a - b, p);
    assert(b + (a - b) == a);
}

/// The coordinates of the base point are canonical field values.
proof fn lemma_generator_below_modulus()
    ensures
        0 <= generator_x() < field_modulus(),
        0 <= generator_y() < field_modulus(),
{
    lemma_pow256_16();
    assert(0 <= generator_x() < field_modulus() && 0 <= generator_y() < field_modulus())
        by (nonlinear_arith)
        requires
            pow256(16) == 0x10000000000000000 * 0x10000000000000000,
            generator_x() == 0xdeacfd9b0d1819e03d723d8bc943cfca + pow256(16)
                * 0x1ef15c18599971b7beced415a40f0c7,
            generator_y() == 0xde53ecd11abe43a32873000c36e8dc1f + pow256(16)
                * 0x5668060aa49730b7be4801df46ec62,
            field_modulus() == 1 + pow256(16) * 0x08000000000000110000000000000000,
    ;
}

/// Negating the y-coordinate keeps a point on the curve.
pub proof fn lemma_neg_on_curve(x: int, y: int)
    requires
        0 <= y < field_modulus(),
        on_curve(x, y),
    ensures
        on_curve(x, (field_modulus() - y) % field_modulus()),
{
    let p = field_modulus();
    lemma_constant_order();
    vstd::arithmetic::div_mod::lemma_mul_mod_noop_general(p - y, p - y, p);
    assert((p - y) * (p - y) == p * (p - 2 * y) + y * y) by (nonlinear_arith);
    vstd::arithmetic::div_mod::lemma_mod_multiples_vanish(p - 2 * y, y * y, p);
}

/// A point on the curve in affine coordinates, or the point at infinity
/// (whose coordinate fields are zero and carry no meaning).
#[derive(Clone, Copy, Debug, PartialEq, Eq)]
pub struct CurvePoint {
    pub x: FieldElement,
    pub y: FieldElement,
    pub infinity: bool,
}

impl CurvePoint {
    /// A proper point has canonical coordinates satisfying the curve
    /// equation; the point at infinity stands for the group identity.
    pub open spec fn wf(&self) -> bool {
        self.infinity || (self.x.wf() && self.y.wf() && on_curve(
            self.x.value(),
            self.y.value(),
        ))
    }

    /// The point as plain values: x, y and the infinity flag.
    pub open spec fn as_tuple(&self) -> (int, int, bool) {
        (self.x.value(), self.y.value(), self.infinity)
    }
}

/// The scalar product k times the point (x, y), as plain values
/// (x, y, infinity flag) of the resulting affine point.
pub uninterp spec fn ec_mul_of(k: int, x: int, y: int) -> (int, int, bool);

/// The sum of the two proper points (x1, y1) and (x2, y2), as plain values
/// (x, y, infinity flag) of the resulting affine point.
pub uninterp spec fn ec_add_of(x1: int, y1: int, x2: int, y2: int) -> (int, int, bool);

/// Point addition extended to the identity: the identity is neutral, and two
/// proper points add by the group law.
pub open spec fn spec_point_add(a: (int, int, bool), b: (int, int, bool)) -> (int, int, bool) {
    if a.2 {
        b
    } else if b.2 {
        a
    } else {
        ec_add_of(a.0, a.1, b.0, b.1)
    }
}

/// Point negation: the identity is its own inverse, and a proper point
/// negates by mirroring its y-coordinate.
pub open spec fn spec_point_neg(a: (int, int, bool)) -> (int, int, bool) {
    if a.2 {
        a
    } else {
        (a.0, (field_modulus() - a.1) % field_modulus(), false)
    }
}

/// Relies on starknet-types-core's scalar multiplication of a projective
/// point by a Felt (double-and-add over the scalar's bits): the product of a
/// scalar in [0, n) with a curve point, the identity exactly for scalar 0
/// since the curve group has prime order n.
#[verifier::external_body]
pub(crate) fn ec_mul_call(k: &FieldElement, x: &FieldElement, y: &FieldElement) -> (r: CurvePoint)
    requires
        k.wf(),
        k.value() < curve_order(),
        x.wf(),
        y.wf(),
        on_curve(x.value(), y.value()),
    ensures
        r.wf(),
        r.as_tuple() == ec_mul_of(k.value(), x.value(), y.value()),
        r.infinity <==> k.value() == 0,
{
    let px = starknet_crypto::Felt::from_bytes_le(&x.bytes);
    let py = starknet_crypto::Felt::from_bytes_le(&y.bytes);
    let kf = starknet_crypto::Felt::from_bytes_le(&k.bytes);
    let prod = &starknet_types_core::curve::ProjectivePoint::from_affine(px, py).unwrap() * kf;
    match prod.to_affine() {
        Ok(af) => CurvePoint { x: FieldElement { bytes: af.x().to_bytes_le() }, y: FieldElement { bytes: af.y().to_bytes_le() }, infinity: false },
        Err(_) => CurvePoint { x: FieldElement { bytes: [0; 32] }, y: FieldElement { bytes: [0; 32] }, infinity: true },
    }
}

/// Relies on starknet-types-core's projective point addition (a complete
/// formula that also covers doubling and inverse pairs): the group sum of
/// two proper curve points, the identity when they are inverses.
#[verifier::external_body]
fn ec_add_call(x1: &FieldElement, y1: &FieldElement, x2: &FieldElement, y2: &FieldElement) -> (r:
    CurvePoint)
    requires
        x1.wf(),
        y1.wf(),
        on_curve(x1.value(), y1.value()),
        x2.wf(),
        y2.wf(),
        on_curve(x2.value(), y2.value()),
    ensures
        r.wf(),
        r.as_tuple() == ec_add_of(x1.value(), y1.value(), x2.value(), y2.value()),
{
    let a1 = starknet_crypto::Felt::from_bytes_le(&x1.bytes);
    let b1 = starknet_crypto::Felt::from_bytes_le(&y1.bytes);
    let a2 = starknet_crypto::Felt::from_bytes_le(&x2.bytes);
    let b2 = starknet_crypto::Felt::from_bytes_le(&y2.bytes);
    let p1 = starknet_types_core::curve::ProjectivePoint::from_affine(a1, b1).unwrap();
    let p2 = starknet_types_core::curve::ProjectivePoint::from_affine(a2, b2).unwrap();
    match (&p1 + &p2).to_affine() {
        Ok(af) => CurvePoint { x: FieldElement { bytes: af.x().to_bytes_le() }, y: FieldElement { bytes: af.y().to_bytes_le() }, infinity: false },
        Err(_) => CurvePoint { x: FieldElement { bytes: [0; 32] }, y: FieldElement { bytes: [0; 32] }, infinity: true },
    }
}

/// The curve's base point G.
pub fn generator() -> (r: CurvePoint)
    ensures
        r.wf(),
        !r.infinity,
        r.x.value() == generator_x(),
        r.y.value() == generator_y(),
{
    let gx: [u8; 32] = [
        0xca, 0xcf, 0x43, 0xc9, 0x8b, 0x3d, 0x72, 0x3d, 0xe0, 0x19, 0x18, 0x0d, 0x9b, 0xfd, 0xac,
        0xde, 0xc7, 0xf0, 0x40, 0x5a, 0x41, 0xed, 0xec, 0x7b, 0x1b, 0x97, 0x99, 0x85, 0xc1, 0x15,
        0xef, 0x01,
    ];
    let gy: [u8; 32] = [
        0x1f, 0xdc, 0xe8, 0x36, 0x0c, 0x00, 0x73, 0x28, 0xa3, 0x43, 0xbe, 0x1a, 0xd1, 0xec, 0x53,
        0xde, 0x62, 0xec, 0x46, 0xdf, 0x01, 0x48, 0xbe, 0xb7, 0x30, 0x97, 0xa4, 0x0a, 0x06, 0x68,
        0x56, 0x00,
    ];
    proof {
        lemma_byte_range_val_split(gx@, 0, 16, 32);
        assert(byte_range_val(gx@, 0, 16) == 0xdeacfd9b0d1819e03d723d8bc943cfca) by {
            reveal_with_fuel(byte_range_val, 18);
        };
        assert(byte_range_val(gx@, 16, 32) == 0x1ef15c18599971b7beced415a40f0c7) by {
            reveal_with_fuel(byte_range_val, 18);
        };
        lemma_byte_range_val_split(gy@, 0, 16, 32);
        assert(byte_range_val(gy@, 0, 16) == 0xde53ecd11abe43a32873000c36e8dc1f) by {
            reveal_with_fuel(byte_range_val, 18);
        };
        assert(byte_range_val(gy@, 16, 32) == 0x5668060aa49730b7be4801df46ec62) by {
            reveal_with_fuel(byte_range_val, 18);
        };
        lemma_generator_below_modulus();
        lemma_generator_on_curve();
    }
    let x = make_element(gx);
    let y = make_element(gy);
    CurvePoint { x, y, infinity: false }
}

/// The curve's beta parameter as a field element, computed from the base
/// point: beta = gy^2 - gx^3 - gx modulo p.
pub fn beta_element() -> (r: FieldElement)
    ensures
        r.wf(),
        r.value() == curve_beta(),
{
    let g = generator();
    let ghost p = field_modulus();
    let ghost gyv = g.y.value();
    let ghost gxv = g.x.value();
    let a = g.y.mul(&g.y);
    let b = g.x.mul(&g.x).mul(&g.x);
    let c = a.sub(&b);
    let d = c.sub(&g.x);
    proof {
        lemma_constant_order();
        vstd::arithmetic::div_mod::lemma_mul_mod_noop_general(gxv * gxv, gxv, p);
        assert(b.value() == (gxv * gxv * gxv) % p);
        vstd::arithmetic::div_mod::lemma_mod_add_multiples_vanish(a.value() - b.value(), p);
        vstd::arithmetic::div_mod::lemma_sub_mod_noop(gyv * gyv, gxv * gxv * gxv, p);
        assert(c.value() == (gyv * gyv - gxv * gxv * gxv) % p);
        vstd::arithmetic::div_mod::lemma_mod_add_multiples_vanish(c.value() - gxv, p);
        vstd::arithmetic::div_mod::lemma_sub_mod_noop(gyv * gyv - gxv * gxv * gxv, gxv, p);
        vstd::arithmetic::div_mod::lemma_small_mod(gxv as nat, p as nat);
    }
    d
}

/// The right-hand side of the curve equation at x, as a field element.
pub fn rhs_element(x: &FieldElement) -> (r: FieldElement)
    requires
        x.wf(),
    ensures
        r.wf(),
        r.value() == curve_rhs(x.value()),
{
    let beta = beta_element();
    let ghost p = field_modulus();
    let ghost xv = x.value();
    let x2 = x.mul(x);
    let x3 = x2.mul(x);
    let t = x3.add(x);
    let r = t.add(&beta);
    proof {
        lemma_constant_order();
        vstd::arithmetic::div_mod::lemma_mul_mod_noop_general(xv * xv, xv, p);
        assert(x3.value() == (xv * xv * xv) % p);
        vstd::arithmetic::div_mod::lemma_add_mod_noop(xv * xv * xv, xv, p);
        vstd::arithmetic::div_mod::lemma_small_mod(xv as nat, p as nat);
        assert(t.value() == (xv * xv * xv + xv) % p);
        vstd::arithmetic::div_mod::lemma_add_mod_noop(xv * xv * xv + xv, curve_beta(), p);
        vstd::arithmetic::div_mod::lemma_mod_bound(
            generator_y() * generator_y() - generator_x() * generator_x() * generator_x()
                - generator_x(),
            p,
        );
        vstd::arithmetic::div_mod::lemma_small_mod(curve_beta() as nat, p as nat);
    }
    r
}

/// Group addition with the identity handled: the identity is neutral, and
/// two proper points add by the curve's group law.
pub fn point_add(a: &CurvePoint, b: &CurvePoint) -> (r: CurvePoint)
    requires
        a.wf(),
        b.wf(),
    ensures
        r.wf(),
        r.as_tuple() == spec_point_add(a.as_tuple(), b.as_tuple()),
{
    if a.infinity {
        *b
    } else if b.infinity {
        *a
    } else {
        ec_add_call(&a.x, &a.y, &b.x, &b.y)
    }
}

/// The additive inverse of a point: the y-coordinate is mirrored.
pub fn point_neg(a: &CurvePoint) -> (r: CurvePoint)
    requires
        a.wf(),
    ensures
        r.wf(),
        r.as_tuple() == spec_point_neg(a.as_tuple()),
{
    if a.infinity {
        *a
    } else {
        proof {
            lemma_neg_on_curve(a.x.value(), a.y.value());
        }
        let ny = a.y.neg();
        CurvePoint { x: a.x, y: ny, infinity: false }
    }
}

} // verus!
