use vstd::prelude::*;

use crate::curve::{
    curve_rhs, ec_mul_of, generator, generator_x, generator_y, point_add, point_neg, rhs_element,
    spec_point_add, spec_point_neg, CurvePoint,
};
use crate::error::CryptoError;
use crate::field::{
    curve_order, element_bound, felt_sqrt_call, lemma_constant_order, sqrt_of, FieldElement,
};

verus! {

/// An ECDSA signature over the curve: the pair (r, s).
#[derive(Clone, Copy, Debug, PartialEq, Eq)]
pub struct Signature {
    pub r: FieldElement,
    pub s: FieldElement,
}

/// The x-coordinate of a scalar times the curve generator.
pub uninterp spec fn public_key_of(scalar: int) -> int;

/// The deterministic nonce derived from the message hash, the private key and
/// the extra seed by the HMAC-based construction of RFC 6979, adapted to the
/// curve order.
pub uninterp spec fn rfc6979_k_of(msg_hash: int, private_key: int, seed: int) -> int;

/// The signature components (r, s) produced from a private key, message hash
/// and nonce, or None when r or s would fall outside [1, 2^251) and the
/// signing attempt must be retried with a fresh nonce.
pub uninterp spec fn ecdsa_sign_of(private_key: int, msg_hash: int, k: int) -> Option<(int, int)>;

/// The multiplicative inverse modulo the curve order, as computed by the
/// extended Euclidean algorithm and normalized into [0, n).
pub uninterp spec fn inv_mod_order_of(s: int) -> int;

/// Whether a value is acceptable as a signature component or message hash.
pub open spec fn sig_component_in_range(x: int) -> bool {
    1 <= x < element_bound()
}

/// Whether a value is acceptable as a private key.
pub open spec fn private_key_in_range(d: int) -> bool {
    1 <= d < curve_order()
}

/// Whether the signature (r, s) matches the public key point (pk, y) and the
/// message hash, given w = s^-1 mod n: either recombined point
/// u1*G + u2*Q or u1*G - u2*Q must be a proper point whose x-coordinate
/// equals r. A recombined point at infinity matches nothing.
pub open spec fn ecdsa_matches(pk: int, y: int, msg: int, r: int, s: int, w: int) -> bool {
    let u1 = (msg * w) % curve_order();
    let u2 = (r * w) % curve_order();
    let p1 = ec_mul_of(u1, generator_x(), generator_y());
    let p2 = ec_mul_of(u2, pk, y);
    let c1 = spec_point_add(p1, p2);
    let c2 = spec_point_add(p1, spec_point_neg(p2));
    (!c1.2 && c1.0 == r) || (!c2.2 && c2.0 == r)
}

/// The outcome of the curve check for in-range inputs, mirroring the
/// reference verification: w = s^-1 mod n must lie in [1, 2^251)
/// (`InvalidInput` otherwise); the public key x-coordinate must give a
/// square for the curve equation (`InvalidPublicKey` otherwise); and the
/// boolean answer accepts either sign convention of the recombined point.
/// Where the reference aborts on a recombined point at infinity, that branch
/// here simply fails to match.
pub open spec fn ecdsa_verify_outcome(pk: int, msg: int, r: int, s: int) -> Result<
    bool,
    CryptoError,
> {
    let w = inv_mod_order_of(s);
    if !(1 <= w < element_bound()) {
        Result::Err(CryptoError::InvalidInput)
    } else {
        match sqrt_of(curve_rhs(pk)) {
            Option::None => Result::Err(CryptoError::InvalidPublicKey),
            Option::Some(y) => Result::Ok(ecdsa_matches(pk, y, msg, r, s, w)),
        }
    }
}

/// Relies on starknet-crypto's get_public_key: the x-coordinate of the scalar
/// product of the private key with the curve generator. The scalar is kept in
/// [1, n), so the product is never the point at infinity.
#[verifier::external_body]
fn get_public_key_call(private_key: &FieldElement) -> (r: FieldElement)
    requires
        private_key.wf(),
        1 <= private_key.value() < curve_order(),
    ensures
        r.wf(),
        r.value() == public_key_of(private_key.value()),
{
    let pk = starknet_crypto::Felt::from_bytes_le(&private_key.bytes);
    FieldElement { bytes: starknet_crypto::get_public_key(&pk).to_bytes_le() }
}

/// Relies on starknet-crypto's rfc6979_generate_k: a deterministic function
/// of the message hash, the private key and the seed, whose result is always
/// in [1, n).
#[verifier::external_body]
fn rfc6979_call(msg_hash: &FieldElement, private_key: &FieldElement, seed: &FieldElement) -> (r:
    FieldElement)
    requires
        msg_hash.wf(),
        private_key.wf(),
        seed.wf(),
    ensures
        r.wf(),
        1 <= r.value() < curve_order(),
        r.value() == rfc6979_k_of(msg_hash.value(), private_key.value(), seed.value()),
{
    let m = starknet_crypto::Felt::from_bytes_le(&msg_hash.bytes);
    let pk = starknet_crypto::Felt::from_bytes_le(&private_key.bytes);
    let sd = starknet_crypto::Felt::from_bytes_le(&seed.bytes);
    FieldElement { bytes: starknet_crypto::rfc6979_generate_k(&m, &pk, Some(&sd)).to_bytes_le() }
}

/// Relies on starknet-crypto's sign: deterministic in (private_key, msg_hash,
/// k); succeeds with r = x(k*G) and s satisfying s*k = msg_hash + r*d mod n,
/// both in [1, 2^251), or reports that the nonce must be retried. The nonce
/// is kept in [1, n), so the scalar product inside never degenerates.
#[verifier::external_body]
fn ecdsa_sign_call(private_key: &FieldElement, msg_hash: &FieldElement, k: &FieldElement) -> (r:
    Result<Signature, CryptoError>)
    requires
        private_key.wf(),
        msg_hash.wf(),
        msg_hash.value() < element_bound(),
        k.wf(),
        1 <= k.value() < curve_order(),
    ensures
        r matches Ok(sig) ==> sig.r.wf() && sig.s.wf() && sig_component_in_range(sig.r.value())
            && sig_component_in_range(sig.s.value()) && ecdsa_sign_of(
            private_key.value(),
            msg_hash.value(),
            k.value(),
        ) == Some((sig.r.value(), sig.s.value())) && sig.r.value() == public_key_of(k.value()) && (
        sig.s.value() * k.value()) % curve_order() == (msg_hash.value() + sig.r.value()
            * private_key.value()) % curve_order(),
        r matches Err(e) ==> e == CryptoError::SigningRetryRequired && ecdsa_sign_of(
            private_key.value(),
            msg_hash.value(),
            k.value(),
        ) is None,
{
    let pk = starknet_crypto::Felt::from_bytes_le(&private_key.bytes);
    let m = starknet_crypto::Felt::from_bytes_le(&msg_hash.bytes);
    let kk = starknet_crypto::Felt::from_bytes_le(&k.bytes);
    match starknet_crypto::sign(&pk, &m, &kk) {
        Ok(sig) => Ok(
            Signature {
                r: FieldElement { bytes: sig.r.to_bytes_le() },
                s: FieldElement { bytes: sig.s.to_bytes_le() },
            },
        ),
        Err(_) => Err(CryptoError::SigningRetryRequired),
    }
}

/// Relies on starknet-types-core's Felt::mod_inverse with the curve order as
/// modulus: the extended Euclidean algorithm, normalized into [0, n). The
/// operand is in [1, n) and n is prime, so the gcd is 1, the inverse exists,
/// and the product with the operand is 1 modulo n.
#[verifier::external_body]
fn mod_inverse_order_call(s: &FieldElement) -> (r: FieldElement)
    requires
        s.wf(),
        1 <= s.value() < curve_order(),
    ensures
        r.wf(),
        r.value() == inv_mod_order_of(s.value()),
        0 <= r.value() < curve_order(),
        (s.value() * r.value()) % curve_order() == 1,
{
    let sf = starknet_crypto::Felt::from_bytes_le(&s.bytes);
    let n = starknet_types_core::felt::NonZeroFelt::try_from(
        starknet_curve::curve_params::EC_ORDER,
    ).unwrap();
    FieldElement { bytes: sf.mod_inverse(&n).unwrap().to_bytes_le() }
}

/// Relies on starknet-types-core's Felt::mul_mod with the curve order as
/// modulus: the product of the two operand values reduced modulo n.
#[verifier::external_body]
fn mul_mod_order_call(a: &FieldElement, b: &FieldElement) -> (r: FieldElement)
    requires
        a.wf(),
        b.wf(),
    ensures
        r.wf(),
        r.value() == (a.value() * b.value()) % curve_order(),
        0 <= r.value() < curve_order(),
{
    let af = starknet_crypto::Felt::from_bytes_le(&a.bytes);
    let bf = starknet_crypto::Felt::from_bytes_le(&b.bytes);
    let n = starknet_types_core::felt::NonZeroFelt::try_from(
        starknet_curve::curve_params::EC_ORDER,
    ).unwrap();
    FieldElement { bytes: af.mul_mod(&bf, &n).to_bytes_le() }
}

/// Derives the public key for a private key in [1, n); a key outside that
/// range is rejected with `InvalidScalar`.
pub fn get_public_key(private_key: &FieldElement) -> (r: Result<FieldElement, CryptoError>)
    requires
        private_key.wf(),
    ensures
        (r is Ok) <==> private_key_in_range(private_key.value()),
        r matches Err(e) ==> e == CryptoError::InvalidScalar,
        r matches Ok(pk) ==> pk.wf() && pk.value() == public_key_of(private_key.value()),
{
    if private_key.is_zero() || !private_key.below_curve_order() {
        Err(CryptoError::InvalidScalar)
    } else {
        Ok(get_public_key_call(private_key))
    }
}

/// Signs a message hash with a deterministic nonce derived from the private
/// key, the message hash and the seed. A private key outside [1, n) is
/// rejected with `InvalidScalar`; a message hash at or above 2^251 is
/// rejected with `OutOfRange`; a nonce whose signature degenerates is
/// reported with `SigningRetryRequired`, and the caller retries with another
/// seed.
pub fn sign(private_key: &FieldElement, msg_hash: &FieldElement, seed: &FieldElement) -> (res:
    Result<Signature, CryptoError>)
    requires
        private_key.wf(),
        msg_hash.wf(),
        seed.wf(),
    ensures
        !private_key_in_range(private_key.value()) ==> (res matches Err(e) && e
            == CryptoError::InvalidScalar),
        private_key_in_range(private_key.value()) && msg_hash.value() >= element_bound() ==> (
        res matches Err(e) && e == CryptoError::OutOfRange),
        private_key_in_range(private_key.value()) && msg_hash.value() < element_bound() ==> ({
            let k = rfc6979_k_of(msg_hash.value(), private_key.value(), seed.value());
            match res {
                Ok(sig) => ecdsa_sign_of(private_key.value(), msg_hash.value(), k) == Some(
                    (sig.r.value(), sig.s.value()),
                ) && sig.r.wf() && sig.s.wf() && sig_component_in_range(sig.r.value())
                    && sig_component_in_range(sig.s.value()) && sig.r.value() == public_key_of(k)
                    && (sig.s.value() * k) % curve_order() == (msg_hash.value() + sig.r.value()
                    * private_key.value()) % curve_order(),
                Err(e) => e == CryptoError::SigningRetryRequired && ecdsa_sign_of(
                    private_key.value(),
                    msg_hash.value(),
                    k,
                ) is None,
            }
        }),
{
    if private_key.is_zero() || !private_key.below_curve_order() {
        return Err(CryptoError::InvalidScalar);
    }
    if !msg_hash.below_element_bound() {
        return Err(CryptoError::OutOfRange);
    }
    let k = rfc6979_call(msg_hash, private_key, seed);
    ecdsa_sign_call(private_key, msg_hash, &k)
}

/// Checks a signature. The message hash must be below 2^251 (`OutOfRange`
/// otherwise); r and s must both be in [1, 2^251), and are rejected with
/// `InvalidInput` before any curve arithmetic when they are not; the
/// remaining outcome, error kind included, is pinned by
/// `ecdsa_verify_outcome`. A well-formed but incorrect signature returns
/// Ok(false), never an error.
pub fn verify(
    public_key: &FieldElement,
    msg_hash: &FieldElement,
    r: &FieldElement,
    s: &FieldElement,
) -> (res: Result<bool, CryptoError>)
    requires
        public_key.wf(),
        msg_hash.wf(),
        r.wf(),
        s.wf(),
    ensures
        msg_hash.value() >= element_bound() ==> (res matches Err(e) && e
            == CryptoError::OutOfRange),
        msg_hash.value() < element_bound() && !sig_component_in_range(r.value()) ==> (res matches
            Err(e) && e == CryptoError::InvalidInput),
        msg_hash.value() < element_bound() && sig_component_in_range(r.value())
            && !sig_component_in_range(s.value()) ==> (res matches Err(e) && e
            == CryptoError::InvalidInput),
        msg_hash.value() < element_bound() && sig_component_in_range(r.value())
            && sig_component_in_range(s.value()) ==> res == ecdsa_verify_outcome(
            public_key.value(),
            msg_hash.value(),
            r.value(),
            s.value(),
        ),
{
    if !msg_hash.below_element_bound() {
        return Err(CryptoError::OutOfRange);
    }
    if r.is_zero() || !r.below_element_bound() {
        return Err(CryptoError::InvalidInput);
    }
    if s.is_zero() || !s.below_element_bound() {
        return Err(CryptoError::InvalidInput);
    }
    proof {
        lemma_constant_order();
    }
    let w = mod_inverse_order_call(s);
    if w.is_zero() || !w.below_element_bound() {
        return Err(CryptoError::InvalidInput);
    }
    let rhs = rhs_element(public_key);
    match felt_sqrt_call(&rhs) {
        None => Err(CryptoError::InvalidPublicKey),
        Some(y) => {
            let u1 = mul_mod_order_call(msg_hash, &w);
            let u2 = mul_mod_order_call(r, &w);
            let g = generator();
            let p1 = crate::curve::ec_mul_call(&u1, &g.x, &g.y);
            let p2 = crate::curve::ec_mul_call(&u2, public_key, &y);
            let c1 = point_add(&p1, &p2);
            let np2 = point_neg(&p2);
            let c2 = point_add(&p1, &np2);
            let m1 = !c1.infinity && c1.x.equals(r);
            let m2 = !c2.infinity && c2.x.equals(r);
            Ok(m1 || m2)
        },
    }
}

} // verus!
