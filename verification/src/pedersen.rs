use vstd::prelude::*;

use crate::field::FieldElement;

verus! {

/// The Pedersen hash of two field elements: the x-coordinate of the point
/// obtained by combining the fixed generator points with the bit chunks of
/// the two operands. A function of the two operand values alone.
pub uninterp spec fn pedersen_of(a: int, b: int) -> int;

/// Relies on starknet-crypto's pedersen_hash: the fixed-generator Pedersen
/// point combination over the curve, returning the x-coordinate of the
/// resulting point as a field element.
#[verifier::external_body]
fn pedersen_call(a: &FieldElement, b: &FieldElement) -> (r: FieldElement)
    requires
        a.wf(),
        b.wf(),
    ensures
        r.wf(),
        r.value() == pedersen_of(a.value(), b.value()),
{
    let x = starknet_crypto::Felt::from_bytes_le(&a.bytes);
    let y = starknet_crypto::Felt::from_bytes_le(&b.bytes);
    FieldElement { bytes: starknet_crypto::pedersen_hash(&x, &y).to_bytes_le() }
}

/// The Pedersen hash of (left, right). Deterministic: the result is pinned to
/// a function of the two operand values, so repeated calls with equal inputs
/// return equal outputs.
pub fn pedersen_hash(left: &FieldElement, right: &FieldElement) -> (r: FieldElement)
    requires
        left.wf(),
        right.wf(),
    ensures
        r.wf(),
        r.value() == pedersen_of(left.value(), right.value()),
{
    pedersen_call(left, right)
}

} // verus!
