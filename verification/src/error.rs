use vstd::prelude::*;

verus! {

/// The failure kinds reported by the library.
#[derive(Clone, Copy, Debug, PartialEq, Eq, Structural)]
pub enum CryptoError {
    /// A field-element or hash input is not below its documented bound.
    OutOfRange,
    /// A private key is zero or not below the curve order.
    InvalidScalar,
    /// The supplied x-coordinate does not lie on the curve.
    InvalidPublicKey,
    /// A signature component handed to verification is zero or out of range.
    InvalidInput,
    /// Field inversion of the additive identity.
    DivisionByZero,
    /// The derived nonce yields r == 0 or s == 0; retry with another seed.
    SigningRetryRequired,
}

} // verus!
