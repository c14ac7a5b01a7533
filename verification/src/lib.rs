pub mod curve;
pub mod ecdsa;
pub mod error;
pub mod field;
pub mod pedersen;
pub mod poseidon;
