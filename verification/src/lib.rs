//! Chaum-Pedersen password-less authentication.
//!
//! A prover shows that two commitments `y1 = g^x mod p` and `y2 = h^x mod p`
//! share one secret exponent `x`, without disclosing it. The crate holds the
//! big-integer wire encoding, the arithmetic of the protocol, the store of
//! registered users and open challenges, and the verifying service built on
//! them. Every function is verified against a contract over mathematical
//! integers; the big-integer arithmetic itself is done by `num-bigint`.

pub mod bignat;
mod biguint;
pub mod encoding;
pub mod error;
pub mod modular;
pub mod params;
pub mod protocol;
pub mod service;
pub mod soundness;
pub mod store;
mod token;
