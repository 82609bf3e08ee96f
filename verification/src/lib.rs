//! A verifiable oblivious pseudorandom function node over secp256k1.
//!
//! The node holds a long-lived secret scalar `sk` with public key `Y = sk * G`.
//! For a blinded client point `H` it returns `Z = sk * H` together with a
//! Chaum-Pedersen proof that `Y` and `Z` share the discrete logarithm `sk`.
//!
//! Curve arithmetic, hashing, hexadecimal text and big-number arithmetic
//! are done by the `k256`, `sha2`, `hex` and `num-bigint` crates; each call
//! into them is a small private function whose contract is trusted and
//! documented where it stands. Everything else is proved against those
//! contracts.
//!
//! - `encoding`: big-endian integers and hexadecimal text.
//! - `bignum`: natural numbers of any size.
//! - `hash`: SHA-256.
//! - `curve`: scalars and points.
//! - `keys`: the key pair and the policy of its store.
//! - `codec`: the wire form of points and the public inputs of a proof.
//! - `dleq`: proofs of discrete-logarithm equality.
//! - `zk`: the decisions around the program that verifies a client's proof.
//! - `api`: one evaluation, from request to response.
//! - `cli`: the commands of the node.
//! - `registry`: the form in which the registry takes a public key.
//! - `error`: the failures of a request.

pub mod api;
pub mod bignum;
pub mod cli;
pub mod codec;
pub mod curve;
pub mod dleq;
pub mod encoding;
pub mod error;
pub mod hash;
pub mod keys;
pub mod registry;
pub mod zk;

