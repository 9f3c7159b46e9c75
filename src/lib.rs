//! A weighted pairing-product relation over BN254, evaluated on its raw
//! witness the way its circuit constrains it, with the foreign-field limb
//! encoding of the witness, the public-input commitment that binds it, and
//! the stage machine of the recursive proof pipeline around it.
//!
//! - `field`: 256-bit words as three 88-bit limbs, checked against the base
//!   and scalar moduli.
//! - `points`: G1 and G2 points built from checked coordinates, and the
//!   on-curve-or-identity checks.
//! - `curve`: group and pairing arithmetic, computed by arkworks.
//! - `pairing`: products of pairings over a list of terms, and the check
//!   against an expected target.
//! - `commitment`: word-by-word serialization and the Keccak-256 commitment.
//! - `pairing_circuit`: the weighted pairing-product relation and its public
//!   input.
//! - `fraud_circuit`: the discrete-log-plus-ciphertext relation.
//! - `pipeline`: the ordered stages of inner proof, compression and
//!   finalization.
//! - `rows`: the circuit's row budget.
pub mod field;
pub mod points;
pub mod curve;
pub mod commitment;
pub mod pairing;
pub mod pairing_circuit;
pub mod fraud_circuit;
pub mod pipeline;
pub mod rows;
