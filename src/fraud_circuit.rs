//! The discrete-log-plus-ciphertext relation: sk·G = PK in G1, and
//! c1 · c2 = tag in Fq12, with the public value that commits to its public
//! data and its tag.
use crate::commitment::{
    append_bytes, bytes_equal, commit, public_input_hash, push_word, words_to_bytes,
};
use crate::curve::{fq12_mul_of, fq12_product, g1_mul_of, g1_scale};
use crate::field::{
    fq_modulus, fr_modulus, le_value, word_below_fq_modulus, word_below_fr_modulus, Word,
};
use crate::pairing_circuit::{target_bytes, RelationError};
use crate::rows::{min_num_rows, TOTAL_ROWS};
use crate::points::{decompose_g1, g1_equal, g1_of_raw, raw_g1_in_range, RawG1};
use vstd::prelude::*;

verus! {

/// A witness of the discrete-log-plus-ciphertext relation.
pub struct MyFraudCircuit {
    /// The base point G.
    pub g: RawG1,
    /// The public key PK.
    pub pk: RawG1,
    /// The secret key sk, a little-endian scalar.
    pub sk: Word,
    /// The first ciphertext component, as twelve Fq12 coefficients.
    pub c1: [Word; 12],
    /// The second ciphertext component.
    pub c2: [Word; 12],
    /// The claimed product c1 · c2.
    pub tag: [Word; 12],
}

/// Whether all twelve coefficients are below the base-field modulus.
pub open spec fn coeffs_in_range(t: [Word; 12]) -> bool {
    forall|i: int| 0 <= i < 12 ==> le_value((#[trigger] t@[i])@) < fq_modulus()
}

/// Every coordinate and coefficient is below the base-field modulus and the
/// secret key below the group order.
pub open spec fn fraud_in_range(c: MyFraudCircuit) -> bool {
    &&& raw_g1_in_range(c.g)
    &&& raw_g1_in_range(c.pk)
    &&& le_value(c.sk@) < fr_modulus()
    &&& coeffs_in_range(c.c1)
    &&& coeffs_in_range(c.c2)
}

/// Both equations hold: sk·G = PK, and c1 · c2 = tag.
pub open spec fn fraud_holds(c: MyFraudCircuit) -> bool {
    &&& g1_mul_of(g1_of_raw(c.g), c.sk@) == g1_of_raw(c.pk)
    &&& fq12_mul_of(target_bytes(c.c1), target_bytes(c.c2)) == Some(target_bytes(c.tag))
}

/// What evaluating a witness yields: a range error, then whether both
/// equations hold.
pub open spec fn fraud_outcome(c: MyFraudCircuit) -> Result<(), RelationError> {
    if !fraud_in_range(c) {
        Err(RelationError::OutOfRange)
    } else if fraud_holds(c) {
        Ok(())
    } else {
        Err(RelationError::Unsatisfied)
    }
}

/// The public data of a witness, in the order of serialization: G, PK, c1
/// and c2, 32 little-endian bytes per word. The secret key is left out.
pub open spec fn fraud_input_bytes(c: MyFraudCircuit) -> Seq<u8> {
    c.g.0@ + c.g.1@ + c.pk.0@ + c.pk.1@ + target_bytes(c.c1) + target_bytes(c.c2)
}

/// Whether all twelve coefficients are below the base-field modulus.
pub fn check_coeffs(t: &[Word; 12]) -> (r: bool)
    ensures
        r == coeffs_in_range(*t),
{
    let mut i: usize = 0;
    while i < 12
        invariant
            0 <= i <= 12,
            forall|k: int| 0 <= k < i ==> le_value((#[trigger] t@[k])@) < fq_modulus(),
        decreases 12 - i,
    {
        if !word_below_fq_modulus(&t[i]) {
            return false;
        }
        i = i + 1;
    }
    true
}

impl MyFraudCircuit {
    /// The rows left usable in the circuit when `unusable_rows` are lost to
    /// blinding.
    pub fn min_num_rows(unusable_rows: usize) -> (r: usize)
        requires
            1 <= unusable_rows,
            unusable_rows + 2 <= TOTAL_ROWS,
        ensures
            r == TOTAL_ROWS - ((unusable_rows - 1) + 3),
    {
        min_num_rows(unusable_rows)
    }

    /// Evaluates the relation on this witness: every input against its
    /// modulus, then sk·G = PK and c1 · c2 = tag.
    pub fn assign(&self) -> (r: Result<(), RelationError>)
        ensures
            r == fraud_outcome(*self),
    {
        let g = decompose_g1(&self.g);
        let pk = decompose_g1(&self.pk);
        let (g, pk) = match (g, pk) {
            (Some(g), Some(pk)) => (g, pk),
            _ => {
                return Err(RelationError::OutOfRange);
            },
        };
        if !word_below_fr_modulus(&self.sk) || !check_coeffs(&self.c1) || !check_coeffs(&self.c2) {
            return Err(RelationError::OutOfRange);
        }
        let g_sk = g1_scale(&g, &self.sk);
        if !g1_equal(&g_sk, &pk) {
            return Err(RelationError::Unsatisfied);
        }
        let a = words_to_bytes(&self.c1);
        let b = words_to_bytes(&self.c2);
        let tag = words_to_bytes(&self.tag);
        match fq12_product(&a, &b) {
            Some(p) => {
                if bytes_equal(&p, &tag) {
                    Ok(())
                } else {
                    Err(RelationError::Unsatisfied)
                }
            },
            None => Err(RelationError::Unsatisfied),
        }
    }

    /// The serialized public data: G, PK, c1 and c2.
    pub fn input_bytes(&self) -> (r: Vec<u8>)
        ensures
            r@ == fraud_input_bytes(*self),
    {
        let mut buf: Vec<u8> = Vec::new();
        push_word(&mut buf, &self.g.0);
        push_word(&mut buf, &self.g.1);
        push_word(&mut buf, &self.pk.0);
        push_word(&mut buf, &self.pk.1);
        let c1 = words_to_bytes(&self.c1);
        let c2 = words_to_bytes(&self.c2);
        append_bytes(&mut buf, &c1);
        append_bytes(&mut buf, &c2);
        buf
    }

    /// The public inputs: one vector of the 32 bytes of the public-input
    /// hash, the digest of the public data's digest followed by the tag.
    pub fn instance(&self) -> (r: Vec<Vec<u8>>)
        ensures
            r@.len() == 1,
            r@[0]@ == public_input_hash(fraud_input_bytes(*self), target_bytes(self.tag)),
            r@[0]@.len() == 32,
    {
        let inputs = self.input_bytes();
        let result = words_to_bytes(&self.tag);
        let hash = commit(&inputs, &result);
        let mut out: Vec<u8> = Vec::new();
        push_word(&mut out, &hash);
        vec![out]
    }

    /// The public inputs, as the proving back end asks for them.
    pub fn instances(&self) -> (r: Vec<Vec<u8>>)
        ensures
            r@.len() == 1,
            r@[0]@ == public_input_hash(fraud_input_bytes(*self), target_bytes(self.tag)),
            r@[0]@.len() == 32,
    {
        self.instance()
    }

    /// The length of each public-input vector: one vector of 32.
    pub fn num_instance(&self) -> (r: Vec<usize>)
        ensures
            r@ == seq![32usize],
    {
        let r = vec![32];
        proof {
            assert(r@ =~= seq![32usize]);
        }
        r
    }
}

} // verus!
