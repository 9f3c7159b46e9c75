//! BN254 group and pairing arithmetic, computed by arkworks.
//!
//! Every result here depends on its arguments alone, and takes far more than
//! a contract to state; each is named by a spec function that the wrapper's
//! `ensures` applies. Field elements cross the boundary as 32 little-endian
//! bytes; an element of the degree-12 extension as the 384 bytes of its
//! twelve coefficients, in the order c0.c0.c0, c0.c0.c1, c0.c1.c0, ...,
//! c1.c2.c1 of its tower Fq2 < Fq6 < Fq12.
use crate::field::{le_value, Word};
use crate::points::{g1_equation, g2_equation, G1Point, G1View, G2Point, G2View};
use ark_bn254::{Bn254, Fq, Fq12, Fq2, Fr, G1Affine, G2Affine};
use ark_ec::pairing::{MillerLoopOutput, Pairing};
use ark_ec::CurveGroup;
use ark_ff::{BigInteger, PrimeField};
use ark_serialize::{CanonicalDeserialize, CanonicalSerialize};
use vstd::prelude::*;

verus! {

/// `w`·`p` in G1, the scalar read little-endian and reduced modulo the group order.
pub uninterp spec fn g1_mul_of(p: G1View, w: Seq<u8>) -> G1View;

/// `a` + `b` in G1.
pub uninterp spec fn g1_add_of(a: G1View, b: G1View) -> G1View;

/// The Miller loop of the optimal ate pairing on `(p, q)`, as Fq12 bytes.
pub uninterp spec fn miller_loop_of(p: G1View, q: G2View) -> Seq<u8>;

/// The product of two Fq12 elements; `None` where a factor's bytes are not
/// a canonical encoding.
pub uninterp spec fn fq12_mul_of(a: Seq<u8>, b: Seq<u8>) -> Option<Seq<u8>>;

/// The final exponentiation of a Miller-loop value; `None` where the bytes
/// are not a canonical encoding or the value is zero.
pub uninterp spec fn final_exp_of(f: Seq<u8>) -> Option<Seq<u8>>;

/// An optional byte vector as an optional sequence.
pub open spec fn opt_bytes(o: Option<Vec<u8>>) -> Option<Seq<u8>> {
    match o {
        Some(v) => Some(v@),
        None => None,
    }
}

/// Relies on ark-ec's `Affine::is_on_curve` for BN254's G1, on a point that
/// is not flagged as the identity: whether y² = x³ + 3 in Fq.
#[verifier::external_body]
pub(crate) fn g1_equation_holds(x: &Word, y: &Word) -> (r: bool)
    ensures
        r == g1_equation(le_value(x@) as int, le_value(y@) as int),
{
    G1Affine::new_unchecked(Fq::from_le_bytes_mod_order(x), Fq::from_le_bytes_mod_order(y))
        .is_on_curve()
}

/// Relies on ark-ec's `Affine::is_on_curve` for BN254's G2, on a point that
/// is not flagged as the identity: whether y² = x³ + 3 / (9 + u) in Fq2.
#[verifier::external_body]
pub(crate) fn g2_equation_holds(q: &G2Point) -> (r: bool)
    ensures
        r == g2_equation(
            le_value(q.x0@) as int,
            le_value(q.x1@) as int,
            le_value(q.y0@) as int,
            le_value(q.y1@) as int,
        ),
{
    let x = Fq2::new(Fq::from_le_bytes_mod_order(&q.x0), Fq::from_le_bytes_mod_order(&q.x1));
    let y = Fq2::new(Fq::from_le_bytes_mod_order(&q.y0), Fq::from_le_bytes_mod_order(&q.y1));
    G2Affine::new_unchecked(x, y).is_on_curve()
}

/// Relies on ark-ec's `Affine<g1::Config> * Fr` followed by `into_affine`:
/// scalar multiplication in G1.
#[verifier::external_body]
pub(crate) fn g1_scale(p: &G1Point, w: &[u8; 32]) -> (r: G1Point)
    ensures
        r@ == g1_mul_of(p@, w@),
{
    let a = G1Affine {
        x: Fq::from_le_bytes_mod_order(&p.x),
        y: Fq::from_le_bytes_mod_order(&p.y),
        infinity: p.infinity,
    };
    let q = (a * Fr::from_le_bytes_mod_order(w)).into_affine();
    let x = q.x.into_bigint().to_bytes_le().try_into().unwrap();
    let y = q.y.into_bigint().to_bytes_le().try_into().unwrap();
    G1Point { x, y, infinity: q.infinity }
}

/// Relies on ark-ec's `Affine<g1::Config> + Affine<g1::Config>` followed by
/// `into_affine`: addition in G1.
#[verifier::external_body]
pub(crate) fn g1_sum(a: &G1Point, b: &G1Point) -> (r: G1Point)
    ensures
        r@ == g1_add_of(a@, b@),
{
    let pa = G1Affine {
        x: Fq::from_le_bytes_mod_order(&a.x),
        y: Fq::from_le_bytes_mod_order(&a.y),
        infinity: a.infinity,
    };
    let pb = G1Affine {
        x: Fq::from_le_bytes_mod_order(&b.x),
        y: Fq::from_le_bytes_mod_order(&b.y),
        infinity: b.infinity,
    };
    let q = (pa + pb).into_affine();
    let x = q.x.into_bigint().to_bytes_le().try_into().unwrap();
    let y = q.y.into_bigint().to_bytes_le().try_into().unwrap();
    G1Point { x, y, infinity: q.infinity }
}

/// Relies on ark-ec's `Bn254::miller_loop`, serialized by ark-serialize's
/// `serialize_uncompressed`: twelve 32-byte coefficients.
#[verifier::external_body]
pub(crate) fn miller_loop(p: &G1Point, q: &G2Point) -> (r: Vec<u8>)
    ensures
        r@ == miller_loop_of(p@, q@),
        r@.len() == 384,
{
    let a = G1Affine {
        x: Fq::from_le_bytes_mod_order(&p.x),
        y: Fq::from_le_bytes_mod_order(&p.y),
        infinity: p.infinity,
    };
    let x = Fq2::new(Fq::from_le_bytes_mod_order(&q.x0), Fq::from_le_bytes_mod_order(&q.x1));
    let y = Fq2::new(Fq::from_le_bytes_mod_order(&q.y0), Fq::from_le_bytes_mod_order(&q.y1));
    let b = G2Affine { x, y, infinity: q.infinity };
    let mut out = Vec::new();
    Bn254::miller_loop(a, b).0.serialize_uncompressed(&mut out).unwrap();
    out
}

/// Relies on ark-ff's product of two `Fq12` values, read and written by
/// ark-serialize's `deserialize_uncompressed` and `serialize_uncompressed`.
#[verifier::external_body]
pub(crate) fn fq12_product(a: &Vec<u8>, b: &Vec<u8>) -> (r: Option<Vec<u8>>)
    ensures
        opt_bytes(r) == fq12_mul_of(a@, b@),
        r matches Some(v) ==> v@.len() == 384,
{
    let fa = Fq12::deserialize_uncompressed(&a[..]).ok()?;
    let fb = Fq12::deserialize_uncompressed(&b[..]).ok()?;
    let mut out = Vec::new();
    (fa * fb).serialize_uncompressed(&mut out).unwrap();
    Some(out)
}

/// Relies on ark-ec's `Bn254::final_exponentiation`, with the `Fq12` read and
/// written by ark-serialize.
#[verifier::external_body]
pub(crate) fn final_exponentiation(f: &Vec<u8>) -> (r: Option<Vec<u8>>)
    ensures
        opt_bytes(r) == final_exp_of(f@),
        r matches Some(v) ==> v@.len() == 384,
{
    let m = Fq12::deserialize_uncompressed(&f[..]).ok()?;
    let g = Bn254::final_exponentiation(MillerLoopOutput(m))?;
    let mut out = Vec::new();
    g.0.serialize_uncompressed(&mut out).unwrap();
    Some(out)
}

} // verus!
