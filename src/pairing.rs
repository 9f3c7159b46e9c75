//! Products of pairings: one Miller loop per (G1, G2) term, multiplied
//! together, then a single final exponentiation, compared coefficient-wise
//! with an expected target.
use crate::commitment::bytes_equal;
use crate::curve::{
    final_exp_of, final_exponentiation, fq12_mul_of, fq12_product, miller_loop, miller_loop_of,
    opt_bytes,
};
use crate::points::{G1Point, G1View, G2Point, G2View};
use vstd::prelude::*;

verus! {

/// The identity of Fq12, one, as its twelve coefficients' bytes.
pub open spec fn fq12_one() -> Seq<u8> {
    Seq::new(384, |i: int| if i == 0 { 1u8 } else { 0u8 })
}

/// The bytes of one in Fq12.
pub fn fq12_one_bytes() -> (r: Vec<u8>)
    ensures
        r@ == fq12_one(),
{
    let mut out: Vec<u8> = Vec::new();
    out.push(1u8);
    let mut i: usize = 1;
    while i < 384
        invariant
            1 <= i <= 384,
            out@.len() == i,
            forall|k: int| 0 <= k < i ==> out@[k] == (if k == 0 { 1u8 } else { 0u8 }),
        decreases 384 - i,
    {
        out.push(0u8);
        i = i + 1;
    }
    proof {
        assert(out@ =~= fq12_one());
    }
    out
}

/// The product of the Miller loops of the first `k` terms, multiplied left
/// to right; the empty product is one.
pub open spec fn miller_product(t: Seq<(G1View, G2View)>, k: nat) -> Option<Seq<u8>>
    decreases k,
{
    if k == 0 {
        Some(fq12_one())
    } else if k == 1 {
        Some(miller_loop_of(t[0].0, t[0].1))
    } else {
        match miller_product(t, (k - 1) as nat) {
            Some(f) => fq12_mul_of(f, miller_loop_of(t[k - 1].0, t[k - 1].1)),
            None => None,
        }
    }
}

/// The product of the pairings of all terms: one final exponentiation of
/// the product of their Miller loops. The product of no pairings is one.
pub open spec fn pairing_product(t: Seq<(G1View, G2View)>) -> Option<Seq<u8>> {
    if t.len() == 0 {
        Some(fq12_one())
    } else {
        match miller_product(t, t.len()) {
            Some(f) => final_exp_of(f),
            None => None,
        }
    }
}

/// Once a partial Miller product fails, every longer one fails too.
pub proof fn lemma_miller_product_none(t: Seq<(G1View, G2View)>, k: nat, j: nat)
    requires
        1 <= k <= j,
        miller_product(t, k) is None,
    ensures
        miller_product(t, j) is None,
    decreases j - k,
{
    if k < j {
        lemma_miller_product_none(t, k, (j - 1) as nat);
    }
}

/// Executable pairing terms as views.
pub open spec fn terms_view(t: Seq<(G1Point, G2Point)>) -> Seq<(G1View, G2View)> {
    t.map_values(|p: (G1Point, G2Point)| (p.0@, p.1@))
}

/// The product of the Miller loops of all terms, multiplied left to right:
/// the first stage of a multi-pairing.
pub fn multi_miller_loop(terms: &Vec<(G1Point, G2Point)>) -> (r: Option<Vec<u8>>)
    ensures
        opt_bytes(r) == miller_product(terms_view(terms@), terms@.len()),
{
    let ghost tv = terms_view(terms@);
    if terms.len() == 0 {
        return Some(fq12_one_bytes());
    }
    let mut f = miller_loop(&terms[0].0, &terms[0].1);
    let mut k: usize = 1;
    while k < terms.len()
        invariant
            1 <= k <= terms@.len(),
            tv == terms_view(terms@),
            Some(f@) == miller_product(tv, k as nat),
        decreases terms.len() - k,
    {
        let m = miller_loop(&terms[k].0, &terms[k].1);
        match fq12_product(&f, &m) {
            Some(g) => {
                f = g;
            },
            None => {
                proof {
                    lemma_miller_product_none(tv, (k + 1) as nat, terms@.len());
                }
                return None;
            },
        }
        k = k + 1;
    }
    Some(f)
}

/// Whether the product of the pairings of the terms equals `target`: one
/// multi-Miller loop, one final exponentiation, then a coefficient-wise
/// comparison.
pub fn pairing_check(terms: &Vec<(G1Point, G2Point)>, target: &Vec<u8>) -> (r: bool)
    ensures
        r == (pairing_product(terms_view(terms@)) == Some(target@)),
{
    if terms.len() == 0 {
        let one = fq12_one_bytes();
        return bytes_equal(&one, target);
    }
    match multi_miller_loop(terms) {
        Some(f) => match final_exponentiation(&f) {
            Some(g) => bytes_equal(&g, target),
            None => false,
        },
        None => false,
    }
}

} // verus!
