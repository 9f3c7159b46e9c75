//! Points of BN254's G1 and of its twist G2, built from checked coordinates.
use crate::curve::{g1_equation_holds, g2_equation_holds};
use crate::field::{fq_modulus, le_value, precheck_fq, recombine, ValidatedFieldElement, Word};
use vstd::prelude::*;

verus! {

/// A G1 point in affine coordinates; the identity is flagged, with zero
/// coordinates.
#[derive(Clone, Copy)]
pub struct G1Point {
    pub x: Word,
    pub y: Word,
    pub infinity: bool,
}

/// A G2 point in affine coordinates over the quadratic extension: `x0`, `y0`
/// are the constant parts, `x1`, `y1` the parts along the extension's root.
#[derive(Clone, Copy)]
pub struct G2Point {
    pub x0: Word,
    pub x1: Word,
    pub y0: Word,
    pub y1: Word,
    pub infinity: bool,
}

/// A G1 point as its coordinate bytes and identity flag.
pub type G1View = (Seq<u8>, Seq<u8>, bool);

/// A G2 point as its four coordinate bytes and identity flag.
pub type G2View = (Seq<u8>, Seq<u8>, Seq<u8>, Seq<u8>, bool);

impl View for G1Point {
    type V = G1View;

    open spec fn view(&self) -> G1View {
        (self.x@, self.y@, self.infinity)
    }
}

impl View for G2Point {
    type V = G2View;

    open spec fn view(&self) -> G2View {
        (self.x0@, self.x1@, self.y0@, self.y1@, self.infinity)
    }
}

/// A raw G1 coordinate pair `(x, y)`, as supplied by a witness.
pub type RawG1 = (Word, Word);

/// A raw G2 coordinate quadruple: `(x1, x0, y1, y0)`, each extension
/// coordinate with its part along the root first.
pub type RawG2 = (Word, Word, Word, Word);

/// Whether both coordinates of a raw G1 pair are below the base-field modulus.
pub open spec fn raw_g1_in_range(p: RawG1) -> bool {
    le_value(p.0@) < fq_modulus() && le_value(p.1@) < fq_modulus()
}

/// Whether all four coordinates of a raw G2 quadruple are below the
/// base-field modulus.
pub open spec fn raw_g2_in_range(q: RawG2) -> bool {
    le_value(q.0@) < fq_modulus() && le_value(q.1@) < fq_modulus() && le_value(q.2@)
        < fq_modulus() && le_value(q.3@) < fq_modulus()
}

/// The G1 point a raw pair denotes: (0, 0) is the identity.
pub open spec fn g1_of_raw(p: RawG1) -> G1View {
    (p.0@, p.1@, le_value(p.0@) == 0 && le_value(p.1@) == 0)
}

/// The G2 point a raw quadruple denotes: all-zero is the identity.
pub open spec fn g2_of_raw(q: RawG2) -> G2View {
    (
        q.1@,
        q.0@,
        q.3@,
        q.2@,
        le_value(q.0@) == 0 && le_value(q.1@) == 0 && le_value(q.2@) == 0 && le_value(q.3@)
            == 0,
    )
}

/// The constant part of the twist's coefficient b' = 3 / (9 + u).
pub const G2_B0_LO: u128 = 265886410536419106802972901;
pub const G2_B0_MID: u128 = 29737255975672743285089625;
pub const G2_B0_HI: u128 = 203442024928823932256702;

/// The part of b' along u.
pub const G2_B1_LO: u128 = 54516527786199451116443090;
pub const G2_B1_MID: u128 = 212383393795108577801700581;
pub const G2_B1_HI: u128 = 2786877053819505921324;

/// Equality modulo the base-field modulus.
pub open spec fn fq_eq(a: int, b: int) -> bool {
    a % (fq_modulus() as int) == b % (fq_modulus() as int)
}

/// G1's equation y² = x³ + 3 over Fq.
pub open spec fn g1_equation(x: int, y: int) -> bool {
    fq_eq(y * y, x * x * x + 3)
}

/// G2's equation y² = x³ + b' over Fq2 = Fq[u] / (u² + 1), with
/// x = x0 + x1·u and y = y0 + y1·u.
pub open spec fn g2_equation(x0: int, x1: int, y0: int, y1: int) -> bool {
    let s0 = x0 * x0 - x1 * x1;
    let s1 = 2 * x0 * x1;
    let c0 = s0 * x0 - s1 * x1;
    let c1 = s0 * x1 + s1 * x0;
    let b0 = recombine(G2_B0_LO as nat, G2_B0_MID as nat, G2_B0_HI as nat) as int;
    let b1 = recombine(G2_B1_LO as nat, G2_B1_MID as nat, G2_B1_HI as nat) as int;
    fq_eq(y0 * y0 - y1 * y1, c0 + b0) && fq_eq(2 * y0 * y1, c1 + b1)
}

/// A G1 point is the identity or satisfies G1's equation.
pub open spec fn g1_on_curve_or_identity(p: G1View) -> bool {
    p.2 || g1_equation(le_value(p.0) as int, le_value(p.1) as int)
}

/// A G2 point is the identity or satisfies G2's equation.
pub open spec fn g2_on_curve_or_identity(q: G2View) -> bool {
    q.4 || g2_equation(le_value(q.0) as int, le_value(q.1) as int, le_value(q.2) as int, le_value(q.3) as int)
}

/// Whether a G1 point is on its curve or is the identity.
pub fn is_on_curveg1_or_infinity(p: &G1Point) -> (r: bool)
    ensures
        r == g1_on_curve_or_identity(p@),
{
    p.infinity || g1_equation_holds(&p.x, &p.y)
}

/// Whether a G2 point is on its curve or is the identity.
pub fn is_on_curveg2_or_infinity(q: &G2Point) -> (r: bool)
    ensures
        r == g2_on_curve_or_identity(q@),
{
    q.infinity || g2_equation_holds(q)
}

/// Assembles a G1 point from two checked coordinates; a point whose
/// coordinates are both zero is the identity.
pub fn g1_from_checked(x: &ValidatedFieldElement, y: &ValidatedFieldElement) -> (r: G1Point)
    ensures
        r.x == x.bytes,
        r.y == y.bytes,
        r.infinity == (x.is_zero && y.is_zero),
{
    G1Point { x: x.bytes, y: y.bytes, infinity: x.is_zero && y.is_zero }
}

/// Assembles a G2 point from four checked coordinates; a point whose
/// coordinates are all zero is the identity.
pub fn g2_from_checked(
    x0: &ValidatedFieldElement,
    x1: &ValidatedFieldElement,
    y0: &ValidatedFieldElement,
    y1: &ValidatedFieldElement,
) -> (r: G2Point)
    ensures
        r.x0 == x0.bytes,
        r.x1 == x1.bytes,
        r.y0 == y0.bytes,
        r.y1 == y1.bytes,
        r.infinity == (x0.is_zero && x1.is_zero && y0.is_zero && y1.is_zero),
{
    G2Point {
        x0: x0.bytes,
        x1: x1.bytes,
        y0: y0.bytes,
        y1: y1.bytes,
        infinity: x0.is_zero && x1.is_zero && y0.is_zero && y1.is_zero,
    }
}

/// Whether two words are equal.
pub fn word_equal(a: &Word, b: &Word) -> (r: bool)
    ensures
        r == (a@ == b@),
{
    let mut i: usize = 0;
    while i < 32
        invariant
            0 <= i <= 32,
            a@.len() == 32,
            b@.len() == 32,
            forall|k: int| 0 <= k < i ==> a@[k] == b@[k],
        decreases 32 - i,
    {
        if a[i] != b[i] {
            return false;
        }
        i = i + 1;
    }
    proof {
        assert(a@ =~= b@);
    }
    true
}

/// Whether two G1 points are the same coordinates and identity flag.
pub fn g1_equal(a: &G1Point, b: &G1Point) -> (r: bool)
    ensures
        r == (a@ == b@),
{
    a.infinity == b.infinity && word_equal(&a.x, &b.x) && word_equal(&a.y, &b.y)
}

/// Checks a raw G1 pair and builds its point; `None` when a coordinate is
/// not below the base-field modulus.
pub fn decompose_g1(p: &RawG1) -> (r: Option<G1Point>)
    ensures
        r is Some == raw_g1_in_range(*p),
        r matches Some(g) ==> g@ == g1_of_raw(*p),
{
    let x = precheck_fq(&p.0);
    let y = precheck_fq(&p.1);
    if x.below_modulus && y.below_modulus {
        Some(g1_from_checked(&x, &y))
    } else {
        None
    }
}

/// Checks a raw G2 quadruple and builds its point; `None` when a
/// coordinate is not below the base-field modulus.
pub fn decompose_g2(q: &RawG2) -> (r: Option<G2Point>)
    ensures
        r is Some == raw_g2_in_range(*q),
        r matches Some(g) ==> g@ == g2_of_raw(*q),
{
    let x1 = precheck_fq(&q.0);
    let x0 = precheck_fq(&q.1);
    let y1 = precheck_fq(&q.2);
    let y0 = precheck_fq(&q.3);
    if x0.below_modulus && x1.below_modulus && y0.below_modulus && y1.below_modulus {
        Some(g2_from_checked(&x0, &x1, &y0, &y1))
    } else {
        None
    }
}

} // verus!
