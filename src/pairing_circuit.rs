//! The weighted pairing-product relation
//!
//!   e(Σ w_i·C_i, L) · Π e(w_i·D_i, R_i) · e(C', R') = T
//!
//! over raw witness coordinates, and the single public value that commits
//! to its inputs and its claimed result T.
use crate::commitment::{
    all_len, commit, flat, lemma_flat_append, lemma_flat_injective, lemma_flat_push,
    lemma_word_views_len, public_input_hash, push_word, word_views, words_to_bytes,
};
use crate::curve::{g1_add_of, g1_mul_of, g1_scale, g1_sum};
use crate::pairing::{pairing_check, pairing_product, terms_view};
use crate::rows::{min_num_rows, TOTAL_ROWS};
use crate::field::{fr_modulus, le_value, word_below_fr_modulus, Word};
use crate::points::{
    decompose_g1, decompose_g2, g1_of_raw, g1_on_curve_or_identity, g2_of_raw,
    g2_on_curve_or_identity, is_on_curveg1_or_infinity, is_on_curveg2_or_infinity,
    raw_g1_in_range, raw_g2_in_range, G1Point, G1View, G2Point, G2View, RawG1, RawG2,
};
use vstd::prelude::*;

verus! {

/// Why a witness does not satisfy its relation.
#[derive(Clone, Copy, Debug, PartialEq, Eq, Structural)]
pub enum RelationError {
    /// The witness lists do not have the lengths the relation needs.
    ShapeMismatch,
    /// A coordinate is not below the base-field modulus, or a scalar not
    /// below the group order.
    OutOfRange,
    /// A point is neither on its curve nor the identity.
    NotOnCurve,
    /// The relation's equation does not hold.
    Unsatisfied,
}

/// A witness of the weighted pairing-product relation.
pub struct MyEccCircuit {
    /// The share points C_0, D_0, C_1, D_1, ...: C_i at `2i`, D_i at `2i + 1`.
    pub p1s: Vec<RawG1>,
    /// The per-share G2 points R_i.
    pub p2s: Vec<RawG2>,
    /// The per-share weights w_i, little-endian scalars.
    pub ws: Vec<Word>,
    /// The G2 point L that the weighted C_i are paired with.
    pub p4: RawG2,
    /// The extra G1 point C'.
    pub ct: RawG1,
    /// The extra G2 point R'.
    pub tk: RawG2,
    /// The claimed result T, as its twelve Fq12 coefficients.
    pub ti: [Word; 12],
}

/// The bytes of a claimed Fq12 result.
pub open spec fn target_bytes(t: [Word; 12]) -> Seq<u8> {
    flat(word_views(t@))
}

/// The raw G1 words of the share points, two per point.
pub open spec fn g1_words(s: Seq<RawG1>) -> Seq<Seq<u8>>
    decreases s.len(),
{
    if s.len() == 0 {
        Seq::empty()
    } else {
        g1_words(s.drop_last()) + seq![s.last().0@, s.last().1@]
    }
}

/// The raw G2 words of the per-share points, four per point, in witness order.
pub open spec fn g2_words(s: Seq<RawG2>) -> Seq<Seq<u8>>
    decreases s.len(),
{
    if s.len() == 0 {
        Seq::empty()
    } else {
        g2_words(s.drop_last()) + seq![s.last().0@, s.last().1@, s.last().2@, s.last().3@]
    }
}

/// Every witness word in the order of serialization: the share points, the
/// per-share G2 points, the weights, then L, C' and R'.
pub open spec fn input_words(c: MyEccCircuit) -> Seq<Seq<u8>> {
    g1_words(c.p1s@) + g2_words(c.p2s@) + word_views(c.ws@) + seq![
        c.p4.0@,
        c.p4.1@,
        c.p4.2@,
        c.p4.3@,
        c.ct.0@,
        c.ct.1@,
        c.tk.0@,
        c.tk.1@,
        c.tk.2@,
        c.tk.3@,
    ]
}

/// The serialized inputs that the data hash commits to.
pub open spec fn input_bytes(c: MyEccCircuit) -> Seq<u8> {
    flat(input_words(c))
}

/// The lists have the lengths the relation needs: at least one share, two
/// G1 points and one G2 point per weight.
pub open spec fn shape_ok(c: MyEccCircuit) -> bool {
    c.ws.len() >= 1 && c.p1s.len() == 2 * c.ws.len() && c.p2s.len() == c.ws.len()
}

/// Every coordinate is below the base-field modulus and every weight below
/// the group order.
pub open spec fn in_range(c: MyEccCircuit) -> bool {
    &&& forall|i: int| 0 <= i < c.p1s.len() ==> raw_g1_in_range(#[trigger] c.p1s@[i])
    &&& forall|i: int| 0 <= i < c.p2s.len() ==> raw_g2_in_range(#[trigger] c.p2s@[i])
    &&& forall|i: int| 0 <= i < c.ws.len() ==> le_value((#[trigger] c.ws@[i])@) < fr_modulus()
    &&& raw_g2_in_range(c.p4)
    &&& raw_g1_in_range(c.ct)
    &&& raw_g2_in_range(c.tk)
}

/// w_i·C_i.
pub open spec fn weighted_c(c: MyEccCircuit, i: int) -> G1View {
    g1_mul_of(g1_of_raw(c.p1s@[2 * i]), c.ws@[i]@)
}

/// w_i·D_i.
pub open spec fn weighted_d(c: MyEccCircuit, i: int) -> G1View {
    g1_mul_of(g1_of_raw(c.p1s@[2 * i + 1]), c.ws@[i]@)
}

/// w_0·C_0 + ... + w_{k-1}·C_{k-1}, added left to right.
pub open spec fn weighted_c_sum(c: MyEccCircuit, k: nat) -> G1View
    decreases k,
{
    if k <= 1 {
        weighted_c(c, 0)
    } else {
        g1_add_of(weighted_c_sum(c, (k - 1) as nat), weighted_c(c, k - 1))
    }
}

/// The pairing terms: (Σ w_i·C_i, L), then (w_i·D_i, R_i) for each share,
/// then (C', R').
pub open spec fn pairing_terms(c: MyEccCircuit) -> Seq<(G1View, G2View)> {
    seq![(weighted_c_sum(c, c.ws.len() as nat), g2_of_raw(c.p4))] + Seq::new(
        c.ws.len() as nat,
        |i: int| (weighted_d(c, i), g2_of_raw(c.p2s@[i])),
    ) + seq![(g1_of_raw(c.ct), g2_of_raw(c.tk))]
}

/// The relation's equation holds: the pairing product is the claimed T.
pub open spec fn relation_holds(c: MyEccCircuit) -> bool {
    pairing_product(pairing_terms(c)) == Some(target_bytes(c.ti))
}

/// What evaluating a witness yields: a shape error, then a range error,
/// then whether the equation holds.
pub open spec fn relation_outcome(c: MyEccCircuit) -> Result<(), RelationError> {
    if !shape_ok(c) {
        Err(RelationError::ShapeMismatch)
    } else if !in_range(c) {
        Err(RelationError::OutOfRange)
    } else if relation_holds(c) {
        Ok(())
    } else {
        Err(RelationError::Unsatisfied)
    }
}

/// Every point of the witness is on its curve or the identity.
pub open spec fn points_on_curve(c: MyEccCircuit) -> bool {
    &&& forall|i: int| 0 <= i < c.p1s.len() ==> g1_on_curve_or_identity(g1_of_raw(#[trigger] c.p1s@[i]))
    &&& forall|i: int| 0 <= i < c.p2s.len() ==> g2_on_curve_or_identity(g2_of_raw(#[trigger] c.p2s@[i]))
    &&& g2_on_curve_or_identity(g2_of_raw(c.p4))
    &&& g1_on_curve_or_identity(g1_of_raw(c.ct))
    &&& g2_on_curve_or_identity(g2_of_raw(c.tk))
}

/// What evaluating a witness yields when points may also be checked against
/// their curves: as `relation_outcome`, with the curve check, where asked
/// for, after the range check and before the equation.
pub open spec fn checked_outcome(c: MyEccCircuit, check_on_curve: bool) -> Result<(), RelationError> {
    if !shape_ok(c) {
        Err(RelationError::ShapeMismatch)
    } else if !in_range(c) {
        Err(RelationError::OutOfRange)
    } else if check_on_curve && !points_on_curve(c) {
        Err(RelationError::NotOnCurve)
    } else {
        relation_outcome(c)
    }
}

/// The serialized G1 words have two 32-byte words per point.
proof fn lemma_g1_words(s: Seq<RawG1>)
    ensures
        g1_words(s).len() == 2 * s.len(),
        all_len(g1_words(s), 32),
    decreases s.len(),
{
    if s.len() > 0 {
        lemma_g1_words(s.drop_last());
        let w = g1_words(s);
        assert forall|i: int| 0 <= i < w.len() implies #[trigger] w[i].len() == 32 by {
            if i < w.len() - 2 {
                assert(w[i] == g1_words(s.drop_last())[i]);
            }
        }
    }
}

/// The serialized G2 words have four 32-byte words per point.
proof fn lemma_g2_words(s: Seq<RawG2>)
    ensures
        g2_words(s).len() == 4 * s.len(),
        all_len(g2_words(s), 32),
    decreases s.len(),
{
    if s.len() > 0 {
        lemma_g2_words(s.drop_last());
        let w = g2_words(s);
        assert forall|i: int| 0 <= i < w.len() implies #[trigger] w[i].len() == 32 by {
            if i < w.len() - 4 {
                assert(w[i] == g2_words(s.drop_last())[i]);
            }
        }
    }
}

/// Every input word is 32 bytes, and their count follows the list lengths.
proof fn lemma_input_words(c: MyEccCircuit)
    ensures
        all_len(input_words(c), 32),
        input_words(c).len() == 2 * c.p1s.len() + 4 * c.p2s.len() + c.ws.len() + 10,
{
    lemma_g1_words(c.p1s@);
    lemma_g2_words(c.p2s@);
    lemma_word_views_len(c.ws@);
    let a = g1_words(c.p1s@);
    let b = g2_words(c.p2s@);
    let w = word_views(c.ws@);
    let w2 = input_words(c);
    assert forall|i: int| 0 <= i < w2.len() implies #[trigger] w2[i].len() == 32 by {
        if i < a.len() {
            assert(w2[i] == a[i]);
        } else if i < a.len() + b.len() {
            assert(w2[i] == b[i - a.len()]);
        } else if i < a.len() + b.len() + w.len() {
            assert(w2[i] == w[i - a.len() - b.len()]);
        }
    }
}

/// Hash binding: two witnesses with lists of the same lengths that differ
/// in any coordinate or weight byte serialize to different inputs of the
/// data hash.
pub proof fn lemma_distinct_inputs_distinct_preimages(a: MyEccCircuit, b: MyEccCircuit)
    requires
        a.p1s.len() == b.p1s.len(),
        a.p2s.len() == b.p2s.len(),
        a.ws.len() == b.ws.len(),
        input_words(a) != input_words(b),
    ensures
        input_bytes(a) != input_bytes(b),
{
    lemma_input_words(a);
    lemma_input_words(b);
    if input_bytes(a) == input_bytes(b) {
        lemma_flat_injective(input_words(a), input_words(b), 32);
    }
}

/// Completeness: a witness of the right shape with inputs in range, whose
/// pairing product is the claimed T, satisfies the relation, and still does
/// with the curve check where its points are on their curves.
pub proof fn lemma_equation_gives_satisfiable(c: MyEccCircuit)
    requires
        shape_ok(c),
        in_range(c),
        relation_holds(c),
    ensures
        relation_outcome(c) == Ok::<(), RelationError>(()),
        checked_outcome(c, false) == Ok::<(), RelationError>(()),
        points_on_curve(c) ==> checked_outcome(c, true) == Ok::<(), RelationError>(()),
{
}

/// Soundness against a wrong target: a witness whose claimed T differs from
/// its pairing product does not satisfy the relation.
pub proof fn lemma_wrong_target_unsatisfied(c: MyEccCircuit, product: Seq<u8>)
    requires
        shape_ok(c),
        in_range(c),
        pairing_product(pairing_terms(c)) == Some(product),
        target_bytes(c.ti) != product,
    ensures
        relation_outcome(c) == Err::<(), RelationError>(RelationError::Unsatisfied),
        checked_outcome(c, false) == Err::<(), RelationError>(RelationError::Unsatisfied),
{
}

/// Appends the two words of a raw G1 pair.
fn push_g1(buf: &mut Vec<u8>, p: &RawG1)
    ensures
        final(buf)@ == old(buf)@ + p.0@ + p.1@,
{
    push_word(buf, &p.0);
    push_word(buf, &p.1);
}

/// Appends the four words of a raw G2 quadruple, in witness order.
fn push_g2(buf: &mut Vec<u8>, q: &RawG2)
    ensures
        final(buf)@ == old(buf)@ + q.0@ + q.1@ + q.2@ + q.3@,
{
    push_word(buf, &q.0);
    push_word(buf, &q.1);
    push_word(buf, &q.2);
    push_word(buf, &q.3);
}

/// Appends the words of raw G1 pairs, in order.
fn push_g1s(buf: &mut Vec<u8>, s: &Vec<RawG1>)
    ensures
        final(buf)@ == old(buf)@ + flat(g1_words(s@)),
{
    let ghost start = buf@;
    let mut i: usize = 0;
    while i < s.len()
        invariant
            0 <= i <= s@.len(),
            buf@ == start + flat(g1_words(s@.subrange(0, i as int))),
        decreases s.len() - i,
    {
        let p = &s[i];
        push_g1(buf, p);
        proof {
            let prev = g1_words(s@.subrange(0, i as int));
            assert(s@.subrange(0, i as int + 1).drop_last() =~= s@.subrange(0, i as int));
            lemma_flat_append(prev, seq![p.0@, p.1@]);
            reveal_with_fuel(flat, 3);
            assert(flat(seq![p.0@, p.1@]) =~= p.0@ + p.1@);
            assert(start + flat(prev) + p.0@ + p.1@ =~= start + (flat(prev) + (p.0@ + p.1@)));
        }
        i = i + 1;
    }
    proof {
        assert(s@.subrange(0, s@.len() as int) =~= s@);
    }
}

/// Appends the words of raw G2 quadruples, in order.
fn push_g2s(buf: &mut Vec<u8>, s: &Vec<RawG2>)
    ensures
        final(buf)@ == old(buf)@ + flat(g2_words(s@)),
{
    let ghost start = buf@;
    let mut i: usize = 0;
    while i < s.len()
        invariant
            0 <= i <= s@.len(),
            buf@ == start + flat(g2_words(s@.subrange(0, i as int))),
        decreases s.len() - i,
    {
        let q = &s[i];
        push_g2(buf, q);
        proof {
            let prev = g2_words(s@.subrange(0, i as int));
            assert(s@.subrange(0, i as int + 1).drop_last() =~= s@.subrange(0, i as int));
            lemma_flat_append(prev, seq![q.0@, q.1@, q.2@, q.3@]);
            reveal_with_fuel(flat, 5);
            assert(flat(seq![q.0@, q.1@, q.2@, q.3@]) =~= q.0@ + q.1@ + q.2@ + q.3@);
            assert(start + flat(prev) + q.0@ + q.1@ + q.2@ + q.3@ =~= start + (flat(prev) + (q.0@
                + q.1@ + q.2@ + q.3@)));
        }
        i = i + 1;
    }
    proof {
        assert(s@.subrange(0, s@.len() as int) =~= s@);
    }
}

/// Appends words, in order.
fn push_words(buf: &mut Vec<u8>, s: &Vec<Word>)
    ensures
        final(buf)@ == old(buf)@ + flat(word_views(s@)),
{
    let ghost start = buf@;
    let mut i: usize = 0;
    while i < s.len()
        invariant
            0 <= i <= s@.len(),
            buf@ == start + flat(word_views(s@.subrange(0, i as int))),
        decreases s.len() - i,
    {
        push_word(buf, &s[i]);
        proof {
            let prev = word_views(s@.subrange(0, i as int));
            assert(word_views(s@.subrange(0, i as int + 1)) =~= prev.push(s@[i as int]@));
            lemma_flat_push(prev, s@[i as int]@);
        }
        i = i + 1;
    }
    proof {
        assert(s@.subrange(0, s@.len() as int) =~= s@);
    }
}

impl MyEccCircuit {
    /// The rows left usable in the circuit when `unusable_rows` are lost to
    /// blinding.
    pub fn min_num_rows(unusable_rows: usize) -> (r: usize)
        requires
            1 <= unusable_rows,
            unusable_rows + 2 <= TOTAL_ROWS,
        ensures
            r == TOTAL_ROWS - ((unusable_rows - 1) + 3),
    {
        min_num_rows(unusable_rows)
    }

    /// The serialized inputs: every coordinate and weight, 32 little-endian
    /// bytes each, in the order of `input_words`.
    #[verifier::rlimit(40)]
    pub fn input_bytes(&self) -> (r: Vec<u8>)
        ensures
            r@ == input_bytes(*self),
    {
        let mut buf: Vec<u8> = Vec::new();
        push_g1s(&mut buf, &self.p1s);
        push_g2s(&mut buf, &self.p2s);
        push_words(&mut buf, &self.ws);
        push_g2(&mut buf, &self.p4);
        push_g1(&mut buf, &self.ct);
        push_g2(&mut buf, &self.tk);
        proof {
            let a = g1_words(self.p1s@);
            let b = g2_words(self.p2s@);
            let c = word_views(self.ws@);
            let fixed = seq![
                self.p4.0@,
                self.p4.1@,
                self.p4.2@,
                self.p4.3@,
                self.ct.0@,
                self.ct.1@,
                self.tk.0@,
                self.tk.1@,
                self.tk.2@,
                self.tk.3@,
            ];
            reveal_with_fuel(flat, 11);
            assert(flat(fixed) =~= self.p4.0@ + self.p4.1@ + self.p4.2@ + self.p4.3@ + self.ct.0@
                + self.ct.1@ + self.tk.0@ + self.tk.1@ + self.tk.2@ + self.tk.3@);
            lemma_flat_append(a, b);
            lemma_flat_append(a + b, c);
            lemma_flat_append(a + b + c, fixed);
            assert(buf@ =~= flat(a) + flat(b) + flat(c) + flat(fixed));
        }
        buf
    }

    /// Checks the shares and builds their points C_i, D_i and R_i.
    fn load_shares(&self) -> (r: Option<(Vec<G1Point>, Vec<G1Point>, Vec<G2Point>)>)
        requires
            shape_ok(*self),
        ensures
            r is Some == ((forall|i: int| 0 <= i < self.p1s.len() ==> raw_g1_in_range(
                #[trigger] self.p1s@[i],
            )) && (forall|i: int| 0 <= i < self.p2s.len() ==> raw_g2_in_range(
                #[trigger] self.p2s@[i],
            )) && (forall|i: int| 0 <= i < self.ws.len() ==> le_value((#[trigger] self.ws@[i])@)
                < fr_modulus())),
            r matches Some((cs, ds, rs)) ==> {
                &&& cs@.len() == self.ws@.len()
                &&& ds@.len() == self.ws@.len()
                &&& rs@.len() == self.ws@.len()
                &&& forall|i: int| 0 <= i < cs@.len() ==> (#[trigger] cs@[i])@ == g1_of_raw(self.p1s@[2 * i])
                &&& forall|i: int| 0 <= i < ds@.len() ==> (#[trigger] ds@[i])@ == g1_of_raw(self.p1s@[2 * i + 1])
                &&& forall|i: int| 0 <= i < rs@.len() ==> (#[trigger] rs@[i])@ == g2_of_raw(self.p2s@[i])
            },
    {
        let n = self.ws.len();
        let mut cs: Vec<G1Point> = Vec::new();
        let mut ds: Vec<G1Point> = Vec::new();
        let mut rs: Vec<G2Point> = Vec::new();
        let mut i: usize = 0;
        while i < n
            invariant
                shape_ok(*self),
                n == self.ws@.len(),
                0 <= i <= n,
                cs@.len() == i,
                ds@.len() == i,
                rs@.len() == i,
                forall|k: int| 0 <= k < 2 * i ==> raw_g1_in_range(#[trigger] self.p1s@[k]),
                forall|k: int| 0 <= k < i ==> raw_g2_in_range(#[trigger] self.p2s@[k]),
                forall|k: int| 0 <= k < i ==> le_value((#[trigger] self.ws@[k])@) < fr_modulus(),
                forall|k: int| 0 <= k < i ==> (#[trigger] cs@[k])@ == g1_of_raw(self.p1s@[2 * k]),
                forall|k: int| 0 <= k < i ==> (#[trigger] ds@[k])@ == g1_of_raw(self.p1s@[2 * k + 1]),
                forall|k: int| 0 <= k < i ==> (#[trigger] rs@[k])@ == g2_of_raw(self.p2s@[k]),
            decreases n - i,
        {
            let c = match decompose_g1(&self.p1s[2 * i]) {
                Some(c) => c,
                None => {
                    proof {
                        assert(!raw_g1_in_range(self.p1s@[2 * i as int]));
                    }
                    return None;
                },
            };
            let d = match decompose_g1(&self.p1s[2 * i + 1]) {
                Some(d) => d,
                None => {
                    proof {
                        assert(!raw_g1_in_range(self.p1s@[2 * i as int + 1]));
                    }
                    return None;
                },
            };
            let q = match decompose_g2(&self.p2s[i]) {
                Some(q) => q,
                None => {
                    proof {
                        assert(!raw_g2_in_range(self.p2s@[i as int]));
                    }
                    return None;
                },
            };
            if !word_below_fr_modulus(&self.ws[i]) {
                proof {
                    assert(!(le_value(self.ws@[i as int]@) < fr_modulus()));
                }
                return None;
            }
            cs.push(c);
            ds.push(d);
            rs.push(q);
            proof {
                assert forall|k: int| 0 <= k < 2 * (i + 1) implies raw_g1_in_range(
                    #[trigger] self.p1s@[k],
                ) by {
                    if k >= 2 * i {
                        assert(k == 2 * i || k == 2 * i + 1);
                    }
                }
            }
            i = i + 1;
        }
        Some((cs, ds, rs))
    }

    /// Checks every point against its curve, for a witness of the right shape
    /// whose inputs are in range.
    fn curve_check(&self) -> (r: Result<(), RelationError>)
        requires
            shape_ok(*self),
        ensures
            r == (if !in_range(*self) {
                Err(RelationError::OutOfRange)
            } else if !points_on_curve(*self) {
                Err(RelationError::NotOnCurve)
            } else {
                Ok(())
            }),
    {
        let (cs, ds, rs) = match self.load_shares() {
            Some(s) => s,
            None => {
                return Err(RelationError::OutOfRange);
            },
        };
        let (l, cp, rp) = match (decompose_g2(&self.p4), decompose_g1(&self.ct), decompose_g2(&self.tk)) {
            (Some(l), Some(cp), Some(rp)) => (l, cp, rp),
            _ => {
                return Err(RelationError::OutOfRange);
            },
        };
        let n = self.ws.len();
        let mut i: usize = 0;
        while i < n
            invariant
                shape_ok(*self),
                in_range(*self),
                n == self.ws@.len(),
                cs@.len() == n,
                ds@.len() == n,
                rs@.len() == n,
                forall|k: int| 0 <= k < n ==> (#[trigger] cs@[k])@ == g1_of_raw(self.p1s@[2 * k]),
                forall|k: int| 0 <= k < n ==> (#[trigger] ds@[k])@ == g1_of_raw(self.p1s@[2 * k + 1]),
                forall|k: int| 0 <= k < n ==> (#[trigger] rs@[k])@ == g2_of_raw(self.p2s@[k]),
                0 <= i <= n,
                forall|k: int| 0 <= k < 2 * i ==> g1_on_curve_or_identity(g1_of_raw(#[trigger] self.p1s@[k])),
                forall|k: int| 0 <= k < i ==> g2_on_curve_or_identity(g2_of_raw(#[trigger] self.p2s@[k])),
            decreases n - i,
        {
            if !is_on_curveg1_or_infinity(&cs[i]) {
                proof {
                    assert(!g1_on_curve_or_identity(g1_of_raw(self.p1s@[2 * i as int])));
                }
                return Err(RelationError::NotOnCurve);
            }
            if !is_on_curveg1_or_infinity(&ds[i]) {
                proof {
                    assert(!g1_on_curve_or_identity(g1_of_raw(self.p1s@[2 * i as int + 1])));
                }
                return Err(RelationError::NotOnCurve);
            }
            if !is_on_curveg2_or_infinity(&rs[i]) {
                proof {
                    assert(!g2_on_curve_or_identity(g2_of_raw(self.p2s@[i as int])));
                }
                return Err(RelationError::NotOnCurve);
            }
            proof {
                assert forall|k: int| 0 <= k < 2 * (i + 1) implies g1_on_curve_or_identity(
                    g1_of_raw(#[trigger] self.p1s@[k]),
                ) by {
                    if k >= 2 * i {
                        assert(k == 2 * i || k == 2 * i + 1);
                    }
                }
            }
            i = i + 1;
        }
        if is_on_curveg2_or_infinity(&l) && is_on_curveg1_or_infinity(&cp) && is_on_curveg2_or_infinity(&rp) {
            Ok(())
        } else {
            Err(RelationError::NotOnCurve)
        }
    }

    /// Evaluates the relation as `assign` does, and where `check_on_curve`
    /// holds, first checks that every point is on its curve or the identity.
    pub fn assign_checked(&self, check_on_curve: bool) -> (r: Result<(), RelationError>)
        ensures
            r == checked_outcome(*self, check_on_curve),
    {
        let n = self.ws.len();
        if n == 0 || self.p2s.len() != n || self.p1s.len() % 2 != 0 || self.p1s.len() / 2 != n {
            return Err(RelationError::ShapeMismatch);
        }
        if check_on_curve {
            match self.curve_check() {
                Ok(()) => {},
                Err(e) => {
                    return Err(e);
                },
            }
        }
        self.assign()
    }

    /// w_0·C_0 + ... + w_{n-1}·C_{n-1}, by scalar multiplication and addition
    /// left to right.
    fn weighted_c_sum(&self, cs: &Vec<G1Point>) -> (r: G1Point)
        requires
            shape_ok(*self),
            cs@.len() == self.ws@.len(),
            forall|i: int| 0 <= i < cs@.len() ==> (#[trigger] cs@[i])@ == g1_of_raw(self.p1s@[2 * i]),
        ensures
            r@ == weighted_c_sum(*self, self.ws@.len() as nat),
    {
        let mut acc = g1_scale(&cs[0], &self.ws[0]);
        let mut i: usize = 1;
        while i < cs.len()
            invariant
                shape_ok(*self),
                cs@.len() == self.ws@.len(),
                forall|k: int| 0 <= k < cs@.len() ==> (#[trigger] cs@[k])@ == g1_of_raw(self.p1s@[2 * k]),
                1 <= i <= cs@.len(),
                acc@ == weighted_c_sum(*self, i as nat),
            decreases cs.len() - i,
        {
            let t = g1_scale(&cs[i], &self.ws[i]);
            acc = g1_sum(&acc, &t);
            i = i + 1;
        }
        acc
    }

    /// Evaluates the relation on this witness, in the circuit's order: the
    /// shapes, every coordinate and weight against its modulus, then the
    /// equation e(Σ w_i·C_i, L) · Π e(w_i·D_i, R_i) · e(C', R') = T.
    pub fn assign(&self) -> (r: Result<(), RelationError>)
        ensures
            r == relation_outcome(*self),
    {
        let n = self.ws.len();
        if n == 0 || self.p2s.len() != n || self.p1s.len() % 2 != 0 || self.p1s.len() / 2 != n {
            return Err(RelationError::ShapeMismatch);
        }
        let shares = self.load_shares();
        let (cs, ds, rs) = match shares {
            Some(s) => s,
            None => {
                return Err(RelationError::OutOfRange);
            },
        };
        let l = decompose_g2(&self.p4);
        let cp = decompose_g1(&self.ct);
        let rp = decompose_g2(&self.tk);
        let (l, cp, rp) = match (l, cp, rp) {
            (Some(l), Some(cp), Some(rp)) => (l, cp, rp),
            _ => {
                return Err(RelationError::OutOfRange);
            },
        };
        let acc = self.weighted_c_sum(&cs);
        let mut terms: Vec<(G1Point, G2Point)> = Vec::new();
        terms.push((acc, l));
        let ghost all = pairing_terms(*self);
        proof {
            assert(all.len() == n + 2);
            assert(all[0] == (weighted_c_sum(*self, n as nat), g2_of_raw(self.p4)));
            assert(terms_view(terms@) =~= all.subrange(0, 1));
        }
        let mut i: usize = 0;
        while i < n
            invariant
                shape_ok(*self),
                n == self.ws@.len(),
                ds@.len() == n,
                rs@.len() == n,
                forall|k: int| 0 <= k < n ==> (#[trigger] ds@[k])@ == g1_of_raw(self.p1s@[2 * k + 1]),
                forall|k: int| 0 <= k < n ==> (#[trigger] rs@[k])@ == g2_of_raw(self.p2s@[k]),
                all == pairing_terms(*self),
                0 <= i <= n,
                terms@.len() == i + 1,
                terms_view(terms@) == all.subrange(0, i as int + 1),
            decreases n - i,
        {
            let d = g1_scale(&ds[i], &self.ws[i]);
            terms.push((d, rs[i]));
            proof {
                assert(all.len() == n + 2);
                assert(all[i as int + 1] == (weighted_d(*self, i as int), g2_of_raw(self.p2s@[i as int])));
                assert(terms@[i as int + 1] == (d, rs@[i as int]));
                assert(terms_view(terms@)[i as int + 1] == (d@, rs@[i as int]@));
                assert(terms_view(terms@) =~= all.subrange(0, i as int + 2));
            }
            i = i + 1;
        }
        let ghost before = terms@;
        terms.push((cp, rp));
        proof {
            assert(terms_view(terms@) =~= terms_view(before).push((cp@, rp@)));
            assert(all.len() == n + 2);
            assert(all[n + 1] == (g1_of_raw(self.ct), g2_of_raw(self.tk)));
            assert(terms@.len() == n + 2);
            assert(terms@[n + 1] == (cp, rp));
            assert(terms_view(terms@)[n + 1] == (cp@, rp@));
            assert(terms_view(terms@) =~= all);
        }
        let target = self.target_bytes();
        if pairing_check(&terms, &target) {
            Ok(())
        } else {
            Err(RelationError::Unsatisfied)
        }
    }

    /// The bytes of the claimed result T.
    pub fn target_bytes(&self) -> (r: Vec<u8>)
        ensures
            r@ == target_bytes(self.ti),
    {
        words_to_bytes(&self.ti)
    }

    /// The public inputs: one vector of the 32 bytes of the public-input
    /// hash, the digest of the inputs' digest followed by T's bytes.
    pub fn instance(&self) -> (r: Vec<Vec<u8>>)
        ensures
            r@.len() == 1,
            r@[0]@ == public_input_hash(input_bytes(*self), target_bytes(self.ti)),
            r@[0]@.len() == 32,
    {
        let inputs = self.input_bytes();
        let result = self.target_bytes();
        let hash = commit(&inputs, &result);
        let mut out: Vec<u8> = Vec::new();
        push_word(&mut out, &hash);
        vec![out]
    }

    /// The public inputs, as the proving back end asks for them.
    pub fn instances(&self) -> (r: Vec<Vec<u8>>)
        ensures
            r@.len() == 1,
            r@[0]@ == public_input_hash(input_bytes(*self), target_bytes(self.ti)),
            r@[0]@.len() == 32,
    {
        self.instance()
    }

    /// The length of each public-input vector: one vector of 32.
    pub fn num_instance(&self) -> (r: Vec<usize>)
        ensures
            r@ == seq![32usize],
    {
        let r = vec![32];
        proof {
            assert(r@ =~= seq![32usize]);
        }
        r
    }
}

} // verus!
