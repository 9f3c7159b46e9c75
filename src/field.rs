//! Foreign-field elements as three 88-bit limbs over their little-endian bytes.
use vstd::arithmetic::div_mod::lemma_fundamental_div_mod_converse;
use vstd::prelude::*;

verus! {

/// A 256-bit unsigned integer, as 32 little-endian bytes.
pub type Word = [u8; 32];

/// The weight of one limb, 2^88, which bounds the two low limbs.
pub const LIMB_BASE: u128 = 309485009821345068724781056;

/// Low, middle and high limbs of the BN254 base-field modulus.
pub const FQ_MODULUS_LO: u128 = 137565140969524029401398599;
pub const FQ_MODULUS_MID: u128 = 84277741203579531151708520;
pub const FQ_MODULUS_HI: u128 = 228523918413199485548624;

/// Low, middle and high limbs of the BN254 scalar-field modulus.
pub const FR_MODULUS_LO: u128 = 224182861344139171506159617;
pub const FR_MODULUS_MID: u128 = 84277741203579053109954681;
pub const FR_MODULUS_HI: u128 = 228523918413199485548624;

/// The weight of one limb: 2^88.
pub open spec fn limb_base() -> nat {
    309485009821345068724781056
}

/// 256 to the power `n`.
pub open spec fn pow256(n: nat) -> nat
    decreases n,
{
    if n == 0 {
        1
    } else {
        256 * pow256((n - 1) as nat)
    }
}

/// The integer that little-endian bytes `s` denote.
pub open spec fn le_value(s: Seq<u8>) -> nat
    decreases s.len(),
{
    if s.len() == 0 {
        0
    } else {
        s[0] as nat + 256 * le_value(s.drop_first())
    }
}

/// The three limbs of a 32-byte word: bytes 0..11, 11..22 and 22..32.
pub open spec fn limbs_of(s: Seq<u8>) -> Seq<nat> {
    seq![
        le_value(s.subrange(0, 11)),
        le_value(s.subrange(11, 22)),
        le_value(s.subrange(22, 32)),
    ]
}

/// The integer that three limbs denote.
pub open spec fn recombine(l0: nat, l1: nat, l2: nat) -> nat {
    l0 + limb_base() * l1 + limb_base() * limb_base() * l2
}

/// The limbs of an executable limb array, as integers.
pub open spec fn limb_nats(l: [u128; 3]) -> Seq<nat> {
    seq![l[0] as nat, l[1] as nat, l[2] as nat]
}

/// The BN254 base-field modulus.
pub open spec fn fq_modulus() -> nat {
    recombine(FQ_MODULUS_LO as nat, FQ_MODULUS_MID as nat, FQ_MODULUS_HI as nat)
}

/// The BN254 scalar-field modulus.
pub open spec fn fr_modulus() -> nat {
    recombine(FR_MODULUS_LO as nat, FR_MODULUS_MID as nat, FR_MODULUS_HI as nat)
}

pub proof fn lemma_pow256_mono(a: nat, b: nat)
    requires
        a <= b,
    ensures
        pow256(a) <= pow256(b),
    decreases b,
{
    if a < b {
        lemma_pow256_mono(a, (b - 1) as nat);
    }
}

pub proof fn lemma_pow256_small()
    ensures
        pow256(10) == 1208925819614629174706176,
        pow256(11) == limb_base(),
{
    reveal_with_fuel(pow256, 12);
}

pub proof fn lemma_le_value_bound(s: Seq<u8>)
    ensures
        le_value(s) < pow256(s.len()),
    decreases s.len(),
{
    if s.len() > 0 {
        lemma_le_value_bound(s.drop_first());
        let rest = le_value(s.drop_first());
        let p = pow256((s.len() - 1) as nat);
        assert(s[0] as nat + 256 * rest < 256 * p) by (nonlinear_arith)
            requires
                rest < p,
                s[0] < 256,
        ;
    }
}

/// Appending bytes `b` above `a` adds `b`'s value scaled by `a`'s width.
pub proof fn lemma_le_value_append(a: Seq<u8>, b: Seq<u8>)
    ensures
        le_value(a + b) == le_value(a) + pow256(a.len()) * le_value(b),
    decreases a.len(),
{
    if a.len() == 0 {
        assert(a + b =~= b);
        assert(pow256(0) == 1);
        assert(le_value(a) == 0);
    } else {
        assert((a + b).drop_first() =~= a.drop_first() + b);
        lemma_le_value_append(a.drop_first(), b);
        let pa = pow256((a.len() - 1) as nat);
        let vb = le_value(b);
        let va = le_value(a.drop_first());
        assert(256 * (va + pa * vb) == 256 * va + (256 * pa) * vb) by (nonlinear_arith);
        assert((a + b)[0] == a[0]);
        assert(pow256(a.len()) == 256 * pa);
        assert(le_value(a + b) == a[0] as nat + 256 * (va + pa * vb));
        assert(le_value(a) == a[0] as nat + 256 * va);
        assert(pow256(a.len()) * vb == (256 * pa) * vb);
    }
}

/// Little-endian bytes are all zero exactly when their value is zero.
pub proof fn lemma_le_value_zero(s: Seq<u8>)
    ensures
        (le_value(s) == 0) == (forall|i: int| 0 <= i < s.len() ==> s[i] == 0),
    decreases s.len(),
{
    if s.len() > 0 {
        lemma_le_value_zero(s.drop_first());
        if le_value(s) == 0 {
            assert forall|i: int| 0 <= i < s.len() implies s[i] == 0 by {
                if i > 0 {
                    assert(s[i] == s.drop_first()[i - 1]);
                }
            }
        }
        if forall|i: int| 0 <= i < s.len() ==> s[i] == 0 {
            assert forall|i: int| 0 <= i < s.drop_first().len() implies s.drop_first()[i] == 0 by {
                assert(s.drop_first()[i] == s[i + 1]);
            }
        }
    }
}

/// The limb decomposition of a word recombines to the word's value, and
/// each limb fits in 88 bits.
pub proof fn lemma_limbs_recombine(s: Seq<u8>)
    requires
        s.len() == 32,
    ensures
        recombine(limbs_of(s)[0], limbs_of(s)[1], limbs_of(s)[2]) == le_value(s),
        limbs_of(s)[0] < limb_base(),
        limbs_of(s)[1] < limb_base(),
        limbs_of(s)[2] < pow256(10),
{
    let a = s.subrange(0, 11);
    let b = s.subrange(11, 22);
    let c = s.subrange(22, 32);
    assert(s =~= a + (b + c));
    lemma_le_value_append(a, b + c);
    lemma_le_value_append(b, c);
    lemma_pow256_small();
    lemma_le_value_bound(a);
    lemma_le_value_bound(b);
    lemma_le_value_bound(c);
    let base = limb_base();
    let (va, vb, vc) = (le_value(a), le_value(b), le_value(c));
    assert(base * (vb + base * vc) == base * vb + base * base * vc) by (nonlinear_arith);
}

/// Comparing two-digit numbers in base `b` goes by the high digit first.
proof fn lemma_two_digit_lt(lo_a: nat, hi_a: nat, lo_b: nat, hi_b: nat, b: nat)
    requires
        lo_a < b,
        lo_b < b,
    ensures
        (lo_a + b * hi_a < lo_b + b * hi_b) == (hi_a < hi_b || (hi_a == hi_b && lo_a < lo_b)),
{
    if hi_a < hi_b {
        assert(lo_a + b * hi_a < lo_b + b * hi_b) by (nonlinear_arith)
            requires
                lo_a < b,
                hi_a < hi_b,
        ;
    } else if hi_a > hi_b {
        assert(lo_a + b * hi_a > lo_b + b * hi_b) by (nonlinear_arith)
            requires
                lo_b < b,
                hi_a > hi_b,
        ;
    }
}

/// Comparing three-limb numbers goes by the highest limb first.
pub proof fn lemma_limbs_lt(a0: nat, a1: nat, a2: nat, b0: nat, b1: nat, b2: nat)
    requires
        a0 < limb_base(),
        a1 < limb_base(),
        b0 < limb_base(),
        b1 < limb_base(),
    ensures
        (recombine(a0, a1, a2) < recombine(b0, b1, b2)) == (a2 < b2 || (a2 == b2 && (a1 < b1
            || (a1 == b1 && a0 < b0)))),
{
    let base = limb_base();
    assert(base * (a1 + base * a2) == base * a1 + base * base * a2) by (nonlinear_arith);
    assert(base * (b1 + base * b2) == base * b1 + base * base * b2) by (nonlinear_arith);
    lemma_two_digit_lt(a0, a1 + base * a2, b0, b1 + base * b2, base);
    lemma_two_digit_lt(a1, a2, b1, b2, base);
}

/// A foreign-field element checked against its little-endian bytes.
pub struct ValidatedFieldElement {
    /// Limbs of 88, 88 and 80 bits, lowest first.
    pub limbs: [u128; 3],
    /// The bytes the limbs were taken from.
    pub bytes: Word,
    /// The value reduced modulo the scalar field, the circuit's native
    /// field, as limbs.
    pub native: [u128; 3],
    /// The value is below the base-field modulus.
    pub below_modulus: bool,
    /// The value is below the modulus and zero.
    pub is_zero: bool,
}

/// The value of bytes `start..end` of a word, read little-endian.
fn limb_value(w: &Word, start: usize, end: usize) -> (r: u128)
    requires
        start <= end <= 32,
        end - start <= 11,
    ensures
        r as nat == le_value(w@.subrange(start as int, end as int)),
        (r as nat) < pow256((end - start) as nat),
{
    let mut acc: u128 = 0;
    let mut j: usize = end;
    proof {
        assert(w@.subrange(end as int, end as int).len() == 0);
    }
    while j > start
        invariant
            start <= j <= end,
            end <= 32,
            end - start <= 11,
            w@.len() == 32,
            acc as nat == le_value(w@.subrange(j as int, end as int)),
            (acc as nat) < pow256((end - j) as nat),
        decreases j,
    {
        j = j - 1;
        let ghost rest = w@.subrange(j as int + 1, end as int);
        let ghost here = w@.subrange(j as int, end as int);
        proof {
            assert(here.drop_first() =~= rest);
            assert(here[0] == w@[j as int]);
            lemma_pow256_small();
            lemma_pow256_mono((end - j - 1) as nat, 10);
            lemma_le_value_bound(here);
        }
        acc = w[j] as u128 + 256 * acc;
    }
    acc
}

/// Splits a word into its three limbs: bytes 0..11, 11..22 and 22..32.
pub fn decompose_word(w: &Word) -> (r: [u128; 3])
    ensures
        limb_nats(r) == limbs_of(w@),
        recombine(r[0] as nat, r[1] as nat, r[2] as nat) == le_value(w@),
{
    let l0 = limb_value(w, 0, 11);
    let l1 = limb_value(w, 11, 22);
    let l2 = limb_value(w, 22, 32);
    let r = [l0, l1, l2];
    proof {
        lemma_limbs_recombine(w@);
        assert(limb_nats(r) =~= limbs_of(w@));
    }
    r
}

/// Whether `limbs` are exactly the limbs that `bytes` spell, limb by limb:
/// the check that binds a limb assignment to its byte witnesses.
pub fn crt_repr_matches(limbs: &[u128; 3], bytes: &Word) -> (r: bool)
    ensures
        r == (limb_nats(*limbs) == limbs_of(bytes@)),
        r ==> recombine(limbs[0] as nat, limbs[1] as nat, limbs[2] as nat) == le_value(bytes@),
{
    let recovered = decompose_word(bytes);
    let r = recovered[0] == limbs[0] && recovered[1] == limbs[1] && recovered[2] == limbs[2];
    proof {
        if !r {
            assert(limb_nats(*limbs) != limbs_of(bytes@)) by {
                if limb_nats(*limbs) == limbs_of(bytes@) {
                    assert(limb_nats(*limbs)[0] == limb_nats(recovered)[0]);
                    assert(limb_nats(*limbs)[1] == limb_nats(recovered)[1]);
                    assert(limb_nats(*limbs)[2] == limb_nats(recovered)[2]);
                }
            }
        } else {
            assert(limb_nats(*limbs) =~= limb_nats(recovered));
        }
    }
    r
}

/// Whether the number in `limbs` is below the number in `modulus`, both
/// with their two low limbs under 2^88.
pub fn limbs_less_than(limbs: &[u128; 3], modulus: &[u128; 3]) -> (r: bool)
    requires
        (limbs[0] as nat) < limb_base(),
        (limbs[1] as nat) < limb_base(),
        (modulus[0] as nat) < limb_base(),
        (modulus[1] as nat) < limb_base(),
    ensures
        r == (recombine(limbs[0] as nat, limbs[1] as nat, limbs[2] as nat) < recombine(
            modulus[0] as nat,
            modulus[1] as nat,
            modulus[2] as nat,
        )),
{
    proof {
        lemma_limbs_lt(
            limbs[0] as nat,
            limbs[1] as nat,
            limbs[2] as nat,
            modulus[0] as nat,
            modulus[1] as nat,
            modulus[2] as nat,
        );
    }
    limbs[2] < modulus[2] || (limbs[2] == modulus[2] && (limbs[1] < modulus[1] || (limbs[1]
        == modulus[1] && limbs[0] < modulus[0])))
}

/// `a - b` over limbs, for `a` at least `b`.
fn sub_limbs(a: &[u128; 3], b: &[u128; 3]) -> (r: [u128; 3])
    requires
        (a[0] as nat) < limb_base(),
        (a[1] as nat) < limb_base(),
        (b[0] as nat) < limb_base(),
        (b[1] as nat) < limb_base(),
        recombine(a[0] as nat, a[1] as nat, a[2] as nat) >= recombine(
            b[0] as nat,
            b[1] as nat,
            b[2] as nat,
        ),
    ensures
        (r[0] as nat) < limb_base(),
        (r[1] as nat) < limb_base(),
        r[2] <= a[2],
        recombine(r[0] as nat, r[1] as nat, r[2] as nat) == recombine(
            a[0] as nat,
            a[1] as nat,
            a[2] as nat,
        ) - recombine(b[0] as nat, b[1] as nat, b[2] as nat),
{
    let (d0, borrow0) = if a[0] >= b[0] {
        (a[0] - b[0], 0u128)
    } else {
        (a[0] + LIMB_BASE - b[0], 1u128)
    };
    let t1 = b[1] + borrow0;
    let (d1, borrow1) = if a[1] >= t1 {
        (a[1] - t1, 0u128)
    } else {
        (a[1] + LIMB_BASE - t1, 1u128)
    };
    proof {
        let base = limb_base() as int;
        let (a0, a1, a2) = (a[0] as int, a[1] as int, a[2] as int);
        let (b0, b1, b2) = (b[0] as int, b[1] as int, b[2] as int);
        assert(d0 as int + base * (d1 as int) + base * base * (a2 - b2 - borrow1 as int) == (a0
            + base * a1 + base * base * a2) - (b0 + base * b1 + base * base * b2)) by (nonlinear_arith)
            requires
                d0 as int == a0 - b0 + base * (borrow0 as int),
                d1 as int == a1 - b1 - borrow0 as int + base * (borrow1 as int),
        ;
        if a2 - b2 - (borrow1 as int) < 0 {
            assert(d0 as int + base * (d1 as int) + base * base * (a2 - b2 - borrow1 as int) < 0)
                by (nonlinear_arith)
                requires
                    0 <= d0 < base,
                    0 <= d1 < base,
                    a2 - b2 - borrow1 as int <= -1,
            ;
        }
    }
    let d2 = a[2] - b[2] - borrow1;
    [d0, d1, d2]
}

/// The value of limbs reduced modulo the scalar-field modulus, by
/// subtracting the modulus while the value is not below it.
pub fn reduce_fr(limbs: &[u128; 3]) -> (r: [u128; 3])
    requires
        (limbs[0] as nat) < limb_base(),
        (limbs[1] as nat) < limb_base(),
    ensures
        (r[0] as nat) < limb_base(),
        (r[1] as nat) < limb_base(),
        recombine(r[0] as nat, r[1] as nat, r[2] as nat) == recombine(
            limbs[0] as nat,
            limbs[1] as nat,
            limbs[2] as nat,
        ) % fr_modulus(),
{
    let m: [u128; 3] = [FR_MODULUS_LO, FR_MODULUS_MID, FR_MODULUS_HI];
    let ghost x = recombine(limbs[0] as nat, limbs[1] as nat, limbs[2] as nat);
    let ghost mut k: nat = 0;
    let mut v = *limbs;
    while !limbs_less_than(&v, &m)
        invariant
            (v[0] as nat) < limb_base(),
            (v[1] as nat) < limb_base(),
            m[0] == FR_MODULUS_LO && m[1] == FR_MODULUS_MID && m[2] == FR_MODULUS_HI,
            x == recombine(v[0] as nat, v[1] as nat, v[2] as nat) + k * fr_modulus(),
        decreases recombine(v[0] as nat, v[1] as nat, v[2] as nat),
    {
        let ghost before = recombine(v[0] as nat, v[1] as nat, v[2] as nat);
        v = sub_limbs(&v, &m);
        proof {
            assert(fr_modulus() > 0);
            k = k + 1;
            assert(x == (before - fr_modulus()) + k * fr_modulus()) by (nonlinear_arith)
                requires
                    x == before + (k - 1) * fr_modulus(),
            ;
        }
    }
    proof {
        let rv = recombine(v[0] as nat, v[1] as nat, v[2] as nat);
        lemma_fundamental_div_mod_converse(x as int, fr_modulus() as int, k as int, rv as int);
    }
    v
}

/// Whether a word's value is below the BN254 base-field modulus.
pub fn word_below_fq_modulus(w: &Word) -> (r: bool)
    ensures
        r == (le_value(w@) < fq_modulus()),
{
    let limbs = decompose_word(w);
    proof {
        lemma_limbs_recombine(w@);
    }
    limbs_less_than(&limbs, &[FQ_MODULUS_LO, FQ_MODULUS_MID, FQ_MODULUS_HI])
}

/// Whether a word's value is below the BN254 scalar-field modulus.
pub fn word_below_fr_modulus(w: &Word) -> (r: bool)
    ensures
        r == (le_value(w@) < fr_modulus()),
{
    let limbs = decompose_word(w);
    proof {
        lemma_limbs_recombine(w@);
    }
    limbs_less_than(&limbs, &[FR_MODULUS_LO, FR_MODULUS_MID, FR_MODULUS_HI])
}

/// Whether every byte of a word is zero.
pub fn word_is_zero(w: &Word) -> (r: bool)
    ensures
        r == (le_value(w@) == 0),
{
    let mut i: usize = 0;
    while i < 32
        invariant
            i <= 32,
            w@.len() == 32,
            forall|k: int| 0 <= k < i ==> w@[k] == 0,
        decreases 32 - i,
    {
        if w[i] != 0 {
            proof {
                lemma_le_value_zero(w@);
            }
            return false;
        }
        i = i + 1;
    }
    proof {
        lemma_le_value_zero(w@);
    }
    true
}

/// Checks a raw word as a candidate base-field element: its limbs, whether
/// it is below the modulus, and whether it is zero.
pub fn precheck_fq(w: &Word) -> (r: ValidatedFieldElement)
    ensures
        r.bytes == *w,
        limb_nats(r.limbs) == limbs_of(w@),
        recombine(r.native[0] as nat, r.native[1] as nat, r.native[2] as nat) == le_value(w@)
            % fr_modulus(),
        r.below_modulus == (le_value(w@) < fq_modulus()),
        r.is_zero == (r.below_modulus && le_value(w@) == 0),
        r.is_zero == (le_value(w@) == 0),
{
    let limbs = decompose_word(w);
    proof {
        lemma_limbs_recombine(w@);
    }
    let native = reduce_fr(&limbs);
    let below_modulus = word_below_fq_modulus(w);
    let zero = word_is_zero(w);
    ValidatedFieldElement { limbs, bytes: *w, native, below_modulus, is_zero: below_modulus && zero }
}

} // verus!
