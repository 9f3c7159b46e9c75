use pairing_circuit::field::{
    crt_repr_matches, decompose_word, precheck_fq, reduce_fr, word_below_fq_modulus, word_below_fr_modulus,
    word_is_zero,
};

/// The BN254 base-field modulus, little-endian.
fn fq_modulus() -> [u8; 32] {
    let be: [u8; 32] = [
        0x30, 0x64, 0x4e, 0x72, 0xe1, 0x31, 0xa0, 0x29, 0xb8, 0x50, 0x45, 0xb6, 0x81, 0x81, 0x58,
        0x5d, 0x97, 0x81, 0x6a, 0x91, 0x68, 0x71, 0xca, 0x8d, 0x3c, 0x20, 0x8c, 0x16, 0xd8, 0x7c,
        0xfd, 0x47,
    ];
    let mut le = be;
    le.reverse();
    le
}

/// The BN254 scalar-field modulus, little-endian.
fn fr_modulus() -> [u8; 32] {
    let be: [u8; 32] = [
        0x30, 0x64, 0x4e, 0x72, 0xe1, 0x31, 0xa0, 0x29, 0xb8, 0x50, 0x45, 0xb6, 0x81, 0x81, 0x58,
        0x5d, 0x28, 0x33, 0xe8, 0x48, 0x79, 0xb9, 0x70, 0x91, 0x43, 0xe1, 0xf5, 0x93, 0xf0, 0x00,
        0x00, 0x01,
    ];
    let mut le = be;
    le.reverse();
    le
}

fn recombine(l: [u128; 3]) -> (u128, u128, u128) {
    (l[0], l[1], l[2])
}

#[test]
fn limbs_of_counting_bytes() {
    let mut w = [0u8; 32];
    for (i, b) in w.iter_mut().enumerate() {
        *b = i as u8 + 1;
    }
    let limbs = decompose_word(&w);
    let mut expect = [0u128; 3];
    for (k, range) in [(0usize, 0..11), (1, 11..22), (2, 22..32)] {
        for j in range.clone().rev() {
            expect[k] = expect[k] * 256 + w[j] as u128;
        }
    }
    assert_eq!(limbs, expect);
    assert_eq!(limbs[0], 0x0b0a0908070605040302_01u128);
    assert!(limbs[0] < 1u128 << 88 && limbs[1] < 1u128 << 88 && limbs[2] < 1u128 << 80);
}

#[test]
fn limbs_of_all_ones() {
    let limbs = decompose_word(&[0xff; 32]);
    assert_eq!(recombine(limbs), ((1u128 << 88) - 1, (1u128 << 88) - 1, (1u128 << 80) - 1));
}

#[test]
fn crt_repr_detects_tampered_limb() {
    let w = fq_modulus();
    let limbs = decompose_word(&w);
    assert!(crt_repr_matches(&limbs, &w));
    let mut bad = limbs;
    bad[1] += 1;
    assert!(!crt_repr_matches(&bad, &w));
    let mut moved = limbs;
    moved[0] += 1 << 88;
    assert!(!crt_repr_matches(&moved, &w));
}

#[test]
fn modulus_is_not_below_itself() {
    let p = fq_modulus();
    let checked = precheck_fq(&p);
    assert!(!checked.below_modulus);
    assert!(!checked.is_zero);
    assert_eq!(checked.bytes, p);
    assert!(!word_below_fq_modulus(&[0xff; 32]));
}

#[test]
fn one_below_modulus_is_in_range() {
    let mut w = fq_modulus();
    w[0] -= 1;
    let checked = precheck_fq(&w);
    assert!(checked.below_modulus);
    assert!(!checked.is_zero);
    assert_eq!(checked.limbs, decompose_word(&w));
}

#[test]
fn above_modulus_in_high_limb_only() {
    let mut w = [0u8; 32];
    w[31] = 0x31;
    assert!(!precheck_fq(&w).below_modulus);
    w[31] = 0x30;
    assert!(precheck_fq(&w).below_modulus);
}

#[test]
fn zero_word() {
    let checked = precheck_fq(&[0u8; 32]);
    assert!(checked.below_modulus);
    assert!(checked.is_zero);
    assert_eq!(checked.limbs, [0, 0, 0]);
    assert!(word_is_zero(&[0u8; 32]));
    let mut w = [0u8; 32];
    w[20] = 1;
    assert!(!word_is_zero(&w));
    assert!(!precheck_fq(&w).is_zero);
}

#[test]
fn scalar_modulus_bound() {
    let r = fr_modulus();
    assert!(!word_below_fr_modulus(&r));
    let mut w = r;
    w[0] = 0;
    assert!(word_below_fr_modulus(&w));
    assert!(word_below_fq_modulus(&r));
}

#[test]
fn native_value_reduces_modulo_scalar_field() {
    assert_eq!(precheck_fq(&fr_modulus()).native, [0, 0, 0]);
    let mut w = fr_modulus();
    w[0] += 5;
    assert_eq!(precheck_fq(&w).native, [5, 0, 0]);
    assert_eq!(
        precheck_fq(&[0xff; 32]).native,
        [117025732564684417368326138, 197581313624794871899788703, 66306227548631746963054]
    );
    assert_eq!(precheck_fq(&fq_modulus()).native, [222867289446729926620020038, 478041753838, 0]);
    let mut small = [0u8; 32];
    small[12] = 7;
    assert_eq!(precheck_fq(&small).native, decompose_word(&small));
}

#[test]
fn reduce_limbs_below_modulus_unchanged() {
    assert_eq!(reduce_fr(&[1, 2, 3]), [1, 2, 3]);
}
