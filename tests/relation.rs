use ark_bn254::{Bn254, Fq, Fq12, Fr, G1Affine, G1Projective, G2Affine, G2Projective};
use ark_ec::pairing::Pairing;
use ark_ec::{AffineRepr, CurveGroup};
use ark_ff::{BigInteger, PrimeField, UniformRand};
use ark_serialize::CanonicalSerialize;
use pairing_circuit::fraud_circuit::MyFraudCircuit;
use pairing_circuit::pairing_circuit::{MyEccCircuit, RelationError};
use pairing_circuit::pairing::{fq12_one_bytes, multi_miller_loop, pairing_check};
use pairing_circuit::pipeline::{inner_prove, Action, Pipeline, PipelineError, Stage};
use pairing_circuit::rows::{min_num_rows, min_num_rows_block};
use rand::SeedableRng;
use rand_chacha::ChaCha20Rng;

fn word(f: &Fq) -> [u8; 32] {
    f.into_bigint().to_bytes_le().try_into().unwrap()
}

fn scalar(s: &Fr) -> [u8; 32] {
    s.into_bigint().to_bytes_le().try_into().unwrap()
}

fn raw_g1(p: &G1Affine) -> ([u8; 32], [u8; 32]) {
    (word(&p.x), word(&p.y))
}

fn raw_g2(q: &G2Affine) -> ([u8; 32], [u8; 32], [u8; 32], [u8; 32]) {
    (word(&q.x.c1), word(&q.x.c0), word(&q.y.c1), word(&q.y.c0))
}

fn target(f: &Fq12) -> [[u8; 32]; 12] {
    let mut bytes = Vec::new();
    f.serialize_uncompressed(&mut bytes).unwrap();
    let mut out = [[0u8; 32]; 12];
    for (i, chunk) in bytes.chunks(32).enumerate() {
        out[i].copy_from_slice(chunk);
    }
    out
}

/// A witness with `n` shares whose claimed result is the true pairing
/// product, computed pairing by pairing.
fn sample(n: usize, seed: u64) -> MyEccCircuit {
    let mut rng = ChaCha20Rng::seed_from_u64(seed);
    let mut ws = vec![];
    let mut c_points = vec![];
    let mut d_points = vec![];
    let mut r_points = vec![];
    for _ in 0..n {
        ws.push(Fr::rand(&mut rng));
        c_points.push(G1Projective::rand(&mut rng).into_affine());
        d_points.push(G1Projective::rand(&mut rng).into_affine());
        r_points.push(G2Projective::rand(&mut rng).into_affine());
    }
    let l_point = G2Projective::rand(&mut rng).into_affine();
    let c_p_point = G1Projective::rand(&mut rng).into_affine();
    let r_p_point = G2Projective::rand(&mut rng).into_affine();

    let mut result = Bn254::pairing(c_p_point, r_p_point);
    for i in 0..n {
        let c_w = (c_points[i] * ws[i]).into_affine();
        let d_w = (d_points[i] * ws[i]).into_affine();
        result = result + Bn254::pairing(c_w, l_point) + Bn254::pairing(d_w, r_points[i]);
    }

    let mut p1s = vec![];
    let mut p2s = vec![];
    for i in 0..n {
        p1s.push(raw_g1(&c_points[i]));
        p1s.push(raw_g1(&d_points[i]));
        p2s.push(raw_g2(&r_points[i]));
    }
    MyEccCircuit {
        p1s,
        p2s,
        ws: ws.iter().map(scalar).collect(),
        p4: raw_g2(&l_point),
        ct: raw_g1(&c_p_point),
        tk: raw_g2(&r_p_point),
        ti: target(&result.0),
    }
}

fn fraud_sample(seed: u64) -> (MyFraudCircuit, Fq12) {
    let mut rng = ChaCha20Rng::seed_from_u64(seed);
    let g1 = G1Projective::rand(&mut rng).into_affine();
    let sk = Fr::rand(&mut rng);
    let pk1 = (g1 * sk).into_affine();
    let c1 = Fq12::rand(&mut rng);
    let c2 = Fq12::rand(&mut rng);
    let tag = c1 * c2;
    let circuit = MyFraudCircuit {
        g: raw_g1(&g1),
        pk: raw_g1(&pk1),
        sk: scalar(&sk),
        c1: target(&c1),
        c2: target(&c2),
        tag: target(&tag),
    };
    (circuit, c1)
}

fn expected_hash(c: &MyEccCircuit) -> Vec<u8> {
    let mut bytes = Vec::new();
    for p in &c.p1s {
        bytes.extend_from_slice(&p.0);
        bytes.extend_from_slice(&p.1);
    }
    for q in &c.p2s {
        bytes.extend_from_slice(&q.0);
        bytes.extend_from_slice(&q.1);
        bytes.extend_from_slice(&q.2);
        bytes.extend_from_slice(&q.3);
    }
    for w in &c.ws {
        bytes.extend_from_slice(w);
    }
    for w in [&c.p4.0, &c.p4.1, &c.p4.2, &c.p4.3, &c.ct.0, &c.ct.1, &c.tk.0, &c.tk.1, &c.tk.2, &c.tk.3] {
        bytes.extend_from_slice(w);
    }
    let data_hash = ethers_core::utils::keccak256(&bytes);
    let mut pi = data_hash.to_vec();
    for w in &c.ti {
        pi.extend_from_slice(w);
    }
    ethers_core::utils::keccak256(&pi).to_vec()
}

fn expected_fraud_hash(c: &MyFraudCircuit) -> Vec<u8> {
    let mut bytes = Vec::new();
    for w in [&c.g.0, &c.g.1, &c.pk.0, &c.pk.1] {
        bytes.extend_from_slice(w);
    }
    for w in c.c1.iter().chain(c.c2.iter()) {
        bytes.extend_from_slice(w);
    }
    let data_hash = ethers_core::utils::keccak256(&bytes);
    let mut pi = data_hash.to_vec();
    for w in &c.tag {
        pi.extend_from_slice(w);
    }
    ethers_core::utils::keccak256(&pi).to_vec()
}

#[test]
fn test_pairing_circuit() {
    let circuit = sample(2, 1);
    assert_eq!(circuit.assign(), Ok(()));
    let instance = circuit.instance();
    assert_eq!(instance.len(), 1);
    assert_eq!(instance[0].len(), 32);
    assert_eq!(circuit.num_instance(), vec![32]);
}

#[test]
fn test_test_e2e() {
    let circuit = sample(10, 2);
    assert_eq!(circuit.assign(), Ok(()));
    let instance = circuit.instance();
    assert_eq!(instance, vec![expected_hash(&circuit)]);
}

#[test]
fn oabe_prove() {
    let n = 5;
    let circuit = sample(n, 3);
    let instance = circuit.instance();
    assert_eq!(instance[0].len(), 32);

    let mut pipeline = Pipeline::new(true);
    assert_eq!(pipeline.next_action(), Action::ProveInner);
    let generated = circuit.assign().map_err(|_| PipelineError::Unsatisfied);
    pipeline.advance(inner_prove(generated, true));
    assert_eq!(pipeline.next_action(), Action::Compress);
    pipeline.advance(Ok(()));
    assert_eq!(pipeline.next_action(), Action::Finalize { emit_verifier: true });
    pipeline.advance(Ok(()));
    assert!(pipeline.is_done());
    assert_eq!(pipeline.next_action(), Action::Stop);
    assert_eq!(pipeline.error, None);
}

#[test]
fn perturbed_target_is_unsatisfied() {
    let mut circuit = sample(2, 4);
    let mut bytes = Vec::new();
    for w in &circuit.ti {
        bytes.extend_from_slice(w);
    }
    let real = <Fq12 as ark_serialize::CanonicalDeserialize>::deserialize_uncompressed(&bytes[..]).unwrap();
    let perturbation = Bn254::pairing(G1Affine::generator(), G2Affine::generator()).0;
    circuit.ti = target(&(real * perturbation));
    assert_eq!(circuit.assign(), Err(RelationError::Unsatisfied));
}

#[test]
fn mutated_weight_is_unsatisfied() {
    let mut circuit = sample(2, 5);
    circuit.ws[1][0] ^= 1;
    assert_eq!(circuit.assign(), Err(RelationError::Unsatisfied));
}

#[test]
fn instance_matches_keccak_recomputation() {
    let circuit = sample(2, 6);
    let instance = circuit.instance();
    assert_eq!(instance, vec![expected_hash(&circuit)]);
    assert_eq!(circuit.instances(), instance);
}

#[test]
fn mutated_coordinate_changes_hash() {
    let circuit = sample(2, 7);
    let before = circuit.instance();
    let mut mutated = sample(2, 7);
    mutated.p1s[3].1[17] ^= 0x40;
    assert_ne!(mutated.instance(), before);
    let mut mutated = sample(2, 7);
    mutated.tk.2[0] ^= 1;
    assert_ne!(mutated.instance(), before);
    let mut mutated = sample(2, 7);
    mutated.ti[11][31] ^= 1;
    assert_ne!(mutated.instance(), before);
}

#[test]
fn input_bytes_order() {
    let circuit = sample(1, 8);
    let bytes = circuit.input_bytes();
    assert_eq!(bytes.len(), 32 * (2 * 2 + 4 + 1 + 10));
    assert_eq!(&bytes[0..32], &circuit.p1s[0].0);
    assert_eq!(&bytes[32 * 4..32 * 5], &circuit.p2s[0].0);
    assert_eq!(&bytes[32 * 8..32 * 9], &circuit.ws[0]);
    assert_eq!(&bytes[32 * 9..32 * 10], &circuit.p4.0);
    assert_eq!(&bytes[32 * 13..32 * 14], &circuit.ct.0);
    assert_eq!(&bytes[32 * 18..32 * 19], &circuit.tk.3);
    let t = circuit.target_bytes();
    assert_eq!(t.len(), 384);
    assert_eq!(&t[352..384], &circuit.ti[11]);
}

#[test]
fn shape_mismatch() {
    let mut circuit = sample(2, 9);
    circuit.ws.pop();
    assert_eq!(circuit.assign(), Err(RelationError::ShapeMismatch));
    let mut circuit = sample(2, 9);
    circuit.p1s.pop();
    assert_eq!(circuit.assign(), Err(RelationError::ShapeMismatch));
    let mut circuit = sample(2, 9);
    circuit.p2s.pop();
    assert_eq!(circuit.assign(), Err(RelationError::ShapeMismatch));
    let mut circuit = sample(1, 9);
    circuit.ws.clear();
    circuit.p1s.clear();
    circuit.p2s.clear();
    assert_eq!(circuit.assign(), Err(RelationError::ShapeMismatch));
}

#[test]
fn coordinate_out_of_range() {
    let mut circuit = sample(2, 10);
    circuit.p1s[2].0 = [0xff; 32];
    assert_eq!(circuit.assign(), Err(RelationError::OutOfRange));
    let mut circuit = sample(2, 10);
    circuit.tk.1 = [0xff; 32];
    assert_eq!(circuit.assign(), Err(RelationError::OutOfRange));
    let mut circuit = sample(2, 10);
    circuit.ws[0] = [0xff; 32];
    assert_eq!(circuit.assign(), Err(RelationError::OutOfRange));
}

#[test]
fn test_fraud_circuit() {
    let (circuit, _) = fraud_sample(11);
    assert_eq!(circuit.assign(), Ok(()));
    let instance = circuit.instance();
    assert_eq!(instance.len(), 1);
    assert_eq!(instance[0].len(), 32);
}

#[test]
fn test_e2e() {
    let (circuit, _) = fraud_sample(12);
    assert_eq!(circuit.assign(), Ok(()));
    assert_eq!(circuit.num_instance(), vec![32]);
    assert_eq!(circuit.instances(), vec![expected_fraud_hash(&circuit)]);
}

#[test]
fn fraud_wrong_key_is_unsatisfied() {
    let (mut circuit, _) = fraud_sample(13);
    circuit.pk = circuit.g;
    assert_eq!(circuit.assign(), Err(RelationError::Unsatisfied));
}

#[test]
fn fraud_wrong_tag_is_unsatisfied() {
    let (mut circuit, c1) = fraud_sample(14);
    circuit.tag = target(&c1);
    assert_eq!(circuit.assign(), Err(RelationError::Unsatisfied));
}

#[test]
fn fraud_out_of_range() {
    let (mut circuit, _) = fraud_sample(15);
    circuit.c2[5] = [0xff; 32];
    assert_eq!(circuit.assign(), Err(RelationError::OutOfRange));
    let (mut circuit, _) = fraud_sample(15);
    circuit.sk = [0xff; 32];
    assert_eq!(circuit.assign(), Err(RelationError::OutOfRange));
}

#[test]
fn pipeline_failure_is_final() {
    let mut pipeline = Pipeline::new(false);
    pipeline.advance(Ok(()));
    pipeline.advance(Err(PipelineError::KeyGeneration));
    assert_eq!(pipeline.stage, Stage::Failed);
    assert_eq!(pipeline.error, Some(PipelineError::KeyGeneration));
    pipeline.advance(Ok(()));
    assert_eq!(pipeline.stage, Stage::Failed);
    assert_eq!(pipeline.next_action(), Action::Stop);
    assert!(!pipeline.is_done());
}

#[test]
fn pipeline_without_verifier() {
    let mut pipeline = Pipeline::new(false);
    pipeline.advance(Ok(()));
    pipeline.advance(Ok(()));
    assert_eq!(pipeline.next_action(), Action::Finalize { emit_verifier: false });
}

#[test]
fn inner_prove_outcomes() {
    assert_eq!(inner_prove(Ok(()), true), Ok(()));
    assert_eq!(inner_prove(Ok(()), false), Err(PipelineError::VerificationFailed));
    assert_eq!(
        inner_prove(Err(PipelineError::MalformedProof), true),
        Err(PipelineError::MalformedProof)
    );
    assert_eq!(inner_prove(Err(PipelineError::ParameterLoad), false), Err(PipelineError::ParameterLoad));
}

#[test]
fn curve_check_accepts_sample() {
    let circuit = sample(2, 16);
    assert_eq!(circuit.assign_checked(true), Ok(()));
    assert_eq!(circuit.assign_checked(false), Ok(()));
}

#[test]
fn curve_check_rejects_moved_point() {
    let mut circuit = sample(2, 17);
    circuit.p1s[1].1[0] ^= 1;
    assert_eq!(circuit.assign_checked(true), Err(RelationError::NotOnCurve));
    assert_eq!(circuit.assign_checked(false), Err(RelationError::Unsatisfied));
    let mut circuit = sample(2, 17);
    circuit.p2s[1].0[3] ^= 1;
    assert_eq!(circuit.assign_checked(true), Err(RelationError::NotOnCurve));
    let mut circuit = sample(2, 17);
    circuit.p4.3[0] ^= 1;
    assert_eq!(circuit.assign_checked(true), Err(RelationError::NotOnCurve));
}

#[test]
fn curve_check_after_range_check() {
    let mut circuit = sample(2, 18);
    circuit.p1s[0].1[0] ^= 1;
    circuit.ct.0 = [0xff; 32];
    assert_eq!(circuit.assign_checked(true), Err(RelationError::OutOfRange));
    circuit.ws.pop();
    assert_eq!(circuit.assign_checked(true), Err(RelationError::ShapeMismatch));
}

#[test]
fn identity_extra_point() {
    let mut rng = ChaCha20Rng::seed_from_u64(19);
    let w = Fr::rand(&mut rng);
    let c = G1Projective::rand(&mut rng).into_affine();
    let d = G1Projective::rand(&mut rng).into_affine();
    let r = G2Projective::rand(&mut rng).into_affine();
    let l = G2Projective::rand(&mut rng).into_affine();
    let rp = G2Projective::rand(&mut rng).into_affine();
    let result = Bn254::pairing((c * w).into_affine(), l) + Bn254::pairing((d * w).into_affine(), r);
    let circuit = MyEccCircuit {
        p1s: vec![raw_g1(&c), raw_g1(&d)],
        p2s: vec![raw_g2(&r)],
        ws: vec![scalar(&w)],
        p4: raw_g2(&l),
        ct: ([0u8; 32], [0u8; 32]),
        tk: raw_g2(&rp),
        ti: target(&result.0),
    };
    assert!(G1Affine::identity().is_zero());
    assert_eq!(circuit.assign_checked(true), Ok(()));
}

#[test]
fn usable_rows() {
    assert_eq!(min_num_rows(1), (1 << 20) - 3);
    assert_eq!(min_num_rows(64), (1 << 20) - 66);
    assert_eq!(MyEccCircuit::min_num_rows(10), (1 << 20) - 12);
    assert_eq!(MyFraudCircuit::min_num_rows(10), (1 << 20) - 12);
}

#[test]
fn block_row_usage() {
    assert_eq!(min_num_rows_block(1000, 0, 5, 2, 1, 50, 10, 2), (500, 1000));
    assert_eq!(min_num_rows_block(1000, 0, 5, 2, 0, 50, 10, 2), (200, 1000));
    assert_eq!(min_num_rows_block(1000, 0, 0, 0, 0, 50, 10, 2), (0, 1000));
    let granted = (1 << 20) - 12;
    assert_eq!(min_num_rows_block(0, 10, 1, 0, 3, 8, 7, 4), ((granted / 4) * 3, granted));
}

#[test]
fn end_to_end_two_shares() {
    let circuit = sample(2, 20);
    let mut pipeline = Pipeline::new(true);
    let mut emitted = false;
    while !pipeline.is_done() && pipeline.error.is_none() {
        let outcome = match pipeline.next_action() {
            Action::ProveInner => {
                let generated = circuit.assign().map_err(|_| PipelineError::Unsatisfied);
                inner_prove(generated, circuit.instance()[0].len() == 32)
            }
            Action::Compress => Ok(()),
            Action::Finalize { emit_verifier } => {
                emitted = emit_verifier;
                Ok(())
            }
            Action::Stop => break,
        };
        pipeline.advance(outcome);
    }
    assert!(pipeline.is_done());
    assert!(emitted);
}

#[test]
fn fraud_instance_binds_public_data_not_secret() {
    let (circuit, _) = fraud_sample(21);
    let before = circuit.instance();
    assert_eq!(before, vec![expected_fraud_hash(&circuit)]);
    assert_eq!(circuit.input_bytes().len(), 32 * 4 + 384 * 2);
    let (mut mutated, _) = fraud_sample(21);
    mutated.c2[3][7] ^= 1;
    assert_ne!(mutated.instance(), before);
    let (mut mutated, _) = fraud_sample(21);
    mutated.tag[0][0] ^= 1;
    assert_ne!(mutated.instance(), before);
    let (mut mutated, _) = fraud_sample(21);
    mutated.sk[0] ^= 1;
    assert_eq!(mutated.instance(), before);
}

#[test]
fn empty_pairing_product_is_one() {
    let terms = Vec::new();
    let mut one = vec![0u8; 384];
    one[0] = 1;
    assert_eq!(multi_miller_loop(&terms), Some(one.clone()));
    assert!(pairing_check(&terms, &one));
    let mut other = one.clone();
    other[5] = 1;
    assert!(!pairing_check(&terms, &other));
    assert_eq!(fq12_one_bytes(), one);
}
