//! Tests of the vector commitment: setup, commit/verify, open/verify,
//! aggregation, and serialization of the commitment key.

use ark_bls12_381::Fr;
use ark_bls12_381::G1Projective;
use ark_poly::univariate::DensePolynomial;
use ark_poly::DenseUVPolynomial;
use ark_poly::EvaluationDomain;
use ark_poly::Radix2EvaluationDomain;
use ark_serialize::CanonicalDeserialize;
use ark_serialize::CanonicalSerialize;
use ark_std::Zero;
use std::ops::Mul;

use jackpot::curve::fr_rand;
use jackpot::curve::fr_ser;
use jackpot::curve::g1_ser_comp;
use jackpot::curve::G1Point;
use jackpot::curve::Scalar;
use jackpot::vectorcommitment::kzg::kzg_types::ck_eq;
use jackpot::vectorcommitment::kzg::kzg_types::ck_from_bytes;
use jackpot::vectorcommitment::kzg::kzg_types::ck_to_bytes;
use jackpot::vectorcommitment::kzg::VcKZG;

type D = Radix2EvaluationDomain<Fr>;

fn fr_to_ark(x: &Scalar) -> Fr {
    let b = fr_ser(x);
    Fr::deserialize_uncompressed(&b[..]).unwrap()
}

fn g1_to_ark(p: &G1Point) -> ark_bls12_381::G1Affine {
    let b = g1_ser_comp(p);
    ark_bls12_381::G1Affine::deserialize_compressed(&b[..]).unwrap()
}

#[test]
fn kzg_vc_test_par_well_formed() {
    let mut rng = ark_std::rand::thread_rng();
    let message_length = 14;
    let ck = VcKZG::setup(message_length);
    assert!(ck.is_some());
    let ck = ck.unwrap();

    // with message length 14, we should have 16 degrees of freedom
    assert_eq!(ck.domain.size(), 16);
    let ark_domain = D::new(16).unwrap();

    // verify that lagranges consistent with u. To do so:
    // Compute g1^f(alpha) once with u (lhs)
    // and once with u_lag (rhs)
    let f: DensePolynomial<Fr> = DenseUVPolynomial::rand(15, &mut rng);
    let cpow: Vec<G1Projective> = f
        .coeffs
        .iter()
        .enumerate()
        .map(|(i, c)| g1_to_ark(&ck.u[i]).mul(c))
        .collect();
    let lhs: G1Projective = cpow.iter().sum();
    let evals = f.evaluate_over_domain(ark_domain);
    let mut rhs = G1Projective::zero();
    for i in 0..ck.domain.size() {
        rhs += g1_to_ark(&ck.lagranges[i]).mul(evals[i]);
    }
    assert_eq!(
        ark_ec::CurveGroup::into_affine(lhs),
        ark_ec::CurveGroup::into_affine(rhs)
    );

    // verify that lagranges consistent with hat_u in the same way
    let f: DensePolynomial<Fr> = DenseUVPolynomial::rand(15, &mut rng);
    let cpow: Vec<G1Projective> = f
        .coeffs
        .iter()
        .enumerate()
        .map(|(i, c)| g1_to_ark(&ck.hat_u[i]).mul(c))
        .collect();
    let lhs: G1Projective = cpow.iter().sum();
    let evals = f.evaluate_over_domain(ark_domain);
    let mut rhs = G1Projective::zero();
    for i in 0..ck.domain.size() {
        rhs += g1_to_ark(&ck.lagranges[i + ck.domain.size()]).mul(evals[i]);
    }
    assert_eq!(
        ark_ec::CurveGroup::into_affine(lhs),
        ark_ec::CurveGroup::into_affine(rhs)
    );
}

/// test that setup works
#[test]
fn kzg_vc_test_setup() {
    // we test for a bunch of message lengths
    let lrange = 1..30;
    for message_length in lrange {
        // setup commitment key
        let ck = VcKZG::setup(message_length);
        assert!(ck.is_some());
    }
}

/// test that honestly committing yields a valid commitment
#[test]
fn kzg_vc_test_com_ver() {
    // we test for a bunch of message lengths
    let lrange = 1..30;
    for message_length in lrange {
        // setup commitment key
        let ck = VcKZG::setup(message_length).unwrap();
        // commit to a bunch of vectors, and then
        // check for each of them that com verifies
        let crange = 0..5;
        for _ in crange {
            // sample random vector
            let m: Vec<Scalar> = (0..message_length).map(|_| fr_rand()).collect();
            // commit to it
            let (com, _) = VcKZG::commit(&ck, &m).unwrap();
            // verify the commitment
            assert!(VcKZG::verify_commitment(&ck, &com));
        }
    }
}

/// test that honestly committing and opening makes ver accept
#[test]
fn kzg_vc_test_opening() {
    // we test for a bunch of message lengths
    let lrange = 1..15;
    for message_length in lrange {
        // setup commitment key
        let ck = VcKZG::setup(message_length).unwrap();

        // commit to a bunch of vectors, and then
        // check for each of them that com verifies
        let crange = 0..3;
        for _ in crange {
            // sample random vector
            let m: Vec<Scalar> = (0..message_length).map(|_| fr_rand()).collect();
            // commit to it
            let (com, st) = VcKZG::commit(&ck, &m).unwrap();

            // open the commitment at every position and verify the opening
            for i in 0..message_length {
                let op = VcKZG::open(&ck, &st, i as u32);
                assert!(op.is_some());
                let op = op.unwrap();
                // now verify
                assert!(VcKZG::verify(&ck, i as u32, &vec![m[i]], &vec![com], &op));
            }

            // make sure that opening outside of the range
            // does not give an opening
            let op = VcKZG::open(&ck, &st, message_length as u32);
            assert!(op.is_none());
        }
    }
}

/// test that honestly committing, opening, and aggregating makes ver accept
#[test]
fn kzg_vc_test_agg_opening() {
    // we test for a bunch of message lengths
    let lrange = 1..25;
    for message_length in lrange {
        // setup commitment key
        let ck = VcKZG::setup(message_length).unwrap();

        // commit to a bunch of vectors, giving us a bunch of commitments
        let mut coms = Vec::new();
        let mut sts = Vec::new();
        let mut ms = Vec::new();
        let numcoms = 5;
        for _ in 0..numcoms {
            // sample random vector
            let m: Vec<Scalar> = (0..message_length).map(|_| fr_rand()).collect();
            // commit to it
            let (com, st) = VcKZG::commit(&ck, &m).unwrap();
            ms.push(m);
            coms.push(com);
            sts.push(st);
        }

        // Open, aggregate, verify
        for i in 0..message_length {
            let mut ops = Vec::new();
            for j in 0..numcoms {
                let op = VcKZG::open(&ck, &sts[j], i as u32).unwrap();
                ops.push(op);
            }
            // aggregate
            let mis: Vec<Scalar> = (0..numcoms).map(|j| ms[j][i]).collect();
            let op_agg = VcKZG::aggregate(&ck, i as u32, &mis, &coms, &ops);
            assert!(op_agg.is_some());
            let op_agg = op_agg.unwrap();
            // verify
            assert!(VcKZG::verify(&ck, i as u32, &mis, &coms, &op_agg));
        }
    }
}

/// test that serialization of commitment key round-trips to a structurally
/// equal key
#[test]
fn kzg_vc_test_par_roundtrip() {
    let message_length = 14;
    let ck = VcKZG::setup(message_length).unwrap();

    // write it to a buffer
    let ck_bytes = ck_to_bytes(&ck);

    // read it back
    let ck_r = ck_from_bytes(&ck_bytes);
    assert!(ck_r.is_some());
    let ck_r = ck_r.unwrap();

    // compare
    assert!(ck_eq(&ck, &ck_r));
}

/// test that truncated or padded encodings of a commitment key are rejected
#[test]
fn kzg_vc_test_par_bad_bytes() {
    let ck = VcKZG::setup(5).unwrap();
    let ck_bytes = ck_to_bytes(&ck);

    // missing final byte
    let truncated = &ck_bytes[..ck_bytes.len() - 1];
    assert!(ck_from_bytes(truncated).is_none());

    // a trailing extra byte
    let mut padded = ck_bytes.clone();
    padded.push(0);
    assert!(ck_from_bytes(&padded).is_none());

    // an empty buffer
    let empty: Vec<u8> = Vec::new();
    assert!(ck_from_bytes(&empty).is_none());
}

/// test that setup rejects a zero message length
#[test]
fn kzg_vc_test_setup_rejects_zero() {
    assert!(VcKZG::setup(0).is_none());
}
