//! Tests of the amortized all-openings computation against naive
//! per-position computations.

use ark_bls12_381::Fr;
use ark_bls12_381::G1Projective;
use ark_ec::VariableBaseMSM;
use ark_poly::univariate::DensePolynomial;
use ark_poly::DenseUVPolynomial;
use ark_poly::EvaluationDomain;
use ark_poly::Radix2EvaluationDomain;
use ark_serialize::CanonicalDeserialize;
use ark_serialize::CanonicalSerialize;
use ark_std::One;
use ark_std::UniformRand;

use jackpot::curve::fr_deser;
use jackpot::curve::g1_ser_comp;
use jackpot::curve::g1_to_affine;
use jackpot::curve::G1Point;
use jackpot::curve::Scalar;
use jackpot::lotteryscheme::jack::Jack;
use jackpot::lotteryscheme::vcbased::Ticket;
use jackpot::vectorcommitment::kzg::kzg_fk_open::base_poly;
use jackpot::vectorcommitment::kzg::kzg_fk_open::precompute_openings_single;
use jackpot::vectorcommitment::kzg::kzg_types::opening_eq;
use jackpot::vectorcommitment::kzg::VcKZG;

type D = Radix2EvaluationDomain<Fr>;

fn ark_to_fr(x: &Fr) -> Scalar {
    let mut b = Vec::new();
    x.serialize_uncompressed(&mut b).unwrap();
    fr_deser(&b).unwrap()
}

fn g1_to_ark(p: &G1Point) -> ark_bls12_381::G1Affine {
    let b = g1_ser_comp(p);
    ark_bls12_381::G1Affine::deserialize_compressed(&b[..]).unwrap()
}

/// test function base_polynomial
#[test]
fn test_base_poly() {
    let mut rng = ark_std::rand::thread_rng();
    let degree = 15;
    let runs = 10;

    // generate some parameters
    let ck = VcKZG::setup(degree - 1).unwrap();
    let ark_domain = D::new(degree + 1).unwrap();
    let u_ark: Vec<ark_bls12_381::G1Affine> = ck.u.iter().map(g1_to_ark).collect();

    for _ in 0..runs {
        // sample random polynomial f and its evaluations
        let mut coeffs = Vec::new();
        for _ in 0..ck.domain.size() {
            coeffs.push(Fr::rand(&mut rng));
        }
        let f = DensePolynomial::from_coefficients_vec(coeffs);
        let evals = ark_domain.fft(&f.coeffs);
        let evals_s: Vec<Scalar> = evals.iter().map(ark_to_fr).collect();
        // compute the expected coefficients of h
        // in the exponent (expensive version)
        let mut naive = Vec::new();
        for i in 1..=degree {
            // h_i = f[d]u[d-i] + f[d-1]u[d-i-1] + ... + f[i+1]u[1] + f[i]u[0],
            // where u[j] = g1^{secret^j} and d = degree
            // note that this is an MSM of f[i..=d] and u[0..=d-i]
            let hi = <G1Projective as VariableBaseMSM>::msm(
                &u_ark[0..=(degree - i)],
                &f.coeffs[i..=degree],
            )
            .unwrap();
            naive.push(ark_ec::CurveGroup::into_affine(hi));
        }
        // compute h using the function we want to test
        let h = base_poly(&ck.domain, &ck.y, &evals_s);
        // check that they are indeed equal
        for i in 0..=degree - 1 {
            assert_eq!(naive[i], g1_to_ark(&g1_to_affine(&h[i])));
        }
    }
}

/// test function precompute_openings_single
#[test]
fn test_precompute_openings_single() {
    let mut rng = ark_std::rand::thread_rng();
    let degree = 15;
    let runs = 10;

    // generate some parameters
    let ck = VcKZG::setup(degree - 1).unwrap();
    let ark_domain = D::new(degree + 1).unwrap();
    let u_ark: Vec<ark_bls12_381::G1Affine> = ck.u.iter().map(g1_to_ark).collect();

    for _ in 0..runs {
        // generate random polynomial and its evaluations
        let mut coeffs = Vec::new();
        for _ in 0..ck.domain.size() {
            coeffs.push(Fr::rand(&mut rng));
        }
        let f = DensePolynomial::from_coefficients_vec(coeffs);
        let evals = ark_domain.fft(&f.coeffs);
        let evals_s: Vec<Scalar> = evals.iter().map(ark_to_fr).collect();
        // precompute the openings naively using long division (very slow)
        let mut naive: Vec<ark_bls12_381::G1Affine> = Vec::new();
        for i in 0..ck.domain.size() {
            // witness poly using long division
            let z = ark_domain.element(i);
            let fshift = &f - &DensePolynomial::from_coefficients_vec(vec![evals[i]]);
            let div = DensePolynomial::from_coefficients_vec(vec![-z, Fr::one()]);
            let witness_poly = &fshift / &div;
            // commit to witness poly at alpha
            let c = <G1Projective as VariableBaseMSM>::msm(
                &u_ark[..witness_poly.coeffs.len()],
                &witness_poly.coeffs,
            )
            .unwrap();
            naive.push(ark_ec::CurveGroup::into_affine(c));
        }
        // precompute the openings using the function we want to test
        let fk = precompute_openings_single(&ck.domain, &ck.y, &evals_s);
        // compare the results
        for i in 0..ck.domain.size() {
            assert_eq!(naive[i], g1_to_ark(&fk[i]));
        }
    }
}

/// after preprocessing, tickets must be byte-equal to the ones computed
/// without preprocessing
#[test]
fn fk_test_preprocessed_tickets() {
    let num_lotteries = 1022;
    let k = 512;
    let par = Jack::setup(num_lotteries, k).unwrap();
    let (pk, mut sk) = Jack::gen(&par).unwrap();
    let lseed = [7u8; 32];

    // tickets along the plain path
    let positions = [0u32, 3, 1021];
    let mut plain: Vec<Ticket> = Vec::new();
    for &i in positions.iter() {
        plain.push(Jack::get_ticket(&par, i, &lseed, 0, &sk, &pk).unwrap());
    }

    // preprocess, then take the same tickets along the fast path
    Jack::fk_preprocess(&par, &mut sk);
    for (idx, &i) in positions.iter().enumerate() {
        let fast = Jack::get_ticket(&par, i, &lseed, 0, &sk, &pk).unwrap();
        assert!(opening_eq(&plain[idx].opening, &fast.opening));
    }
}

/// the precomputed opening must agree with the plain opening at every
/// position
#[test]
fn fk_test_all_openings_match() {
    let message_length = 14;
    let ck = VcKZG::setup(message_length).unwrap();
    let m: Vec<Scalar> = (0..message_length).map(|_| jackpot::curve::fr_rand()).collect();
    let (_, mut st) = VcKZG::commit(&ck, &m).unwrap();

    let mut plain = Vec::new();
    for i in 0..message_length {
        plain.push(VcKZG::open(&ck, &st, i as u32).unwrap());
    }
    jackpot::vectorcommitment::kzg::kzg_fk_open::precompute_openings(&ck, &mut st);
    for i in 0..message_length {
        let fast = VcKZG::open(&ck, &st, i as u32).unwrap();
        assert!(opening_eq(&plain[i], &fast));
    }
}
