//! Tests of the KZG helper functions against independent computations with
//! the arkworks polynomial library.

use ark_bls12_381::Fr;
use ark_poly::univariate::DensePolynomial;
use ark_poly::DenseUVPolynomial;
use ark_poly::EvaluationDomain;
use ark_poly::Evaluations;
use ark_poly::Polynomial;
use ark_poly::Radix2EvaluationDomain;
use ark_serialize::CanonicalDeserialize;
use ark_serialize::CanonicalSerialize;
use ark_std::One;
use ark_std::UniformRand;

use jackpot::curve::fr_deser;
use jackpot::curve::fr_eq;
use jackpot::curve::fr_ser;
use jackpot::curve::g1_deser_comp;
use jackpot::curve::Scalar;
use jackpot::domain::Domain;
use jackpot::vectorcommitment::kzg::kzg_utils::evaluate_outside;
use jackpot::vectorcommitment::kzg::kzg_utils::find_in_domain;
use jackpot::vectorcommitment::kzg::kzg_utils::get_z0;
use jackpot::vectorcommitment::kzg::kzg_utils::inv_diffs;
use jackpot::vectorcommitment::kzg::kzg_utils::witness_evals_inside;
use jackpot::vectorcommitment::kzg::kzg_utils::witness_evals_outside;

type D = Radix2EvaluationDomain<Fr>;

fn ark_to_fr(x: &Fr) -> Scalar {
    let mut b = Vec::new();
    x.serialize_uncompressed(&mut b).unwrap();
    fr_deser(&b).unwrap()
}

fn fr_to_ark(x: &Scalar) -> Fr {
    let b = fr_ser(x);
    Fr::deserialize_uncompressed(&b[..]).unwrap()
}

/// test function find_in_domain
#[test]
fn test_find_in_domain() {
    let mut rng = ark_std::rand::thread_rng();
    let degree = 15;
    let ark_domain = D::new(degree + 1).unwrap();
    let domain = Domain::new(degree + 1).unwrap();
    let runs = 20;
    for _ in 0..runs {
        // check that it returns None
        // for element outside of domain
        let z = ark_domain.sample_element_outside_domain(&mut rng);
        assert!(find_in_domain(&domain, ark_to_fr(&z)).is_none());
    }
    // check that it returns the right
    // index for all elements in domain
    for i in 0..domain.size() {
        let fi = find_in_domain(&domain, domain.element(i));
        assert!(fi.is_some());
        let j = fi.unwrap();
        assert_eq!(i, j);
    }
}

/// test function witness_evals_inside
#[test]
fn test_witness_evals_inside() {
    let mut rng = ark_std::rand::thread_rng();
    let degree = 15;
    let ark_domain = D::new(degree + 1).unwrap();
    let domain = Domain::new(degree + 1).unwrap();
    let runs = 10;
    for _ in 0..runs {
        // sample a random polynomial
        let f = DensePolynomial::rand(ark_domain.size() - 1, &mut rng);
        // evaluate the polynomial on the domain
        let evals = ark_domain.fft(&f.coeffs);
        let evals_s: Vec<Scalar> = evals.iter().map(ark_to_fr).collect();
        // test that witness_evals_inside works properly over the entire domain
        for i in 0..ark_domain.size() {
            let z = ark_domain.element(i);
            // compute the witness polynomial by long division
            let fshift = &f - &DensePolynomial::from_coefficients_vec(vec![evals[i]]);
            let div = DensePolynomial::from_coefficients_vec(vec![-z, Fr::one()]);
            let witness_poly = &fshift / &div;
            let witn_evals_expected = ark_domain.fft(&witness_poly.coeffs);
            // compare with what we get from our function
            let mut witn_evals: Vec<Scalar> = Vec::new();
            witness_evals_inside(&domain, &evals_s, i, &mut witn_evals);
            for j in 0..ark_domain.size() {
                assert_eq!(fr_to_ark(&witn_evals[j]), witn_evals_expected[j]);
            }
        }
    }
}

/// test function inv_diffs
#[test]
fn test_inv_diffs() {
    let mut rng = ark_std::rand::thread_rng();
    let degree = 15;
    let ark_domain = D::new(degree + 1).unwrap();
    let domain = Domain::new(degree + 1).unwrap();
    let runs = 10;
    for _ in 0..runs {
        // sample an element outside the domain
        let z = ark_domain.sample_element_outside_domain(&mut rng);
        // compute its inverse differences
        let inv = inv_diffs(&domain, &ark_to_fr(&z));
        // check that each element is really the inverse
        for i in 0..ark_domain.size() {
            let diff = ark_domain.element(i) - z;
            let prod = diff * fr_to_ark(&inv[i]);
            assert_eq!(prod, Fr::one());
        }
    }
}

/// test function witness_evals_outside
#[test]
fn test_witness_evals_outside() {
    let mut rng = ark_std::rand::thread_rng();
    let degree = 15;
    let ark_domain = D::new(degree + 1).unwrap();
    let domain = Domain::new(degree + 1).unwrap();
    let runs = 10;
    for _ in 0..runs {
        // sample a random polynomial by sampling coefficients
        let f = DensePolynomial::rand(ark_domain.size() - 1, &mut rng);
        // evaluate the polynomial on the domain
        let evals: Vec<Fr> = ark_domain.fft(&f.coeffs);
        let evals_s: Vec<Scalar> = evals.iter().map(ark_to_fr).collect();
        // do a few tests with this polynomial
        for _ in 0..runs {
            // sample a random point outside the domain
            let z = ark_domain.sample_element_outside_domain(&mut rng);
            let inv = inv_diffs(&domain, &ark_to_fr(&z));
            let fz = f.evaluate(&z);
            let fshift = &f - &DensePolynomial::from_coefficients_vec(vec![fz]);
            // compute the witness polynomial by long division
            let div = DensePolynomial::from_coefficients_vec(vec![-z, Fr::one()]);
            let witness_poly = &fshift / &div;
            let witn_evals_expected = ark_domain.fft(&witness_poly.coeffs);
            // compare with what we get from our function
            let mut witn_evals: Vec<Scalar> = Vec::new();
            witness_evals_outside(&domain, &evals_s, ark_to_fr(&fz), &inv, &mut witn_evals);
            for i in 0..ark_domain.size() {
                assert_eq!(fr_to_ark(&witn_evals[i]), witn_evals_expected[i]);
            }
        }
    }
}

/// test function evaluate_outside
#[test]
fn test_evaluate_outside() {
    let mut rng = ark_std::rand::thread_rng();
    let degree = 15;
    let ark_domain = D::new(degree + 1).unwrap();
    let domain = Domain::new(degree + 1).unwrap();
    let runs = 20;
    for _ in 0..runs {
        // sample a random polynomial by sampling random evaluations
        let mut evals = Vec::new();
        for _ in 0..ark_domain.size() {
            evals.push(Fr::rand(&mut rng));
        }
        let evals_s: Vec<Scalar> = evals.iter().map(ark_to_fr).collect();
        let evals = Evaluations::from_vec_and_domain(evals, ark_domain);
        let f = evals.interpolate_by_ref();

        // sample a bunch of points and
        // evaluate the polynomial classically
        // and evaluate it using our function
        // result should then be the same
        // tests will most likely be outside of the domain
        for _ in 0..runs {
            let z = Fr::rand(&mut rng);
            let expected: Fr = f.evaluate(&z);
            let zs = ark_to_fr(&z);
            let inv = inv_diffs(&domain, &zs);
            let obtained = evaluate_outside(&domain, &evals_s, &zs, &inv);
            assert_eq!(fr_to_ark(&obtained), expected);
        }
    }
}

/// test function get_z0
#[test]
fn test_get_z0() {
    // we test the following:
    // (a) if we input the same twice, we get the same output
    // (b) if we input two different things, we get different outputs
    let mut rng = ark_std::rand::thread_rng();
    let runs = 20;
    for _ in 0..runs {
        // sample two random 'commitments'. They should be different with high prob
        let com1 = ark_bls12_381::G1Projective::rand(&mut rng);
        let com2 = ark_bls12_381::G1Projective::rand(&mut rng);
        let mut b1 = Vec::new();
        ark_ec::CurveGroup::into_affine(com1).serialize_compressed(&mut b1).unwrap();
        let mut b2 = Vec::new();
        ark_ec::CurveGroup::into_affine(com2).serialize_compressed(&mut b2).unwrap();
        let com1 = g1_deser_comp(&b1).unwrap();
        let com2 = g1_deser_comp(&b2).unwrap();
        // run the function we want to test
        let z10 = get_z0(&com1);
        let z11 = get_z0(&com1);
        let z20 = get_z0(&com2);
        let z21 = get_z0(&com2);
        assert!(fr_eq(&z10, &z11));
        assert!(fr_eq(&z20, &z21));
        assert!(!fr_eq(&z10, &z20));
    }
}
