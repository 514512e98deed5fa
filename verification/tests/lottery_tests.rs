//! Tests of the lottery schemes: key verification, the always-winning case,
//! BLS signing and batch verification, aggregation order, and the negative
//! cases.

use jackpot::curve::fr_eq;
use jackpot::curve::g1_rand;
use jackpot::curve::g1_to_group;
use jackpot::curve::g2_to_group;
use jackpot::lotteryscheme::bls_hash::bls_batch_ver;
use jackpot::lotteryscheme::bls_hash::bls_sign;
use jackpot::lotteryscheme::bls_hash::bls_ver;
use jackpot::lotteryscheme::bls_hash::BLSHash;
use jackpot::lotteryscheme::jack::Jack;
use jackpot::lotteryscheme::jack_pre::JackPre;
use jackpot::lotteryscheme::vcbased::get_challenge;
use ark_serialize::CanonicalSerialize;
use jackpot::vectorcommitment::kzg::kzg_types::opening_eq;

/// test that if we generate keys honestly, they verify
#[test]
fn jack_lottery_test_key_verify() {
    let runs = 10;
    for _ in 0..runs {
        // set up parameters for a lottery
        let num_lotteries = 14;
        let k = 512;
        let par = Jack::setup(num_lotteries, k).unwrap();
        // generate a key pair
        let (pk, _sk) = Jack::gen(&par).unwrap();
        // assert that the pk verifies
        assert!(Jack::verify_key(&par, &pk));
    }
}

/// test that if we set winning probability to 1/k = 1/1 = 1,
/// then every ticket is winning
#[test]
fn jack_lottery_test_always_winning() {
    let runs = 5;
    for _ in 0..runs {
        // set up parameters for a lottery
        // for which everyone wins with probability 1
        let num_lotteries = 14;
        let k = 1;
        let par = Jack::setup(num_lotteries, k).unwrap();
        // generate key pairs for two users
        let (pk0, sk0) = Jack::gen(&par).unwrap();
        let (pk1, sk1) = Jack::gen(&par).unwrap();
        let sks = vec![sk0, sk1];
        let pks = vec![pk0, pk1];
        let pids = vec![0, 1];
        // do the lotteries
        for i in 0..num_lotteries {
            // participate should output true
            // for any lottery seed, as both users win with prob 1
            let lseed = Jack::sample_seed(&par, i as u32);
            assert!(Jack::participate(&par, i as u32, &lseed, pids[0], &sks[0], &pks[0]));
            assert!(Jack::participate(&par, i as u32, &lseed, pids[1], &sks[1], &pks[1]));
            // now that both won, we let them generate their tickets
            let ticket1 = Jack::get_ticket(&par, i as u32, &lseed, pids[0], &sks[0], &pks[0]);
            let ticket2 = Jack::get_ticket(&par, i as u32, &lseed, pids[1], &sks[1], &pks[1]);
            assert!(ticket1.is_some());
            assert!(ticket2.is_some());
            let ticket1 = ticket1.unwrap();
            let ticket2 = ticket2.unwrap();
            // we aggregate the tickets
            let ticket =
                Jack::aggregate(&par, i as u32, &lseed, &pids, &pks, &vec![ticket1, ticket2]);
            assert!(ticket.is_some());
            let ticket = ticket.unwrap();
            // the aggregated ticket should verify
            assert!(Jack::verify(&par, i as u32, &lseed, &pids, &pks, &ticket));
        }
    }
}

/// the preprocessing variant behaves like the plain scheme end to end
#[test]
fn jackpre_lottery_test_always_winning() {
    let runs = 2;
    for _ in 0..runs {
        let num_lotteries = 14;
        let k = 1;
        let par = JackPre::setup(num_lotteries, k).unwrap();
        let (pk0, sk0) = JackPre::gen(&par).unwrap();
        let (pk1, sk1) = JackPre::gen(&par).unwrap();
        let sks = vec![sk0, sk1];
        let pks = vec![pk0, pk1];
        let pids = vec![0, 1];
        for i in 0..num_lotteries {
            let lseed = JackPre::sample_seed(&par, i as u32);
            assert!(JackPre::participate(&par, i as u32, &lseed, pids[0], &sks[0], &pks[0]));
            assert!(JackPre::participate(&par, i as u32, &lseed, pids[1], &sks[1], &pks[1]));
            let ticket1 = JackPre::get_ticket(&par, i as u32, &lseed, pids[0], &sks[0], &pks[0]);
            let ticket2 = JackPre::get_ticket(&par, i as u32, &lseed, pids[1], &sks[1], &pks[1]);
            let ticket1 = ticket1.unwrap();
            let ticket2 = ticket2.unwrap();
            let ticket =
                JackPre::aggregate(&par, i as u32, &lseed, &pids, &pks, &vec![ticket1, ticket2]);
            assert!(ticket.is_some());
            let ticket = ticket.unwrap();
            assert!(JackPre::verify(&par, i as u32, &lseed, &pids, &pks, &ticket));
        }
    }
}

#[test]
fn blshash_lottery_test_key_verify() {
    let runs = 10;
    for _ in 0..runs {
        let num_lotteries = 14;
        let k = 512;
        let par = BLSHash::setup(num_lotteries, k).unwrap();
        let (pk, _sk) = BLSHash::gen(&par);
        assert!(BLSHash::verify_key(&par, &pk));
    }
}

#[test]
fn blshash_lottery_test_always_winning() {
    let runs = 5;
    for _ in 0..runs {
        let num_lotteries = 14;
        let k = 1;
        let par = BLSHash::setup(num_lotteries, k).unwrap();
        let (pk0, sk0) = BLSHash::gen(&par);
        let (pk1, sk1) = BLSHash::gen(&par);
        let sks = vec![sk0, sk1];
        let pks = vec![pk0, pk1];
        let pids = vec![0, 1];
        for i in 0..num_lotteries {
            let lseed = BLSHash::sample_seed(&par, i as u32);
            assert!(BLSHash::participate(&par, i as u32, &lseed, pids[0], &sks[0], &pks[0]));
            assert!(BLSHash::participate(&par, i as u32, &lseed, pids[1], &sks[1], &pks[1]));
            let ticket1 = BLSHash::get_ticket(&par, i as u32, &lseed, pids[0], &sks[0], &pks[0]);
            let ticket2 = BLSHash::get_ticket(&par, i as u32, &lseed, pids[1], &sks[1], &pks[1]);
            assert!(ticket1.is_some());
            assert!(ticket2.is_some());
            let ticket1 = ticket1.unwrap();
            let ticket2 = ticket2.unwrap();
            let ticket =
                BLSHash::aggregate(&par, i as u32, &lseed, &pids, &pks, &vec![ticket1, ticket2]);
            assert!(ticket.is_some());
            let ticket = ticket.unwrap();
            assert!(BLSHash::verify(&par, i as u32, &lseed, &pids, &pks, &ticket));
        }
    }
}

/// test that an honest BLS signature verifies
#[test]
fn test_bls_sign_and_ver() {
    let runs = 10;
    for _ in 0..runs {
        // generate parameters and keys
        let par = BLSHash::setup(1024, 1024).unwrap();
        let (pk, sk) = BLSHash::gen(&par);
        // sign a message
        let mes = vec![0x08u8; 36];
        let sig = bls_sign(&sk, &mes).unwrap();
        // assert that it verifies
        assert!(bls_ver(&par.g2, &g2_to_group(&pk), &g1_to_group(&sig), &mes));
        // random element should not verify
        let sig = g1_rand();
        assert!(!bls_ver(&par.g2, &g2_to_group(&pk), &sig, &mes));
    }
}

/// test that a bunch of honest BLS signatures batch verify
#[test]
fn test_bls_sign_and_batch_ver() {
    let runs = 5;
    let numkeys = 20;
    for _ in 0..runs {
        // generate parameters and some keys
        let par = BLSHash::setup(1024, 1024).unwrap();
        let mut pks = Vec::new();
        let mut sks = Vec::new();
        for _ in 0..numkeys {
            let (pk, sk) = BLSHash::gen(&par);
            pks.push(pk);
            sks.push(sk);
        }

        // sign a message with all keys
        let mes = vec![0x08u8; 36];
        let mut sigs = Vec::new();
        for j in 0..numkeys {
            let sig = bls_sign(&sks[j], &mes).unwrap();
            sigs.push(sig);
        }
        // assert that they batch verify
        assert!(bls_batch_ver(&par.g2, &pks, &sigs, &mes));
    }
}

/// the challenge packing takes exactly the first log_k bits of the digest:
/// two full bytes for log_k = 16, read little-endian
#[test]
fn jack_test_challenge_from_digest_value() {
    let mut digest: Vec<u8> = Vec::new();
    for j in 0..32 {
        digest.push((j as u8) * 3 + 1);
    }
    // log_k = 16: the first two digest bytes, as a little-endian integer
    let x = jackpot::lotteryscheme::vcbased::challenge_from_digest(16, &digest);
    let expected = ark_bls12_381::Fr::from(digest[0] as u64 + 256 * (digest[1] as u64));
    let mut b = Vec::new();
    expected.serialize_uncompressed(&mut b).unwrap();
    let expected = jackpot::curve::fr_deser(&b).unwrap();
    assert!(fr_eq(&x, &expected));

    // log_k = 11: one full byte and three extra bits of the second byte
    let x = jackpot::lotteryscheme::vcbased::challenge_from_digest(11, &digest);
    let expected =
        ark_bls12_381::Fr::from(digest[0] as u64 + 256 * ((digest[1] & 0x07) as u64));
    let mut b = Vec::new();
    expected.serialize_uncompressed(&mut b).unwrap();
    let expected = jackpot::curve::fr_deser(&b).unwrap();
    assert!(fr_eq(&x, &expected));

    // log_k = 0: the zero scalar
    let x = jackpot::lotteryscheme::vcbased::challenge_from_digest(0, &digest);
    let zero = ark_bls12_381::Fr::from(0u64);
    let mut b = Vec::new();
    zero.serialize_uncompressed(&mut b).unwrap();
    let zero = jackpot::curve::fr_deser(&b).unwrap();
    assert!(fr_eq(&x, &zero));
}

/// the per-party challenge is a pure function of its inputs, and changes
/// with the party identifier
#[test]
fn jack_test_challenge_deterministic() {
    let par = Jack::setup(14, 1024).unwrap();
    let (pk, _sk) = Jack::gen(&par).unwrap();
    let lseed = [3u8; 32];
    let x1 = get_challenge(par.log_k, &pk, 0, 5, &lseed);
    let x2 = get_challenge(par.log_k, &pk, 0, 5, &lseed);
    assert!(fr_eq(&x1, &x2));
    // with 2^10 possible challenge values, two parties almost surely differ
    // on at least one of a handful of lotteries
    let mut all_same = true;
    for i in 0..20 {
        let a = get_challenge(par.log_k, &pk, 0, i, &lseed);
        let b = get_challenge(par.log_k, &pk, 1, i, &lseed);
        if !fr_eq(&a, &b) {
            all_same = false;
        }
    }
    assert!(!all_same);
}

/// swapping two entries changes the aggregate, but the swapped inputs still
/// verify against the swapped aggregate
#[test]
fn jack_test_aggregate_order() {
    let num_lotteries = 14;
    let k = 1;
    let par = Jack::setup(num_lotteries, k).unwrap();
    let (pk0, sk0) = Jack::gen(&par).unwrap();
    let (pk1, sk1) = Jack::gen(&par).unwrap();
    let lseed = [9u8; 32];
    let i = 2u32;
    let t0 = Jack::get_ticket(&par, i, &lseed, 0, &sk0, &pk0).unwrap();
    let t1 = Jack::get_ticket(&par, i, &lseed, 1, &sk1, &pk1).unwrap();

    let agg01 =
        Jack::aggregate(&par, i, &lseed, &vec![0, 1], &vec![pk0, pk1], &vec![t0, t1]).unwrap();
    let agg10 =
        Jack::aggregate(&par, i, &lseed, &vec![1, 0], &vec![pk1, pk0], &vec![t1, t0]).unwrap();

    // the challenge depends on the order, so the aggregates differ
    assert!(!opening_eq(&agg01.opening, &agg10.opening));

    // yet each aggregate verifies against its own order
    assert!(Jack::verify(&par, i, &lseed, &vec![0, 1], &vec![pk0, pk1], &agg01));
    assert!(Jack::verify(&par, i, &lseed, &vec![1, 0], &vec![pk1, pk0], &agg10));
}

/// a ticket aggregated in one key order does not verify against shuffled
/// keys
#[test]
fn jack_test_verify_shuffled_keys() {
    let num_lotteries = 14;
    let k = 1;
    let par = Jack::setup(num_lotteries, k).unwrap();
    let (pk0, sk0) = Jack::gen(&par).unwrap();
    let (pk1, sk1) = Jack::gen(&par).unwrap();
    let lseed = [1u8; 32];
    let i = 0u32;
    let t0 = Jack::get_ticket(&par, i, &lseed, 0, &sk0, &pk0).unwrap();
    let t1 = Jack::get_ticket(&par, i, &lseed, 1, &sk1, &pk1).unwrap();
    let agg =
        Jack::aggregate(&par, i, &lseed, &vec![0, 1], &vec![pk0, pk1], &vec![t0, t1]).unwrap();
    // verifying against the keys in the other order must fail
    assert!(!Jack::verify(&par, i, &lseed, &vec![0, 1], &vec![pk1, pk0], &agg));
}

/// aggregation with mismatched list lengths fails
#[test]
fn jack_test_aggregate_length_mismatch() {
    let num_lotteries = 14;
    let k = 1;
    let par = Jack::setup(num_lotteries, k).unwrap();
    let (pk0, sk0) = Jack::gen(&par).unwrap();
    let lseed = [2u8; 32];
    let t0 = Jack::get_ticket(&par, 0, &lseed, 0, &sk0, &pk0).unwrap();
    // two pids and keys, but only one ticket
    let r = Jack::aggregate(&par, 0, &lseed, &vec![0, 1], &vec![pk0, pk0], &vec![t0]);
    assert!(r.is_none());
    // empty lists are rejected as well
    let r = Jack::aggregate(&par, 0, &lseed, &vec![], &vec![], &vec![]);
    assert!(r.is_none());
}

/// setup rejects a k that is not a power of two, and out-of-range tickets
/// are refused
#[test]
fn jack_test_error_cases() {
    assert!(Jack::setup(14, 0).is_none());
    assert!(Jack::setup(14, 3).is_none());
    assert!(Jack::setup(14, 1022).is_none());
    assert!(Jack::setup(0, 512).is_none());

    let par = Jack::setup(14, 4).unwrap();
    let (pk, sk) = Jack::gen(&par).unwrap();
    let lseed = [0u8; 32];
    // opening outside the supported range gives no ticket
    assert!(Jack::get_ticket(&par, 14, &lseed, 0, &sk, &pk).is_none());
    assert!(Jack::get_ticket(&par, 1000, &lseed, 0, &sk, &pk).is_none());
    // participation outside the range never wins
    assert!(!Jack::participate(&par, 14, &lseed, 0, &sk, &pk));
}
