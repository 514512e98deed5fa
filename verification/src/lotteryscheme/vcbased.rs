//! The lottery scheme built on the KZG vector commitment.
//!
//! A public key is a commitment to a secret random vector over `{0..k-1}`;
//! for lottery `i` a hash-derived challenge is compared against the `i`-th
//! committed entry, and an opening of the commitment at position `i` is the
//! (aggregatable) winning ticket.

use vstd::prelude::*;

verus! {

use crate::curve::fr_eq;
use crate::curve::fr_from_u64;
use crate::curve::fr_of_nat;
use crate::curve::fr_parse;
use crate::curve::fr_parse_of;
use crate::curve::random_seed32;
use crate::curve::sha256;
use crate::curve::sha256_of;
use crate::curve::u32_below;
use crate::curve::Scalar;
use crate::encoding::compute_partial_byte_mask;
use crate::encoding::le_val;
use crate::encoding::partial_byte_mask;
use crate::encoding::push_all;
use crate::encoding::u32_be_bytes;
use crate::encoding::u32_to_be;
use crate::vectorcommitment::kzg::kzg_types::Commitment;
use crate::vectorcommitment::kzg::kzg_types::Opening;
use crate::vectorcommitment::kzg::kzg_types::State;
use crate::vectorcommitment::kzg::kzg_utils::commitment_bytes;
use crate::vectorcommitment::kzg::aggregate_value;
use crate::vectorcommitment::kzg::kzg_utils::commitment_bytes_of;
use crate::vectorcommitment::kzg::kzg_utils::plain_kzg_check;
use crate::vectorcommitment::kzg::kzg_utils::z0_of;
use crate::vectorcommitment::kzg::max_message_length;
use crate::vectorcommitment::kzg::open_value;
use crate::vectorcommitment::kzg::verify_value;
use crate::vectorcommitment::kzg::commit_value_ok;
use crate::vectorcommitment::kzg::VcKZG;
use vstd::array::array_as_slice;

/// The lottery scheme obtained from the vector commitment.
pub struct VCLotteryScheme;

/// Public parameters of the lottery: a commitment key for `num_lotteries`
/// positions and the winning probability `1/k`, with `k = 2^log_k`.
pub struct Parameters {
    /// The commitment key of the vector commitment.
    pub ck: crate::vectorcommitment::kzg::kzg_types::CommitmentKey,
    /// The number of lotteries the parameters support.
    pub num_lotteries: usize,
    /// The inverse winning probability, a power of two.
    pub k: u32,
    /// The base-2 logarithm of `k`.
    pub log_k: u32,
}

impl Parameters {
    pub open spec fn wf(&self) -> bool {
        &&& self.ck.wf()
        &&& self.ck.message_length == self.num_lotteries
        &&& self.log_k <= 31
        &&& self.k == (1u32 << self.log_k)
    }
}

/// A public key: a commitment to the user's secret vector.
pub struct PublicKey {
    /// The commitment to the secret vector.
    pub com: Commitment,
}

impl Clone for PublicKey {
    fn clone(&self) -> (r: Self)
        ensures
            r == *self,
    {
        PublicKey { com: self.com }
    }
}

impl Copy for PublicKey {}

/// A secret key: the committed vector and the secret commitment state.
pub struct SecretKey {
    /// The secret vector, each entry drawn from `{0, ..., k-1}`.
    pub v: Vec<Scalar>,
    /// The secret state of the commitment to `v`.
    pub state: State,
}

impl SecretKey {
    pub open spec fn wf(&self, par: &Parameters) -> bool {
        &&& self.v@.len() == par.num_lotteries
        &&& self.state.wf(&par.ck)
    }
}

/// Whether a scalar is the image of a number below `k`.
pub open spec fn scalar_in_range(x: Scalar, k: u32) -> bool {
    exists|m: nat| m < k && x == #[trigger] fr_of_nat(m)
}

/// Whether every entry of the secret vector is the image of a number below
/// `k`; key generation establishes this.
pub open spec fn sk_values_in_range(sk: &SecretKey, par: &Parameters) -> bool {
    forall|j: int| 0 <= j < sk.v@.len() ==> #[trigger] scalar_in_range(sk.v@[j], par.k)
}

/// A (possibly aggregated) winning ticket: an opening of the commitments at
/// the lottery's position.
pub struct Ticket {
    /// The underlying opening of the vector commitment.
    pub opening: Opening,
}

impl Clone for Ticket {
    fn clone(&self) -> (r: Self)
        ensures
            r == *self,
    {
        Ticket { opening: self.opening }
    }
}

impl Copy for Ticket {}

/// The per-lottery random seed published by a beacon.
pub type LotterySeed = [u8; 32];

/// Whether `k` is a power of two expressible in 32 bits.
pub open spec fn spec_is_pow2_u32(k: u32) -> bool {
    exists|j: u32| j <= 31 && k == (1u32 << j)
}

/// The base-2 logarithm of `k` when `k` is a power of two, `None` otherwise.
pub fn log2_of_pow2(k: u32) -> (r: Option<u32>)
    ensures
        match r {
            Some(j) => j <= 31 && k == (1u32 << j),
            None => !spec_is_pow2_u32(k),
        },
{
    let mut j: u32 = 0;
    while j < 32
        invariant
            j <= 32,
            forall|j2: u32| j2 < j ==> k != (1u32 << j2),
        decreases 32 - j,
    {
        if (1u32 << j) == k {
            return Some(j);
        }
        j += 1;
    }
    proof {
        assert forall|j2: u32| !(j2 <= 31 && k == (1u32 << j2)) by {
            if j2 <= 31 {
                assert(k != (1u32 << j2));
            }
        }
    }
    None
}

/// The challenge tag "Chall//".
pub open spec fn chall_tag() -> Seq<u8> {
    seq![67u8, 104, 97, 108, 108, 47, 47]
}

fn tag_chall() -> (r: Vec<u8>)
    ensures
        r@ == chall_tag(),
{
    let mut out: Vec<u8> = Vec::new();
    out.push(67);
    out.push(104);
    out.push(97);
    out.push(108);
    out.push(108);
    out.push(47);
    out.push(47);
    proof {
        assert(out@ =~= chall_tag());
    }
    out
}

/// The first `log_k` bits of a digest, packed for parsing as a scalar: the
/// whole leading bytes, then the trailing partial byte masked to
/// `log_k mod 8` bits.
pub open spec fn mask_bits(log_k: u32, d: Seq<u8>) -> Seq<u8> {
    d.subrange(0, (log_k >> 3) as int) + seq![d[(log_k >> 3) as int] & partial_byte_mask(log_k)]
}

/// Pack the first `log_k` bits of a 32-byte digest and parse them as a
/// scalar. At most four bytes remain, so parsing always succeeds and the
/// result is the field element of their little-endian integer value; with
/// `log_k == 0` that value is zero.
pub fn challenge_from_digest(log_k: u32, digest: &Vec<u8>) -> (r: Scalar)
    requires
        log_k <= 31,
        digest@.len() == 32,
    ensures
        fr_parse_of(mask_bits(log_k, digest@)) is Some,
        r == fr_parse_of(mask_bits(log_k, digest@))->Some_0,
        r == fr_of_nat(le_val(mask_bits(log_k, digest@))),
        log_k == 0 ==> r == fr_of_nat(0),
{
    proof {
        assert(log_k <= 31 ==> (log_k >> 3) < 4) by (bit_vector);
    }
    let num_fullbytes = (log_k >> 3) as usize;
    let mut hashbytes: Vec<u8> = Vec::new();
    let mut j: usize = 0;
    while j < num_fullbytes
        invariant
            num_fullbytes < 4,
            digest@.len() == 32,
            j <= num_fullbytes,
            hashbytes@ == digest@.subrange(0, j as int),
        decreases num_fullbytes - j,
    {
        hashbytes.push(digest[j]);
        proof {
            assert(hashbytes@ =~= digest@.subrange(0, (j + 1) as int));
        }
        j += 1;
    }
    let nextbyte = digest[num_fullbytes];
    let mask = compute_partial_byte_mask(log_k);
    hashbytes.push(nextbyte & mask);
    proof {
        assert(hashbytes@ =~= mask_bits(log_k, digest@));
        if log_k == 0 {
            assert(0u32 >> 3 == 0u32) by (bit_vector);
            assert(num_fullbytes == 0);
            assert((((1u32 << (0u32 & 7)) - 1) as u8) == 0) by (bit_vector);
            assert(partial_byte_mask(0) == 0);
            assert(mask == 0);
            let b0 = nextbyte;
            assert(b0 & 0u8 == 0u8) by (bit_vector);
            assert(nextbyte & mask == 0);
            assert(hashbytes@.len() == 1);
            assert(hashbytes@[0] == 0u8);
            assert(hashbytes@.drop_first() =~= Seq::<u8>::empty());
            assert(le_val(Seq::<u8>::empty()) == 0);
            assert(le_val(hashbytes@) == hashbytes@[0] as nat + 256 * le_val(
                hashbytes@.drop_first(),
            ));
            assert(le_val(hashbytes@) == 0);
        }
    }
    let x = fr_parse(hashbytes.as_slice());
    match x {
        Some(x) => x,
        None => {
            proof {
                assert(false);
            }
            fr_from_u64(0)
        },
    }
}

/// The scalar that the lottery challenge derivation assigns to a hash
/// payload: the first `log_k` bits of its SHA-256 digest, read as a scalar.
pub open spec fn challenge_of(log_k: u32, payload: Seq<u8>) -> Scalar {
    fr_parse_of(mask_bits(log_k, sha256_of(payload)))->Some_0
}

/// The per-party lottery challenge as a function of its inputs: the tagged
/// serialized public key, party identifier, lottery number and seed,
/// hashed and truncated to `log_k` bits.
pub open spec fn challenge_value(
    log_k: u32,
    pkc: Commitment,
    pid: u32,
    i: u32,
    lseed: Seq<u8>,
) -> Scalar {
    challenge_of(
        log_k,
        chall_tag() + commitment_bytes_of(pkc) + u32_be_bytes(pid) + u32_be_bytes(i) + lseed,
    )
}

/// The per-party lottery challenge: the first `log_k` bits of the SHA-256
/// digest of the tagged public key, party identifier, lottery number and
/// lottery seed, read as a scalar — a function of those inputs alone; with
/// `log_k == 0` it is the zero scalar, so with winning probability 1 every
/// committed entry matches.
pub fn get_challenge(
    log_k: u32,
    pk: &PublicKey,
    pid: u32,
    i: u32,
    lseed: &LotterySeed,
) -> (r: Scalar)
    requires
        log_k <= 31,
    ensures
        r == challenge_value(log_k, pk.com, pid, i, lseed@),
        log_k == 0 ==> r == fr_of_nat(0),
{
    let mut data = tag_chall();
    let pk_ser = commitment_bytes(&pk.com);
    push_all(&mut data, pk_ser.as_slice());
    let pb = u32_to_be(pid);
    push_all(&mut data, pb.as_slice());
    let ib = u32_to_be(i);
    push_all(&mut data, ib.as_slice());
    push_all(&mut data, array_as_slice(lseed));
    proof {
        assert(data@ =~= chall_tag() + commitment_bytes_of(pk.com) + u32_be_bytes(pid)
            + u32_be_bytes(i) + lseed@);
    }
    let digest = sha256(&data);
    challenge_from_digest(log_k, &digest)
}

/// The challenges of a list of parties for one lottery, in order.
pub open spec fn party_challenges(
    log_k: u32,
    pids: Seq<u32>,
    pks: Seq<PublicKey>,
    i: u32,
    lseed: Seq<u8>,
) -> Seq<Scalar> {
    Seq::new(pids.len(), |j: int| challenge_value(log_k, pks[j].com, pids[j], i, lseed))
}

/// The commitments of a list of public keys, in order.
pub open spec fn pks_coms(pks: Seq<PublicKey>) -> Seq<Commitment> {
    Seq::new(pks.len(), |j: int| pks[j].com)
}

/// The openings of a list of tickets, in order.
pub open spec fn tickets_openings(tickets: Seq<Ticket>) -> Seq<Opening> {
    Seq::new(tickets.len(), |j: int| tickets[j].opening)
}

/// A vector of `n` scalars, each the image of a fresh uniform number drawn
/// from `{0, ..., k-1}`.
fn get_random_field_vec(k: u32, n: usize) -> (r: Vec<Scalar>)
    requires
        1 <= k,
    ensures
        r@.len() == n,
        forall|j: int| 0 <= j < n ==> #[trigger] scalar_in_range(r@[j], k),
{
    let mut out: Vec<Scalar> = Vec::new();
    let mut i: usize = 0;
    while i < n
        invariant
            1 <= k,
            i <= n,
            out@.len() == i,
            forall|j: int| 0 <= j < i ==> #[trigger] scalar_in_range(out@[j], k),
        decreases n - i,
    {
        let t = u32_below(k);
        let x = fr_from_u64(t as u64);
        out.push(x);
        proof {
            assert(t < k && out@[i as int] == fr_of_nat(t as nat));
            assert(scalar_in_range(out@[i as int], k));
        }
        i += 1;
    }
    out
}

impl VCLotteryScheme {
    /// Set up parameters for `num_lotteries` lotteries with winning
    /// probability `1/k`. Rejects a `k` that is not a power of two, and the
    /// lengths the vector commitment rejects.
    pub fn setup(num_lotteries: usize, k: u32) -> (r: Option<Parameters>)
        ensures
            !spec_is_pow2_u32(k) ==> r is None,
            num_lotteries < 1 ==> r is None,
            num_lotteries > max_message_length() ==> r is None,
            match r {
                Some(par) => {
                    &&& par.wf()
                    &&& par.num_lotteries == num_lotteries
                    &&& par.k == k
                },
                None => true,
            },
    {
        let log_k = match log2_of_pow2(k) {
            Some(j) => j,
            None => {
                return None;
            },
        };
        let ck = match VcKZG::setup(num_lotteries) {
            Some(ck) => ck,
            None => {
                return None;
            },
        };
        Some(Parameters { ck, num_lotteries, k, log_k })
    }

    /// Generate a key pair: commit to a fresh random vector over
    /// `{0, ..., k-1}`. `None` only in the negligible fatal case of the
    /// commitment (challenge point inside the domain).
    pub fn gen(par: &Parameters) -> (r: Option<(PublicKey, SecretKey)>)
        requires
            par.wf(),
        ensures
            match r {
                Some(pair) => {
                    &&& pair.1.wf(par)
                    &&& sk_values_in_range(&pair.1, par)
                    &&& pair.1.state.evals@.subrange(0, par.num_lotteries as int) == pair.1.v@
                    &&& pair.1.state.precomputed_v is None
                    &&& commit_value_ok(&par.ck, pair.0.com, &pair.1.state)
                },
                None => true,
            },
    {
        proof {
            let lk = par.log_k;
            assert(lk <= 31 ==> 1u32 <= (1u32 << lk)) by (bit_vector);
        }
        let v = get_random_field_vec(par.k, par.num_lotteries);
        let (com, state) = match VcKZG::commit(&par.ck, &v) {
            Some(p) => p,
            None => {
                return None;
            },
        };
        let pk = PublicKey { com };
        let sk = SecretKey { v, state };
        Some((pk, sk))
    }

    /// Check the well-formedness of a public key: the pairing check of its
    /// commitment's embedded self-opening at the hash-derived challenge
    /// point.
    pub fn verify_key(par: &Parameters, pk: &PublicKey) -> (r: bool)
        requires
            par.wf(),
        ensures
            r == plain_kzg_check(
                &par.ck,
                pk.com.com_kzg,
                z0_of(pk.com.com_kzg),
                pk.com.y0,
                pk.com.tau0,
            ),
    {
        VcKZG::verify_commitment(&par.ck, &pk.com)
    }

    /// Sample a fresh lottery seed; in a deployment a randomness beacon
    /// produces it.
    pub fn sample_seed(_par: &Parameters, _i: u32) -> (r: LotterySeed) {
        random_seed32()
    }

    /// Decide whether the user wins lottery `i`: exactly when `i` is in
    /// range and the challenge derived from the public key, party
    /// identifier, lottery number and seed equals the `i`-th committed
    /// entry. With `k == 1` an honestly generated key always wins.
    pub fn participate(
        par: &Parameters,
        i: u32,
        lseed: &LotterySeed,
        pid: u32,
        sk: &SecretKey,
        pk: &PublicKey,
    ) -> (r: bool)
        requires
            par.wf(),
        ensures
            r == ((i as int) < sk.v@.len() && sk.v@[i as int] == challenge_value(
                par.log_k,
                pk.com,
                pid,
                i,
                lseed@,
            )),
            (par.k == 1 && (i as int) < sk.v@.len() && sk_values_in_range(sk, par)) ==> r
                == true,
    {
        let x = get_challenge(par.log_k, pk, pid, i, lseed);
        if (i as usize) < sk.v.len() {
            let won = fr_eq(&sk.v[i as usize], &x);
            proof {
                if par.k == 1 && sk_values_in_range(sk, par) {
                    let lk = par.log_k;
                    assert(lk <= 31 && lk != 0 ==> (1u32 << lk) >= 2) by (bit_vector);
                    assert(par.log_k == 0);
                    assert(x == fr_of_nat(0));
                    assert(scalar_in_range(sk.v@[i as int], par.k));
                    let m = choose|m: nat| m < par.k && sk.v@[i as int] == fr_of_nat(m);
                    assert(m < 1 && sk.v@[i as int] == fr_of_nat(m));
                    assert(sk.v@[i as int] == fr_of_nat(0));
                }
            }
            won
        } else {
            false
        }
    }

    /// Produce the user's ticket for lottery `i`: the opening of the
    /// commitment at position `i`. `Some` exactly when `i` is in range.
    pub fn get_ticket(
        par: &Parameters,
        i: u32,
        _lseed: &LotterySeed,
        _pid: u32,
        sk: &SecretKey,
        _pk: &PublicKey,
    ) -> (r: Option<Ticket>)
        requires
            par.wf(),
            sk.wf(par),
        ensures
            r is Some <==> i < par.num_lotteries,
            match r {
                Some(t) => t.opening == open_value(&par.ck, &sk.state, i as int),
                None => true,
            },
    {
        match VcKZG::open(&par.ck, &sk.state, i) {
            Some(tau) => Some(Ticket { opening: tau }),
            None => None,
        }
    }

    /// Aggregate the tickets of several winners of lottery `i` into one
    /// constant-size ticket. `Some` exactly when the identifier, key and
    /// ticket lists are non-empty and of equal length; the caller-supplied
    /// order enters the aggregation challenge and must be preserved.
    pub fn aggregate(
        par: &Parameters,
        i: u32,
        lseed: &LotterySeed,
        pids: &Vec<u32>,
        pks: &Vec<PublicKey>,
        tickets: &Vec<Ticket>,
    ) -> (r: Option<Ticket>)
        requires
            par.wf(),
        ensures
            r is Some <==> (pids@.len() == pks@.len() && pids@.len() == tickets@.len() && 1
                <= pids@.len()),
            match r {
                Some(t) => t.opening == aggregate_value(
                    i,
                    party_challenges(par.log_k, pids@, pks@, i, lseed@),
                    pks_coms(pks@),
                    tickets_openings(tickets@),
                ),
                None => true,
            },
    {
        if pids.len() != pks.len() || pids.len() != tickets.len() {
            return None;
        }
        let l = pids.len();
        let mut xs: Vec<Scalar> = Vec::new();
        let mut coms: Vec<Commitment> = Vec::new();
        let mut openings: Vec<Opening> = Vec::new();
        let mut j: usize = 0;
        while j < l
            invariant
                par.wf(),
                pids@.len() == l,
                pks@.len() == l,
                tickets@.len() == l,
                j <= l,
                xs@.len() == j,
                coms@.len() == j,
                openings@.len() == j,
                forall|t: int|
                    0 <= t < j ==> xs@[t] == challenge_value(
                        par.log_k,
                        pks@[t].com,
                        pids@[t],
                        i,
                        lseed@,
                    ),
                forall|t: int| 0 <= t < j ==> coms@[t] == pks@[t].com,
                forall|t: int| 0 <= t < j ==> openings@[t] == tickets@[t].opening,
            decreases l - j,
        {
            xs.push(get_challenge(par.log_k, &pks[j], pids[j], i, lseed));
            coms.push(pks[j].com);
            openings.push(tickets[j].opening);
            j += 1;
        }
        proof {
            assert(xs@ =~= party_challenges(par.log_k, pids@, pks@, i, lseed@));
            assert(coms@ =~= pks_coms(pks@));
            assert(openings@ =~= tickets_openings(tickets@));
        }
        match VcKZG::aggregate(&par.ck, i, &xs, &coms, &openings) {
            Some(tau) => Some(Ticket { opening: tau }),
            None => None,
        }
    }

    /// Verify an (aggregated) ticket for lottery `i` against the winners'
    /// public keys, in the order used for aggregation. Mismatched or empty
    /// lists and an out-of-range lottery number verify as `false`.
    pub fn verify(
        par: &Parameters,
        i: u32,
        lseed: &LotterySeed,
        pids: &Vec<u32>,
        pks: &Vec<PublicKey>,
        ticket: &Ticket,
    ) -> (r: bool)
        requires
            par.wf(),
        ensures
            (pids@.len() != pks@.len() || pids@.len() < 1 || i as int >= par.num_lotteries)
                ==> r == false,
            (pids@.len() == pks@.len() && 1 <= pids@.len() && i < par.num_lotteries) ==> r
                == verify_value(
                &par.ck,
                i,
                party_challenges(par.log_k, pids@, pks@, i, lseed@),
                pks_coms(pks@),
                ticket.opening,
            ),
    {
        if pids.len() != pks.len() {
            return false;
        }
        let l = pids.len();
        let mut xs: Vec<Scalar> = Vec::new();
        let mut coms: Vec<Commitment> = Vec::new();
        let mut j: usize = 0;
        while j < l
            invariant
                par.wf(),
                pids@.len() == l,
                pks@.len() == l,
                j <= l,
                xs@.len() == j,
                coms@.len() == j,
                forall|t: int|
                    0 <= t < j ==> xs@[t] == challenge_value(
                        par.log_k,
                        pks@[t].com,
                        pids@[t],
                        i,
                        lseed@,
                    ),
                forall|t: int| 0 <= t < j ==> coms@[t] == pks@[t].com,
            decreases l - j,
        {
            xs.push(get_challenge(par.log_k, &pks[j], pids[j], i, lseed));
            coms.push(pks[j].com);
            j += 1;
        }
        proof {
            assert(xs@ =~= party_challenges(par.log_k, pids@, pks@, i, lseed@));
            assert(coms@ =~= pks_coms(pks@));
        }
        VcKZG::verify(&par.ck, i, &xs, &coms, &ticket.opening)
    }
}

} // verus!
