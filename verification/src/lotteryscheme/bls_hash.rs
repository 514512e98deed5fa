//! The folklore BLS+Hash lottery: a user signs the lottery seed with BLS,
//! and wins when the SHA-256 hash of the signature starts with `log_k` zero
//! bits. Tickets are concatenated rather than compressed.

use vstd::prelude::*;

verus! {

use crate::curve::fr_rand;
use crate::curve::g1_msm;
use crate::curve::g1_msm_of;
use crate::curve::g1_mul_affine;
use crate::curve::g1_mul_affine_of;
use crate::curve::g1_neg;
use crate::curve::g1_neg_of;
use crate::curve::g1_ser_comp;
use crate::curve::g1_ser_comp_of;
use crate::curve::g1_to_affine;
use crate::curve::g1_to_affine_of;
use crate::curve::g1_to_group;
use crate::curve::g1_to_group_of;
use crate::curve::g2_is_zero;
use crate::curve::g2_msm;
use crate::curve::g2_msm_of;
use crate::curve::g2_mul_affine;
use crate::curve::g2_mul_affine_of;
use crate::curve::g2_rand;
use crate::curve::g2_to_affine;
use crate::curve::g2_to_affine_of;
use crate::curve::g2_to_group;
use crate::curve::g2_to_group_of;
use crate::curve::gt_is_zero;
use crate::curve::gt_is_zero_of;
use crate::curve::hash_to_g1;
use crate::curve::hash_to_g1_of;
use crate::curve::multi_pairing;
use crate::curve::multi_pairing_of;
use crate::curve::random_seed32;
use crate::curve::sha256;
use crate::curve::sha256_of;
use crate::vectorcommitment::kzg::powers_of;
use crate::vectorcommitment::kzg::powers_seq;
use crate::curve::G1Elem;
use crate::curve::G1Point;
use crate::curve::G2Elem;
use crate::curve::G2Point;
use crate::curve::Scalar;
use crate::encoding::compute_partial_byte_mask;
use crate::encoding::partial_byte_mask;
use crate::encoding::push_all;
use crate::encoding::u32_le_bytes;
use crate::encoding::u32_to_le;
use crate::lotteryscheme::vcbased::spec_is_pow2_u32;
use vstd::array::array_as_slice;

/// The BLS+Hash lottery scheme.
pub struct BLSHash;

/// Parameters of the BLS+Hash lottery: a G2 generator and the number of
/// leading zero bits a winning signature hash must show.
pub struct BLSParameters {
    /// The generator against which keys and signatures are formed.
    pub g2: G2Point,
    /// The base-2 logarithm of the inverse winning probability.
    pub log_k: u32,
}

impl BLSParameters {
    pub open spec fn wf(&self) -> bool {
        self.log_k <= 31
    }
}

/// The standard domain-separation tag of the BLS signature hash-to-curve
/// suite for G1 of BLS12-381 ("BLS_SIG_BLS12381G2_XMD:SHA-256_SSWU_RO_POP_").
pub open spec fn bls_dst() -> Seq<u8> {
    seq![
        66u8, 76, 83, 95, 83, 73, 71, 95, 66, 76, 83, 49, 50, 51, 56, 49, 71, 50, 95, 88, 77,
        68, 58, 83, 72, 65, 45, 50, 53, 54, 95, 83, 83, 87, 85, 95, 82, 79, 95, 80, 79, 80, 95,
    ]
}

fn dst_bytes() -> (r: Vec<u8>)
    ensures
        r@ == bls_dst(),
{
    let mut out: Vec<u8> = Vec::new();
    out.push(66);
    out.push(76);
    out.push(83);
    out.push(95);
    out.push(83);
    out.push(73);
    out.push(71);
    out.push(95);
    out.push(66);
    out.push(76);
    out.push(83);
    out.push(49);
    out.push(50);
    out.push(51);
    out.push(56);
    out.push(49);
    out.push(71);
    out.push(50);
    out.push(95);
    out.push(88);
    out.push(77);
    out.push(68);
    out.push(58);
    out.push(83);
    out.push(72);
    out.push(65);
    out.push(45);
    out.push(50);
    out.push(53);
    out.push(54);
    out.push(95);
    out.push(83);
    out.push(83);
    out.push(87);
    out.push(85);
    out.push(95);
    out.push(82);
    out.push(79);
    out.push(95);
    out.push(80);
    out.push(79);
    out.push(80);
    out.push(95);
    proof {
        assert(out@ =~= bls_dst());
    }
    out
}

/// The tag "BLS-HASH-PRED//" of the winning predicate hash.
pub open spec fn pred_tag() -> Seq<u8> {
    seq![66u8, 76, 83, 45, 72, 65, 83, 72, 45, 80, 82, 69, 68, 47, 47]
}

fn tag_pred() -> (r: Vec<u8>)
    ensures
        r@ == pred_tag(),
{
    let mut out: Vec<u8> = Vec::new();
    out.push(66);
    out.push(76);
    out.push(83);
    out.push(45);
    out.push(72);
    out.push(65);
    out.push(83);
    out.push(72);
    out.push(45);
    out.push(80);
    out.push(82);
    out.push(69);
    out.push(68);
    out.push(47);
    out.push(47);
    proof {
        assert(out@ =~= pred_tag());
    }
    out
}

/// Whether a 32-byte digest starts with `log_k` zero bits: the whole leading
/// bytes are zero and the trailing partial byte has its `log_k mod 8` low
/// bits zero.
pub open spec fn wins_spec(log_k: u32, d: Seq<u8>) -> bool {
    &&& forall|j: int| 0 <= j < (log_k >> 3) ==> d[j] == 0
    &&& (d[(log_k >> 3) as int] & partial_byte_mask(log_k)) == 0
}

/// Check whether a digest starts with `log_k` zero bits.
pub fn digest_wins(log_k: u32, digest: &Vec<u8>) -> (r: bool)
    requires
        log_k <= 31,
        digest@.len() == 32,
    ensures
        r == wins_spec(log_k, digest@),
{
    proof {
        assert(log_k <= 31 ==> (log_k >> 3) < 4) by (bit_vector);
    }
    let zerobytes = (log_k >> 3) as usize;
    let mut j: usize = 0;
    while j < zerobytes
        invariant
            zerobytes < 4,
            zerobytes == ((log_k >> 3) as usize),
            digest@.len() == 32,
            j <= zerobytes,
            forall|j2: int| 0 <= j2 < j ==> digest@[j2] == 0,
        decreases zerobytes - j,
    {
        if digest[j] != 0 {
            proof {
                assert(digest@[j as int] != 0);
                assert(!wins_spec(log_k, digest@));
            }
            return false;
        }
        j += 1;
    }
    let nextbyte = digest[zerobytes];
    let mask = compute_partial_byte_mask(log_k);
    (nextbyte & mask) == 0
}

/// Whether a signature wins: the tagged SHA-256 hash of its compressed
/// serialization starts with `log_k` zero bits.
pub open spec fn sig_wins(log_k: u32, sig: G1Point) -> bool {
    wins_spec(log_k, sha256_of(pred_tag() + g1_ser_comp_of(sig)))
}

/// Whether a signature is winning: the tagged SHA-256 hash of its
/// compressed serialization starts with `log_k` zero bits, a function of
/// the signature alone.
pub fn winning_predicate(log_k: u32, sig: &G1Point) -> (r: bool)
    requires
        log_k <= 31,
    ensures
        r == sig_wins(log_k, *sig),
{
    let mut data = tag_pred();
    let sig_ser = g1_ser_comp(sig);
    push_all(&mut data, sig_ser.as_slice());
    proof {
        assert(data@ =~= pred_tag() + g1_ser_comp_of(*sig));
    }
    let digest = sha256(&data);
    digest_wins(log_k, &digest)
}

/// The message signed for lottery `i` with seed `lseed`: the lottery number
/// in little-endian, then the seed, 36 bytes. The party identifier is left
/// out so that signatures on one lottery share a message and batch-verify.
pub fn assemble_message(i: u32, lseed: &[u8; 32]) -> (r: Vec<u8>)
    ensures
        r@ == u32_le_bytes(i) + lseed@,
        r@.len() == 36,
{
    let mut mes = u32_to_le(i);
    push_all(&mut mes, array_as_slice(lseed));
    mes
}

/// The signature that BLS signing assigns to a secret key and a message:
/// the hash of the message to G1 scaled by the key, `None` only if the
/// hash-to-curve machinery reports an error.
pub open spec fn bls_sign_of(sk: Scalar, mes: Seq<u8>) -> Option<G1Point> {
    match hash_to_g1_of(bls_dst(), mes) {
        Some(h) => Some(g1_to_affine_of(g1_mul_affine_of(h, sk))),
        None => None,
    }
}

/// A BLS signature on the message, a function of the key and the message.
pub fn bls_sign(sk: &Scalar, mes: &Vec<u8>) -> (r: Option<G1Point>)
    ensures
        r == bls_sign_of(*sk, mes@),
{
    let dst = dst_bytes();
    match hash_to_g1(dst.as_slice(), mes.as_slice()) {
        Some(h) => Some(g1_to_affine(&g1_mul_affine(&h, sk))),
        None => None,
    }
}

/// The outcome of single BLS verification: whether the product of the
/// pairings of the signature with the generator and of the negated hash
/// point with the key is the identity; `false` if the hash fails.
pub open spec fn bls_ver_of(g2: G2Point, pk: G2Elem, sig: G1Elem, mes: Seq<u8>) -> bool {
    match hash_to_g1_of(bls_dst(), mes) {
        Some(h) => gt_is_zero_of(
            multi_pairing_of(
                seq![sig, g1_neg_of(g1_to_group_of(h))],
                seq![g2_to_group_of(g2), pk],
            ),
        ),
        None => false,
    }
}

/// Verify a BLS signature: whether `e(sig, g2) == e(H(mes), pk)`, checked as
/// one multi-pairing against the negated hash point.
pub fn bls_ver(g2: &G2Point, pk: &G2Elem, sig: &G1Elem, mes: &Vec<u8>) -> (r: bool)
    ensures
        r == bls_ver_of(*g2, *pk, *sig, mes@),
{
    let dst = dst_bytes();
    let h = match hash_to_g1(dst.as_slice(), mes.as_slice()) {
        Some(h) => h,
        None => {
            return false;
        },
    };
    let neg_h = g1_neg(&g1_to_group(&h));
    let mut left: Vec<G1Elem> = Vec::new();
    left.push(*sig);
    left.push(neg_h);
    let mut right: Vec<G2Elem> = Vec::new();
    right.push(g2_to_group(g2));
    right.push(*pk);
    proof {
        assert(left@ =~= seq![*sig, g1_neg_of(g1_to_group_of(h))]);
        assert(right@ =~= seq![g2_to_group_of(*g2), *pk]);
    }
    let q = multi_pairing(&left, &right);
    gt_is_zero(&q)
}

/// Batch-verify BLS signatures on a common message: signatures and keys are
/// folded with powers of a fresh random scalar and checked with one pairing
/// equation. Mismatched or empty inputs verify as `false`.
pub fn bls_batch_ver(g2: &G2Point, pks: &[G2Point], sigs: &[G1Point], mes: &Vec<u8>) -> (r: bool)
    ensures
        (pks@.len() != sigs@.len() || pks@.len() < 1) ==> r == false,
        (pks@.len() == sigs@.len() && 1 <= pks@.len()) ==> exists|chi: Scalar|
            r == bls_ver_of(
                *g2,
                g2_msm_of(pks@, powers_seq(chi, pks@.len() as int)),
                g1_msm_of(sigs@, powers_seq(chi, sigs@.len() as int)),
                mes@,
            ),
{
    if pks.len() != sigs.len() {
        return false;
    }
    if pks.len() < 1 {
        return false;
    }
    let le = pks.len();
    let chi = fr_rand();
    let chi_powers = powers_of(&chi, le);
    let aggsig = g1_msm(sigs, chi_powers.as_slice());
    let aggpk = g2_msm(pks, chi_powers.as_slice());
    let r = bls_ver(g2, &aggpk, &aggsig, mes);
    proof {
        assert(r == bls_ver_of(
            *g2,
            g2_msm_of(pks@, powers_seq(chi, pks@.len() as int)),
            g1_msm_of(sigs@, powers_seq(chi, sigs@.len() as int)),
            mes@,
        ));
    }
    r
}

/// The concatenation of the first `j` tickets, in order.
pub open spec fn tickets_concat(ts: Seq<Vec<G1Point>>, j: int) -> Seq<G1Point>
    decreases j,
{
    if j <= 0 {
        Seq::<G1Point>::empty()
    } else {
        tickets_concat(ts, j - 1) + ts[j - 1]@
    }
}

impl BLSHash {
    /// Set up parameters: sample a G2 generator and take the logarithm of
    /// `k`. Rejects a `k` that is not a power of two, and (with negligible
    /// probability) an identity generator.
    pub fn setup(_num_lotteries: usize, k: u32) -> (r: Option<BLSParameters>)
        ensures
            !spec_is_pow2_u32(k) ==> r is None,
            match r {
                Some(par) => par.wf() && k == (1u32 << par.log_k),
                None => true,
            },
    {
        let g2 = g2_rand();
        if g2_is_zero(&g2) {
            return None;
        }
        let g2 = g2_to_affine(&g2);
        let log_k = match crate::lotteryscheme::vcbased::log2_of_pow2(k) {
            Some(j) => j,
            None => {
                return None;
            },
        };
        Some(BLSParameters { g2, log_k })
    }

    /// Generate a key pair: a BLS secret scalar and its public G2 point,
    /// the generator scaled by the secret.
    pub fn gen(par: &BLSParameters) -> (r: (G2Point, Scalar))
        ensures
            r.0 == g2_to_affine_of(g2_mul_affine_of(par.g2, r.1)),
    {
        let sk = fr_rand();
        let pk = g2_to_affine(&g2_mul_affine(&par.g2, &sk));
        (pk, sk)
    }

    /// Every key is valid for this scheme.
    pub fn verify_key(_par: &BLSParameters, _pk: &G2Point) -> (r: bool)
        ensures
            r == true,
    {
        true
    }

    /// Sample a fresh lottery seed.
    pub fn sample_seed(_par: &BLSParameters, _i: u32) -> (r: [u8; 32]) {
        random_seed32()
    }

    /// Decide whether the user wins lottery `i`: sign the lottery message
    /// and test the winning predicate on the signature — a function of the
    /// key, lottery number, seed and `log_k`.
    pub fn participate(
        par: &BLSParameters,
        i: u32,
        lseed: &[u8; 32],
        pid: u32,
        sk: &Scalar,
        pk: &G2Point,
    ) -> (r: bool)
        requires
            par.wf(),
        ensures
            r == match bls_sign_of(*sk, u32_le_bytes(i) + lseed@) {
                Some(sig) => sig_wins(par.log_k, sig),
                None => false,
            },
    {
        match Self::get_ticket(par, i, lseed, pid, sk, pk) {
            Some(ticket) => winning_predicate(par.log_k, &ticket[0]),
            None => false,
        }
    }

    /// Produce the user's ticket: a single BLS signature on the lottery
    /// message, `Some` exactly when the message hashes to the curve.
    pub fn get_ticket(
        _par: &BLSParameters,
        i: u32,
        lseed: &[u8; 32],
        _pid: u32,
        sk: &Scalar,
        _pk: &G2Point,
    ) -> (r: Option<Vec<G1Point>>)
        ensures
            r is Some <==> bls_sign_of(*sk, u32_le_bytes(i) + lseed@) is Some,
            match r {
                Some(t) => t@ == seq![bls_sign_of(*sk, u32_le_bytes(i) + lseed@)->Some_0],
                None => true,
            },
    {
        let mes = assemble_message(i, lseed);
        match bls_sign(sk, &mes) {
            Some(sig) => {
                let mut t: Vec<G1Point> = Vec::new();
                t.push(sig);
                proof {
                    assert(t@ =~= seq![sig]);
                }
                Some(t)
            },
            None => None,
        }
    }

    /// Trivial aggregation: the tickets are concatenated, in order.
    pub fn aggregate(
        _par: &BLSParameters,
        _i: u32,
        _lseed: &[u8; 32],
        _pids: &Vec<u32>,
        _pks: &Vec<G2Point>,
        tickets: &Vec<Vec<G1Point>>,
    ) -> (r: Option<Vec<G1Point>>)
        ensures
            match r {
                Some(out) => out@ == tickets_concat(tickets@, tickets@.len() as int),
                None => false,
            },
    {
        let mut out: Vec<G1Point> = Vec::new();
        let mut j: usize = 0;
        while j < tickets.len()
            invariant
                j <= tickets@.len(),
                out@ == tickets_concat(tickets@, j as int),
            decreases tickets@.len() - j,
        {
            push_all(&mut out, tickets[j].as_slice());
            j += 1;
        }
        Some(out)
    }

    /// Verify a concatenated ticket: one signature per winner, all batch
    /// verified and each winning. Mismatched or empty lists verify as
    /// `false`.
    pub fn verify(
        par: &BLSParameters,
        i: u32,
        lseed: &[u8; 32],
        pids: &Vec<u32>,
        pks: &Vec<G2Point>,
        ticket: &Vec<G1Point>,
    ) -> (r: bool)
        requires
            par.wf(),
        ensures
            (pids@.len() != pks@.len() || pids@.len() != ticket@.len() || pids@.len() < 1)
                ==> r == false,
            r == true ==> forall|j: int|
                0 <= j < ticket@.len() ==> sig_wins(par.log_k, ticket@[j]),
            r == true ==> exists|chi: Scalar|
                bls_ver_of(
                    par.g2,
                    g2_msm_of(pks@, powers_seq(chi, pks@.len() as int)),
                    g1_msm_of(ticket@, powers_seq(chi, ticket@.len() as int)),
                    u32_le_bytes(i) + lseed@,
                ),
    {
        if pids.len() != pks.len() {
            return false;
        }
        if pids.len() != ticket.len() {
            return false;
        }
        if pids.len() < 1 {
            return false;
        }
        let mes = assemble_message(i, lseed);
        if !bls_batch_ver(&par.g2, pks.as_slice(), ticket.as_slice(), &mes) {
            return false;
        }
        let mut j: usize = 0;
        while j < ticket.len()
            invariant
                par.wf(),
                j <= ticket@.len(),
                forall|t: int| 0 <= t < j ==> sig_wins(par.log_k, ticket@[t]),
            decreases ticket@.len() - j,
        {
            if !winning_predicate(par.log_k, &ticket[j]) {
                return false;
            }
            j += 1;
        }
        true
    }
}

} // verus!
