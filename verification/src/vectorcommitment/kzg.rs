//! The KZG vector commitment: setup, commit, open, aggregate, verify.
//! Every produced value is pinned, over the uninterpreted names of the
//! curve operations, to a function of the inputs (and, where randomness is
//! drawn, of the drawn values, bound existentially).

use vstd::prelude::*;

/// Amortized all-openings computation (Feist-Khovratovich).
pub mod kzg_fk_open;

/// Types of the scheme: commitment key, commitment, opening, secret state.
pub mod kzg_types;

/// Helper functions: challenges, plain KZG commitments and checks, witness
/// evaluations.
pub mod kzg_utils;

verus! {

use crate::curve::fr_add;
use crate::curve::fr_add_of;
use crate::curve::fr_from_u64;
use crate::curve::fr_mul;
use crate::curve::fr_mul_of;
use crate::curve::fr_of_nat;
use crate::curve::fr_rand;
use crate::curve::fr_sub;
use crate::curve::fr_sub_of;
use crate::curve::g1_is_zero;
use crate::curve::g1_msm;
use crate::curve::g1_msm_of;
use crate::curve::g1_mul;
use crate::curve::g1_mul_affine;
use crate::curve::g1_mul_affine_of;
use crate::curve::g1_mul_of;
use crate::curve::g1_rand;
use crate::curve::g1_to_affine;
use crate::curve::g1_to_affine_of;
use crate::curve::g2_is_zero;
use crate::curve::g2_mul;
use crate::curve::g2_mul_of;
use crate::curve::g2_rand;
use crate::curve::g2_to_affine;
use crate::curve::g2_to_affine_of;
use crate::curve::G1Elem;
use crate::curve::G1Point;
use crate::curve::G2Elem;
use crate::curve::G2Point;
use crate::curve::Scalar;
use crate::domain::is_pow2;
use crate::domain::lagrange_coeffs_of;
use crate::domain::lemma_pow2_ceil;
use crate::domain::lemma_pow2_ceil_of_pow2;
use crate::domain::pow2_ceil;
use crate::domain::Domain;
use crate::encoding::push_all;
use crate::vectorcommitment::kzg::kzg_fk_open::fk_table;
use crate::vectorcommitment::kzg::kzg_fk_open::precompute_y;
use crate::vectorcommitment::kzg::kzg_types::Commitment;
use crate::vectorcommitment::kzg::kzg_types::CommitmentKey;
use crate::vectorcommitment::kzg::kzg_types::Opening;
use crate::vectorcommitment::kzg::kzg_types::State;
use crate::vectorcommitment::kzg::kzg_utils::chi_of;
use crate::vectorcommitment::kzg::kzg_utils::eval_outside_of;
use crate::vectorcommitment::kzg::kzg_utils::evaluate_outside;
use crate::vectorcommitment::kzg::kzg_utils::find_in_domain;
use crate::vectorcommitment::kzg::kzg_utils::get_chi;
use crate::vectorcommitment::kzg::kzg_utils::get_z0;
use crate::vectorcommitment::kzg::kzg_utils::inv_diffs;
use crate::vectorcommitment::kzg::kzg_utils::inv_diffs_seq;
use crate::vectorcommitment::kzg::kzg_utils::plain_kzg_check;
use crate::vectorcommitment::kzg::kzg_utils::plain_kzg_check_inside;
use crate::vectorcommitment::kzg::kzg_utils::plain_kzg_com;
use crate::vectorcommitment::kzg::kzg_utils::plain_kzg_verify;
use crate::vectorcommitment::kzg::kzg_utils::plain_kzg_verify_inside;
use crate::vectorcommitment::kzg::kzg_utils::wei_seq;
use crate::vectorcommitment::kzg::kzg_utils::weo_seq;
use crate::vectorcommitment::kzg::kzg_utils::witness_evals_inside;
use crate::vectorcommitment::kzg::kzg_utils::witness_evals_outside;
use crate::vectorcommitment::kzg::kzg_utils::z0_of;
use vstd::slice::slice_subrange;

/// The simulation-extractable KZG vector commitment over BLS12-381.
pub struct VcKZG;

/// The largest supported message length. It keeps the doubled evaluation
/// domain within the two-adicity of the scalar field, and the doubled
/// domain size within `usize` on 32-bit targets, where the buffers of
/// length `2n` are addressed.
pub open spec fn max_message_length() -> int {
    0x3FFF_FFFE
}

/// The `j`-th power of a scalar, over the multiplication name.
pub open spec fn pow_of(x: Scalar, j: int) -> Scalar
    decreases j,
{
    if j <= 0 {
        fr_of_nat(1)
    } else {
        fr_mul_of(pow_of(x, j - 1), x)
    }
}

/// The first `count` powers of a scalar, starting from the zeroth.
pub open spec fn powers_seq(x: Scalar, count: int) -> Seq<Scalar> {
    Seq::new(count as nat, |j: int| pow_of(x, j))
}

/// The sum of the first `j` values, weighted by the powers of `x`.
pub open spec fn weighted_scalar_sum(items: Seq<Scalar>, x: Scalar, j: int) -> Scalar
    decreases j,
{
    if j <= 0 {
        fr_of_nat(0)
    } else {
        fr_add_of(weighted_scalar_sum(items, x, j - 1), fr_mul_of(items[j - 1], pow_of(x, j - 1)))
    }
}

/// The sum of the masking parts of the first `j` openings, weighted by the
/// powers of `x`.
pub open spec fn weighted_opening_sum(ops: Seq<Opening>, x: Scalar, j: int) -> Scalar
    decreases j,
{
    if j <= 0 {
        fr_of_nat(0)
    } else {
        fr_add_of(
            weighted_opening_sum(ops, x, j - 1),
            fr_mul_of(ops[j - 1].hat_y, pow_of(x, j - 1)),
        )
    }
}

/// The witness points of a list of openings, in order.
pub open spec fn opening_points(ops: Seq<Opening>) -> Seq<G1Point> {
    Seq::new(ops.len(), |j: int| ops[j].v)
}

/// The KZG commitments of a list of commitments, in order.
pub open spec fn com_points(coms: Seq<Commitment>) -> Seq<G1Point> {
    Seq::new(coms.len(), |j: int| coms[j].com_kzg)
}

/// The opening that aggregation assigns to non-empty, aligned inputs: the
/// challenge-weighted sum of the masking parts and the challenge-weighted
/// multi-scalar multiplication of the witness points.
pub open spec fn aggregate_value(
    i: u32,
    mis: Seq<Scalar>,
    coms: Seq<Commitment>,
    ops: Seq<Opening>,
) -> Opening {
    let chi = chi_of(i, mis, coms);
    Opening {
        hat_y: weighted_opening_sum(ops, chi, ops.len() as int),
        v: g1_to_affine_of(g1_msm_of(opening_points(ops), powers_seq(chi, ops.len() as int))),
    }
}

/// The outcome that verification assigns to non-empty, aligned inputs at an
/// in-range position: the inside pairing check on the challenge-weighted
/// commitment and the challenge-weighted claimed value.
pub open spec fn verify_value(
    ck: &CommitmentKey,
    i: u32,
    mis: Seq<Scalar>,
    coms: Seq<Commitment>,
    opening: Opening,
) -> bool {
    let chi = chi_of(i, mis, coms);
    let com = g1_to_affine_of(g1_msm_of(com_points(coms), powers_seq(chi, coms.len() as int)));
    let mi = weighted_scalar_sum(mis, chi, mis.len() as int);
    plain_kzg_check_inside(ck, i as int, com, mi, opening)
}

/// The power chain of a drawn generator: `start` scaled `i` times by the
/// drawn exponent.
pub open spec fn alpha_chain(start: G1Elem, alpha: Scalar, i: int) -> G1Elem
    decreases i,
{
    if i <= 0 {
        start
    } else {
        g1_mul_of(alpha_chain(start, alpha, i - 1), alpha)
    }
}

/// The algebraic structure that setup gives a key, relative to the drawn
/// generators and exponent: the power tables and Lagrange tables of one
/// exponent, the verification data `r` and `d`, and the
/// Feist-Khovratovich tables of the power tables.
pub open spec fn setup_key_ok(
    ck: &CommitmentKey,
    g1: G1Elem,
    h: G1Elem,
    g2: G2Elem,
    alpha: Scalar,
) -> bool {
    let n = ck.domain.spec_size();
    let lf = lagrange_coeffs_of(ck.domain.spec_handle(), alpha);
    &&& forall|t: int| 0 <= t < n ==> ck.u@[t] == g1_to_affine_of(alpha_chain(g1, alpha, t))
    &&& forall|t: int| 0 <= t < n ==> ck.hat_u@[t] == g1_to_affine_of(alpha_chain(h, alpha, t))
    &&& forall|t: int|
        0 <= t < n ==> ck.lagranges@[t] == g1_to_affine_of(g1_mul_affine_of(ck.u@[0], lf[t]))
    &&& forall|t: int|
        0 <= t < n ==> ck.lagranges@[n + t] == g1_to_affine_of(
            g1_mul_affine_of(ck.hat_u@[0], lf[t]),
        )
    &&& ck.g2 == g2_to_affine_of(g2)
    &&& ck.r == g2_to_affine_of(g2_mul_of(g2, alpha))
    &&& forall|t: int|
        0 <= t < ck.message_length ==> ck.d@[t] == g2_to_affine_of(
            g2_mul_of(g2, fr_sub_of(alpha, ck.domain.spec_elements()[t])),
        )
    &&& ck.y@ == fk_table(ck.u@, n)
    &&& ck.hat_y@ == fk_table(ck.hat_u@, n)
}

/// The structure that commit gives a produced commitment, relative to the
/// produced state: the Lagrange-basis commitment to the evaluations, the
/// barycentric evaluations of both halves at the hash-derived challenge
/// point (which lies outside the domain), and the commitment to the
/// combined outside witness evaluations.
pub open spec fn commit_value_ok(ck: &CommitmentKey, com: Commitment, st: &State) -> bool {
    let n = ck.domain.spec_size();
    let elems = ck.domain.spec_elements();
    let z0 = z0_of(com.com_kzg);
    let dinv = inv_diffs_seq(elems, z0);
    let hat = st.evals@.subrange(n, 2 * n);
    &&& com.com_kzg == g1_to_affine_of(g1_msm_of(ck.lagranges@, st.evals@))
    &&& forall|j: int| 0 <= j < n ==> elems[j] != z0
    &&& com.y0 == eval_outside_of(elems, st.evals@, z0, dinv)
    &&& com.tau0.hat_y == eval_outside_of(elems, hat, z0, dinv)
    &&& com.tau0.v == g1_to_affine_of(
        g1_msm_of(
            ck.lagranges@,
            weo_seq(st.evals@, com.y0, dinv, n) + weo_seq(hat, com.tau0.hat_y, dinv, n),
        ),
    )
}

/// The opening that `open` assigns to an in-range position: the stored
/// masking evaluation, and the precomputed witness point where one is
/// stored, else the commitment to the inside witness evaluations of both
/// halves.
pub open spec fn open_value(ck: &CommitmentKey, st: &State, i: int) -> Opening {
    let n = ck.domain.spec_size();
    let elems = ck.domain.spec_elements();
    Opening {
        hat_y: st.evals@[n + i],
        v: match st.precomputed_v {
            Some(vs) => g1_to_affine_of(vs@[i]),
            None => g1_to_affine_of(
                g1_msm_of(
                    ck.lagranges@,
                    wei_seq(elems, st.evals@, i) + wei_seq(elems, st.evals@.subrange(n, 2 * n), i),
                ),
            ),
        },
    }
}

impl VcKZG {
    /// Generate a commitment key for vectors of length `message_length`.
    ///
    /// Returns `None` when the length is zero or too large for an evaluation
    /// domain, and (with negligible probability) when a sampled generator is
    /// the group identity. A produced key is well-formed and carries the
    /// algebraic structure of `setup_key_ok` for some drawn generators and
    /// exponent.
    pub fn setup(message_length: usize) -> (r: Option<CommitmentKey>)
        ensures
            message_length < 1 ==> r is None,
            message_length > max_message_length() ==> r is None,
            match r {
                Some(ck) => {
                    &&& ck.wf()
                    &&& ck.message_length == message_length
                    &&& ck.domain.spec_size() == pow2_ceil((message_length + 2) as nat)
                    &&& exists|g1: G1Elem, h: G1Elem, g2: G2Elem, alpha: Scalar|
                        setup_key_ok(&ck, g1, h, g2, alpha)
                },
                None => true,
            },
    {
        if message_length < 1 {
            return None;
        }
        if message_length > 0x3FFF_FFFE {
            return None;
        }
        let dom = match Domain::new(message_length + 2) {
            Some(d) => d,
            None => {
                return None;
            },
        };
        proof {
            lemma_pow2_ceil((message_length + 2) as nat);
            lemma_pow2_ceil_le((message_length + 2) as nat, 0x4000_0000nat);
            reveal_with_fuel(is_pow2, 33);
            assert(is_pow2(0x4000_0000nat));
            lemma_pow2_ceil_of_pow2(0x4000_0000nat);
        }

        // Sample the generators and the secret exponent; an identity
        // generator would make the key degenerate.
        let g1 = g1_rand();
        let g2 = g2_rand();
        let h = g1_rand();
        if g1_is_zero(&g1) || g2_is_zero(&g2) || g1_is_zero(&h) {
            return None;
        }
        let alpha = fr_rand();

        let dsize = dom.size();

        // Powers of alpha in the exponent of g1 and of the hiding generator.
        let mut u: Vec<G1Point> = Vec::new();
        let mut hat_u: Vec<G1Point> = Vec::new();
        let mut curr_g = g1;
        let mut curr_h = h;
        u.push(g1_to_affine(&curr_g));
        hat_u.push(g1_to_affine(&curr_h));
        let mut i: usize = 1;
        while i < dsize
            invariant
                1 <= i <= dsize,
                u@.len() == i,
                hat_u@.len() == i,
                curr_g == alpha_chain(g1, alpha, i - 1),
                curr_h == alpha_chain(h, alpha, i - 1),
                forall|t: int| 0 <= t < i ==> u@[t] == g1_to_affine_of(alpha_chain(g1, alpha, t)),
                forall|t: int|
                    0 <= t < i ==> hat_u@[t] == g1_to_affine_of(alpha_chain(h, alpha, t)),
            decreases dsize - i,
        {
            curr_g = g1_mul(&curr_g, &alpha);
            u.push(g1_to_affine(&curr_g));
            curr_h = g1_mul(&curr_h, &alpha);
            hat_u.push(g1_to_affine(&curr_h));
            i += 1;
        }

        // Exponentiated Lagrange coefficients, message half then masking half.
        let lf = dom.lagrange_coeffs_at(&alpha);
        let mut lagranges: Vec<G1Point> = Vec::new();
        let mut i: usize = 0;
        while i < dsize
            invariant
                i <= dsize,
                u@.len() == dsize,
                lf@.len() == dsize,
                lf@ == lagrange_coeffs_of(dom.spec_handle(), alpha),
                lagranges@.len() == i,
                forall|t: int|
                    0 <= t < i ==> lagranges@[t] == g1_to_affine_of(
                        g1_mul_affine_of(u@[0], lf@[t]),
                    ),
            decreases dsize - i,
        {
            lagranges.push(g1_to_affine(&g1_mul_affine(&u[0], &lf[i])));
            i += 1;
        }
        let mut i: usize = 0;
        while i < dsize
            invariant
                i <= dsize,
                u@.len() == dsize,
                hat_u@.len() == dsize,
                lf@.len() == dsize,
                lf@ == lagrange_coeffs_of(dom.spec_handle(), alpha),
                lagranges@.len() == dsize + i,
                forall|t: int|
                    0 <= t < dsize ==> lagranges@[t] == g1_to_affine_of(
                        g1_mul_affine_of(u@[0], lf@[t]),
                    ),
                forall|t: int|
                    0 <= t < i ==> lagranges@[dsize + t] == g1_to_affine_of(
                        g1_mul_affine_of(hat_u@[0], lf@[t]),
                    ),
            decreases dsize - i,
        {
            lagranges.push(g1_to_affine(&g1_mul_affine(&hat_u[0], &lf[i])));
            i += 1;
        }

        let r_point = g2_to_affine(&g2_mul(&g2, &alpha));

        // Per-position denominators for verification inside the domain.
        let mut d: Vec<G2Point> = Vec::new();
        let mut i: usize = 0;
        while i < message_length
            invariant
                dom.wf(),
                message_length + 2 <= dom.spec_size(),
                i <= message_length,
                d@.len() == i,
                forall|t: int|
                    0 <= t < i ==> d@[t] == g2_to_affine_of(
                        g2_mul_of(g2, fr_sub_of(alpha, dom.spec_elements()[t])),
                    ),
            decreases message_length - i,
        {
            let z = dom.element(i);
            let expo = fr_sub(&alpha, &z);
            d.push(g2_to_affine(&g2_mul(&g2, &expo)));
            i += 1;
        }

        // Precomputations for the amortized all-openings technique.
        let y = match precompute_y(&u, &dom) {
            Some(y) => y,
            None => {
                return None;
            },
        };
        let hat_y = match precompute_y(&hat_u, &dom) {
            Some(y) => y,
            None => {
                return None;
            },
        };

        let g2_aff = g2_to_affine(&g2);
        let ck = CommitmentKey {
            message_length,
            domain: dom,
            u,
            hat_u,
            lagranges,
            g2: g2_aff,
            r: r_point,
            d,
            y,
            hat_y,
        };
        proof {
            assert(setup_key_ok(&ck, g1, h, g2, alpha));
        }
        Some(ck)
    }

    /// Commit to a vector of at most `message_length` scalars.
    ///
    /// The committed state keeps the message in the first slots of its
    /// evaluation vector, and the produced commitment carries the structure
    /// of `commit_value_ok` relative to that state. Returns `None` only in
    /// the cryptographically negligible case that the hash-derived challenge
    /// point lands inside the evaluation domain; a caller must treat that as
    /// fatal, since opening at such a point would reveal a secret
    /// evaluation.
    pub fn commit(ck: &CommitmentKey, m: &Vec<Scalar>) -> (r: Option<(Commitment, State)>)
        requires
            ck.wf(),
            m@.len() <= ck.message_length,
        ensures
            match r {
                Some(pair) => {
                    &&& pair.1.wf(ck)
                    &&& pair.1.evals@.subrange(0, m@.len() as int) == m@
                    &&& pair.1.precomputed_v is None
                    &&& commit_value_ok(ck, pair.0, &pair.1)
                },
                None => true,
            },
    {
        let dsize = ck.domain.size();
        let mut evals: Vec<Scalar> = Vec::new();
        push_all(&mut evals, m.as_slice());
        let mut i: usize = evals.len();
        while i < 2 * dsize
            invariant
                dsize == ck.domain.spec_size(),
                2 * dsize <= 0x8000_0000,
                m@.len() <= i <= 2 * dsize,
                evals@.len() == i,
                evals@.subrange(0, m@.len() as int) == m@,
            decreases 2 * dsize - i,
        {
            evals.push(fr_rand());
            proof {
                assert(evals@.subrange(0, m@.len() as int) =~= m@);
            }
            i += 1;
        }

        let com_kzg = plain_kzg_com(ck, evals.as_slice());
        let z0 = get_z0(&com_kzg);
        if find_in_domain(&ck.domain, z0).is_some() {
            // The challenge point lies in the evaluation domain: opening
            // there would leak a secret evaluation, so no commitment is
            // produced.
            return None;
        }

        let inv = inv_diffs(&ck.domain, &z0);
        let y0 = evaluate_outside(&ck.domain, evals.as_slice(), &z0, inv.as_slice());
        let mut witn_evals: Vec<Scalar> = Vec::new();
        witness_evals_outside(&ck.domain, evals.as_slice(), y0, inv.as_slice(), &mut witn_evals);
        let hat_evals = slice_subrange(evals.as_slice(), dsize, 2 * dsize);
        let hat_y0 = evaluate_outside(&ck.domain, hat_evals, &z0, inv.as_slice());
        witness_evals_outside(&ck.domain, hat_evals, hat_y0, inv.as_slice(), &mut witn_evals);
        let v = plain_kzg_com(ck, witn_evals.as_slice());

        let tau0 = Opening { hat_y: hat_y0, v };
        let com = Commitment { com_kzg, y0, tau0 };
        let st = State { evals, precomputed_v: None };
        proof {
            assert(witn_evals@ =~= weo_seq(st.evals@, y0, inv@, dsize as int) + weo_seq(
                st.evals@.subrange(dsize as int, 2 * dsize as int),
                hat_y0,
                inv@,
                dsize as int,
            ));
            assert(commit_value_ok(ck, com, &st));
        }
        Some((com, st))
    }

    /// Check the embedded self-opening of a commitment at the hash-derived
    /// challenge point: the plain pairing check at that point.
    pub fn verify_commitment(ck: &CommitmentKey, com: &Commitment) -> (r: bool)
        requires
            ck.wf(),
        ensures
            r == plain_kzg_check(ck, com.com_kzg, z0_of(com.com_kzg), com.y0, com.tau0),
    {
        let z0 = get_z0(&com.com_kzg);
        plain_kzg_verify(ck, &com.com_kzg, z0, com.y0, &com.tau0)
    }

    /// Open a commitment at position `i`: `Some` exactly when `i` is within
    /// the message length, and then the opening of `open_value` — the stored
    /// masking evaluation and the (precomputed or freshly committed)
    /// witness point.
    pub fn open(ck: &CommitmentKey, st: &State, i: u32) -> (r: Option<Opening>)
        requires
            ck.wf(),
            st.wf(ck),
        ensures
            r is Some <==> i < ck.message_length,
            match r {
                Some(op) => op == open_value(ck, st, i as int),
                None => true,
            },
    {
        if i as usize >= ck.message_length {
            return None;
        }
        let v = match &st.precomputed_v {
            Some(vs) => g1_to_affine(&vs[i as usize]),
            None => {
                let dsize = ck.domain.size();
                let mut witn_evals: Vec<Scalar> = Vec::new();
                witness_evals_inside(&ck.domain, st.evals.as_slice(), i as usize, &mut witn_evals);
                let hat = slice_subrange(st.evals.as_slice(), dsize, 2 * dsize);
                witness_evals_inside(&ck.domain, hat, i as usize, &mut witn_evals);
                proof {
                    assert(witn_evals@ =~= wei_seq(
                        ck.domain.spec_elements(),
                        st.evals@,
                        i as int,
                    ) + wei_seq(
                        ck.domain.spec_elements(),
                        st.evals@.subrange(dsize as int, 2 * dsize as int),
                        i as int,
                    ));
                }
                plain_kzg_com(ck, witn_evals.as_slice())
            },
        };
        let hat_y = st.evals[i as usize + ck.domain.size()];
        Some(Opening { hat_y, v })
    }

    /// Aggregate openings of several commitments at a common position into
    /// one opening, weighted by powers of the aggregation challenge.
    /// `Some` exactly when the inputs are non-empty and of equal length,
    /// and then the opening of `aggregate_value`; the caller-supplied order
    /// enters the challenge and must be preserved.
    pub fn aggregate(
        ck: &CommitmentKey,
        i: u32,
        mis: &Vec<Scalar>,
        coms: &Vec<Commitment>,
        openings: &Vec<Opening>,
    ) -> (r: Option<Opening>)
        ensures
            r is Some <==> (1 <= mis@.len() && mis@.len() == coms@.len() && mis@.len()
                == openings@.len()),
            match r {
                Some(op) => op == aggregate_value(i, mis@, coms@, openings@),
                None => true,
            },
    {
        if mis.len() < 1 {
            return None;
        }
        if mis.len() != coms.len() || mis.len() != openings.len() {
            return None;
        }
        let le = mis.len();
        let chi = get_chi(i, mis, coms);
        let chi_powers = powers_of(&chi, le);

        let mut vs: Vec<G1Point> = Vec::new();
        let mut j: usize = 0;
        while j < le
            invariant
                openings@.len() == le,
                j <= le,
                vs@.len() == j,
                forall|t: int| 0 <= t < j ==> vs@[t] == openings@[t].v,
            decreases le - j,
        {
            vs.push(openings[j].v);
            j += 1;
        }
        proof {
            assert(vs@ =~= opening_points(openings@));
        }
        let v = g1_msm(vs.as_slice(), chi_powers.as_slice());
        let v = g1_to_affine(&v);

        let mut hat_y = fr_from_u64(0);
        let mut j: usize = 0;
        while j < le
            invariant
                openings@.len() == le,
                chi_powers@.len() == le,
                chi_powers@ == powers_seq(chi, le as int),
                j <= le,
                hat_y == weighted_opening_sum(openings@, chi, j as int),
            decreases le - j,
        {
            hat_y = fr_add(&hat_y, &fr_mul(&openings[j].hat_y, &chi_powers[j]));
            j += 1;
        }
        Some(Opening { hat_y, v })
    }

    /// Verify an (aggregated) opening of the commitments `coms` to the
    /// values `mis` at position `i`. Mismatched or empty inputs and an
    /// out-of-range position verify as `false`; otherwise the result is the
    /// pairing check of `verify_value`.
    pub fn verify(
        ck: &CommitmentKey,
        i: u32,
        mis: &Vec<Scalar>,
        coms: &Vec<Commitment>,
        opening: &Opening,
    ) -> (r: bool)
        requires
            ck.wf(),
        ensures
            (mis@.len() < 1 || mis@.len() != coms@.len() || i >= ck.message_length) ==> r
                == false,
            (1 <= mis@.len() && mis@.len() == coms@.len() && i < ck.message_length) ==> r
                == verify_value(ck, i, mis@, coms@, *opening),
    {
        if mis.len() < 1 {
            return false;
        }
        if mis.len() != coms.len() {
            return false;
        }
        if i as usize >= ck.message_length {
            return false;
        }
        let le = mis.len();
        let chi = get_chi(i, mis, coms);
        let chi_powers = powers_of(&chi, le);

        let mut com_kzgs: Vec<G1Point> = Vec::new();
        let mut j: usize = 0;
        while j < le
            invariant
                coms@.len() == le,
                j <= le,
                com_kzgs@.len() == j,
                forall|t: int| 0 <= t < j ==> com_kzgs@[t] == coms@[t].com_kzg,
            decreases le - j,
        {
            com_kzgs.push(coms[j].com_kzg);
            j += 1;
        }
        proof {
            assert(com_kzgs@ =~= com_points(coms@));
        }
        let com = g1_to_affine(&g1_msm(com_kzgs.as_slice(), chi_powers.as_slice()));

        let mut mi = fr_from_u64(0);
        let mut j: usize = 0;
        while j < le
            invariant
                mis@.len() == le,
                chi_powers@.len() == le,
                chi_powers@ == powers_seq(chi, le as int),
                j <= le,
                mi == weighted_scalar_sum(mis@, chi, j as int),
            decreases le - j,
        {
            mi = fr_add(&mi, &fr_mul(&mis[j], &chi_powers[j]));
            j += 1;
        }
        plain_kzg_verify_inside(ck, i as usize, &com, mi, opening)
    }
}

/// The first `count` powers of `x`, starting from `x^0`.
pub(crate) fn powers_of(x: &Scalar, count: usize) -> (r: Vec<Scalar>)
    requires
        1 <= count,
    ensures
        r@.len() == count,
        r@ == powers_seq(*x, count as int),
{
    let mut out: Vec<Scalar> = Vec::new();
    out.push(fr_from_u64(1));
    let mut j: usize = 1;
    while j < count
        invariant
            1 <= j <= count,
            out@.len() == j,
            forall|t: int| 0 <= t < j ==> out@[t] == pow_of(*x, t),
        decreases count - j,
    {
        let next = fr_mul(&out[j - 1], x);
        out.push(next);
        proof {
            assert(out@[j - 1] == pow_of(*x, j - 1));
            assert(out@[j as int] == pow_of(*x, j as int));
        }
        j += 1;
    }
    proof {
        assert(out@ =~= powers_seq(*x, count as int));
    }
    out
}

proof fn lemma_pow2_ceil_le(a: nat, b: nat)
    requires
        a <= b,
    ensures
        pow2_ceil(a) <= pow2_ceil(b),
    decreases a + b,
{
    if a > 1 {
        lemma_pow2_ceil_le(((a + 1) / 2) as nat, ((b + 1) / 2) as nat);
    } else {
        lemma_pow2_ceil(b);
    }
}

} // verus!
