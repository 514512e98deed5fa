//! Helper functions of the KZG vector commitment: hash-derived challenges,
//! plain KZG commitments and pairing checks, witness-polynomial evaluations.
//! Every result is pinned to a function of the inputs, written over the
//! uninterpreted names of the curve operations.

use vstd::prelude::*;

verus! {

use crate::curve::fr_add;
use crate::curve::fr_add_of;
use crate::curve::fr_batch_inversion;
use crate::curve::fr_div;
use crate::curve::fr_div_of;
use crate::curve::fr_eq;
use crate::curve::fr_from_u64;
use crate::curve::fr_guarded_inv;
use crate::curve::fr_mul;
use crate::curve::fr_mul_of;
use crate::curve::fr_neg;
use crate::curve::fr_neg_of;
use crate::curve::fr_of_nat;
use crate::curve::fr_parse;
use crate::curve::fr_parse_of;
use crate::curve::fr_ser;
use crate::curve::fr_ser_of;
use crate::curve::fr_sub;
use crate::curve::fr_sub_of;
use crate::curve::g1_msm;
use crate::curve::g1_msm_of;
use crate::curve::g1_mul_affine;
use crate::curve::g1_mul_affine_of;
use crate::curve::g1_ser_uncomp;
use crate::curve::g1_ser_uncomp_of;
use crate::curve::g1_sub;
use crate::curve::g1_sub_of;
use crate::curve::g1_to_affine;
use crate::curve::g1_to_affine_of;
use crate::curve::g1_to_group;
use crate::curve::g1_to_group_of;
use crate::curve::g2_mul_affine;
use crate::curve::g2_mul_affine_of;
use crate::curve::g2_sub;
use crate::curve::g2_sub_of;
use crate::curve::g2_to_group;
use crate::curve::g2_to_group_of;
use crate::curve::gt_eq;
use crate::curve::pairing;
use crate::curve::pairing_of;
use crate::curve::sha256;
use crate::curve::sha256_of;
use crate::curve::G1Point;
use crate::curve::Scalar;
use crate::domain::is_pow2;
use crate::domain::log2;
use crate::domain::Domain;
use crate::encoding::push_all;
use crate::encoding::u32_be_bytes;
use crate::encoding::u32_to_be;
use crate::encoding::u64_be_bytes;
use crate::encoding::u64_to_be;
use crate::vectorcommitment::kzg::kzg_types::Commitment;
use crate::vectorcommitment::kzg::kzg_types::CommitmentKey;
use crate::vectorcommitment::kzg::kzg_types::Opening;

/// The domain-separation tag "KZG-SIM-EXT//" of the commitment challenge.
pub open spec fn z0_tag() -> Seq<u8> {
    seq![75u8, 90, 71, 45, 83, 73, 77, 45, 69, 88, 84, 47, 47]
}

/// The domain-separation tag "KZG-AGG//" of the aggregation challenge.
pub open spec fn chi_tag() -> Seq<u8> {
    seq![75u8, 90, 71, 45, 65, 71, 71, 47, 47]
}

fn tag_z0() -> (r: Vec<u8>)
    ensures
        r@ == z0_tag(),
{
    let mut out: Vec<u8> = Vec::new();
    out.push(75);
    out.push(90);
    out.push(71);
    out.push(45);
    out.push(83);
    out.push(73);
    out.push(77);
    out.push(45);
    out.push(69);
    out.push(88);
    out.push(84);
    out.push(47);
    out.push(47);
    proof {
        assert(out@ =~= z0_tag());
    }
    out
}

fn tag_chi() -> (r: Vec<u8>)
    ensures
        r@ == chi_tag(),
{
    let mut out: Vec<u8> = Vec::new();
    out.push(75);
    out.push(90);
    out.push(71);
    out.push(45);
    out.push(65);
    out.push(71);
    out.push(71);
    out.push(47);
    out.push(47);
    proof {
        assert(out@ =~= chi_tag());
    }
    out
}

/// One attempt of the rejection-sampling hash-to-field: the parse of the
/// digest of `pre`, then the big-endian counter, then `post`.
pub open spec fn h2f_attempt(pre: Seq<u8>, post: Seq<u8>, c: u64) -> Option<Scalar> {
    fr_parse_of(sha256_of(pre + u64_be_bytes(c) + post))
}

/// Whether `c` is the counter the rejection sampling settles on: the first
/// counter from 1 on whose attempt parses.
pub open spec fn h2f_found(pre: Seq<u8>, post: Seq<u8>, c: u64) -> bool {
    &&& 1 <= c
    &&& h2f_attempt(pre, post, c) is Some
    &&& forall|c2: u64| 1 <= c2 < c ==> h2f_attempt(pre, post, c2) is None
}

/// The value that the rejection-sampling hash-to-field assigns to a pair of
/// byte strings: the parse of the first successful attempt, or zero in the
/// (cryptographically unreachable) case that no 64-bit counter succeeds.
pub open spec fn h2f_value(pre: Seq<u8>, post: Seq<u8>) -> Scalar {
    if exists|c: u64| h2f_found(pre, post, c) {
        h2f_attempt(pre, post, choose|c: u64| h2f_found(pre, post, c))->Some_0
    } else {
        fr_of_nat(0)
    }
}

/// Law: the counter that the rejection sampling settles on is unique, so the
/// hash-to-field value is a function of the two byte strings alone.
pub proof fn lemma_h2f_found_unique(pre: Seq<u8>, post: Seq<u8>, c1: u64, c2: u64)
    requires
        h2f_found(pre, post, c1),
        h2f_found(pre, post, c2),
    ensures
        c1 == c2,
{
    if c1 < c2 {
        assert(h2f_attempt(pre, post, c1) is None);
    }
    if c2 < c1 {
        assert(h2f_attempt(pre, post, c2) is None);
    }
}

proof fn lemma_h2f_value_of_found(pre: Seq<u8>, post: Seq<u8>, c: u64)
    requires
        h2f_found(pre, post, c),
    ensures
        h2f_value(pre, post) == h2f_attempt(pre, post, c)->Some_0,
{
    assert(exists|cw: u64| h2f_found(pre, post, cw));
    let cw = choose|cw: u64| h2f_found(pre, post, cw);
    lemma_h2f_found_unique(pre, post, c, cw);
}

/// Hash `pre ++ counter ++ post` with SHA-256 for big-endian counters
/// 1, 2, ... until the digest parses as a scalar, and return that scalar.
/// The contract pins the result to a function of the input bytes alone.
pub fn hash_to_field(pre: &Vec<u8>, post: &Vec<u8>) -> (r: Scalar)
    ensures
        r == h2f_value(pre@, post@),
{
    let mut c: u64 = 1;
    loop
        invariant
            1 <= c,
            forall|c2: u64| 1 <= c2 < c ==> h2f_attempt(pre@, post@, c2) is None,
        decreases u64::MAX - c,
    {
        let mut data: Vec<u8> = Vec::new();
        push_all(&mut data, pre.as_slice());
        let cbytes = u64_to_be(c);
        push_all(&mut data, cbytes.as_slice());
        push_all(&mut data, post.as_slice());
        proof {
            assert(data@ =~= pre@ + u64_be_bytes(c) + post@);
        }
        let digest = sha256(&data);
        let parsed = fr_parse(digest.as_slice());
        match parsed {
            Some(x) => {
                proof {
                    assert(h2f_attempt(pre@, post@, c) == Some(x));
                    assert(h2f_found(pre@, post@, c));
                    lemma_h2f_value_of_found(pre@, post@, c);
                }
                return x;
            },
            None => {
                assert(h2f_attempt(pre@, post@, c) is None);
            },
        }
        if c == u64::MAX {
            proof {
                assert forall|c2: u64| !h2f_found(pre@, post@, c2) by {
                    if 1 <= c2 {
                        assert(h2f_attempt(pre@, post@, c2) is None);
                    }
                }
            }
            return fr_from_u64(0);
        }
        c = c + 1;
    }
}

/// The challenge point of a commitment: the hash-to-field of its tagged
/// uncompressed serialization.
pub open spec fn z0_of(com_kzg: G1Point) -> Scalar {
    h2f_value(z0_tag() + g1_ser_uncomp_of(com_kzg), Seq::<u8>::empty())
}

/// The challenge point `z0` of a commitment: hash-to-field of the tagged
/// uncompressed serialization of the KZG commitment, a function of the
/// commitment alone.
pub fn get_z0(com_kzg: &G1Point) -> (r: Scalar)
    ensures
        r == z0_of(*com_kzg),
{
    let mut pre = tag_z0();
    let ser = g1_ser_uncomp(com_kzg);
    push_all(&mut pre, ser.as_slice());
    let post: Vec<u8> = Vec::new();
    let r = hash_to_field(&pre, &post);
    proof {
        assert(pre@ =~= z0_tag() + g1_ser_uncomp_of(*com_kzg));
        assert(post@ =~= Seq::<u8>::empty());
    }
    r
}

/// The uncompressed serialization of a commitment, in field order: KZG
/// commitment, claimed value, then the embedded opening.
pub open spec fn commitment_bytes_of(c: Commitment) -> Seq<u8> {
    g1_ser_uncomp_of(c.com_kzg) + fr_ser_of(c.y0) + fr_ser_of(c.tau0.hat_y) + g1_ser_uncomp_of(
        c.tau0.v,
    )
}

/// Serialize a commitment, uncompressed, mirroring its field order.
pub fn commitment_bytes(c: &Commitment) -> (r: Vec<u8>)
    ensures
        r@ == commitment_bytes_of(*c),
        r@.len() == 256,
{
    let mut out = g1_ser_uncomp(&c.com_kzg);
    let y0 = fr_ser(&c.y0);
    push_all(&mut out, y0.as_slice());
    let hy = fr_ser(&c.tau0.hat_y);
    push_all(&mut out, hy.as_slice());
    let v = g1_ser_uncomp(&c.tau0.v);
    push_all(&mut out, v.as_slice());
    proof {
        assert(out@ =~= commitment_bytes_of(*c));
    }
    out
}

/// The serialized value/commitment pairs hashed for the aggregation
/// challenge, in caller order, over the first `j` pairs.
pub open spec fn chi_payload(mis: Seq<Scalar>, coms: Seq<Commitment>, j: int) -> Seq<u8>
    decreases j,
{
    if j <= 0 {
        Seq::<u8>::empty()
    } else {
        chi_payload(mis, coms, j - 1) + fr_ser_of(mis[j - 1]) + commitment_bytes_of(coms[j - 1])
    }
}

/// The aggregation challenge for a position, claimed values and
/// commitments: the hash-to-field of the tag, the position in big-endian,
/// and the serialized pairs in order.
pub open spec fn chi_of(i: u32, mis: Seq<Scalar>, coms: Seq<Commitment>) -> Scalar {
    h2f_value(chi_tag(), u32_be_bytes(i) + chi_payload(mis, coms, mis.len() as int))
}

/// The aggregation challenge `chi` for position `i`, claimed values `mis`
/// and commitments `coms`: a function of those inputs, including their
/// order.
pub fn get_chi(i: u32, mis: &Vec<Scalar>, coms: &Vec<Commitment>) -> (r: Scalar)
    requires
        mis@.len() == coms@.len(),
    ensures
        r == chi_of(i, mis@, coms@),
{
    let pre = tag_chi();
    let mut post = u32_to_be(i);
    let mut j: usize = 0;
    while j < mis.len()
        invariant
            mis@.len() == coms@.len(),
            j <= mis@.len(),
            post@ == u32_be_bytes(i) + chi_payload(mis@, coms@, j as int),
        decreases mis@.len() - j,
    {
        let mi = fr_ser(&mis[j]);
        push_all(&mut post, mi.as_slice());
        let cb = commitment_bytes(&coms[j]);
        push_all(&mut post, cb.as_slice());
        proof {
            assert(post@ =~= u32_be_bytes(i) + chi_payload(mis@, coms@, (j + 1) as int));
        }
        j += 1;
    }
    hash_to_field(&pre, &post)
}

/// A plain KZG commitment in the Lagrange basis: one multi-scalar
/// multiplication of the evaluations against the key's Lagrange points.
pub fn plain_kzg_com(ck: &CommitmentKey, evals: &[Scalar]) -> (r: G1Point)
    requires
        ck.wf(),
        evals@.len() == 2 * ck.domain.spec_size(),
    ensures
        r == g1_to_affine_of(g1_msm_of(ck.lagranges@, evals@)),
{
    let c = g1_msm(ck.lagranges.as_slice(), evals);
    g1_to_affine(&c)
}

/// Whether the plain KZG pairing equation
/// `e(com - g1*y - h*hat_y, g2) == e(v, r - g2*z)` holds, over the names of
/// the curve operations.
pub open spec fn plain_kzg_check(
    ck: &CommitmentKey,
    com_kzg: G1Point,
    z: Scalar,
    y: Scalar,
    tau: Opening,
) -> bool {
    let lhs_left = g1_sub_of(
        g1_sub_of(g1_to_group_of(com_kzg), g1_mul_affine_of(ck.u@[0], y)),
        g1_mul_affine_of(ck.hat_u@[0], tau.hat_y),
    );
    let lhs = pairing_of(lhs_left, g2_to_group_of(ck.g2));
    let rhs = pairing_of(
        g1_to_group_of(tau.v),
        g2_sub_of(g2_to_group_of(ck.r), g2_mul_affine_of(ck.g2, z)),
    );
    lhs == rhs
}

/// Whether the plain KZG pairing equation at the `i`-th domain element
/// holds, using the precomputed denominator `d[i]` of the key.
pub open spec fn plain_kzg_check_inside(
    ck: &CommitmentKey,
    i: int,
    com_kzg: G1Point,
    y: Scalar,
    tau: Opening,
) -> bool {
    let lhs_left = g1_sub_of(
        g1_sub_of(g1_to_group_of(com_kzg), g1_mul_affine_of(ck.u@[0], y)),
        g1_mul_affine_of(ck.hat_u@[0], tau.hat_y),
    );
    let lhs = pairing_of(lhs_left, g2_to_group_of(ck.g2));
    let rhs = pairing_of(g1_to_group_of(tau.v), g2_to_group_of(ck.d@[i]));
    lhs == rhs
}

/// The plain KZG pairing check: whether
/// `e(com - g1*y - h*hat_y, g2) == e(v, r - g2*z)`.
pub fn plain_kzg_verify(
    ck: &CommitmentKey,
    com_kzg: &G1Point,
    z: Scalar,
    y: Scalar,
    tau: &Opening,
) -> (r: bool)
    requires
        ck.wf(),
    ensures
        r == plain_kzg_check(ck, *com_kzg, z, y, *tau),
{
    let mut lhs_left = g1_to_group(com_kzg);
    let uy = g1_mul_affine(&ck.u[0], &y);
    lhs_left = g1_sub(&lhs_left, &uy);
    let hy = g1_mul_affine(&ck.hat_u[0], &tau.hat_y);
    lhs_left = g1_sub(&lhs_left, &hy);
    let lhs = pairing(&lhs_left, &g2_to_group(&ck.g2));
    let gz = g2_mul_affine(&ck.g2, &z);
    let rhs_right = g2_sub(&g2_to_group(&ck.r), &gz);
    let rhs = pairing(&g1_to_group(&tau.v), &rhs_right);
    gt_eq(&lhs, &rhs)
}

/// The plain KZG pairing check at the `i`-th domain element, using the
/// precomputed denominator `d[i]` of the key.
pub fn plain_kzg_verify_inside(
    ck: &CommitmentKey,
    i: usize,
    com_kzg: &G1Point,
    y: Scalar,
    tau: &Opening,
) -> (r: bool)
    requires
        ck.wf(),
        i < ck.message_length,
    ensures
        r == plain_kzg_check_inside(ck, i as int, *com_kzg, y, *tau),
{
    let mut lhs_left = g1_to_group(com_kzg);
    let uy = g1_mul_affine(&ck.u[0], &y);
    lhs_left = g1_sub(&lhs_left, &uy);
    let hy = g1_mul_affine(&ck.hat_u[0], &tau.hat_y);
    lhs_left = g1_sub(&lhs_left, &hy);
    let lhs = pairing(&lhs_left, &g2_to_group(&ck.g2));
    let rhs = pairing(&g1_to_group(&tau.v), &g2_to_group(&ck.d[i]));
    gt_eq(&lhs, &rhs)
}

/// Search the domain for `z` and return its index: `Some(j)` only when the
/// `j`-th element is `z`, `None` exactly when no element is `z`.
pub fn find_in_domain(domain: &Domain, z: Scalar) -> (r: Option<usize>)
    requires
        domain.wf(),
    ensures
        match r {
            Some(j) => j < domain.spec_size() && domain.spec_elements()[j as int] == z,
            None => forall|j: int|
                0 <= j < domain.spec_size() ==> domain.spec_elements()[j] != z,
        },
{
    let n = domain.size();
    let mut found: Option<usize> = None;
    let mut i: usize = 0;
    while i < n
        invariant
            domain.wf(),
            n == domain.spec_size(),
            i <= n,
            match found {
                Some(j) => j < domain.spec_size() && domain.spec_elements()[j as int] == z,
                None => forall|j: int| 0 <= j < i ==> domain.spec_elements()[j] != z,
            },
        decreases n - i,
    {
        let e = domain.element(i);
        if fr_eq(&z, &e) {
            found = Some(i);
        }
        i += 1;
    }
    found
}

/// The inverse differences of the domain elements against a point: entry
/// `i` is `1 / (elems[i] - z)`, or zero where the difference is zero.
pub open spec fn inv_diffs_seq(elems: Seq<Scalar>, z: Scalar) -> Seq<Scalar> {
    Seq::new(elems.len(), |i: int| fr_guarded_inv(fr_sub_of(elems[i], z)))
}

/// The vector of all `1 / (domain[i] - z)`; entries where the difference is
/// zero (`z` in the domain) stay zero under batch inversion.
pub fn inv_diffs(domain: &Domain, z: &Scalar) -> (r: Vec<Scalar>)
    requires
        domain.wf(),
    ensures
        r@.len() == domain.spec_size(),
        r@ == inv_diffs_seq(domain.spec_elements(), *z),
{
    let n = domain.size();
    let mut out: Vec<Scalar> = Vec::new();
    let mut i: usize = 0;
    while i < n
        invariant
            domain.wf(),
            n == domain.spec_size(),
            i <= n,
            out@.len() == i,
            forall|j: int|
                0 <= j < i ==> out@[j] == fr_sub_of(domain.spec_elements()[j], *z),
        decreases n - i,
    {
        let e = domain.element(i);
        out.push(fr_sub(&e, z));
        i += 1;
    }
    fr_batch_inversion(&mut out);
    proof {
        assert(out@ =~= inv_diffs_seq(domain.spec_elements(), *z));
    }
    out
}

/// The outside witness evaluations: entry `j` is
/// `(evals[j] - fz) * dinv[j]`, for `j` over the domain.
pub open spec fn weo_seq(evals: Seq<Scalar>, fz: Scalar, dinv: Seq<Scalar>, n: int) -> Seq<
    Scalar,
> {
    Seq::new(n as nat, |j: int| fr_mul_of(fr_sub_of(evals[j], fz), dinv[j]))
}

/// Append to `witn_evals` the evaluation form of the witness polynomial
/// `(f - f(z)) / (X - z)` for `z` outside the domain: one entry
/// `(evals[j] - fz) * inv_diffs[j]` per domain element, in order.
pub fn witness_evals_outside(
    domain: &Domain,
    evals: &[Scalar],
    fz: Scalar,
    inv_diffs: &[Scalar],
    witn_evals: &mut Vec<Scalar>,
) requires
        domain.wf(),
        evals@.len() >= domain.spec_size(),
        inv_diffs@.len() >= domain.spec_size(),
        old(witn_evals)@.len() + domain.spec_size() <= usize::MAX,
    ensures
        final(witn_evals)@ == old(witn_evals)@ + weo_seq(
            evals@,
            fz,
            inv_diffs@,
            domain.spec_size(),
        ),
{
    let ghost orig = witn_evals@;
    let n = domain.size();
    let mut i: usize = 0;
    while i < n
        invariant
            n == domain.spec_size(),
            evals@.len() >= n,
            inv_diffs@.len() >= n,
            i <= n,
            witn_evals@.len() == orig.len() + i,
            witn_evals@.subrange(0, orig.len() as int) == orig,
            forall|j: int|
                0 <= j < i ==> witn_evals@[orig.len() + j] == fr_mul_of(
                    fr_sub_of(evals@[j], fz),
                    inv_diffs@[j],
                ),
        decreases n - i,
    {
        let num = fr_sub(&evals[i], &fz);
        witn_evals.push(fr_mul(&num, &inv_diffs[i]));
        proof {
            assert(witn_evals@.subrange(0, orig.len() as int) =~= orig);
        }
        i += 1;
    }
    proof {
        assert(witn_evals@ =~= orig + weo_seq(evals@, fz, inv_diffs@, n as int));
    }
}

/// The batch-inverted denominator of the inside witness evaluation: the
/// sentinel one at the singular position, the difference of elements
/// elsewhere.
pub open spec fn wei_dinv(elems: Seq<Scalar>, i: int, j: int) -> Scalar {
    if j == i {
        fr_guarded_inv(fr_of_nat(1))
    } else {
        fr_guarded_inv(fr_sub_of(elems[j], elems[i]))
    }
}

/// The regular inside witness entry at position `j`:
/// `(evals[j] - evals[i]) / (elems[j] - elems[i])`.
pub open spec fn wei_entry(elems: Seq<Scalar>, evals: Seq<Scalar>, i: int, j: int) -> Scalar {
    fr_mul_of(fr_sub_of(evals[j], evals[i]), wei_dinv(elems, i, j))
}

/// The partial sum of the Feist-Khovratovich singular-entry terms over
/// positions below `j`, skipping the singular position itself.
pub open spec fn wei_singular_sum(
    elems: Seq<Scalar>,
    evals: Seq<Scalar>,
    i: int,
    j: int,
) -> Scalar
    decreases j,
{
    if j <= 0 {
        fr_of_nat(0)
    } else if j - 1 == i {
        wei_singular_sum(elems, evals, i, j - 1)
    } else {
        fr_add_of(
            wei_singular_sum(elems, evals, i, j - 1),
            fr_mul_of(
                fr_mul_of(fr_sub_of(evals[j - 1], evals[i]), fr_neg_of(wei_dinv(elems, i, j - 1))),
                elems[if j - 1 >= i {
                    j - 1 - i
                } else {
                    elems.len() - i + j - 1
                }],
            ),
        )
    }
}

/// The inside witness evaluations for the `i`-th domain element: the
/// regular entries everywhere, and the Feist-Khovratovich sum at position
/// `i` itself.
pub open spec fn wei_seq(elems: Seq<Scalar>, evals: Seq<Scalar>, i: int) -> Seq<Scalar> {
    Seq::new(
        elems.len(),
        |j: int|
            if j == i {
                wei_singular_sum(elems, evals, i, elems.len() as int)
            } else {
                wei_entry(elems, evals, i, j)
            },
    )
}

/// Append to `witn_evals` the evaluation form of the witness polynomial
/// `(f - f(x_i)) / (X - x_i)` for the `i`-th domain element `x_i`: the
/// regular entries by batch-inverted differences, and the singular entry at
/// position `i` by the Feist-Khovratovich identity.
pub fn witness_evals_inside(
    domain: &Domain,
    evals: &[Scalar],
    i: usize,
    witn_evals: &mut Vec<Scalar>,
) requires
        domain.wf(),
        i < domain.spec_size(),
        evals@.len() >= domain.spec_size(),
        old(witn_evals)@.len() + domain.spec_size() <= usize::MAX,
    ensures
        final(witn_evals)@ == old(witn_evals)@ + wei_seq(
            domain.spec_elements(),
            evals@,
            i as int,
        ),
{
    let ghost orig = witn_evals@;
    let ghost elems = domain.spec_elements();
    let n = domain.size();
    let oldsize = witn_evals.len();
    let fxi = evals[i];
    let xi = domain.element(i);

    let mut nums: Vec<Scalar> = Vec::new();
    let mut denoms: Vec<Scalar> = Vec::new();
    let mut j: usize = 0;
    while j < n
        invariant
            domain.wf(),
            elems == domain.spec_elements(),
            n == domain.spec_size(),
            i < n,
            evals@.len() >= n,
            fxi == evals@[i as int],
            xi == elems[i as int],
            j <= n,
            nums@.len() == j,
            denoms@.len() == j,
            forall|t: int| 0 <= t < j ==> nums@[t] == fr_sub_of(evals@[t], evals@[i as int]),
            forall|t: int| 0 <= t < j ==> denoms@[t] == fr_sub_of(elems[t], elems[i as int]),
        decreases n - j,
    {
        nums.push(fr_sub(&evals[j], &fxi));
        let xj = domain.element(j);
        denoms.push(fr_sub(&xj, &xi));
        j += 1;
    }
    // The difference at position i is zero; set a sentinel so that batch
    // inversion leaves a usable vector.
    denoms.set(i, fr_from_u64(1));
    fr_batch_inversion(&mut denoms);
    proof {
        assert forall|t: int| 0 <= t < n implies denoms@[t] == wei_dinv(elems, i as int, t) by {
        }
    }

    let mut j: usize = 0;
    while j < n
        invariant
            elems.len() == n,
            n == domain.spec_size(),
            i < n,
            evals@.len() >= n,
            nums@.len() == n,
            denoms@.len() == n,
            forall|t: int| 0 <= t < n ==> nums@[t] == fr_sub_of(evals@[t], evals@[i as int]),
            forall|t: int| 0 <= t < n ==> denoms@[t] == wei_dinv(elems, i as int, t),
            j <= n,
            orig.len() + n <= usize::MAX,
            oldsize == orig.len(),
            witn_evals@.len() == orig.len() + j,
            witn_evals@.subrange(0, orig.len() as int) == orig,
            forall|t: int|
                0 <= t < j ==> witn_evals@[orig.len() + t] == wei_entry(
                    elems,
                    evals@,
                    i as int,
                    t,
                ),
        decreases n - j,
    {
        witn_evals.push(fr_mul(&nums[j], &denoms[j]));
        proof {
            assert(witn_evals@.subrange(0, orig.len() as int) =~= orig);
        }
        j += 1;
    }

    // The singular evaluation at position i itself.
    let mut sum = fr_from_u64(0);
    let mut j: usize = 0;
    while j < n
        invariant
            domain.wf(),
            elems == domain.spec_elements(),
            elems.len() == n,
            n == domain.spec_size(),
            i < n,
            evals@.len() >= n,
            nums@.len() == n,
            denoms@.len() == n,
            forall|t: int| 0 <= t < n ==> nums@[t] == fr_sub_of(evals@[t], evals@[i as int]),
            forall|t: int| 0 <= t < n ==> denoms@[t] == wei_dinv(elems, i as int, t),
            j <= n,
            sum == wei_singular_sum(elems, evals@, i as int, j as int),
        decreases n - j,
    {
        if j != i {
            let mut term = fr_mul(&nums[j], &fr_neg(&denoms[j]));
            let exponent = if j >= i {
                j - i
            } else {
                (n - i) + j
            };
            let xe = domain.element(exponent);
            term = fr_mul(&term, &xe);
            sum = fr_add(&sum, &term);
        }
        j += 1;
    }
    witn_evals.set(oldsize + i, sum);
    proof {
        assert(witn_evals@.subrange(0, orig.len() as int) =~= orig);
        assert(witn_evals@ =~= orig + wei_seq(elems, evals@, i as int));
    }
}

/// `z` squared `k` times, written over the multiplication name.
pub open spec fn square_iter(z: Scalar, k: nat) -> Scalar
    decreases k,
{
    if k == 0 {
        z
    } else {
        let q = square_iter(z, (k - 1) as nat);
        fr_mul_of(q, q)
    }
}

/// The partial barycentric sum over positions below `j`:
/// `sum_t evals[t] * (-elems[t] * dinv[t])`.
pub open spec fn barycentric_sum(
    elems: Seq<Scalar>,
    evals: Seq<Scalar>,
    dinv: Seq<Scalar>,
    j: int,
) -> Scalar
    decreases j,
{
    if j <= 0 {
        fr_of_nat(0)
    } else {
        fr_add_of(
            barycentric_sum(elems, evals, dinv, j - 1),
            fr_mul_of(evals[j - 1], fr_mul_of(fr_neg_of(elems[j - 1]), dinv[j - 1])),
        )
    }
}

/// The barycentric evaluation at a point outside the domain: the vanishing
/// value `z^n - 1` over the domain size, times the weighted sum of the
/// evaluations.
pub open spec fn eval_outside_of(
    elems: Seq<Scalar>,
    evals: Seq<Scalar>,
    z: Scalar,
    dinv: Seq<Scalar>,
) -> Scalar {
    let vanish = fr_sub_of(square_iter(z, log2(elems.len())), fr_of_nat(1));
    let factor = fr_div_of(vanish, fr_of_nat(elems.len()));
    fr_mul_of(factor, barycentric_sum(elems, evals, dinv, elems.len() as int))
}

/// Evaluate, at a point `z` outside the domain, the polynomial whose
/// evaluations over the domain are `evals`, by the barycentric formula.
/// The vanishing value `z^n - 1` is computed by repeated squaring, since
/// the domain size is a power of two.
pub fn evaluate_outside(
    domain: &Domain,
    evals: &[Scalar],
    z: &Scalar,
    inv_diffs: &[Scalar],
) -> (r: Scalar)
    requires
        domain.wf(),
        evals@.len() >= domain.spec_size(),
        inv_diffs@.len() >= domain.spec_size(),
    ensures
        r == eval_outside_of(domain.spec_elements(), evals@, *z, inv_diffs@),
{
    let n = domain.size();
    proof {
        assert(domain.spec_elements().len() == n);
    }

    // vanishing polynomial at z: z^n - 1, by repeated squaring
    let mut zp = *z;
    let mut m: usize = n;
    while m > 1
        invariant
            is_pow2(m as nat),
            is_pow2(n as nat),
            1 <= m <= n,
            log2(m as nat) <= log2(n as nat),
            zp == square_iter(*z, (log2(n as nat) - log2(m as nat)) as nat),
        decreases m,
    {
        zp = fr_mul(&zp, &zp);
        m = m / 2;
    }
    let one = fr_from_u64(1);
    let vanish = fr_sub(&zp, &one);

    let size_f = fr_from_u64(n as u64);
    let factor = fr_div(&vanish, &size_f);
    let mut sum = fr_from_u64(0);
    let mut i: usize = 0;
    while i < n
        invariant
            domain.wf(),
            n == domain.spec_size(),
            evals@.len() >= n,
            inv_diffs@.len() >= n,
            i <= n,
            sum == barycentric_sum(domain.spec_elements(), evals@, inv_diffs@, i as int),
        decreases n - i,
    {
        let e = domain.element(i);
        let term = fr_mul(&fr_neg(&e), &inv_diffs[i]);
        sum = fr_add(&sum, &fr_mul(&evals[i], &term));
        i += 1;
    }
    fr_mul(&factor, &sum)
}

} // verus!
