//! Amortized computation of all openings of a commitment at once, by the
//! Feist-Khovratovich technique: after a setup-time FFT over the key
//! material, the openings at every domain position come out of a single FFT
//! in the exponent instead of one quotient computation per position. Every
//! result is pinned to a function of the key material and the evaluations,
//! over the names of the curve operations.

use vstd::prelude::*;

verus! {

use crate::curve::g1_add;
use crate::curve::g1_add_of;
use crate::curve::g1_batch_to_affine;
use crate::curve::g1_mul_affine;
use crate::curve::g1_mul_affine_of;
use crate::curve::g1_to_affine_of;
use crate::curve::g1_to_group;
use crate::curve::g1_to_group_of;
use crate::curve::G1Elem;
use crate::curve::G1Point;
use crate::curve::Scalar;
use crate::domain::domain_handle_of;
use crate::domain::fft_fr_of;
use crate::domain::fft_g1_of;
use crate::domain::ifft_fr_of;
use crate::domain::ifft_g1_of;
use crate::domain::is_pow2;
use crate::domain::lemma_pow2_ceil_of_pow2;
use crate::domain::Domain;
use crate::domain::DomainHandle;
use crate::vectorcommitment::kzg::kzg_types::CommitmentKey;
use crate::vectorcommitment::kzg::kzg_types::State;
use vstd::slice::slice_subrange;

/// The reversed power table in projective form: the FFT input of the
/// Feist-Khovratovich precomputation.
pub open spec fn fk_shat(u: Seq<G1Point>) -> Seq<G1Elem> {
    Seq::new(u.len(), |i: int| g1_to_group_of(u[u.len() - 1 - i]))
}

/// The Feist-Khovratovich table for a power table of length `n`: the FFT of
/// the reversed table over the domain of size `2n` (the FFT zero-pads),
/// normalized to affine form.
pub open spec fn fk_table(u: Seq<G1Point>, n: int) -> Seq<G1Point> {
    let w = fft_g1_of(domain_handle_of(2 * n), fk_shat(u));
    Seq::new(w.len(), |i: int| g1_to_affine_of(w[i]))
}

/// The setup-time table of the Feist-Khovratovich technique. `None` exactly
/// when no domain of twice the size exists.
pub fn precompute_y(u: &Vec<G1Point>, domain: &Domain) -> (r: Option<Vec<G1Point>>)
    requires
        domain.wf(),
        u@.len() == domain.spec_size(),
        2 * domain.spec_size() <= usize::MAX,
    ensures
        r is Some <==> 2 * domain.spec_size() <= 0x1_0000_0000,
        match r {
            Some(y) => {
                &&& y@.len() == 2 * domain.spec_size()
                &&& y@ == fk_table(u@, domain.spec_size())
            },
            None => true,
        },
{
    let n = domain.size();
    let dom2 = match Domain::new(2 * n) {
        Some(d) => d,
        None => {
            return None;
        },
    };
    proof {
        assert(is_pow2((2 * n) as nat));
        lemma_pow2_ceil_of_pow2((2 * n) as nat);
    }
    let mut s_hat: Vec<G1Elem> = Vec::new();
    let mut i: usize = 0;
    while i < n
        invariant
            n == domain.spec_size(),
            u@.len() == n,
            i <= n,
            s_hat@.len() == i,
            forall|t: int| 0 <= t < i ==> s_hat@[t] == g1_to_group_of(u@[n - 1 - t]),
        decreases n - i,
    {
        s_hat.push(g1_to_group(&u[n - 1 - i]));
        i += 1;
    }
    proof {
        assert(s_hat@ =~= fk_shat(u@));
    }
    let yproj = dom2.fft_g1(s_hat.as_slice());
    let y = g1_batch_to_affine(&yproj);
    proof {
        assert(y@ =~= fk_table(u@, n as int));
    }
    Some(y)
}

/// Coefficients, in the exponent, of the Feist-Khovratovich base
/// polynomial: the upper half of the circulant product of the committed
/// polynomial's coefficients with the precomputed table.
pub open spec fn fk_base(
    dom: DomainHandle,
    dom2: DomainHandle,
    y: Seq<G1Point>,
    evals: Seq<Scalar>,
    n: int,
) -> Seq<G1Elem> {
    let coeffs = ifft_fr_of(dom, evals);
    let chat = fft_fr_of(dom2, coeffs);
    let w = Seq::new(y.len(), |m: int| g1_mul_affine_of(y[m], chat[m]));
    let conv = ifft_g1_of(dom2, w);
    Seq::new((n - 1) as nat, |t: int| conv[n + t])
}

/// The base polynomial of the Feist-Khovratovich technique, in the exponent:
/// coefficient `t` is the sum of `f_j * u[j - 1 - t]` over `j > t`, computed
/// by embedding the Toeplitz product into a circulant one and running it
/// with FFTs of twice the domain size against the precomputed table `y`.
/// The openings at all domain positions are the evaluations of this
/// polynomial over the domain.
pub fn base_poly(domain: &Domain, y: &Vec<G1Point>, evals: &[Scalar]) -> (r: Vec<G1Elem>)
    requires
        domain.wf(),
        y@.len() == 2 * domain.spec_size(),
        evals@.len() == domain.spec_size(),
        2 * domain.spec_size() <= 0x8000_0000,
    ensures
        r@.len() == domain.spec_size() - 1,
        r@ == fk_base(
            domain.spec_handle(),
            domain_handle_of(2 * domain.spec_size()),
            y@,
            evals@,
            domain.spec_size(),
        ),
{
    let n = domain.size();
    let dom2 = match Domain::new(2 * n) {
        Some(d) => d,
        None => {
            proof {
                assert(false);
            }
            return Vec::new();
        },
    };
    proof {
        assert(is_pow2((2 * n) as nat));
        lemma_pow2_ceil_of_pow2((2 * n) as nat);
    }

    // Coefficients of the committed polynomial; the FFT over the doubled
    // domain zero-pads them to length 2n.
    let coeffs = domain.ifft_fr(evals);
    let chat = dom2.fft_fr(coeffs.as_slice());

    // Pointwise product with the precomputed table, in the exponent.
    let mut w: Vec<G1Elem> = Vec::new();
    let mut m: usize = 0;
    while m < 2 * n
        invariant
            y@.len() == 2 * n,
            chat@.len() == 2 * n,
            m <= 2 * n,
            2 * n <= 0x8000_0000,
            w@.len() == m,
            forall|t: int| 0 <= t < m ==> w@[t] == g1_mul_affine_of(y@[t], chat@[t]),
        decreases 2 * n - m,
    {
        w.push(g1_mul_affine(&y[m], &chat[m]));
        m += 1;
    }
    let conv = dom2.ifft_g1(w.as_slice());

    // The circulant product carries the Toeplitz result in its upper half.
    let mut h: Vec<G1Elem> = Vec::new();
    let mut t: usize = 0;
    while t < n - 1
        invariant
            conv@.len() == 2 * n,
            1 <= n,
            2 * n <= 0x8000_0000,
            t <= n - 1,
            h@.len() == t,
            forall|t2: int| 0 <= t2 < t ==> h@[t2] == conv@[n + t2],
        decreases n - 1 - t,
    {
        h.push(conv[n + t]);
        t += 1;
    }
    proof {
        assert(w@ =~= Seq::new(y@.len(), |mm: int| g1_mul_affine_of(y@[mm], chat@[mm])));
        assert(h@ =~= fk_base(
            domain.spec_handle(),
            domain_handle_of(2 * n as int),
            y@,
            evals@,
            n as int,
        ));
    }
    h
}

/// The non-hiding openings at every domain position for the polynomial with
/// the given evaluations: the evaluations, in the exponent, of the base
/// polynomial over the domain (the final FFT zero-pads the short
/// coefficient vector), normalized to affine form.
pub open spec fn fk_openings(
    dom: DomainHandle,
    dom2: DomainHandle,
    y: Seq<G1Point>,
    evals: Seq<Scalar>,
    n: int,
) -> Seq<G1Point> {
    let outs = fft_g1_of(dom, fk_base(dom, dom2, y, evals, n));
    Seq::new(outs.len(), |i: int| g1_to_affine_of(outs[i]))
}

/// All non-hiding KZG openings of the polynomial with the given domain
/// evaluations, one per domain position.
pub fn precompute_openings_single(
    domain: &Domain,
    y: &Vec<G1Point>,
    evals: &[Scalar],
) -> (r: Vec<G1Point>)
    requires
        domain.wf(),
        y@.len() == 2 * domain.spec_size(),
        evals@.len() == domain.spec_size(),
        2 * domain.spec_size() <= 0x8000_0000,
    ensures
        r@.len() == domain.spec_size(),
        r@ == fk_openings(
            domain.spec_handle(),
            domain_handle_of(2 * domain.spec_size()),
            y@,
            evals@,
            domain.spec_size(),
        ),
{
    let h = base_poly(domain, y, evals);
    let opens = domain.fft_g1(h.as_slice());
    let r = g1_batch_to_affine(&opens);
    proof {
        assert(r@ =~= fk_openings(
            domain.spec_handle(),
            domain_handle_of(2 * domain.spec_size()),
            y@,
            evals@,
            domain.spec_size(),
        ));
    }
    r
}

/// The opening of every position that the Feist-Khovratovich technique
/// assigns to a key and an evaluation vector: the openings of the committed
/// polynomial and of the masking polynomial in their respective bases,
/// combined pointwise.
pub open spec fn fk_all(ck: &CommitmentKey, evals: Seq<Scalar>) -> Seq<G1Elem> {
    let n = ck.domain.spec_size();
    let dom = ck.domain.spec_handle();
    let dom2 = domain_handle_of(2 * n);
    let msg = fk_openings(dom, dom2, ck.y@, evals.subrange(0, n), n);
    let mask = fk_openings(dom, dom2, ck.hat_y@, evals.subrange(n, 2 * n), n);
    Seq::new(
        ck.message_length as nat,
        |i: int| g1_add_of(g1_to_group_of(msg[i]), g1_to_group_of(mask[i])),
    )
}

/// Fill `st.precomputed_v` with the opening of every position, pinned to
/// the Feist-Khovratovich value of the key and the (unchanged) evaluations.
pub fn precompute_openings(ck: &CommitmentKey, st: &mut State)
    requires
        ck.wf(),
        old(st).wf(ck),
    ensures
        final(st).wf(ck),
        final(st).evals == old(st).evals,
        match final(st).precomputed_v {
            Some(vs) => vs@ == fk_all(ck, old(st).evals@),
            None => false,
        },
{
    let n = ck.domain.size();
    let msg_evals = slice_subrange(st.evals.as_slice(), 0, n);
    let msg = precompute_openings_single(&ck.domain, &ck.y, msg_evals);
    let mask_evals = slice_subrange(st.evals.as_slice(), n, 2 * n);
    let mask = precompute_openings_single(&ck.domain, &ck.hat_y, mask_evals);
    let mut vs: Vec<G1Elem> = Vec::new();
    let mut i: usize = 0;
    while i < ck.message_length
        invariant
            ck.wf(),
            msg@.len() == ck.domain.spec_size(),
            mask@.len() == ck.domain.spec_size(),
            i <= ck.message_length,
            vs@.len() == i,
            forall|t: int|
                0 <= t < i ==> vs@[t] == g1_add_of(
                    g1_to_group_of(msg@[t]),
                    g1_to_group_of(mask@[t]),
                ),
        decreases ck.message_length - i,
    {
        vs.push(g1_add(&g1_to_group(&msg[i]), &g1_to_group(&mask[i])));
        i += 1;
    }
    proof {
        assert(vs@ =~= fk_all(ck, st.evals@));
    }
    st.precomputed_v = Some(vs);
}

} // verus!
