//! The radix-2 evaluation domain used to represent committed vectors.
//!
//! A `Domain` couples the opaque arkworks domain with the two pieces of it
//! that the verified logic reads: its size and the vector of its elements.
//! Only the trusted constructor builds a `Domain`, so the trusted methods on
//! it may rely on those fields describing the wrapped domain.

use vstd::prelude::*;

verus! {

use crate::curve::G1Elem;
use crate::curve::Scalar;

/// Whether `n` is a power of two.
pub open spec fn is_pow2(n: nat) -> bool
    decreases n,
{
    if n == 0 {
        false
    } else if n == 1 {
        true
    } else {
        n % 2 == 0 && is_pow2(n / 2)
    }
}

/// The smallest power of two that is at least `n` (and at least 1).
pub open spec fn pow2_ceil(n: nat) -> nat
    decreases n,
{
    if n <= 1 {
        1
    } else {
        2 * pow2_ceil(((n + 1) / 2) as nat)
    }
}

pub proof fn lemma_pow2_ceil(n: nat)
    ensures
        pow2_ceil(n) >= n,
        pow2_ceil(n) >= 1,
        is_pow2(pow2_ceil(n)),
    decreases n,
{
    if n > 1 {
        lemma_pow2_ceil(((n + 1) / 2) as nat);
    }
}

/// The base-2 logarithm of a power of two.
pub open spec fn log2(n: nat) -> nat
    decreases n,
{
    if n <= 1 {
        0
    } else {
        1 + log2(n / 2)
    }
}

pub proof fn lemma_pow2_ceil_of_pow2(n: nat)
    requires
        is_pow2(n),
    ensures
        pow2_ceil(n) == n,
    decreases n,
{
    if n > 1 {
        lemma_pow2_ceil_of_pow2(n / 2);
    }
}

/// The arkworks evaluation domain itself, opaque to the verifier.
#[verifier::external_body]
pub struct DomainHandle(pub(crate) ark_poly::Radix2EvaluationDomain<ark_bls12_381::Fr>);

impl Clone for DomainHandle {
    /// A copy of an opaque domain handle is the same handle.
    #[verifier::external_body]
    fn clone(&self) -> (r: Self)
        ensures
            r == *self,
    {
        DomainHandle(self.0)
    }
}

impl Copy for DomainHandle {}

/// The arkworks domain that the radix-2 constructor builds for a requested
/// size (where one exists).
pub uninterp spec fn domain_handle_of(n: int) -> DomainHandle;

/// The elements that the radix-2 constructor enumerates for a requested
/// size (where a domain exists).
pub uninterp spec fn domain_elements_of(n: int) -> Seq<Scalar>;

/// The forward FFT over the scalar field that a domain assigns to a
/// coefficient vector (shorter inputs are zero-padded to the domain size).
pub uninterp spec fn fft_fr_of(h: DomainHandle, v: Seq<Scalar>) -> Seq<Scalar>;

/// The inverse FFT over the scalar field that a domain assigns to an
/// evaluation vector.
pub uninterp spec fn ifft_fr_of(h: DomainHandle, v: Seq<Scalar>) -> Seq<Scalar>;

/// The forward FFT in the exponent (over G1) that a domain assigns to a
/// vector of points (shorter inputs are padded with the group identity).
pub uninterp spec fn fft_g1_of(h: DomainHandle, v: Seq<G1Elem>) -> Seq<G1Elem>;

/// The inverse FFT in the exponent (over G1) that a domain assigns to a
/// vector of points.
pub uninterp spec fn ifft_g1_of(h: DomainHandle, v: Seq<G1Elem>) -> Seq<G1Elem>;

/// The values of all Lagrange basis polynomials of a domain at a point.
pub uninterp spec fn lagrange_coeffs_of(h: DomainHandle, tau: Scalar) -> Seq<Scalar>;

/// A multiplicative subgroup of the BLS12-381 scalar field of power-of-two
/// size, with its elements materialized for the verified logic.
pub struct Domain {
    handle: DomainHandle,
    size: usize,
    elements: Vec<Scalar>,
}

impl Domain {
    /// The number of elements of the domain.
    pub closed spec fn spec_size(&self) -> int {
        self.size as int
    }

    /// The elements of the domain, in enumeration order.
    pub closed spec fn spec_elements(&self) -> Seq<Scalar> {
        self.elements@
    }

    /// The wrapped arkworks domain, which determines every FFT below.
    pub closed spec fn spec_handle(&self) -> DomainHandle {
        self.handle
    }

    pub open spec fn wf(&self) -> bool {
        &&& is_pow2(self.spec_size() as nat)
        &&& 1 <= self.spec_size() <= 0x1_0000_0000
        &&& self.spec_elements().len() == self.spec_size()
        &&& self.spec_handle() == domain_handle_of(self.spec_size())
        &&& self.spec_elements() == domain_elements_of(self.spec_size())
    }

    /// Relies on `ark_poly::Radix2EvaluationDomain::new`: over the BLS12-381
    /// scalar field a domain exists exactly when the next power of two of the
    /// requested size is at most 2^32, the two-adicity of the field; its size
    /// is that power of two, and the domain and its enumerated elements are
    /// functions of that resulting size alone (every field is derived from
    /// the root of unity of that order) — the well-formedness pins carry
    /// this. The elements are distinct powers of a generator of the domain's
    /// order, so no element repeats.
    #[verifier::external_body]
    pub fn new(n: usize) -> (r: Option<Domain>)
        ensures
            r.is_some() <==> n <= 0x1_0000_0000,
            match r {
                Some(d) => {
                    &&& d.wf()
                    &&& d.spec_size() == pow2_ceil(n as nat)
                    &&& d.spec_handle() == domain_handle_of(d.spec_size())
                    &&& d.spec_elements() == domain_elements_of(d.spec_size())
                    &&& forall|j1: int, j2: int|
                        0 <= j1 < j2 < d.spec_size() ==> d.spec_elements()[j1]
                            != d.spec_elements()[j2]
                },
                None => true,
            },
    {
        let dom = <ark_poly::Radix2EvaluationDomain<ark_bls12_381::Fr> as
            ark_poly::EvaluationDomain<ark_bls12_381::Fr>>::new(n)?;
        let size = ark_poly::EvaluationDomain::size(&dom);
        let elements: Vec<Scalar> =
            ark_poly::EvaluationDomain::elements(&dom).map(Scalar).collect();
        Some(Domain { handle: DomainHandle(dom), size, elements })
    }

    pub fn size(&self) -> (r: usize)
        ensures
            r == self.spec_size(),
    {
        self.size
    }

    pub fn element(&self, i: usize) -> (r: Scalar)
        requires
            self.wf(),
            i < self.spec_size(),
        ensures
            r == self.spec_elements()[i as int],
    {
        self.elements[i]
    }

    /// Relies on the radix-2 FFT of ark_poly over the scalar field: it
    /// evaluates the polynomial with the given coefficients at every domain
    /// element, one output per element, a function of the domain and the
    /// coefficients alone.
    #[verifier::external_body]
    pub(crate) fn fft_fr(&self, v: &[Scalar]) -> (r: Vec<Scalar>)
        requires
            v@.len() <= self.spec_size(),
        ensures
            r@.len() == self.spec_size(),
            r@ == fft_fr_of(self.spec_handle(), v@),
    {
        let inner: Vec<ark_bls12_381::Fr> = v.iter().map(|x| x.0).collect();
        let out = ark_poly::EvaluationDomain::fft(&self.handle.0, &inner);
        out.into_iter().map(Scalar).collect()
    }

    /// Relies on the radix-2 inverse FFT of ark_poly over the scalar field:
    /// it interpolates the coefficients of the polynomial with the given
    /// evaluations, one output per domain element, a function of the domain
    /// and the evaluations alone.
    #[verifier::external_body]
    pub(crate) fn ifft_fr(&self, v: &[Scalar]) -> (r: Vec<Scalar>)
        requires
            v@.len() <= self.spec_size(),
        ensures
            r@.len() == self.spec_size(),
            r@ == ifft_fr_of(self.spec_handle(), v@),
    {
        let inner: Vec<ark_bls12_381::Fr> = v.iter().map(|x| x.0).collect();
        let out = ark_poly::EvaluationDomain::ifft(&self.handle.0, &inner);
        out.into_iter().map(Scalar).collect()
    }

    /// Relies on the radix-2 FFT of ark_poly applied to G1 points (an FFT in
    /// the exponent), one output per domain element, a function of the
    /// domain and the points alone.
    #[verifier::external_body]
    pub(crate) fn fft_g1(&self, v: &[G1Elem]) -> (r: Vec<G1Elem>)
        requires
            v@.len() <= self.spec_size(),
        ensures
            r@.len() == self.spec_size(),
            r@ == fft_g1_of(self.spec_handle(), v@),
    {
        let inner: Vec<ark_bls12_381::G1Projective> = v.iter().map(|x| x.0).collect();
        let out = ark_poly::EvaluationDomain::fft(&self.handle.0, &inner);
        out.into_iter().map(G1Elem).collect()
    }

    /// Relies on the radix-2 inverse FFT of ark_poly applied to G1 points,
    /// one output per domain element, a function of the domain and the
    /// points alone.
    #[verifier::external_body]
    pub(crate) fn ifft_g1(&self, v: &[G1Elem]) -> (r: Vec<G1Elem>)
        requires
            v@.len() <= self.spec_size(),
        ensures
            r@.len() == self.spec_size(),
            r@ == ifft_g1_of(self.spec_handle(), v@),
    {
        let inner: Vec<ark_bls12_381::G1Projective> = v.iter().map(|x| x.0).collect();
        let out = ark_poly::EvaluationDomain::ifft(&self.handle.0, &inner);
        out.into_iter().map(G1Elem).collect()
    }

    /// Relies on `evaluate_all_lagrange_coefficients` of ark_poly: the value
    /// of every Lagrange basis polynomial of the domain at the given point,
    /// one output per domain element, a function of the domain and the
    /// point alone.
    #[verifier::external_body]
    pub(crate) fn lagrange_coeffs_at(&self, tau: &Scalar) -> (r: Vec<Scalar>)
        ensures
            r@.len() == self.spec_size(),
            r@ == lagrange_coeffs_of(self.spec_handle(), *tau),
    {
        let out = ark_poly::EvaluationDomain::evaluate_all_lagrange_coefficients(
            &self.handle.0,
            tau.0,
        );
        out.into_iter().map(Scalar).collect()
    }

}

} // verus!
