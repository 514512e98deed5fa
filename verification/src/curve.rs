//! Trusted bindings to the arkworks implementation of BLS12-381.
//!
//! Field and curve elements are held in small opaque structs; everything
//! marked `#[verifier::external_body]` is a thin wrapper around one arkworks
//! call whose contract states only what the arkworks sources show. Each
//! deterministic operation's result carries an uninterpreted name
//! (`..._of`), so that contracts elsewhere can pin every computed value to
//! a function of its inputs even though curve arithmetic itself stays
//! opaque to the verifier.

use vstd::prelude::*;

verus! {

/// A BLS12-381 scalar field element, opaque to the verifier.
#[verifier::external_body]
pub struct Scalar(pub(crate) ark_bls12_381::Fr);

impl Clone for Scalar {
    /// A copy of an opaque scalar is the same scalar.
    #[verifier::external_body]
    fn clone(&self) -> (r: Self)
        ensures
            r == *self,
    {
        Scalar(self.0)
    }
}

impl Copy for Scalar {}

/// A point of the group G1 in affine form, opaque to the verifier.
#[verifier::external_body]
pub struct G1Point(pub(crate) ark_bls12_381::G1Affine);

impl Clone for G1Point {
    /// A copy of an opaque curve value is the same value.
    #[verifier::external_body]
    fn clone(&self) -> (r: Self)
        ensures
            r == *self,
    {
        G1Point(self.0)
    }
}

impl Copy for G1Point {}

/// A point of the group G1 in projective form, opaque to the verifier.
#[verifier::external_body]
pub struct G1Elem(pub(crate) ark_bls12_381::G1Projective);

impl Clone for G1Elem {
    /// A copy of an opaque curve value is the same value.
    #[verifier::external_body]
    fn clone(&self) -> (r: Self)
        ensures
            r == *self,
    {
        G1Elem(self.0)
    }
}

impl Copy for G1Elem {}

/// A point of the group G2 in affine form, opaque to the verifier.
#[verifier::external_body]
pub struct G2Point(pub(crate) ark_bls12_381::G2Affine);

impl Clone for G2Point {
    /// A copy of an opaque curve value is the same value.
    #[verifier::external_body]
    fn clone(&self) -> (r: Self)
        ensures
            r == *self,
    {
        G2Point(self.0)
    }
}

impl Copy for G2Point {}

/// A point of the group G2 in projective form, opaque to the verifier.
#[verifier::external_body]
pub struct G2Elem(pub(crate) ark_bls12_381::G2Projective);

impl Clone for G2Elem {
    /// A copy of an opaque curve value is the same value.
    #[verifier::external_body]
    fn clone(&self) -> (r: Self)
        ensures
            r == *self,
    {
        G2Elem(self.0)
    }
}

impl Copy for G2Elem {}

/// An element of the pairing target group, opaque to the verifier.
#[verifier::external_body]
pub struct GtElem(pub(crate) ark_ec::pairing::PairingOutput<ark_bls12_381::Bls12_381>);

impl Clone for GtElem {
    /// A copy of an opaque curve value is the same value.
    #[verifier::external_body]
    fn clone(&self) -> (r: Self)
        ensures
            r == *self,
    {
        GtElem(self.0)
    }
}

impl Copy for GtElem {}

/// The digest that SHA-256 assigns to a byte string.
pub uninterp spec fn sha256_of(data: Seq<u8>) -> Seq<u8>;

/// The scalar that `Fr::from` assigns to a small natural number.
pub uninterp spec fn fr_of_nat(n: nat) -> Scalar;

/// What `Fr::from_random_bytes` returns on a byte string.
pub uninterp spec fn fr_parse_of(data: Seq<u8>) -> Option<Scalar>;

/// The sum that field addition assigns to two scalars.
pub uninterp spec fn fr_add_of(a: Scalar, b: Scalar) -> Scalar;

/// The difference that field subtraction assigns to two scalars.
pub uninterp spec fn fr_sub_of(a: Scalar, b: Scalar) -> Scalar;

/// The product that field multiplication assigns to two scalars.
pub uninterp spec fn fr_mul_of(a: Scalar, b: Scalar) -> Scalar;

/// The negation that the field assigns to a scalar.
pub uninterp spec fn fr_neg_of(a: Scalar) -> Scalar;

/// The quotient that field division assigns to two scalars (the divisor
/// being nonzero).
pub uninterp spec fn fr_div_of(a: Scalar, b: Scalar) -> Scalar;

/// The inverse that the field assigns to a nonzero scalar.
pub uninterp spec fn fr_inv_of(a: Scalar) -> Scalar;

/// What batch inversion leaves at one position: zero entries stay, others
/// are inverted.
pub open spec fn fr_guarded_inv(a: Scalar) -> Scalar {
    if a == fr_of_nat(0) {
        a
    } else {
        fr_inv_of(a)
    }
}

/// The canonical 32-byte encoding of a scalar.
pub uninterp spec fn fr_ser_of(x: Scalar) -> Seq<u8>;

/// The affine form of a projective G1 point.
pub uninterp spec fn g1_to_affine_of(a: G1Elem) -> G1Point;

/// The projective form of an affine G1 point.
pub uninterp spec fn g1_to_group_of(a: G1Point) -> G1Elem;

/// The sum that group addition in G1 assigns to two points.
pub uninterp spec fn g1_add_of(a: G1Elem, b: G1Elem) -> G1Elem;

/// The difference that group subtraction in G1 assigns to two points.
pub uninterp spec fn g1_sub_of(a: G1Elem, b: G1Elem) -> G1Elem;

/// The negation that G1 assigns to a point.
pub uninterp spec fn g1_neg_of(a: G1Elem) -> G1Elem;

/// The scalar multiple of a projective G1 point.
pub uninterp spec fn g1_mul_of(a: G1Elem, s: Scalar) -> G1Elem;

/// The scalar multiple of an affine G1 point.
pub uninterp spec fn g1_mul_affine_of(a: G1Point, s: Scalar) -> G1Elem;

/// The multi-scalar multiplication in G1 of aligned bases and scalars.
pub uninterp spec fn g1_msm_of(bases: Seq<G1Point>, scalars: Seq<Scalar>) -> G1Elem;

/// The canonical uncompressed 96-byte encoding of an affine G1 point.
pub uninterp spec fn g1_ser_uncomp_of(a: G1Point) -> Seq<u8>;

/// The canonical compressed 48-byte encoding of an affine G1 point.
pub uninterp spec fn g1_ser_comp_of(a: G1Point) -> Seq<u8>;

/// What compressed G1 deserialization returns on a byte string.
pub uninterp spec fn g1_deser_comp_of(data: Seq<u8>) -> Option<G1Point>;

/// The affine form of a projective G2 point.
pub uninterp spec fn g2_to_affine_of(a: G2Elem) -> G2Point;

/// The projective form of an affine G2 point.
pub uninterp spec fn g2_to_group_of(a: G2Point) -> G2Elem;

/// The difference that group subtraction in G2 assigns to two points.
pub uninterp spec fn g2_sub_of(a: G2Elem, b: G2Elem) -> G2Elem;

/// The scalar multiple of a projective G2 point.
pub uninterp spec fn g2_mul_of(a: G2Elem, s: Scalar) -> G2Elem;

/// The scalar multiple of an affine G2 point.
pub uninterp spec fn g2_mul_affine_of(a: G2Point, s: Scalar) -> G2Elem;

/// The multi-scalar multiplication in G2 of aligned bases and scalars.
pub uninterp spec fn g2_msm_of(bases: Seq<G2Point>, scalars: Seq<Scalar>) -> G2Elem;

/// The canonical compressed 96-byte encoding of an affine G2 point.
pub uninterp spec fn g2_ser_comp_of(a: G2Point) -> Seq<u8>;

/// What compressed G2 deserialization returns on a byte string.
pub uninterp spec fn g2_deser_comp_of(data: Seq<u8>) -> Option<G2Point>;

/// The pairing of a G1 and a G2 point.
pub uninterp spec fn pairing_of(a: G1Elem, b: G2Elem) -> GtElem;

/// The product of the pairings of aligned G1 and G2 points.
pub uninterp spec fn multi_pairing_of(gs: Seq<G1Elem>, hs: Seq<G2Elem>) -> GtElem;

/// Whether a target-group element is the group identity.
pub uninterp spec fn gt_is_zero_of(a: GtElem) -> bool;

/// What hashing to G1 returns for a domain tag and a message.
pub uninterp spec fn hash_to_g1_of(dst: Seq<u8>, msg: Seq<u8>) -> Option<G1Point>;

/// Relies on sha2::Sha256: the digest is 32 bytes and depends on the input
/// bytes alone.
#[verifier::external_body]
pub(crate) fn sha256(data: &Vec<u8>) -> (r: Vec<u8>)
    ensures
        r@ == sha256_of(data@),
        r@.len() == 32,
{
    let digest = <sha2::Sha256 as sha2::Digest>::digest(data.as_slice());
    digest.to_vec()
}

/// Relies on `From<u64>` for the BLS12-381 scalar field: `n` maps to the
/// field element `n mod r`; the modulus exceeds 2^64, so only 0 maps to the
/// zero element.
#[verifier::external_body]
pub(crate) fn fr_from_u64(n: u64) -> (r: Scalar)
    ensures
        r == fr_of_nat(n as nat),
        n != 0 ==> r != fr_of_nat(0),
{
    Scalar(ark_bls12_381::Fr::from(n))
}

/// Relies on `Field::from_random_bytes` for the BLS12-381 scalar field: the
/// bytes are read as a little-endian integer, of which at most the low 255
/// bits are kept; the result is `Some` exactly when that integer is below
/// the modulus. Hence an input of at most 4 bytes always parses, to the
/// field element of its little-endian integer value — the same element that
/// `Fr::from` assigns to that value.
#[verifier::external_body]
pub(crate) fn fr_parse(data: &[u8]) -> (r: Option<Scalar>)
    requires
        data@.len() <= 32,
    ensures
        r == fr_parse_of(data@),
        data@.len() <= 4 ==> r == Some(fr_of_nat(crate::encoding::le_val(data@))),
{
    <ark_bls12_381::Fr as ark_ff::Field>::from_random_bytes(data).map(Scalar)
}

/// Relies on `PartialEq` for the BLS12-381 scalar field: it compares the
/// canonical internal representations, which agree exactly on equal field
/// elements.
#[verifier::external_body]
pub fn fr_eq(a: &Scalar, b: &Scalar) -> (r: bool)
    ensures
        r == (a == b),
{
    a.0 == b.0
}

/// Relies on field addition in arkworks: a total, deterministic function of
/// the operands.
#[verifier::external_body]
pub(crate) fn fr_add(a: &Scalar, b: &Scalar) -> (r: Scalar)
    ensures
        r == fr_add_of(*a, *b),
{
    Scalar(a.0 + b.0)
}

/// Relies on field subtraction in arkworks.
#[verifier::external_body]
pub(crate) fn fr_sub(a: &Scalar, b: &Scalar) -> (r: Scalar)
    ensures
        r == fr_sub_of(*a, *b),
{
    Scalar(a.0 - b.0)
}

/// Relies on field multiplication in arkworks.
#[verifier::external_body]
pub(crate) fn fr_mul(a: &Scalar, b: &Scalar) -> (r: Scalar)
    ensures
        r == fr_mul_of(*a, *b),
{
    Scalar(a.0 * b.0)
}

/// Relies on field negation in arkworks.
#[verifier::external_body]
pub(crate) fn fr_neg(a: &Scalar) -> (r: Scalar)
    ensures
        r == fr_neg_of(*a),
{
    Scalar(-a.0)
}

/// Relies on field division in arkworks, which panics exactly on a zero
/// divisor; the precondition rules that out.
#[verifier::external_body]
pub(crate) fn fr_div(a: &Scalar, b: &Scalar) -> (r: Scalar)
    requires
        b != fr_of_nat(0),
    ensures
        r == fr_div_of(*a, *b),
{
    Scalar(a.0 / b.0)
}

/// Relies on `ark_ff::batch_inversion`: it inverts every non-zero entry in
/// place, leaves zero entries unchanged, and keeps the length.
#[verifier::external_body]
pub(crate) fn fr_batch_inversion(v: &mut Vec<Scalar>)
    ensures
        final(v)@.len() == old(v)@.len(),
        forall|j: int|
            0 <= j < old(v)@.len() ==> final(v)@[j] == (if old(v)@[j] == fr_of_nat(0) {
                old(v)@[j]
            } else {
                fr_inv_of(old(v)@[j])
            }),
{
    let mut inner: Vec<ark_bls12_381::Fr> = v.iter().map(|x| x.0).collect();
    ark_ff::batch_inversion(&mut inner);
    *v = inner.into_iter().map(Scalar).collect();
}

/// Relies on `UniformRand` with the thread-local CSPRNG of the rand crate:
/// a fresh random scalar; nothing is promised of its value.
#[verifier::external_body]
pub fn fr_rand() -> (r: Scalar) {
    Scalar(<ark_bls12_381::Fr as ark_std::UniformRand>::rand(&mut rand::thread_rng()))
}

/// Relies on `CanonicalSerialize` for the scalar field: the canonical
/// little-endian encoding, 32 bytes, a function of the value alone.
#[verifier::external_body]
pub fn fr_ser(x: &Scalar) -> (r: Vec<u8>)
    ensures
        r@ == fr_ser_of(*x),
        r@.len() == 32,
{
    let mut out = Vec::new();
    ark_serialize::CanonicalSerialize::serialize_uncompressed(&x.0, &mut out).unwrap();
    out
}

/// Relies on `CanonicalDeserialize` for the scalar field: `Some` exactly on
/// the canonical 32-byte encodings.
#[verifier::external_body]
pub fn fr_deser(data: &[u8]) -> (r: Option<Scalar>) {
    <ark_bls12_381::Fr as ark_serialize::CanonicalDeserialize>::deserialize_uncompressed(data)
        .ok()
        .map(Scalar)
}

/// Relies on `rand::Rng::gen_range` with the thread-local CSPRNG: a uniform
/// value below `k`; `gen_range` panics on an empty range, which the
/// precondition rules out.
#[verifier::external_body]
pub(crate) fn u32_below(k: u32) -> (r: u32)
    requires
        1 <= k,
    ensures
        r < k,
{
    rand::Rng::gen_range(&mut rand::thread_rng(), 0..k)
}

/// Relies on `rand::Rng::fill` with the thread-local CSPRNG: 32 fresh random
/// bytes; nothing is promised of their values.
#[verifier::external_body]
pub(crate) fn random_seed32() -> (r: [u8; 32]) {
    let mut out = [0u8; 32];
    rand::Rng::fill(&mut rand::thread_rng(), &mut out);
    out
}

/// Relies on `UniformRand` for G1 with the thread-local CSPRNG.
#[verifier::external_body]
pub fn g1_rand() -> (r: G1Elem) {
    G1Elem(<ark_bls12_381::G1Projective as ark_std::UniformRand>::rand(&mut rand::thread_rng()))
}

/// Relies on `Zero::is_zero` for G1: whether the point is the identity.
#[verifier::external_body]
pub(crate) fn g1_is_zero(a: &G1Elem) -> (r: bool) {
    <ark_bls12_381::G1Projective as ark_std::Zero>::is_zero(&a.0)
}

/// Relies on `CurveGroup::into_affine` for G1: the unique affine form.
#[verifier::external_body]
pub fn g1_to_affine(a: &G1Elem) -> (r: G1Point)
    ensures
        r == g1_to_affine_of(*a),
{
    G1Point(ark_ec::CurveGroup::into_affine(a.0))
}

/// Relies on `AffineRepr::into_group` for G1.
#[verifier::external_body]
pub fn g1_to_group(a: &G1Point) -> (r: G1Elem)
    ensures
        r == g1_to_group_of(*a),
{
    G1Elem(ark_ec::AffineRepr::into_group(a.0))
}

/// Relies on group addition in G1.
#[verifier::external_body]
pub(crate) fn g1_add(a: &G1Elem, b: &G1Elem) -> (r: G1Elem)
    ensures
        r == g1_add_of(*a, *b),
{
    G1Elem(a.0 + b.0)
}

/// Relies on group subtraction in G1.
#[verifier::external_body]
pub(crate) fn g1_sub(a: &G1Elem, b: &G1Elem) -> (r: G1Elem)
    ensures
        r == g1_sub_of(*a, *b),
{
    G1Elem(a.0 - b.0)
}

/// Relies on group negation in G1.
#[verifier::external_body]
pub(crate) fn g1_neg(a: &G1Elem) -> (r: G1Elem)
    ensures
        r == g1_neg_of(*a),
{
    G1Elem(-a.0)
}

/// Relies on scalar multiplication in G1.
#[verifier::external_body]
pub(crate) fn g1_mul(a: &G1Elem, s: &Scalar) -> (r: G1Elem)
    ensures
        r == g1_mul_of(*a, *s),
{
    G1Elem(a.0 * s.0)
}

/// Relies on scalar multiplication of an affine G1 point.
#[verifier::external_body]
pub(crate) fn g1_mul_affine(a: &G1Point, s: &Scalar) -> (r: G1Elem)
    ensures
        r == g1_mul_affine_of(*a, *s),
{
    G1Elem(std::ops::Mul::mul(a.0, s.0))
}

/// Relies on `VariableBaseMSM::msm` for G1: the multi-scalar multiplication,
/// a function of the aligned bases and scalars; the internal length check
/// cannot fail under the precondition.
#[verifier::external_body]
pub(crate) fn g1_msm(bases: &[G1Point], scalars: &[Scalar]) -> (r: G1Elem)
    requires
        bases@.len() == scalars@.len(),
    ensures
        r == g1_msm_of(bases@, scalars@),
{
    let bs: Vec<ark_bls12_381::G1Affine> = bases.iter().map(|p| p.0).collect();
    let ss: Vec<ark_bls12_381::Fr> = scalars.iter().map(|s| s.0).collect();
    G1Elem(<ark_bls12_381::G1Projective as ark_ec::VariableBaseMSM>::msm(&bs, &ss).unwrap())
}

/// Relies on `CurveGroup::normalize_batch` for G1: the same affine form as
/// converting each point alone, one output per input, in order.
#[verifier::external_body]
pub(crate) fn g1_batch_to_affine(v: &Vec<G1Elem>) -> (r: Vec<G1Point>)
    ensures
        r@.len() == v@.len(),
        forall|j: int| 0 <= j < v@.len() ==> r@[j] == g1_to_affine_of(v@[j]),
{
    let inner: Vec<ark_bls12_381::G1Projective> = v.iter().map(|p| p.0).collect();
    let affs = <ark_bls12_381::G1Projective as ark_ec::CurveGroup>::normalize_batch(&inner);
    affs.into_iter().map(G1Point).collect()
}

/// Relies on `CanonicalSerialize` for affine G1 points: the uncompressed
/// canonical encoding, 96 bytes, a function of the point alone.
#[verifier::external_body]
pub(crate) fn g1_ser_uncomp(a: &G1Point) -> (r: Vec<u8>)
    ensures
        r@ == g1_ser_uncomp_of(*a),
        r@.len() == 96,
{
    let mut out = Vec::new();
    ark_serialize::CanonicalSerialize::serialize_uncompressed(&a.0, &mut out).unwrap();
    out
}

/// Relies on `CanonicalSerialize` for affine G1 points: the compressed
/// canonical encoding, 48 bytes; deserializing it yields the point back.
#[verifier::external_body]
pub fn g1_ser_comp(a: &G1Point) -> (r: Vec<u8>)
    ensures
        r@ == g1_ser_comp_of(*a),
        r@.len() == 48,
        g1_deser_comp_of(r@) == Some(*a),
{
    let mut out = Vec::new();
    ark_serialize::CanonicalSerialize::serialize_compressed(&a.0, &mut out).unwrap();
    out
}

/// Relies on `CanonicalDeserialize` for affine G1 points: a function of the
/// bytes. Nothing more is claimed: the arkworks decoder accepts some
/// non-canonical encodings (an infinity flag with stray bits), so callers
/// that need canonical input re-encode the point and compare.
#[verifier::external_body]
pub fn g1_deser_comp(data: &[u8]) -> (r: Option<G1Point>)
    ensures
        r == g1_deser_comp_of(data@),
{
    <ark_bls12_381::G1Affine as ark_serialize::CanonicalDeserialize>::deserialize_compressed(data)
        .ok()
        .map(G1Point)
}

/// Relies on `PartialEq` for affine G1 points: it compares the canonical
/// affine coordinates, which agree exactly on equal points.
#[verifier::external_body]
pub fn g1_eq(a: &G1Point, b: &G1Point) -> (r: bool)
    ensures
        r == (a == b),
{
    a.0 == b.0
}

/// Relies on `UniformRand` for G2 with the thread-local CSPRNG.
#[verifier::external_body]
pub(crate) fn g2_rand() -> (r: G2Elem) {
    G2Elem(<ark_bls12_381::G2Projective as ark_std::UniformRand>::rand(&mut rand::thread_rng()))
}

/// Relies on `Zero::is_zero` for G2: whether the point is the identity.
#[verifier::external_body]
pub(crate) fn g2_is_zero(a: &G2Elem) -> (r: bool) {
    <ark_bls12_381::G2Projective as ark_std::Zero>::is_zero(&a.0)
}

/// Relies on `CurveGroup::into_affine` for G2: the unique affine form.
#[verifier::external_body]
pub(crate) fn g2_to_affine(a: &G2Elem) -> (r: G2Point)
    ensures
        r == g2_to_affine_of(*a),
{
    G2Point(ark_ec::CurveGroup::into_affine(a.0))
}

/// Relies on `AffineRepr::into_group` for G2.
#[verifier::external_body]
pub fn g2_to_group(a: &G2Point) -> (r: G2Elem)
    ensures
        r == g2_to_group_of(*a),
{
    G2Elem(ark_ec::AffineRepr::into_group(a.0))
}

/// Relies on group subtraction in G2.
#[verifier::external_body]
pub(crate) fn g2_sub(a: &G2Elem, b: &G2Elem) -> (r: G2Elem)
    ensures
        r == g2_sub_of(*a, *b),
{
    G2Elem(a.0 - b.0)
}

/// Relies on scalar multiplication in G2.
#[verifier::external_body]
pub(crate) fn g2_mul(a: &G2Elem, s: &Scalar) -> (r: G2Elem)
    ensures
        r == g2_mul_of(*a, *s),
{
    G2Elem(a.0 * s.0)
}

/// Relies on scalar multiplication of an affine G2 point.
#[verifier::external_body]
pub(crate) fn g2_mul_affine(a: &G2Point, s: &Scalar) -> (r: G2Elem)
    ensures
        r == g2_mul_affine_of(*a, *s),
{
    G2Elem(std::ops::Mul::mul(a.0, s.0))
}

/// Relies on `VariableBaseMSM::msm` for G2; as for G1, the precondition
/// makes the internal length check succeed.
#[verifier::external_body]
pub(crate) fn g2_msm(bases: &[G2Point], scalars: &[Scalar]) -> (r: G2Elem)
    requires
        bases@.len() == scalars@.len(),
    ensures
        r == g2_msm_of(bases@, scalars@),
{
    let bs: Vec<ark_bls12_381::G2Affine> = bases.iter().map(|p| p.0).collect();
    let ss: Vec<ark_bls12_381::Fr> = scalars.iter().map(|s| s.0).collect();
    G2Elem(<ark_bls12_381::G2Projective as ark_ec::VariableBaseMSM>::msm(&bs, &ss).unwrap())
}

/// Relies on `CanonicalSerialize` for affine G2 points: the compressed
/// canonical encoding, 96 bytes; deserializing it yields the point back.
#[verifier::external_body]
pub(crate) fn g2_ser_comp(a: &G2Point) -> (r: Vec<u8>)
    ensures
        r@ == g2_ser_comp_of(*a),
        r@.len() == 96,
        g2_deser_comp_of(r@) == Some(*a),
{
    let mut out = Vec::new();
    ark_serialize::CanonicalSerialize::serialize_compressed(&a.0, &mut out).unwrap();
    out
}

/// Relies on `CanonicalDeserialize` for affine G2 points: a function of the
/// bytes. As for G1, the decoder accepts some non-canonical infinity
/// encodings, so nothing is claimed of re-encoding a decoded point.
#[verifier::external_body]
pub(crate) fn g2_deser_comp(data: &[u8]) -> (r: Option<G2Point>)
    ensures
        r == g2_deser_comp_of(data@),
{
    <ark_bls12_381::G2Affine as ark_serialize::CanonicalDeserialize>::deserialize_compressed(data)
        .ok()
        .map(G2Point)
}

/// Relies on `PartialEq` for affine G2 points: it compares the canonical
/// affine coordinates, which agree exactly on equal points.
#[verifier::external_body]
pub(crate) fn g2_eq(a: &G2Point, b: &G2Point) -> (r: bool)
    ensures
        r == (a == b),
{
    a.0 == b.0
}

/// Relies on `Pairing::pairing` for BLS12-381: a function of the two points.
#[verifier::external_body]
pub(crate) fn pairing(a: &G1Elem, b: &G2Elem) -> (r: GtElem)
    ensures
        r == pairing_of(*a, *b),
{
    GtElem(ark_ec::pairing::Pairing::pairing(a.0, b.0))
}

/// Relies on `Pairing::multi_pairing` for BLS12-381: the product of the
/// pairings of corresponding points; the precondition keeps the two inputs
/// aligned.
#[verifier::external_body]
pub(crate) fn multi_pairing(gs: &Vec<G1Elem>, hs: &Vec<G2Elem>) -> (r: GtElem)
    requires
        gs@.len() == hs@.len(),
    ensures
        r == multi_pairing_of(gs@, hs@),
{
    let a: Vec<ark_bls12_381::G1Projective> = gs.iter().map(|p| p.0).collect();
    let b: Vec<ark_bls12_381::G2Projective> = hs.iter().map(|p| p.0).collect();
    GtElem(<ark_bls12_381::Bls12_381 as ark_ec::pairing::Pairing>::multi_pairing(a, b))
}

/// Relies on `PartialEq` for the pairing target group: it compares the
/// unique internal representations of target-group elements.
#[verifier::external_body]
pub(crate) fn gt_eq(a: &GtElem, b: &GtElem) -> (r: bool)
    ensures
        r == (a == b),
{
    a.0 == b.0
}

/// Relies on `Zero::is_zero` for the pairing target group: whether the
/// element is the group identity, a function of the element.
#[verifier::external_body]
pub(crate) fn gt_is_zero(a: &GtElem) -> (r: bool)
    ensures
        r == gt_is_zero_of(*a),
{
    <ark_ec::pairing::PairingOutput<ark_bls12_381::Bls12_381> as ark_std::Zero>::is_zero(&a.0)
}

/// Relies on the arkworks hash-to-curve machinery for G1 of BLS12-381
/// (`MapToCurveBasedHasher` with SHA-256): a curve point depending on the
/// domain-separation tag and message alone; `None` if the hasher reports an
/// error.
#[verifier::external_body]
pub(crate) fn hash_to_g1(dst: &[u8], msg: &[u8]) -> (r: Option<G1Point>)
    ensures
        r == hash_to_g1_of(dst@, msg@),
{
    match <ark_ec::hashing::map_to_curve_hasher::MapToCurveBasedHasher<
        ark_bls12_381::G1Projective,
        ark_ff::field_hashers::DefaultFieldHasher<sha2::Sha256, 128>,
        ark_ec::hashing::curve_maps::wb::WBMap<ark_bls12_381::g1::Config>,
    > as ark_ec::hashing::HashToCurve<ark_bls12_381::G1Projective>>::new(dst) {
        Ok(h) => ark_ec::hashing::HashToCurve::hash(&h, msg).ok().map(G1Point),
        Err(_) => None,
    }
}

} // verus!
