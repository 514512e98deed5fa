//! Types of the simulation-extractable KZG vector commitment.

use vstd::prelude::*;

verus! {

use crate::curve::fr_eq;
use crate::curve::g1_deser_comp_of;
use crate::curve::g2_deser_comp_of;
use crate::curve::g1_ser_comp_of;
use crate::curve::g2_ser_comp_of;
use crate::curve::g1_deser_comp;
use crate::curve::g1_eq;
use crate::curve::g1_ser_comp;
use crate::curve::g2_deser_comp;
use crate::curve::g2_eq;
use crate::curve::g2_ser_comp;
use crate::curve::G1Elem;
use crate::curve::G1Point;
use crate::curve::G2Point;
use crate::curve::Scalar;
use crate::domain::is_pow2;
use crate::domain::lemma_pow2_ceil_of_pow2;
use crate::domain::pow2_ceil;
use crate::domain::Domain;
use crate::encoding::lemma_u64_le_bytes_injective;
use crate::encoding::bytes_eq;
use crate::encoding::push_all;
use crate::encoding::u64_le_bytes;
use crate::encoding::u64_to_le;
use vstd::slice::slice_subrange;

/// The public commitment key.
///
/// It fixes a message length `ell`, an evaluation domain of power-of-two
/// size `n >= ell + 2`, the powers of the secret exponent in the exponent of
/// two independent G1 generators (`u` and `hat_u`), the Lagrange-basis
/// versions of both (`lagranges`, message half first), the G2 data needed by
/// verification (`g2`, `r`, and per-position denominators `d`), and the
/// precomputed tables `y` and `hat_y` for the amortized all-openings
/// computation.
pub struct CommitmentKey {
    /// Length `ell` of the vectors that can be committed to.
    pub message_length: usize,
    /// The evaluation domain; its size is called `n` below.
    pub domain: Domain,
    /// `u[i]` is `g1 * alpha^i`, `n` entries.
    pub u: Vec<G1Point>,
    /// `hat_u[i]` is `h * alpha^i` for the hiding generator `h`, `n` entries.
    pub hat_u: Vec<G1Point>,
    /// `lagranges[i]` is `g1 * L_i(alpha)` for `i < n`, and `h * L_{i-n}(alpha)`
    /// for `n <= i < 2n`.
    pub lagranges: Vec<G1Point>,
    /// A generator of G2.
    pub g2: G2Point,
    /// `g2 * alpha`.
    pub r: G2Point,
    /// `d[i]` is `g2 * (alpha - z_i)` for the `i`-th domain element `z_i`,
    /// `ell` entries.
    pub d: Vec<G2Point>,
    /// The FFT of the reversed `u`, used by the all-openings computation;
    /// `2n` entries.
    pub y: Vec<G1Point>,
    /// The FFT of the reversed `hat_u`; `2n` entries.
    pub hat_y: Vec<G1Point>,
}

impl CommitmentKey {
    /// Well-formedness: the domain is sound, leaves room for the message plus
    /// a masking slot and the hash check position, and every table has the
    /// length that the scheme prescribes.
    pub open spec fn wf(&self) -> bool {
        &&& self.domain.wf()
        &&& 1 <= self.message_length
        &&& self.message_length + 2 <= self.domain.spec_size()
        &&& 2 * self.domain.spec_size() <= 0x8000_0000
        &&& self.u@.len() == self.domain.spec_size()
        &&& self.hat_u@.len() == self.domain.spec_size()
        &&& self.lagranges@.len() == 2 * self.domain.spec_size()
        &&& self.d@.len() == self.message_length
        &&& self.y@.len() == 2 * self.domain.spec_size()
        &&& self.hat_y@.len() == 2 * self.domain.spec_size()
    }
}

/// An opening of a commitment at one position: the evaluation of the masking
/// polynomial there, and the commitment to the witness polynomial.
pub struct Opening {
    /// Evaluation of the masking polynomial at the opened point.
    pub hat_y: Scalar,
    /// Commitment to the witness polynomial.
    pub v: G1Point,
}

impl Clone for Opening {
    fn clone(&self) -> (r: Self)
        ensures
            r == *self,
    {
        Opening { hat_y: self.hat_y, v: self.v }
    }
}

impl Copy for Opening {}

/// A commitment: the KZG commitment itself together with a self-opening at
/// the hash-derived challenge point, which gives simulation extractability.
pub struct Commitment {
    /// The plain KZG commitment `g1 * f(alpha) + h * r(alpha)`.
    pub com_kzg: G1Point,
    /// The value of the committed polynomial at the challenge point `z0`.
    pub y0: Scalar,
    /// The opening proof for `y0` at `z0`.
    pub tau0: Opening,
}

impl Clone for Commitment {
    fn clone(&self) -> (r: Self)
        ensures
            r == *self,
    {
        Commitment { com_kzg: self.com_kzg, y0: self.y0, tau0: self.tau0 }
    }
}

impl Copy for Commitment {}

/// The committer's secret state: the committed polynomial and the masking
/// polynomial in evaluation form, and optionally the precomputed openings.
pub struct State {
    /// The first `n` entries are the evaluations of the committed polynomial
    /// (the message in the first `ell` slots, secret random padding after);
    /// the last `n` entries are the evaluations of the masking polynomial.
    pub evals: Vec<Scalar>,
    /// Openings for every position, filled by the amortized all-openings
    /// precomputation; `None` until then.
    pub precomputed_v: Option<Vec<G1Elem>>,
}

impl State {
    /// Well-formedness relative to a commitment key: the evaluation vector
    /// covers both halves, and precomputed openings, if present, cover every
    /// position.
    pub open spec fn wf(&self, ck: &CommitmentKey) -> bool {
        &&& self.evals@.len() == 2 * ck.domain.spec_size()
        &&& match self.precomputed_v {
            Some(vs) => vs@.len() == ck.message_length,
            None => true,
        }
    }
}

/// Whether two openings hold the same field element and the same point.
pub fn opening_eq(a: &Opening, b: &Opening) -> (r: bool)
    ensures
        r == (a.hat_y == b.hat_y && a.v == b.v),
{
    fr_eq(&a.hat_y, &b.hat_y) && g1_eq(&a.v, &b.v)
}

/// Whether two commitments agree on every component.
pub fn commitment_eq(a: &Commitment, b: &Commitment) -> (r: bool)
    ensures
        r == (a.com_kzg == b.com_kzg && a.y0 == b.y0 && a.tau0.hat_y == b.tau0.hat_y
            && a.tau0.v == b.tau0.v),
{
    g1_eq(&a.com_kzg, &b.com_kzg) && fr_eq(&a.y0, &b.y0) && fr_eq(&a.tau0.hat_y, &b.tau0.hat_y)
        && g1_eq(&a.tau0.v, &b.tau0.v)
}

/// The concatenated compressed encodings of the first `j` points of a G1
/// table.
pub open spec fn g1_table_bytes(s: Seq<G1Point>, j: int) -> Seq<u8>
    decreases j,
{
    if j <= 0 {
        Seq::<u8>::empty()
    } else {
        g1_table_bytes(s, j - 1) + g1_ser_comp_of(s[j - 1])
    }
}

/// The concatenated compressed encodings of the first `j` points of a G2
/// table.
pub open spec fn g2_table_bytes(s: Seq<G2Point>, j: int) -> Seq<u8>
    decreases j,
{
    if j <= 0 {
        Seq::<u8>::empty()
    } else {
        g2_table_bytes(s, j - 1) + g2_ser_comp_of(s[j - 1])
    }
}

/// The facts that serializing a G1 table establishes of each point: its
/// compressed encoding is 48 bytes and decodes back to the point.
pub open spec fn g1_points_ser_ok(s: Seq<G1Point>) -> bool {
    forall|t: int|
        0 <= t < s.len() ==> (#[trigger] g1_ser_comp_of(s[t])).len() == 48 && g1_deser_comp_of(
            g1_ser_comp_of(s[t]),
        ) == Some(s[t])
}

/// The facts that serializing a G2 table establishes of each point: its
/// compressed encoding is 96 bytes and decodes back to the point.
pub open spec fn g2_points_ser_ok(s: Seq<G2Point>) -> bool {
    forall|t: int|
        0 <= t < s.len() ==> (#[trigger] g2_ser_comp_of(s[t])).len() == 96 && g2_deser_comp_of(
            g2_ser_comp_of(s[t]),
        ) == Some(s[t])
}

/// The facts that serializing a whole commitment key establishes: every
/// point of every table encodes to its fixed-size form and decodes back.
pub open spec fn ck_ser_ok(ck: &CommitmentKey) -> bool {
    &&& g1_points_ser_ok(ck.u@)
    &&& g1_points_ser_ok(ck.hat_u@)
    &&& g1_points_ser_ok(ck.lagranges@)
    &&& g2_ser_comp_of(ck.g2).len() == 96
    &&& g2_deser_comp_of(g2_ser_comp_of(ck.g2)) == Some(ck.g2)
    &&& g2_ser_comp_of(ck.r).len() == 96
    &&& g2_deser_comp_of(g2_ser_comp_of(ck.r)) == Some(ck.r)
    &&& g2_points_ser_ok(ck.d@)
    &&& g1_points_ser_ok(ck.y@)
    &&& g1_points_ser_ok(ck.hat_y@)
}

proof fn lemma_g1_table_bytes_props(s: Seq<G1Point>, j: int)
    requires
        0 <= j <= s.len(),
        g1_points_ser_ok(s),
    ensures
        g1_table_bytes(s, j).len() == 48 * j,
        forall|t: int|
            0 <= t < j ==> #[trigger] g1_table_bytes(s, j).subrange(48 * t, 48 * t + 48)
                == g1_ser_comp_of(s[t]),
    decreases j,
{
    if j > 0 {
        lemma_g1_table_bytes_props(s, j - 1);
        assert forall|t: int|
            0 <= t < j implies #[trigger] g1_table_bytes(s, j).subrange(48 * t, 48 * t + 48)
            == g1_ser_comp_of(s[t]) by {
            if t < j - 1 {
                assert(g1_table_bytes(s, j).subrange(48 * t, 48 * t + 48) =~= g1_table_bytes(
                    s,
                    j - 1,
                ).subrange(48 * t, 48 * t + 48));
            } else {
                assert(g1_table_bytes(s, j).subrange(48 * t, 48 * t + 48) =~= g1_ser_comp_of(
                    s[t],
                ));
            }
        }
    }
}

proof fn lemma_g2_table_bytes_props(s: Seq<G2Point>, j: int)
    requires
        0 <= j <= s.len(),
        g2_points_ser_ok(s),
    ensures
        g2_table_bytes(s, j).len() == 96 * j,
        forall|t: int|
            0 <= t < j ==> #[trigger] g2_table_bytes(s, j).subrange(96 * t, 96 * t + 96)
                == g2_ser_comp_of(s[t]),
    decreases j,
{
    if j > 0 {
        lemma_g2_table_bytes_props(s, j - 1);
        assert forall|t: int|
            0 <= t < j implies #[trigger] g2_table_bytes(s, j).subrange(96 * t, 96 * t + 96)
            == g2_ser_comp_of(s[t]) by {
            if t < j - 1 {
                assert(g2_table_bytes(s, j).subrange(96 * t, 96 * t + 96) =~= g2_table_bytes(
                    s,
                    j - 1,
                ).subrange(96 * t, 96 * t + 96));
            } else {
                assert(g2_table_bytes(s, j).subrange(96 * t, 96 * t + 96) =~= g2_ser_comp_of(
                    s[t],
                ));
            }
        }
    }
}

proof fn lemma_g1_table_bytes_prefix(a: Seq<G1Point>, b: Seq<G1Point>, j: int)
    requires
        0 <= j <= a.len(),
        j <= b.len(),
        forall|t: int| 0 <= t < j ==> a[t] == b[t],
    ensures
        g1_table_bytes(a, j) == g1_table_bytes(b, j),
    decreases j,
{
    if j > 0 {
        lemma_g1_table_bytes_prefix(a, b, j - 1);
    }
}

proof fn lemma_g2_table_bytes_prefix(a: Seq<G2Point>, b: Seq<G2Point>, j: int)
    requires
        0 <= j <= a.len(),
        j <= b.len(),
        forall|t: int| 0 <= t < j ==> a[t] == b[t],
    ensures
        g2_table_bytes(a, j) == g2_table_bytes(b, j),
    decreases j,
{
    if j > 0 {
        lemma_g2_table_bytes_prefix(a, b, j - 1);
    }
}

/// The byte encoding of a commitment key: the two length fields in
/// little-endian, then the tables `u`, `hat_u`, `lagranges`, the points
/// `g2` and `r`, the table `d`, and the tables `y` and `hat_y`, each point
/// compressed.
pub open spec fn ck_bytes_of(ck: &CommitmentKey) -> Seq<u8> {
    let n = ck.domain.spec_size();
    u64_le_bytes(ck.message_length as u64) + u64_le_bytes(n as u64) + g1_table_bytes(
        ck.u@,
        ck.u@.len() as int,
    ) + g1_table_bytes(ck.hat_u@, ck.hat_u@.len() as int) + g1_table_bytes(
        ck.lagranges@,
        ck.lagranges@.len() as int,
    ) + g2_ser_comp_of(ck.g2) + g2_ser_comp_of(ck.r) + g2_table_bytes(
        ck.d@,
        ck.d@.len() as int,
    ) + g1_table_bytes(ck.y@, ck.y@.len() as int) + g1_table_bytes(
        ck.hat_y@,
        ck.hat_y@.len() as int,
    )
}

/// Read back a 64-bit integer from its little-endian encoding.
fn le_to_u64(b: &[u8]) -> (r: u64)
    requires
        b@.len() == 8,
    ensures
        u64_le_bytes(r) == b@,
{
    let x: u64 = (b[0] as u64) | ((b[1] as u64) << 8) | ((b[2] as u64) << 16) | ((b[3] as u64)
        << 24) | ((b[4] as u64) << 32) | ((b[5] as u64) << 40) | ((b[6] as u64) << 48) | ((b[7]
        as u64) << 56);
    proof {
        let b0 = b@[0];
        let b1 = b@[1];
        let b2 = b@[2];
        let b3 = b@[3];
        let b4 = b@[4];
        let b5 = b@[5];
        let b6 = b@[6];
        let b7 = b@[7];
        assert((x == (b0 as u64) | ((b1 as u64) << 8) | ((b2 as u64) << 16) | ((b3 as u64) << 24)
            | ((b4 as u64) << 32) | ((b5 as u64) << 40) | ((b6 as u64) << 48) | ((b7 as u64)
            << 56)) ==> ((x % 256) as u8 == b0 && ((x >> 8) % 256) as u8 == b1 && ((x >> 16)
            % 256) as u8 == b2 && ((x >> 24) % 256) as u8 == b3 && ((x >> 32) % 256) as u8 == b4
            && ((x >> 40) % 256) as u8 == b5 && ((x >> 48) % 256) as u8 == b6 && ((x >> 56)
            % 256) as u8 == b7)) by (bit_vector);
        assert(u64_le_bytes(x) =~= b@);
    }
    x
}

/// Append the compressed encodings of all points, 48 bytes each.
fn push_g1_points(out: &mut Vec<u8>, points: &Vec<G1Point>)
    ensures
        final(out)@.len() == old(out)@.len() + 48 * points@.len(),
        final(out)@ == old(out)@ + g1_table_bytes(points@, points@.len() as int),
        g1_points_ser_ok(points@),
{
    let ghost orig = out@;
    let mut i: usize = 0;
    while i < points.len()
        invariant
            i <= points@.len(),
            out@.len() == orig.len() + 48 * i,
            out@ == orig + g1_table_bytes(points@, i as int),
            forall|t: int|
                0 <= t < i ==> (#[trigger] g1_ser_comp_of(points@[t])).len() == 48
                    && g1_deser_comp_of(g1_ser_comp_of(points@[t])) == Some(points@[t]),
        decreases points@.len() - i,
    {
        let ser = g1_ser_comp(&points[i]);
        push_all(out, ser.as_slice());
        proof {
            assert(out@ =~= orig + g1_table_bytes(points@, (i + 1) as int));
        }
        i += 1;
    }
}

/// Append the compressed encodings of all points, 96 bytes each.
fn push_g2_points(out: &mut Vec<u8>, points: &Vec<G2Point>)
    ensures
        final(out)@.len() == old(out)@.len() + 96 * points@.len(),
        final(out)@ == old(out)@ + g2_table_bytes(points@, points@.len() as int),
        g2_points_ser_ok(points@),
{
    let ghost orig = out@;
    let mut i: usize = 0;
    while i < points.len()
        invariant
            i <= points@.len(),
            out@.len() == orig.len() + 96 * i,
            out@ == orig + g2_table_bytes(points@, i as int),
            forall|t: int|
                0 <= t < i ==> (#[trigger] g2_ser_comp_of(points@[t])).len() == 96
                    && g2_deser_comp_of(g2_ser_comp_of(points@[t])) == Some(points@[t]),
        decreases points@.len() - i,
    {
        let ser = g2_ser_comp(&points[i]);
        push_all(out, ser.as_slice());
        proof {
            assert(out@ =~= orig + g2_table_bytes(points@, (i + 1) as int));
        }
        i += 1;
    }
}

proof fn lemma_ck_bytes_decompose(ck0: &CommitmentKey, data: Seq<u8>)
    requires
        ck0.wf(),
        ck_ser_ok(ck0),
        data == ck_bytes_of(ck0),
    ensures
        ({
            let n = ck0.domain.spec_size();
            let ml = ck0.message_length as int;
            &&& data.len() == ck_bytes_len(n, ml)
            &&& data.subrange(0, 8) == u64_le_bytes(ck0.message_length as u64)
            &&& data.subrange(8, 16) == u64_le_bytes(n as u64)
            &&& data.subrange(16, 16 + 48 * n) == g1_table_bytes(ck0.u@, n)
            &&& data.subrange(16 + 48 * n, 16 + 96 * n) == g1_table_bytes(ck0.hat_u@, n)
            &&& data.subrange(16 + 96 * n, 16 + 192 * n) == g1_table_bytes(ck0.lagranges@, 2 * n)
            &&& data.subrange(16 + 192 * n, 16 + 192 * n + 96) == g2_ser_comp_of(ck0.g2)
            &&& data.subrange(16 + 192 * n + 96, 16 + 192 * n + 192) == g2_ser_comp_of(ck0.r)
            &&& data.subrange(16 + 192 * n + 192, 16 + 192 * n + 192 + 96 * ml)
                == g2_table_bytes(ck0.d@, ml)
            &&& data.subrange(16 + 192 * n + 192 + 96 * ml, 16 + 288 * n + 192 + 96 * ml)
                == g1_table_bytes(ck0.y@, 2 * n)
            &&& data.subrange(16 + 288 * n + 192 + 96 * ml, 16 + 384 * n + 192 + 96 * ml)
                == g1_table_bytes(ck0.hat_y@, 2 * n)
        }),
{
    let n = ck0.domain.spec_size();
    let ml = ck0.message_length as int;
    lemma_g1_table_bytes_props(ck0.u@, n);
    lemma_g1_table_bytes_props(ck0.hat_u@, n);
    lemma_g1_table_bytes_props(ck0.lagranges@, 2 * n);
    lemma_g2_table_bytes_props(ck0.d@, ml);
    lemma_g1_table_bytes_props(ck0.y@, 2 * n);
    lemma_g1_table_bytes_props(ck0.hat_y@, 2 * n);
    assert(data.len() == ck_bytes_len(n, ml));
    assert(data.subrange(0, 8) =~= u64_le_bytes(ck0.message_length as u64));
    assert(data.subrange(8, 16) =~= u64_le_bytes(n as u64));
    assert(data.subrange(16, 16 + 48 * n) =~= g1_table_bytes(ck0.u@, n));
    assert(data.subrange(16 + 48 * n, 16 + 96 * n) =~= g1_table_bytes(ck0.hat_u@, n));
    assert(data.subrange(16 + 96 * n, 16 + 192 * n) =~= g1_table_bytes(ck0.lagranges@, 2 * n));
    assert(data.subrange(16 + 192 * n, 16 + 192 * n + 96) =~= g2_ser_comp_of(ck0.g2));
    assert(data.subrange(16 + 192 * n + 96, 16 + 192 * n + 192) =~= g2_ser_comp_of(ck0.r));
    assert(data.subrange(16 + 192 * n + 192, 16 + 192 * n + 192 + 96 * ml) =~= g2_table_bytes(
        ck0.d@,
        ml,
    ));
    assert(data.subrange(16 + 192 * n + 192 + 96 * ml, 16 + 288 * n + 192 + 96 * ml)
        =~= g1_table_bytes(ck0.y@, 2 * n));
    assert(data.subrange(16 + 288 * n + 192 + 96 * ml, 16 + 384 * n + 192 + 96 * ml)
        =~= g1_table_bytes(ck0.hat_y@, 2 * n));
}

/// Read `count` compressed G1 points from `data` starting at `*pos`,
/// advancing the cursor; `None` when the bytes run out, fail to decode, or
/// are not the canonical encoding of the decoded point. On the exact
/// canonical encoding of some point table, reading succeeds.
fn read_g1_points(data: &[u8], pos: &mut usize, count: usize) -> (r: Option<Vec<G1Point>>)
    requires
        *old(pos) <= data@.len(),
    ensures
        *final(pos) <= data@.len(),
        match r {
            Some(v) => {
                &&& v@.len() == count
                &&& *final(pos) == *old(pos) + 48 * count
                &&& data@.subrange(*old(pos) as int, *final(pos) as int) == g1_table_bytes(
                    v@,
                    count as int,
                )
                &&& g1_points_ser_ok(v@)
            },
            None => true,
        },
        (exists|v0: Seq<G1Point>|
            v0.len() == count && g1_points_ser_ok(v0) && *old(pos) + 48 * (count as int)
                <= data@.len() && data@.subrange(
                *old(pos) as int,
                *old(pos) + 48 * (count as int),
            ) == g1_table_bytes(v0, count as int)) ==> r is Some,
{
    let ghost start = *pos;
    let mut out: Vec<G1Point> = Vec::new();
    let mut i: usize = 0;
    #[verifier::loop_isolation(false)]
    while i < count
        invariant
            i <= count,
            out@.len() == i,
            start <= *pos <= data@.len(),
            *pos == start + 48 * i,
            data@.subrange(start as int, *pos as int) == g1_table_bytes(out@, i as int),
            forall|t: int|
                0 <= t < i ==> (#[trigger] g1_ser_comp_of(out@[t])).len() == 48
                    && g1_deser_comp_of(g1_ser_comp_of(out@[t])) == Some(out@[t]),
        decreases count - i,
    {
        if data.len() - *pos < 48 {
            proof {
                if exists|v0: Seq<G1Point>|
                    v0.len() == count && g1_points_ser_ok(v0) && start + 48 * (count as int)
                        <= data@.len() && data@.subrange(
                        start as int,
                        start + 48 * (count as int),
                    ) == g1_table_bytes(v0, count as int) {
                    assert(false);
                }
            }
            return None;
        }
        let chunk = slice_subrange(data, *pos, *pos + 48);
        proof {
            if exists|v0: Seq<G1Point>|
                v0.len() == count && g1_points_ser_ok(v0) && start + 48 * (count as int)
                    <= data@.len() && data@.subrange(
                    start as int,
                    start + 48 * (count as int),
                ) == g1_table_bytes(v0, count as int) {
                let v0 = choose|v0: Seq<G1Point>|
                    v0.len() == count && g1_points_ser_ok(v0) && start + 48 * (count as int)
                        <= data@.len() && data@.subrange(
                        start as int,
                        start + 48 * (count as int),
                    ) == g1_table_bytes(v0, count as int);
                lemma_g1_table_bytes_props(v0, count as int);
                assert(chunk@ =~= g1_table_bytes(v0, count as int).subrange(
                    48 * (i as int),
                    48 * (i as int) + 48,
                ));
                assert(chunk@ == g1_ser_comp_of(v0[i as int]));
                assert(g1_deser_comp_of(chunk@) == Some(v0[i as int]));
            }
        }
        let ghost prev = out@;
        match g1_deser_comp(chunk) {
            Some(p) => {
                // accept only the canonical encoding: the decoded point must
                // re-encode to exactly the bytes that were read
                let back = g1_ser_comp(&p);
                if !bytes_eq(back.as_slice(), chunk) {
                    return None;
                }
                out.push(p);
                proof {
                    assert(chunk@ == g1_ser_comp_of(p));
                    assert(forall|t: int| 0 <= t < i ==> out@[t] == prev[t]);
                    lemma_g1_table_bytes_prefix(out@, prev, i as int);
                    assert(g1_table_bytes(out@, (i + 1) as int) == g1_table_bytes(prev, i as int)
                        + g1_ser_comp_of(p));
                    assert(data@.subrange(start as int, (*pos + 48) as int) =~= data@.subrange(
                        start as int,
                        *pos as int,
                    ) + chunk@);
                }
            },
            None => {
                return None;
            },
        }
        *pos = *pos + 48;
        i += 1;
    }
    Some(out)
}

/// Read `count` compressed G2 points from `data` starting at `*pos`,
/// advancing the cursor; `None` when the bytes run out, fail to decode, or
/// are not the canonical encoding of the decoded point. On the exact
/// canonical encoding of some point table, reading succeeds.
fn read_g2_points(data: &[u8], pos: &mut usize, count: usize) -> (r: Option<Vec<G2Point>>)
    requires
        *old(pos) <= data@.len(),
    ensures
        *final(pos) <= data@.len(),
        match r {
            Some(v) => {
                &&& v@.len() == count
                &&& *final(pos) == *old(pos) + 96 * count
                &&& data@.subrange(*old(pos) as int, *final(pos) as int) == g2_table_bytes(
                    v@,
                    count as int,
                )
                &&& g2_points_ser_ok(v@)
            },
            None => true,
        },
        (exists|v0: Seq<G2Point>|
            v0.len() == count && g2_points_ser_ok(v0) && *old(pos) + 96 * (count as int)
                <= data@.len() && data@.subrange(
                *old(pos) as int,
                *old(pos) + 96 * (count as int),
            ) == g2_table_bytes(v0, count as int)) ==> r is Some,
{
    let ghost start = *pos;
    let mut out: Vec<G2Point> = Vec::new();
    let mut i: usize = 0;
    #[verifier::loop_isolation(false)]
    while i < count
        invariant
            i <= count,
            out@.len() == i,
            start <= *pos <= data@.len(),
            *pos == start + 96 * i,
            data@.subrange(start as int, *pos as int) == g2_table_bytes(out@, i as int),
            forall|t: int|
                0 <= t < i ==> (#[trigger] g2_ser_comp_of(out@[t])).len() == 96
                    && g2_deser_comp_of(g2_ser_comp_of(out@[t])) == Some(out@[t]),
        decreases count - i,
    {
        if data.len() - *pos < 96 {
            proof {
                if exists|v0: Seq<G2Point>|
                    v0.len() == count && g2_points_ser_ok(v0) && start + 96 * (count as int)
                        <= data@.len() && data@.subrange(
                        start as int,
                        start + 96 * (count as int),
                    ) == g2_table_bytes(v0, count as int) {
                    assert(false);
                }
            }
            return None;
        }
        let chunk = slice_subrange(data, *pos, *pos + 96);
        proof {
            if exists|v0: Seq<G2Point>|
                v0.len() == count && g2_points_ser_ok(v0) && start + 96 * (count as int)
                    <= data@.len() && data@.subrange(
                    start as int,
                    start + 96 * (count as int),
                ) == g2_table_bytes(v0, count as int) {
                let v0 = choose|v0: Seq<G2Point>|
                    v0.len() == count && g2_points_ser_ok(v0) && start + 96 * (count as int)
                        <= data@.len() && data@.subrange(
                        start as int,
                        start + 96 * (count as int),
                    ) == g2_table_bytes(v0, count as int);
                lemma_g2_table_bytes_props(v0, count as int);
                assert(chunk@ =~= g2_table_bytes(v0, count as int).subrange(
                    96 * (i as int),
                    96 * (i as int) + 96,
                ));
                assert(chunk@ == g2_ser_comp_of(v0[i as int]));
                assert(g2_deser_comp_of(chunk@) == Some(v0[i as int]));
            }
        }
        let ghost prev = out@;
        match g2_deser_comp(chunk) {
            Some(p) => {
                // accept only the canonical encoding: the decoded point must
                // re-encode to exactly the bytes that were read
                let back = g2_ser_comp(&p);
                if !bytes_eq(back.as_slice(), chunk) {
                    return None;
                }
                out.push(p);
                proof {
                    assert(chunk@ == g2_ser_comp_of(p));
                    assert(forall|t: int| 0 <= t < i ==> out@[t] == prev[t]);
                    lemma_g2_table_bytes_prefix(out@, prev, i as int);
                    assert(g2_table_bytes(out@, (i + 1) as int) == g2_table_bytes(prev, i as int)
                        + g2_ser_comp_of(p));
                    assert(data@.subrange(start as int, (*pos + 96) as int) =~= data@.subrange(
                        start as int,
                        *pos as int,
                    ) + chunk@);
                }
            },
            None => {
                return None;
            },
        }
        *pos = *pos + 96;
        i += 1;
    }
    Some(out)
}

/// The serialized size of a commitment key with domain size `n` and message
/// length `ell`: the two length fields, five G1 tables, and the G2 data.
pub open spec fn ck_bytes_len(n: int, ell: int) -> int {
    16 + 384 * n + 192 + 96 * ell
}

/// Serialize a commitment key: message length and domain size as 64-bit
/// little-endian integers, then the tables `u`, `hat_u`, `lagranges`, the
/// points `g2` and `r`, the table `d`, and the tables `y` and `hat_y`, each
/// point in compressed form.
pub fn ck_to_bytes(ck: &CommitmentKey) -> (r: Vec<u8>)
    requires
        ck.wf(),
    ensures
        r@.len() == ck_bytes_len(ck.domain.spec_size(), ck.message_length as int),
        r@ == ck_bytes_of(ck),
        ck_ser_ok(ck),
{
    let mut out = u64_to_le(ck.message_length as u64);
    let nb = u64_to_le(ck.domain.size() as u64);
    push_all(&mut out, nb.as_slice());
    push_g1_points(&mut out, &ck.u);
    push_g1_points(&mut out, &ck.hat_u);
    push_g1_points(&mut out, &ck.lagranges);
    let g2b = g2_ser_comp(&ck.g2);
    push_all(&mut out, g2b.as_slice());
    let rb = g2_ser_comp(&ck.r);
    push_all(&mut out, rb.as_slice());
    push_g2_points(&mut out, &ck.d);
    push_g1_points(&mut out, &ck.y);
    push_g1_points(&mut out, &ck.hat_y);
    proof {
        assert(out@ =~= ck_bytes_of(ck));
    }
    out
}

proof fn lemma_from_bytes_facts(ck0: &CommitmentKey, data: Seq<u8>, ml64: u64, n64: u64)
    requires
        ck0.wf(),
        ck_ser_ok(ck0),
        data == ck_bytes_of(ck0),
        u64_le_bytes(ml64) == data.subrange(0, 8),
        u64_le_bytes(n64) == data.subrange(8, 16),
    ensures
        ml64 == ck0.message_length as u64,
        n64 == ck0.domain.spec_size() as u64,
        1 <= ml64 <= 0x3FFF_FFFE,
        n64 <= 0x4000_0000,
        ml64 + 2 <= n64,
        is_pow2(n64 as nat),
        pow2_ceil(n64 as nat) == n64 as nat,
        data.len() == 16 + 384 * (n64 as int) + 192 + 96 * (ml64 as int),
        ck0.u@.len() == n64 && g1_points_ser_ok(ck0.u@) && data.subrange(
            16,
            16 + 48 * (n64 as int),
        ) == g1_table_bytes(ck0.u@, n64 as int),
        ck0.hat_u@.len() == n64 && g1_points_ser_ok(ck0.hat_u@) && data.subrange(
            16 + 48 * (n64 as int),
            16 + 96 * (n64 as int),
        ) == g1_table_bytes(ck0.hat_u@, n64 as int),
        ck0.lagranges@.len() == 2 * (n64 as int) && g1_points_ser_ok(ck0.lagranges@)
            && data.subrange(16 + 96 * (n64 as int), 16 + 192 * (n64 as int))
            == g1_table_bytes(ck0.lagranges@, 2 * (n64 as int)),
        g2_deser_comp_of(
            data.subrange(16 + 192 * (n64 as int), 16 + 192 * (n64 as int) + 96),
        ) == Some(ck0.g2) && data.subrange(
            16 + 192 * (n64 as int),
            16 + 192 * (n64 as int) + 96,
        ) == g2_ser_comp_of(ck0.g2),
        g2_deser_comp_of(
            data.subrange(16 + 192 * (n64 as int) + 96, 16 + 192 * (n64 as int) + 192),
        ) == Some(ck0.r) && data.subrange(
            16 + 192 * (n64 as int) + 96,
            16 + 192 * (n64 as int) + 192,
        ) == g2_ser_comp_of(ck0.r),
        ck0.d@.len() == ml64 && g2_points_ser_ok(ck0.d@) && data.subrange(
            16 + 192 * (n64 as int) + 192,
            16 + 192 * (n64 as int) + 192 + 96 * (ml64 as int),
        ) == g2_table_bytes(ck0.d@, ml64 as int),
        ck0.y@.len() == 2 * (n64 as int) && g1_points_ser_ok(ck0.y@) && data.subrange(
            16 + 192 * (n64 as int) + 192 + 96 * (ml64 as int),
            16 + 288 * (n64 as int) + 192 + 96 * (ml64 as int),
        ) == g1_table_bytes(ck0.y@, 2 * (n64 as int)),
        ck0.hat_y@.len() == 2 * (n64 as int) && g1_points_ser_ok(ck0.hat_y@) && data.subrange(
            16 + 288 * (n64 as int) + 192 + 96 * (ml64 as int),
            16 + 384 * (n64 as int) + 192 + 96 * (ml64 as int),
        ) == g1_table_bytes(ck0.hat_y@, 2 * (n64 as int)),
{
    lemma_ck_bytes_decompose(ck0, data);
    lemma_u64_le_bytes_injective(ml64, ck0.message_length as u64);
    lemma_u64_le_bytes_injective(n64, ck0.domain.spec_size() as u64);
    lemma_pow2_ceil_of_pow2(ck0.domain.spec_size() as nat);
}

/// Deserialize a commitment key from the format of `ck_to_bytes`. The
/// header is validated against the well-formedness conditions, the domain
/// is rebuilt from its size, and every point must decode and re-encode to
/// exactly its bytes; any violation, missing bytes, or trailing bytes give
/// `None`. A successful result is well-formed and re-encodes to exactly the
/// input, and on the exact encoding of a serialized well-formed key,
/// deserialization succeeds.
#[verifier::rlimit(60)]
pub fn ck_from_bytes(data: &[u8]) -> (r: Option<CommitmentKey>)
    ensures
        match r {
            Some(ck) => ck.wf() && ck_ser_ok(&ck) && data@ == ck_bytes_of(&ck),
            None => true,
        },
        (exists|ck0: CommitmentKey|
            ck0.wf() && ck_ser_ok(&ck0) && data@ == ck_bytes_of(&ck0)) ==> r is Some,
{
    if data.len() < 16 {
        proof {
            if exists|ck0: CommitmentKey|
                ck0.wf() && ck_ser_ok(&ck0) && data@ == ck_bytes_of(&ck0) {
                let ck0 = choose|ck0: CommitmentKey|
                    ck0.wf() && ck_ser_ok(&ck0) && data@ == ck_bytes_of(&ck0);
                lemma_ck_bytes_decompose(&ck0, data@);
                assert(false);
            }
        }
        return None;
    }
    let ml64 = le_to_u64(slice_subrange(data, 0, 8));
    let n64 = le_to_u64(slice_subrange(data, 8, 16));
    if ml64 < 1 || ml64 > 0x3FFF_FFFE || n64 > 0x4000_0000 {
        proof {
            if exists|ck0: CommitmentKey|
                ck0.wf() && ck_ser_ok(&ck0) && data@ == ck_bytes_of(&ck0) {
                let ck0 = choose|ck0: CommitmentKey|
                    ck0.wf() && ck_ser_ok(&ck0) && data@ == ck_bytes_of(&ck0);
                lemma_from_bytes_facts(&ck0, data@, ml64, n64);
                assert(false);
            }
        }
        return None;
    }
    let message_length = ml64 as usize;
    let n = n64 as usize;
    if message_length + 2 > n {
        proof {
            if exists|ck0: CommitmentKey|
                ck0.wf() && ck_ser_ok(&ck0) && data@ == ck_bytes_of(&ck0) {
                let ck0 = choose|ck0: CommitmentKey|
                    ck0.wf() && ck_ser_ok(&ck0) && data@ == ck_bytes_of(&ck0);
                lemma_from_bytes_facts(&ck0, data@, ml64, n64);
                assert(false);
            }
        }
        return None;
    }
    let domain = match Domain::new(n) {
        Some(d) => d,
        None => {
            return None;
        },
    };
    if domain.size() != n {
        // The stored size was not a power of two.
        proof {
            if exists|ck0: CommitmentKey|
                ck0.wf() && ck_ser_ok(&ck0) && data@ == ck_bytes_of(&ck0) {
                let ck0 = choose|ck0: CommitmentKey|
                    ck0.wf() && ck_ser_ok(&ck0) && data@ == ck_bytes_of(&ck0);
                lemma_from_bytes_facts(&ck0, data@, ml64, n64);
                assert(false);
            }
        }
        return None;
    }

    let mut pos: usize = 16;
    let u = match read_g1_points(data, &mut pos, n) {
        Some(v) => v,
        None => {
            proof {
                if exists|ck0: CommitmentKey|
                    ck0.wf() && ck_ser_ok(&ck0) && data@ == ck_bytes_of(&ck0) {
                    let ck0 = choose|ck0: CommitmentKey|
                        ck0.wf() && ck_ser_ok(&ck0) && data@ == ck_bytes_of(&ck0);
                    lemma_from_bytes_facts(&ck0, data@, ml64, n64);
                    assert(ck0.u@.len() == n && g1_points_ser_ok(ck0.u@) && 16 + 48 * (
                    n as int) <= data@.len() && data@.subrange(16, 16 + 48 * (n as int))
                        == g1_table_bytes(ck0.u@, n as int));
                    assert(false);
                }
            }
            return None;
        },
    };
    let hat_u = match read_g1_points(data, &mut pos, n) {
        Some(v) => v,
        None => {
            proof {
                if exists|ck0: CommitmentKey|
                    ck0.wf() && ck_ser_ok(&ck0) && data@ == ck_bytes_of(&ck0) {
                    let ck0 = choose|ck0: CommitmentKey|
                        ck0.wf() && ck_ser_ok(&ck0) && data@ == ck_bytes_of(&ck0);
                    lemma_from_bytes_facts(&ck0, data@, ml64, n64);
                    assert(ck0.hat_u@.len() == n && g1_points_ser_ok(ck0.hat_u@) && 16 + 48 * (
                    n as int) + 48 * (n as int) <= data@.len() && data@.subrange(
                        16 + 48 * (n as int),
                        16 + 48 * (n as int) + 48 * (n as int),
                    ) == g1_table_bytes(ck0.hat_u@, n as int));
                    assert(false);
                }
            }
            return None;
        },
    };
    let lagranges = match read_g1_points(data, &mut pos, 2 * n) {
        Some(v) => v,
        None => {
            proof {
                if exists|ck0: CommitmentKey|
                    ck0.wf() && ck_ser_ok(&ck0) && data@ == ck_bytes_of(&ck0) {
                    let ck0 = choose|ck0: CommitmentKey|
                        ck0.wf() && ck_ser_ok(&ck0) && data@ == ck_bytes_of(&ck0);
                    lemma_from_bytes_facts(&ck0, data@, ml64, n64);
                    assert(ck0.lagranges@.len() == 2 * n && g1_points_ser_ok(ck0.lagranges@)
                        && 16 + 96 * (n as int) + 48 * (2 * n as int) <= data@.len()
                        && data@.subrange(
                        16 + 96 * (n as int),
                        16 + 96 * (n as int) + 48 * (2 * n as int),
                    ) == g1_table_bytes(ck0.lagranges@, 2 * n as int));
                    assert(false);
                }
            }
            return None;
        },
    };
    if data.len() - pos < 96 {
        proof {
            if exists|ck0: CommitmentKey|
                ck0.wf() && ck_ser_ok(&ck0) && data@ == ck_bytes_of(&ck0) {
                let ck0 = choose|ck0: CommitmentKey|
                    ck0.wf() && ck_ser_ok(&ck0) && data@ == ck_bytes_of(&ck0);
                lemma_from_bytes_facts(&ck0, data@, ml64, n64);
                assert(false);
            }
        }
        return None;
    }
    let g2_chunk = slice_subrange(data, pos, pos + 96);
    let g2_opt = g2_deser_comp(g2_chunk);
    proof {
        if exists|ck0: CommitmentKey|
            ck0.wf() && ck_ser_ok(&ck0) && data@ == ck_bytes_of(&ck0) {
            let ck0 = choose|ck0: CommitmentKey|
                ck0.wf() && ck_ser_ok(&ck0) && data@ == ck_bytes_of(&ck0);
            lemma_from_bytes_facts(&ck0, data@, ml64, n64);
            assert(g2_chunk@ == g2_ser_comp_of(ck0.g2));
            assert(g2_opt == Some(ck0.g2));
        }
    }
    let g2 = match g2_opt {
        Some(p) => p,
        None => {
            return None;
        },
    };
    let g2_back = g2_ser_comp(&g2);
    if !bytes_eq(g2_back.as_slice(), g2_chunk) {
        // only the canonical encoding is accepted
        return None;
    }
    let pos2: usize = pos + 96;
    if data.len() - pos2 < 96 {
        proof {
            if exists|ck0: CommitmentKey|
                ck0.wf() && ck_ser_ok(&ck0) && data@ == ck_bytes_of(&ck0) {
                let ck0 = choose|ck0: CommitmentKey|
                    ck0.wf() && ck_ser_ok(&ck0) && data@ == ck_bytes_of(&ck0);
                lemma_from_bytes_facts(&ck0, data@, ml64, n64);
                assert(false);
            }
        }
        return None;
    }
    let r_chunk = slice_subrange(data, pos2, pos2 + 96);
    let r_opt = g2_deser_comp(r_chunk);
    proof {
        if exists|ck0: CommitmentKey|
            ck0.wf() && ck_ser_ok(&ck0) && data@ == ck_bytes_of(&ck0) {
            let ck0 = choose|ck0: CommitmentKey|
                ck0.wf() && ck_ser_ok(&ck0) && data@ == ck_bytes_of(&ck0);
            lemma_from_bytes_facts(&ck0, data@, ml64, n64);
            assert(r_chunk@ == g2_ser_comp_of(ck0.r));
            assert(r_opt == Some(ck0.r));
        }
    }
    let r_point = match r_opt {
        Some(p) => p,
        None => {
            return None;
        },
    };
    let r_back = g2_ser_comp(&r_point);
    if !bytes_eq(r_back.as_slice(), r_chunk) {
        return None;
    }
    proof {
        assert(g2_ser_comp_of(g2).len() == 96 && g2_deser_comp_of(g2_ser_comp_of(g2)) == Some(
            g2,
        ));
        assert(g2_ser_comp_of(r_point).len() == 96 && g2_deser_comp_of(
            g2_ser_comp_of(r_point),
        ) == Some(r_point));
    }
    let mut pos: usize = pos2 + 96;
    let d = match read_g2_points(data, &mut pos, message_length) {
        Some(v) => v,
        None => {
            proof {
                if exists|ck0: CommitmentKey|
                    ck0.wf() && ck_ser_ok(&ck0) && data@ == ck_bytes_of(&ck0) {
                    let ck0 = choose|ck0: CommitmentKey|
                        ck0.wf() && ck_ser_ok(&ck0) && data@ == ck_bytes_of(&ck0);
                    lemma_from_bytes_facts(&ck0, data@, ml64, n64);
                    assert(ck0.d@.len() == message_length && g2_points_ser_ok(ck0.d@) && 16
                        + 192 * (n as int) + 192 + 96 * (message_length as int) <= data@.len()
                        && data@.subrange(
                        16 + 192 * (n as int) + 192,
                        16 + 192 * (n as int) + 192 + 96 * (message_length as int),
                    ) == g2_table_bytes(ck0.d@, message_length as int));
                    assert(false);
                }
            }
            return None;
        },
    };
    let y = match read_g1_points(data, &mut pos, 2 * n) {
        Some(v) => v,
        None => {
            proof {
                if exists|ck0: CommitmentKey|
                    ck0.wf() && ck_ser_ok(&ck0) && data@ == ck_bytes_of(&ck0) {
                    let ck0 = choose|ck0: CommitmentKey|
                        ck0.wf() && ck_ser_ok(&ck0) && data@ == ck_bytes_of(&ck0);
                    lemma_from_bytes_facts(&ck0, data@, ml64, n64);
                    assert(ck0.y@.len() == 2 * n && g1_points_ser_ok(ck0.y@) && 16 + 192 * (
                    n as int) + 192 + 96 * (message_length as int) + 48 * (2 * n as int)
                        <= data@.len() && data@.subrange(
                        16 + 192 * (n as int) + 192 + 96 * (message_length as int),
                        16 + 192 * (n as int) + 192 + 96 * (message_length as int) + 48 * (2
                            * n as int),
                    ) == g1_table_bytes(ck0.y@, 2 * n as int));
                    assert(false);
                }
            }
            return None;
        },
    };
    let hat_y = match read_g1_points(data, &mut pos, 2 * n) {
        Some(v) => v,
        None => {
            proof {
                if exists|ck0: CommitmentKey|
                    ck0.wf() && ck_ser_ok(&ck0) && data@ == ck_bytes_of(&ck0) {
                    let ck0 = choose|ck0: CommitmentKey|
                        ck0.wf() && ck_ser_ok(&ck0) && data@ == ck_bytes_of(&ck0);
                    lemma_from_bytes_facts(&ck0, data@, ml64, n64);
                    assert(ck0.hat_y@.len() == 2 * n && g1_points_ser_ok(ck0.hat_y@) && 16 + 288
                        * (n as int) + 192 + 96 * (message_length as int) + 48 * (2 * n as int)
                        <= data@.len() && data@.subrange(
                        16 + 288 * (n as int) + 192 + 96 * (message_length as int),
                        16 + 288 * (n as int) + 192 + 96 * (message_length as int) + 48 * (2
                            * n as int),
                    ) == g1_table_bytes(ck0.hat_y@, 2 * n as int));
                    assert(false);
                }
            }
            return None;
        },
    };
    if pos != data.len() {
        proof {
            if exists|ck0: CommitmentKey|
                ck0.wf() && ck_ser_ok(&ck0) && data@ == ck_bytes_of(&ck0) {
                let ck0 = choose|ck0: CommitmentKey|
                    ck0.wf() && ck_ser_ok(&ck0) && data@ == ck_bytes_of(&ck0);
                lemma_from_bytes_facts(&ck0, data@, ml64, n64);
                assert(false);
            }
        }
        return None;
    }
    let ck = CommitmentKey {
        message_length,
        domain,
        u,
        hat_u,
        lagranges,
        g2,
        r: r_point,
        d,
        y,
        hat_y,
    };
    proof {
        assert(data@.subrange(0, 8) == u64_le_bytes(ck.message_length as u64));
        assert(data@.subrange(8, 16) == u64_le_bytes(ck.domain.spec_size() as u64));
        assert(data@ =~= ck_bytes_of(&ck));
    }
    Some(ck)
}

proof fn lemma_g1_table_determine(a: Seq<G1Point>, b: Seq<G1Point>, j: int)
    requires
        0 <= j <= a.len(),
        j <= b.len(),
        g1_points_ser_ok(a),
        g1_points_ser_ok(b),
        g1_table_bytes(a, j) == g1_table_bytes(b, j),
    ensures
        forall|t: int| 0 <= t < j ==> a[t] == b[t],
{
    lemma_g1_table_bytes_props(a, j);
    lemma_g1_table_bytes_props(b, j);
    assert forall|t: int| 0 <= t < j implies a[t] == b[t] by {
        assert(g1_table_bytes(a, j).subrange(48 * t, 48 * t + 48) == g1_ser_comp_of(a[t]));
        assert(g1_table_bytes(b, j).subrange(48 * t, 48 * t + 48) == g1_ser_comp_of(b[t]));
        assert(g1_ser_comp_of(a[t]) == g1_ser_comp_of(b[t]));
        assert(Some(a[t]) == g1_deser_comp_of(g1_ser_comp_of(a[t])));
        assert(Some(b[t]) == g1_deser_comp_of(g1_ser_comp_of(b[t])));
    }
}

proof fn lemma_g2_table_determine(a: Seq<G2Point>, b: Seq<G2Point>, j: int)
    requires
        0 <= j <= a.len(),
        j <= b.len(),
        g2_points_ser_ok(a),
        g2_points_ser_ok(b),
        g2_table_bytes(a, j) == g2_table_bytes(b, j),
    ensures
        forall|t: int| 0 <= t < j ==> a[t] == b[t],
{
    lemma_g2_table_bytes_props(a, j);
    lemma_g2_table_bytes_props(b, j);
    assert forall|t: int| 0 <= t < j implies a[t] == b[t] by {
        assert(g2_table_bytes(a, j).subrange(96 * t, 96 * t + 96) == g2_ser_comp_of(a[t]));
        assert(g2_table_bytes(b, j).subrange(96 * t, 96 * t + 96) == g2_ser_comp_of(b[t]));
        assert(g2_ser_comp_of(a[t]) == g2_ser_comp_of(b[t]));
        assert(Some(a[t]) == g2_deser_comp_of(g2_ser_comp_of(a[t])));
        assert(Some(b[t]) == g2_deser_comp_of(g2_ser_comp_of(b[t])));
    }
}

/// Law: the byte encoding of a commitment key determines the key. Two
/// well-formed keys whose points carry the serialization facts and whose
/// encodings agree are structurally equal: same message length, same domain
/// size (hence the same domain and elements, which are functions of the
/// size), and the same points in every table. With `ck_to_bytes` and
/// `ck_from_bytes`, this is the serialization round-trip: deserializing a
/// serialized key succeeds and reproduces it field by field.
pub proof fn lemma_ck_bytes_determine(ck1: &CommitmentKey, ck2: &CommitmentKey)
    requires
        ck1.wf(),
        ck2.wf(),
        ck_ser_ok(ck1),
        ck_ser_ok(ck2),
        ck_bytes_of(ck1) == ck_bytes_of(ck2),
    ensures
        ck1.message_length == ck2.message_length,
        ck1.domain.spec_size() == ck2.domain.spec_size(),
        ck1.domain.spec_handle() == ck2.domain.spec_handle(),
        ck1.domain.spec_elements() == ck2.domain.spec_elements(),
        ck1.u@ == ck2.u@,
        ck1.hat_u@ == ck2.hat_u@,
        ck1.lagranges@ == ck2.lagranges@,
        ck1.g2 == ck2.g2,
        ck1.r == ck2.r,
        ck1.d@ == ck2.d@,
        ck1.y@ == ck2.y@,
        ck1.hat_y@ == ck2.hat_y@,
{
    let data = ck_bytes_of(ck1);
    lemma_ck_bytes_decompose(ck1, data);
    lemma_ck_bytes_decompose(ck2, data);
    lemma_u64_le_bytes_injective(ck1.message_length as u64, ck2.message_length as u64);
    lemma_u64_le_bytes_injective(
        ck1.domain.spec_size() as u64,
        ck2.domain.spec_size() as u64,
    );
    let n = ck1.domain.spec_size();
    let ml = ck1.message_length as int;
    lemma_g1_table_determine(ck1.u@, ck2.u@, n);
    assert(ck1.u@ =~= ck2.u@);
    lemma_g1_table_determine(ck1.hat_u@, ck2.hat_u@, n);
    assert(ck1.hat_u@ =~= ck2.hat_u@);
    lemma_g1_table_determine(ck1.lagranges@, ck2.lagranges@, 2 * n);
    assert(ck1.lagranges@ =~= ck2.lagranges@);
    assert(g2_ser_comp_of(ck1.g2) == g2_ser_comp_of(ck2.g2));
    assert(Some(ck1.g2) == g2_deser_comp_of(g2_ser_comp_of(ck1.g2)));
    assert(g2_ser_comp_of(ck1.r) == g2_ser_comp_of(ck2.r));
    assert(Some(ck1.r) == g2_deser_comp_of(g2_ser_comp_of(ck1.r)));
    lemma_g2_table_determine(ck1.d@, ck2.d@, ml);
    assert(ck1.d@ =~= ck2.d@);
    lemma_g1_table_determine(ck1.y@, ck2.y@, 2 * n);
    assert(ck1.y@ =~= ck2.y@);
    lemma_g1_table_determine(ck1.hat_y@, ck2.hat_y@, 2 * n);
    assert(ck1.hat_y@ =~= ck2.hat_y@);
}

/// Whether two G1 point tables agree entrywise.
fn g1_vec_eq(a: &Vec<G1Point>, b: &Vec<G1Point>) -> (r: bool)
    ensures
        r == (a@ == b@),
{
    if a.len() != b.len() {
        proof {
            assert(a@ != b@);
        }
        return false;
    }
    let mut i: usize = 0;
    while i < a.len()
        invariant
            a@.len() == b@.len(),
            i <= a@.len(),
            forall|j: int| 0 <= j < i ==> a@[j] == b@[j],
        decreases a@.len() - i,
    {
        if !g1_eq(&a[i], &b[i]) {
            proof {
                assert(a@[i as int] != b@[i as int]);
            }
            return false;
        }
        i += 1;
    }
    proof {
        assert(a@ =~= b@);
    }
    true
}

/// Whether two G2 point tables agree entrywise.
fn g2_vec_eq(a: &Vec<G2Point>, b: &Vec<G2Point>) -> (r: bool)
    ensures
        r == (a@ == b@),
{
    if a.len() != b.len() {
        proof {
            assert(a@ != b@);
        }
        return false;
    }
    let mut i: usize = 0;
    while i < a.len()
        invariant
            a@.len() == b@.len(),
            i <= a@.len(),
            forall|j: int| 0 <= j < i ==> a@[j] == b@[j],
        decreases a@.len() - i,
    {
        if !g2_eq(&a[i], &b[i]) {
            proof {
                assert(a@[i as int] != b@[i as int]);
            }
            return false;
        }
        i += 1;
    }
    proof {
        assert(a@ =~= b@);
    }
    true
}

/// Whether two commitment keys agree structurally: same message length,
/// same domain size and elements, and the same points in every table.
pub fn ck_eq(a: &CommitmentKey, b: &CommitmentKey) -> (r: bool)
    requires
        a.wf(),
        b.wf(),
    ensures
        r == ({
            &&& a.message_length == b.message_length
            &&& a.domain.spec_size() == b.domain.spec_size()
            &&& a.domain.spec_elements() == b.domain.spec_elements()
            &&& a.u@ == b.u@
            &&& a.hat_u@ == b.hat_u@
            &&& a.lagranges@ == b.lagranges@
            &&& a.g2 == b.g2
            &&& a.r == b.r
            &&& a.d@ == b.d@
            &&& a.y@ == b.y@
            &&& a.hat_y@ == b.hat_y@
        }),
{
    if a.message_length != b.message_length {
        return false;
    }
    if a.domain.size() != b.domain.size() {
        return false;
    }
    let n = a.domain.size();
    let mut i: usize = 0;
    while i < n
        invariant
            a.wf(),
            b.wf(),
            n == a.domain.spec_size(),
            n == b.domain.spec_size(),
            i <= n,
            forall|j: int| 0 <= j < i ==> a.domain.spec_elements()[j] == b.domain.spec_elements()[j],
        decreases n - i,
    {
        if !fr_eq(&a.domain.element(i), &b.domain.element(i)) {
            proof {
                assert(a.domain.spec_elements()[i as int] != b.domain.spec_elements()[i as int]);
            }
            return false;
        }
        i += 1;
    }
    proof {
        assert(a.domain.spec_elements() =~= b.domain.spec_elements());
    }
    g1_vec_eq(&a.u, &b.u) && g1_vec_eq(&a.hat_u, &b.hat_u) && g1_vec_eq(&a.lagranges, &b.lagranges)
        && g2_eq(&a.g2, &b.g2) && g2_eq(&a.r, &b.r) && g2_vec_eq(&a.d, &b.d) && g1_vec_eq(
        &a.y,
        &b.y,
    ) && g1_vec_eq(&a.hat_y, &b.hat_y)
}

} // verus!
