//! Byte-level encodings used when data is hashed or serialized.

use vstd::prelude::*;

verus! {

/// The little-endian encoding of a 64-bit integer, 8 bytes.
pub open spec fn u64_le_bytes(n: u64) -> Seq<u8> {
    seq![
        (n % 256) as u8,
        ((n >> 8) % 256) as u8,
        ((n >> 16) % 256) as u8,
        ((n >> 24) % 256) as u8,
        ((n >> 32) % 256) as u8,
        ((n >> 40) % 256) as u8,
        ((n >> 48) % 256) as u8,
        ((n >> 56) % 256) as u8,
    ]
}

/// The big-endian encoding of a 64-bit integer, 8 bytes.
pub open spec fn u64_be_bytes(n: u64) -> Seq<u8> {
    seq![
        ((n >> 56) % 256) as u8,
        ((n >> 48) % 256) as u8,
        ((n >> 40) % 256) as u8,
        ((n >> 32) % 256) as u8,
        ((n >> 24) % 256) as u8,
        ((n >> 16) % 256) as u8,
        ((n >> 8) % 256) as u8,
        (n % 256) as u8,
    ]
}

/// The little-endian encoding of a 32-bit integer, 4 bytes.
pub open spec fn u32_le_bytes(n: u32) -> Seq<u8> {
    seq![
        (n % 256) as u8,
        ((n >> 8) % 256) as u8,
        ((n >> 16) % 256) as u8,
        ((n >> 24) % 256) as u8,
    ]
}

/// The big-endian encoding of a 32-bit integer, 4 bytes.
pub open spec fn u32_be_bytes(n: u32) -> Seq<u8> {
    seq![
        ((n >> 24) % 256) as u8,
        ((n >> 16) % 256) as u8,
        ((n >> 8) % 256) as u8,
        (n % 256) as u8,
    ]
}

pub fn u64_to_le(n: u64) -> (r: Vec<u8>)
    ensures
        r@ == u64_le_bytes(n),
{
    let mut out: Vec<u8> = Vec::new();
    out.push((n % 256) as u8);
    out.push(((n >> 8) % 256) as u8);
    out.push(((n >> 16) % 256) as u8);
    out.push(((n >> 24) % 256) as u8);
    out.push(((n >> 32) % 256) as u8);
    out.push(((n >> 40) % 256) as u8);
    out.push(((n >> 48) % 256) as u8);
    out.push(((n >> 56) % 256) as u8);
    proof {
        assert(out@ =~= u64_le_bytes(n));
    }
    out
}

pub fn u64_to_be(n: u64) -> (r: Vec<u8>)
    ensures
        r@ == u64_be_bytes(n),
{
    let mut out: Vec<u8> = Vec::new();
    out.push(((n >> 56) % 256) as u8);
    out.push(((n >> 48) % 256) as u8);
    out.push(((n >> 40) % 256) as u8);
    out.push(((n >> 32) % 256) as u8);
    out.push(((n >> 24) % 256) as u8);
    out.push(((n >> 16) % 256) as u8);
    out.push(((n >> 8) % 256) as u8);
    out.push((n % 256) as u8);
    proof {
        assert(out@ =~= u64_be_bytes(n));
    }
    out
}

pub fn u32_to_le(n: u32) -> (r: Vec<u8>)
    ensures
        r@ == u32_le_bytes(n),
{
    let mut out: Vec<u8> = Vec::new();
    out.push((n % 256) as u8);
    out.push(((n >> 8) % 256) as u8);
    out.push(((n >> 16) % 256) as u8);
    out.push(((n >> 24) % 256) as u8);
    proof {
        assert(out@ =~= u32_le_bytes(n));
    }
    out
}

pub fn u32_to_be(n: u32) -> (r: Vec<u8>)
    ensures
        r@ == u32_be_bytes(n),
{
    let mut out: Vec<u8> = Vec::new();
    out.push(((n >> 24) % 256) as u8);
    out.push(((n >> 16) % 256) as u8);
    out.push(((n >> 8) % 256) as u8);
    out.push((n % 256) as u8);
    proof {
        assert(out@ =~= u32_be_bytes(n));
    }
    out
}

/// The little-endian integer value of a byte string.
pub open spec fn le_val(b: Seq<u8>) -> nat
    decreases b.len(),
{
    if b.len() == 0 {
        0
    } else {
        b[0] as nat + 256 * le_val(b.drop_first())
    }
}

/// Whether two byte strings are equal.
pub fn bytes_eq(a: &[u8], b: &[u8]) -> (r: bool)
    ensures
        r == (a@ == b@),
{
    if a.len() != b.len() {
        proof {
            assert(a@ != b@);
        }
        return false;
    }
    let mut i: usize = 0;
    while i < a.len()
        invariant
            a@.len() == b@.len(),
            i <= a@.len(),
            forall|j: int| 0 <= j < i ==> a@[j] == b@[j],
        decreases a@.len() - i,
    {
        if a[i] != b[i] {
            proof {
                assert(a@[i as int] != b@[i as int]);
            }
            return false;
        }
        i += 1;
    }
    proof {
        assert(a@ =~= b@);
    }
    true
}

/// Law: the little-endian encoding of a 64-bit integer determines it.
pub proof fn lemma_u64_le_bytes_injective(a: u64, b: u64)
    requires
        u64_le_bytes(a) == u64_le_bytes(b),
    ensures
        a == b,
{
    assert(u64_le_bytes(a)[0] == u64_le_bytes(b)[0]);
    assert(u64_le_bytes(a)[1] == u64_le_bytes(b)[1]);
    assert(u64_le_bytes(a)[2] == u64_le_bytes(b)[2]);
    assert(u64_le_bytes(a)[3] == u64_le_bytes(b)[3]);
    assert(u64_le_bytes(a)[4] == u64_le_bytes(b)[4]);
    assert(u64_le_bytes(a)[5] == u64_le_bytes(b)[5]);
    assert(u64_le_bytes(a)[6] == u64_le_bytes(b)[6]);
    assert(u64_le_bytes(a)[7] == u64_le_bytes(b)[7]);
    assert(((a % 256) as u8 == (b % 256) as u8 && ((a >> 8) % 256) as u8 == ((b >> 8) % 256) as u8
        && ((a >> 16) % 256) as u8 == ((b >> 16) % 256) as u8 && ((a >> 24) % 256) as u8 == ((b
        >> 24) % 256) as u8 && ((a >> 32) % 256) as u8 == ((b >> 32) % 256) as u8 && ((a >> 40)
        % 256) as u8 == ((b >> 40) % 256) as u8 && ((a >> 48) % 256) as u8 == ((b >> 48)
        % 256) as u8 && ((a >> 56) % 256) as u8 == ((b >> 56) % 256) as u8) ==> a == b)
        by (bit_vector);
}

/// The mask that keeps the trailing `log_k mod 8` bits of a byte.
pub open spec fn partial_byte_mask(log_k: u32) -> u8 {
    (((1u32 << (log_k & 7)) - 1) as u8)
}

/// Compute the mask for the trailing `log_k mod 8` bits of a byte.
pub fn compute_partial_byte_mask(log_k: u32) -> (r: u8)
    ensures
        r == partial_byte_mask(log_k),
{
    let e = log_k & 7;
    proof {
        assert(log_k & 7 < 8) by (bit_vector);
        assert(e < 8 ==> 1u32 <= (1u32 << e) <= 128) by (bit_vector);
    }
    ((1u32 << e) - 1) as u8
}

/// Append all of `data` to `out`, in order.
pub fn push_all<T: Copy>(out: &mut Vec<T>, data: &[T])
    ensures
        final(out)@ == old(out)@ + data@,
{
    let ghost start = out@;
    let mut i: usize = 0;
    while i < data.len()
        invariant
            i <= data@.len(),
            out@ == start + data@.subrange(0, i as int),
        decreases data@.len() - i,
    {
        out.push(data[i]);
        proof {
            assert(out@ =~= start + data@.subrange(0, (i + 1) as int));
        }
        i += 1;
    }
    proof {
        assert(data@.subrange(0, data@.len() as int) =~= data@);
    }
}

} // verus!
