//! Big-endian byte-level primitives shared by the envelope, payload and
//! instruction-program codecs.

use vstd::prelude::*;

verus! {

broadcast use
    vstd::array::group_array_axioms,
    vstd::std_specs::vec::group_vec_axioms,
    vstd::seq::group_seq_axioms;

/// Big-endian encoding of a 32-bit integer.
pub open spec fn spec_encode_u32(n: u32) -> Seq<u8> {
    seq![(n >> 24) as u8, (n >> 16) as u8, (n >> 8) as u8, n as u8]
}

/// The 32-bit integer read from four big-endian bytes.
pub open spec fn spec_u32_from(b0: u8, b1: u8, b2: u8, b3: u8) -> u32 {
    ((b0 as u32) << 24) | ((b1 as u32) << 16) | ((b2 as u32) << 8) | (b3 as u32)
}

/// Big-endian encoding of a 64-bit integer.
pub open spec fn spec_encode_u64(n: u64) -> Seq<u8> {
    seq![
        (n >> 56) as u8,
        (n >> 48) as u8,
        (n >> 40) as u8,
        (n >> 32) as u8,
        (n >> 24) as u8,
        (n >> 16) as u8,
        (n >> 8) as u8,
        n as u8,
    ]
}

/// The 64-bit integer read from eight big-endian bytes.
pub open spec fn spec_u64_from(b: Seq<u8>) -> u64
    recommends
        b.len() == 8,
{
    ((b[0] as u64) << 56) | ((b[1] as u64) << 48) | ((b[2] as u64) << 40) | ((b[3] as u64) << 32)
        | ((b[4] as u64) << 24) | ((b[5] as u64) << 16) | ((b[6] as u64) << 8) | (b[7] as u64)
}

/// Big-endian encoding of a 128-bit integer.
pub open spec fn spec_encode_u128(n: u128) -> Seq<u8> {
    seq![
        (n >> 120) as u8,
        (n >> 112) as u8,
        (n >> 104) as u8,
        (n >> 96) as u8,
        (n >> 88) as u8,
        (n >> 80) as u8,
        (n >> 72) as u8,
        (n >> 64) as u8,
        (n >> 56) as u8,
        (n >> 48) as u8,
        (n >> 40) as u8,
        (n >> 32) as u8,
        (n >> 24) as u8,
        (n >> 16) as u8,
        (n >> 8) as u8,
        n as u8,
    ]
}

/// The 128-bit integer read from sixteen big-endian bytes.
pub open spec fn spec_u128_from(b: Seq<u8>) -> u128
    recommends
        b.len() == 16,
{
    ((b[0] as u128) << 120) | ((b[1] as u128) << 112) | ((b[2] as u128) << 104) | ((b[3] as u128)
        << 96) | ((b[4] as u128) << 88) | ((b[5] as u128) << 80) | ((b[6] as u128) << 72) | ((
    b[7] as u128) << 64) | ((b[8] as u128) << 56) | ((b[9] as u128) << 48) | ((b[10] as u128)
        << 40) | ((b[11] as u128) << 32) | ((b[12] as u128) << 24) | ((b[13] as u128) << 16) | ((
    b[14] as u128) << 8) | (b[15] as u128)
}

/// Reading back the big-endian encoding of a 32-bit integer returns the
/// integer, and the encoding of what was read returns the bytes.
pub proof fn lemma_u32_round_trip(n: u32, b0: u8, b1: u8, b2: u8, b3: u8)
    ensures
        spec_u32_from((n >> 24) as u8, (n >> 16) as u8, (n >> 8) as u8, n as u8) == n,
        spec_encode_u32(spec_u32_from(b0, b1, b2, b3)) =~= seq![b0, b1, b2, b3],
{
    assert((((n >> 24) as u8) as u32) << 24 | (((n >> 16) as u8) as u32) << 16 | (((n >> 8) as u8)
        as u32) << 8 | ((n as u8) as u32) == n) by (bit_vector);
    let m = ((b0 as u32) << 24) | ((b1 as u32) << 16) | ((b2 as u32) << 8) | (b3 as u32);
    assert((m >> 24) as u8 == b0 && (m >> 16) as u8 == b1 && (m >> 8) as u8 == b2 && m as u8 == b3)
        by (bit_vector)
        requires
            m == ((b0 as u32) << 24) | ((b1 as u32) << 16) | ((b2 as u32) << 8) | (b3 as u32),
    ;
}

/// Writes the big-endian encoding of a 32-bit integer.
pub fn encode_u32(n: u32, out: &mut Vec<u8>)
    ensures
        final(out)@ == old(out)@ + spec_encode_u32(n),
{
    out.push(#[verifier::truncate] ((n >> 24) as u8));
    out.push(#[verifier::truncate] ((n >> 16) as u8));
    out.push(#[verifier::truncate] ((n >> 8) as u8));
    out.push(#[verifier::truncate] (n as u8));
    proof {
        assert(final(out)@ =~= old(out)@ + spec_encode_u32(n));
    }
}

/// Writes the big-endian encoding of a 64-bit integer.
pub fn encode_u64(n: u64, out: &mut Vec<u8>)
    ensures
        final(out)@ == old(out)@ + spec_encode_u64(n),
{
    out.push(#[verifier::truncate] ((n >> 56) as u8));
    out.push(#[verifier::truncate] ((n >> 48) as u8));
    out.push(#[verifier::truncate] ((n >> 40) as u8));
    out.push(#[verifier::truncate] ((n >> 32) as u8));
    out.push(#[verifier::truncate] ((n >> 24) as u8));
    out.push(#[verifier::truncate] ((n >> 16) as u8));
    out.push(#[verifier::truncate] ((n >> 8) as u8));
    out.push(#[verifier::truncate] (n as u8));
    proof {
        assert(final(out)@ =~= old(out)@ + spec_encode_u64(n));
    }
}

/// Writes the big-endian encoding of a 128-bit integer.
pub fn encode_u128(n: u128, out: &mut Vec<u8>)
    ensures
        final(out)@ == old(out)@ + spec_encode_u128(n),
{
    out.push(#[verifier::truncate] ((n >> 120) as u8));
    out.push(#[verifier::truncate] ((n >> 112) as u8));
    out.push(#[verifier::truncate] ((n >> 104) as u8));
    out.push(#[verifier::truncate] ((n >> 96) as u8));
    out.push(#[verifier::truncate] ((n >> 88) as u8));
    out.push(#[verifier::truncate] ((n >> 80) as u8));
    out.push(#[verifier::truncate] ((n >> 72) as u8));
    out.push(#[verifier::truncate] ((n >> 64) as u8));
    out.push(#[verifier::truncate] ((n >> 56) as u8));
    out.push(#[verifier::truncate] ((n >> 48) as u8));
    out.push(#[verifier::truncate] ((n >> 40) as u8));
    out.push(#[verifier::truncate] ((n >> 32) as u8));
    out.push(#[verifier::truncate] ((n >> 24) as u8));
    out.push(#[verifier::truncate] ((n >> 16) as u8));
    out.push(#[verifier::truncate] ((n >> 8) as u8));
    out.push(#[verifier::truncate] (n as u8));
    proof {
        assert(final(out)@ =~= old(out)@ + spec_encode_u128(n));
    }
}

/// Reads a big-endian 32-bit integer at `pos`.
pub fn decode_u32(b: &[u8], pos: usize) -> (r: u32)
    requires
        pos + 4 <= b@.len(),
    ensures
        r == spec_u32_from(b@[pos as int], b@[pos + 1], b@[pos + 2], b@[pos + 3]),
{
    ((b[pos] as u32) << 24) | ((b[pos + 1] as u32) << 16) | ((b[pos + 2] as u32) << 8) | (b[pos
        + 3] as u32)
}

/// Reads a big-endian 64-bit integer at `pos`.
pub fn decode_u64(b: &[u8], pos: usize) -> (r: u64)
    requires
        pos + 8 <= b@.len(),
    ensures
        r == spec_u64_from(b@.subrange(pos as int, pos + 8)),
{
    let r = ((b[pos] as u64) << 56) | ((b[pos + 1] as u64) << 48) | ((b[pos + 2] as u64) << 40) | ((
    b[pos + 3] as u64) << 32) | ((b[pos + 4] as u64) << 24) | ((b[pos + 5] as u64) << 16) | ((b[pos
        + 6] as u64) << 8) | (b[pos + 7] as u64);
    proof {
        let s = b@.subrange(pos as int, pos + 8);
        assert(s[0] == b@[pos as int] && s[1] == b@[pos + 1] && s[2] == b@[pos + 2] && s[3]
            == b@[pos + 3] && s[4] == b@[pos + 4] && s[5] == b@[pos + 5] && s[6] == b@[pos + 6]
            && s[7] == b@[pos + 7]);
    }
    r
}

/// Reads a big-endian 128-bit integer at `pos`.
pub fn decode_u128(b: &[u8], pos: usize) -> (r: u128)
    requires
        pos + 16 <= b@.len(),
    ensures
        r == spec_u128_from(b@.subrange(pos as int, pos + 16)),
{
    let r = ((b[pos] as u128) << 120) | ((b[pos + 1] as u128) << 112) | ((b[pos + 2] as u128)
        << 104) | ((b[pos + 3] as u128) << 96) | ((b[pos + 4] as u128) << 88) | ((b[pos
        + 5] as u128) << 80) | ((b[pos + 6] as u128) << 72) | ((b[pos + 7] as u128) << 64) | ((
    b[pos + 8] as u128) << 56) | ((b[pos + 9] as u128) << 48) | ((b[pos + 10] as u128) << 40) | ((
    b[pos + 11] as u128) << 32) | ((b[pos + 12] as u128) << 24) | ((b[pos + 13] as u128) << 16) | ((
    b[pos + 14] as u128) << 8) | (b[pos + 15] as u128);
    proof {
        let s = b@.subrange(pos as int, pos + 16);
        assert(forall|i: int| 0 <= i < 16 ==> s[i] == b@[pos + i]);
    }
    r
}

/// Reading back the big-endian encoding of a 64-bit integer returns the
/// integer, and the encoding of what was read returns the bytes.
pub proof fn lemma_u64_round_trip(n: u64, b: Seq<u8>)
    requires
        b.len() == 8,
    ensures
        spec_u64_from(spec_encode_u64(n)) == n,
        spec_encode_u64(spec_u64_from(b)) =~= b,
{
    let e = spec_encode_u64(n);
    assert((((n >> 56) as u8) as u64) << 56 | (((n >> 48) as u8) as u64) << 48 | (((n >> 40) as u8)
        as u64) << 40 | (((n >> 32) as u8) as u64) << 32 | (((n >> 24) as u8) as u64) << 24 | (((n
        >> 16) as u8) as u64) << 16 | (((n >> 8) as u8) as u64) << 8 | ((n as u8) as u64) == n)
        by (bit_vector);
    let (c0, c1, c2, c3, c4, c5, c6, c7) = (b[0], b[1], b[2], b[3], b[4], b[5], b[6], b[7]);
    let m = ((c0 as u64) << 56) | ((c1 as u64) << 48) | ((c2 as u64) << 40) | ((c3 as u64) << 32)
        | ((c4 as u64) << 24) | ((c5 as u64) << 16) | ((c6 as u64) << 8) | (c7 as u64);
    assert((m >> 56) as u8 == c0 && (m >> 48) as u8 == c1 && (m >> 40) as u8 == c2 && (m >> 32)
        as u8 == c3 && (m >> 24) as u8 == c4 && (m >> 16) as u8 == c5 && (m >> 8) as u8 == c6 && m
        as u8 == c7)
        by (bit_vector)
        requires
            m == ((c0 as u64) << 56) | ((c1 as u64) << 48) | ((c2 as u64) << 40) | ((c3 as u64)
                << 32) | ((c4 as u64) << 24) | ((c5 as u64) << 16) | ((c6 as u64) << 8) | (
            c7 as u64),
    ;
}

/// Reading back the big-endian encoding of a 128-bit integer returns the
/// integer, and the encoding of what was read returns the bytes.
pub proof fn lemma_u128_round_trip(n: u128, b: Seq<u8>)
    requires
        b.len() == 16,
    ensures
        spec_u128_from(spec_encode_u128(n)) == n,
        spec_encode_u128(spec_u128_from(b)) =~= b,
{
    assert((((n >> 120) as u8) as u128) << 120 | (((n >> 112) as u8) as u128) << 112 | (((n >> 104)
        as u8) as u128) << 104 | (((n >> 96) as u8) as u128) << 96 | (((n >> 88) as u8) as u128)
        << 88 | (((n >> 80) as u8) as u128) << 80 | (((n >> 72) as u8) as u128) << 72 | (((n >> 64)
        as u8) as u128) << 64 | (((n >> 56) as u8) as u128) << 56 | (((n >> 48) as u8) as u128)
        << 48 | (((n >> 40) as u8) as u128) << 40 | (((n >> 32) as u8) as u128) << 32 | (((n >> 24)
        as u8) as u128) << 24 | (((n >> 16) as u8) as u128) << 16 | (((n >> 8) as u8) as u128) << 8
        | ((n as u8) as u128) == n) by (bit_vector);
    let (c0, c1, c2, c3, c4, c5, c6, c7) = (b[0], b[1], b[2], b[3], b[4], b[5], b[6], b[7]);
    let (c8, c9, c10, c11, c12, c13, c14, c15) = (
        b[8],
        b[9],
        b[10],
        b[11],
        b[12],
        b[13],
        b[14],
        b[15],
    );
    let m = ((c0 as u128) << 120) | ((c1 as u128) << 112) | ((c2 as u128) << 104) | ((c3 as u128)
        << 96) | ((c4 as u128) << 88) | ((c5 as u128) << 80) | ((c6 as u128) << 72) | ((c7 as u128)
        << 64) | ((c8 as u128) << 56) | ((c9 as u128) << 48) | ((c10 as u128) << 40) | ((
    c11 as u128) << 32) | ((c12 as u128) << 24) | ((c13 as u128) << 16) | ((c14 as u128) << 8) | (
    c15 as u128);
    assert((m >> 120) as u8 == c0 && (m >> 112) as u8 == c1 && (m >> 104) as u8 == c2 && (m >> 96)
        as u8 == c3 && (m >> 88) as u8 == c4 && (m >> 80) as u8 == c5 && (m >> 72) as u8 == c6 && (m
        >> 64) as u8 == c7)
        by (bit_vector)
        requires
            m == ((c0 as u128) << 120) | ((c1 as u128) << 112) | ((c2 as u128) << 104) | ((
            c3 as u128) << 96) | ((c4 as u128) << 88) | ((c5 as u128) << 80) | ((c6 as u128) << 72)
                | ((c7 as u128) << 64) | ((c8 as u128) << 56) | ((c9 as u128) << 48) | ((
            c10 as u128) << 40) | ((c11 as u128) << 32) | ((c12 as u128) << 24) | ((c13 as u128)
                << 16) | ((c14 as u128) << 8) | (c15 as u128),
    ;
    assert((m >> 56) as u8 == c8 && (m >> 48) as u8 == c9 && (m >> 40) as u8 == c10 && (m >> 32)
        as u8 == c11 && (m >> 24) as u8 == c12 && (m >> 16) as u8 == c13 && (m >> 8) as u8 == c14
        && m as u8 == c15)
        by (bit_vector)
        requires
            m == ((c0 as u128) << 120) | ((c1 as u128) << 112) | ((c2 as u128) << 104) | ((
            c3 as u128) << 96) | ((c4 as u128) << 88) | ((c5 as u128) << 80) | ((c6 as u128) << 72)
                | ((c7 as u128) << 64) | ((c8 as u128) << 56) | ((c9 as u128) << 48) | ((
            c10 as u128) << 40) | ((c11 as u128) << 32) | ((c12 as u128) << 24) | ((c13 as u128)
                << 16) | ((c14 as u128) << 8) | (c15 as u128),
    ;
}


/// The 20-byte array whose view is the given sequence.
pub open spec fn bytes20_of(s: Seq<u8>) -> [u8; 20] {
    choose|a: [u8; 20]| a@ == s
}

/// The 32-byte array whose view is the given sequence.
pub open spec fn bytes32_of(s: Seq<u8>) -> [u8; 32] {
    choose|a: [u8; 32]| a@ == s
}

/// Any 20-byte sequence is the view of some 20-byte array.
pub proof fn lemma_bytes20_of(s: Seq<u8>)
    requires
        s.len() == 20,
    ensures
        bytes20_of(s)@ == s,
{
    let a0 = vstd::array::spec_array_fill_for_copy_type::<u8, 20>(0u8);
    let a = seq_to_array_rec::<20>(a0, s, 20);
    lemma_seq_to_array_rec::<20>(a0, s, 20);
    assert(a@ =~= s);
    assert(bytes20_of(s)@ == s) by {
        assert(exists|x: [u8; 20]| x@ == s) by {
            assert(a@ == s);
        }
    }
}

/// Any 32-byte sequence is the view of some 32-byte array.
pub proof fn lemma_bytes32_of(s: Seq<u8>)
    requires
        s.len() == 32,
    ensures
        bytes32_of(s)@ == s,
{
    let a0 = vstd::array::spec_array_fill_for_copy_type::<u8, 32>(0u8);
    let a = seq_to_array_rec::<32>(a0, s, 32);
    lemma_seq_to_array_rec::<32>(a0, s, 32);
    assert(a@ =~= s);
    assert(bytes32_of(s)@ == s) by {
        assert(exists|x: [u8; 32]| x@ == s) by {
            assert(a@ == s);
        }
    }
}

/// Overwrites the first `k` entries of an array with a sequence's entries.
pub open spec fn seq_to_array_rec<const N: usize>(a: [u8; N], s: Seq<u8>, k: int) -> [u8; N]
    decreases k,
{
    if k <= 0 {
        a
    } else {
        vstd::array::spec_array_update(seq_to_array_rec::<N>(a, s, k - 1), k - 1, s[k - 1])
    }
}

/// After overwriting, the first `k` entries agree with the sequence and
/// the rest keep the array's prior entries.
pub proof fn lemma_seq_to_array_rec<const N: usize>(a: [u8; N], s: Seq<u8>, k: int)
    requires
        0 <= k <= N,
        k <= s.len(),
    ensures
        forall|i: int| 0 <= i < k ==> seq_to_array_rec::<N>(a, s, k)@[i] == s[i],
        forall|i: int| k <= i < N ==> seq_to_array_rec::<N>(a, s, k)@[i] == a@[i],
    decreases k,
{
    if k > 0 {
        lemma_seq_to_array_rec::<N>(a, s, k - 1);
    }
}

/// Copies `N` bytes starting at `pos` into a fresh array.
pub fn read_bytes<const N: usize>(b: &[u8], pos: usize) -> (r: [u8; N])
    requires
        pos + N <= b@.len(),
    ensures
        r@ == b@.subrange(pos as int, pos + N),
{
    let blen = b.len();
    let mut a = [0u8; N];
    let mut i: usize = 0;
    while i < N
        invariant
            0 <= i <= N,
            blen == b@.len(),
            pos + N <= blen,
            a@.len() == N,
            forall|j: int| 0 <= j < i ==> a@[j] == b@[pos + j],
        decreases N - i,
    {
        a[i] = b[pos + i];
        i += 1;
    }
    proof {
        assert(a@ =~= b@.subrange(pos as int, pos + N));
    }
    a
}

/// The two halves of a subrange concatenate to the whole.
pub proof fn lemma_subrange_concat(b: Seq<u8>, i: int, j: int, k: int)
    requires
        0 <= i <= j <= k <= b.len(),
    ensures
        b.subrange(i, k) == b.subrange(i, j) + b.subrange(j, k),
{
    assert(b.subrange(i, k) =~= b.subrange(i, j) + b.subrange(j, k));
}


/// The typed error returned when a byte string is not a well-formed
/// encoding.
#[derive(Clone, Copy, PartialEq, Eq, Structural, Debug)]
pub struct DecodeError;

/// Appends a fixed-size byte array.
pub fn push_bytes<const N: usize>(a: &[u8; N], out: &mut Vec<u8>)
    ensures
        final(out)@ == old(out)@ + a@,
{
    let mut i: usize = 0;
    while i < N
        invariant
            0 <= i <= N,
            out@ == old(out)@ + a@.subrange(0, i as int),
        decreases N - i,
    {
        out.push(a[i]);
        proof {
            assert(old(out)@ + a@.subrange(0, i + 1) =~= (old(out)@ + a@.subrange(0, i as int)).push(
                a@[i as int],
            ));
        }
        i += 1;
    }
    proof {
        assert(a@.subrange(0, N as int) =~= a@);
    }
}

} // verus!
