use sha3::Digest;
use vstd::prelude::*;

verus! {

/// The SHA3-256 digest of a byte string.
pub uninterp spec fn sha3_256_of(msg: Seq<u8>) -> Seq<u8>;

/// Relies on `sha3::Sha3_256` through `digest::Digest::digest`: the 32-byte
/// SHA3-256 digest of `msg`, which depends on the bytes of `msg` alone.
#[verifier::external_body]
fn sha3_256(msg: &[u8]) -> (r: [u8; 32])
    ensures
        r@ == sha3_256_of(msg@),
{
    sha3::Sha3_256::digest(msg).into()
}

/// The eight bytes of `n`, most significant first.
pub open spec fn be_u64_bytes(n: u64) -> Seq<u8> {
    seq![
        (n / 0x0100_0000_0000_0000) as u8,
        (n / 0x0001_0000_0000_0000 % 0x100) as u8,
        (n / 0x0000_0100_0000_0000 % 0x100) as u8,
        (n / 0x0000_0001_0000_0000 % 0x100) as u8,
        (n / 0x0000_0000_0100_0000 % 0x100) as u8,
        (n / 0x0000_0000_0001_0000 % 0x100) as u8,
        (n / 0x0000_0000_0000_0100 % 0x100) as u8,
        (n % 0x100) as u8,
    ]
}

/// The last four bytes of a 32-byte digest, read as a big-endian integer.
pub open spec fn tail_word(d: Seq<u8>) -> u32 {
    (d[28] as int * 0x100_0000 + d[29] as int * 0x1_0000 + d[30] as int * 0x100
        + d[31] as int) as u32
}

/// The candidate for attempt `k` on message `msg`: the digest of `msg`
/// followed by `k` in big-endian order, its last word, low bit set.
#[verifier::opaque]
pub open spec fn candidate(msg: Seq<u8>, k: u64) -> u32 {
    tail_word(sha3_256_of(msg + be_u64_bytes(k))) | 1
}

/// Every candidate is odd.
pub proof fn lemma_candidate_odd(msg: Seq<u8>, k: u64)
    ensures
        candidate(msg, k) % 2 == 1,
{
    reveal(candidate);
    let w = tail_word(sha3_256_of(msg + be_u64_bytes(k)));
    assert((w | 1) % 2 == 1) by (bit_vector);
}

/// Appends the bytes of `b` to `msg`.
pub fn append_bytes(msg: &mut Vec<u8>, b: &[u8])
    ensures
        final(msg)@ == old(msg)@ + b@,
{
    let mut i: usize = 0;
    while i < b.len()
        invariant
            i <= b@.len(),
            msg@ == old(msg)@ + b@.subrange(0, i as int),
        decreases b@.len() - i,
    {
        msg.push(b[i]);
        i += 1;
        assert(b@.subrange(0, i as int) =~= b@.subrange(0, i - 1) + seq![b@[i - 1]]);
    }
    assert(b@.subrange(0, b@.len() as int) =~= b@);
}

/// Appends the eight big-endian bytes of `n` to `msg`.
pub fn append_be_u64(msg: &mut Vec<u8>, n: u64)
    ensures
        final(msg)@ == old(msg)@ + be_u64_bytes(n),
{
    msg.push((n / 0x0100_0000_0000_0000) as u8);
    msg.push((n / 0x0001_0000_0000_0000 % 0x100) as u8);
    msg.push((n / 0x0000_0100_0000_0000 % 0x100) as u8);
    msg.push((n / 0x0000_0001_0000_0000 % 0x100) as u8);
    msg.push((n / 0x0000_0000_0100_0000 % 0x100) as u8);
    msg.push((n / 0x0000_0000_0001_0000 % 0x100) as u8);
    msg.push((n / 0x0000_0000_0000_0100 % 0x100) as u8);
    msg.push((n % 0x100) as u8);
    assert(msg@ =~= old(msg)@ + be_u64_bytes(n));
}

/// The candidate that a digest gives: its last four bytes read as a
/// big-endian word, with the low bit set.
pub fn digest_word(d: &[u8; 32]) -> (r: u32)
    ensures
        r == tail_word(d@) | 1,
{
    let w: u32 = (d[28] as u32) * 0x100_0000 + (d[29] as u32) * 0x1_0000 + (d[30] as u32) * 0x100
        + (d[31] as u32);
    w | 1
}

/// The candidate of one attempt: the digest of `msg`, read by `digest_word`.
pub fn digest_candidate(msg: &Vec<u8>) -> (r: u32)
    ensures
        r == tail_word(sha3_256_of(msg@)) | 1,
{
    let d = sha3_256(msg.as_slice());
    digest_word(&d)
}

} // verus!
