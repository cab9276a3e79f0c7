use crate::message::{append_be_u64, append_bytes, candidate, digest_candidate, lemma_candidate_odd};
use crate::primality::is_prime;
use vstd::prelude::*;

verus! {

/// Attempt `k` (counting from 1) on message `msg` yields a prime.
pub open spec fn found_at(msg: Seq<u8>, k: u64) -> bool {
    k >= 1 && is_prime(candidate(msg, k) as nat)
}

/// Attempt `k` is the first attempt on `msg` that yields a prime.
pub open spec fn first_found_at(msg: Seq<u8>, k: u64) -> bool {
    &&& found_at(msg, k)
    &&& forall|j: u64| 1 <= j < k ==> !#[trigger] found_at(msg, j)
}

/// The prime hash of `msg`: the candidate of the first attempt that yields a
/// prime, or `None` where no attempt numbered by a `u64` does.
pub open spec fn prime_hash(msg: Seq<u8>) -> Option<u128> {
    if exists|k: u64| found_at(msg, k) {
        Some(candidate(msg, choose|k: u64| first_found_at(msg, k)) as u128)
    } else {
        None
    }
}

/// The bytes of each part of a list of byte slices.
pub open spec fn part_bytes(parts: Seq<&[u8]>) -> Seq<Seq<u8>> {
    parts.map_values(|p: &[u8]| p@)
}

/// At most one attempt is the first to yield a prime.
pub proof fn lemma_first_found_unique(msg: Seq<u8>, k1: u64, k2: u64)
    requires
        first_found_at(msg, k1),
        first_found_at(msg, k2),
    ensures
        k1 == k2,
{
    if k1 < k2 {
        assert(found_at(msg, k1));
    } else if k2 < k1 {
        assert(found_at(msg, k2));
    }
}

/// Where some attempt yields a prime, a first one does.
pub proof fn lemma_first_exists(msg: Seq<u8>, k: u64)
    requires
        found_at(msg, k),
    ensures
        exists|j: u64| first_found_at(msg, j),
    decreases k,
{
    if exists|j: u64| 1 <= j < k && found_at(msg, j) {
        let j = choose|j: u64| 1 <= j < k && found_at(msg, j);
        lemma_first_exists(msg, j);
    } else {
        assert(first_found_at(msg, k));
    }
}

/// A prime hash, where there is one, is an odd prime that fits in 32 bits.
pub proof fn lemma_prime_hash_odd_prime(msg: Seq<u8>)
    ensures
        prime_hash(msg) matches Some(p) ==> is_prime(p as nat) && p % 2 == 1 && p <= 0xFFFF_FFFF,
{
    if exists|k: u64| found_at(msg, k) {
        lemma_first_exists(msg, choose|k: u64| found_at(msg, k));
        let w = choose|k: u64| first_found_at(msg, k);
        lemma_candidate_odd(msg, w);
    }
}

/// Hashes byte strings to primes.
#[derive(Clone, Copy, Default)]
pub struct PrimeHasher {}

/// The prime hash of `msg` is the candidate of the first attempt that yields
/// a prime.
pub proof fn lemma_prime_hash_first(msg: Seq<u8>, k: u64)
    requires
        first_found_at(msg, k),
    ensures
        prime_hash(msg) == Some(candidate(msg, k) as u128),
{
    let w = choose|j: u64| first_found_at(msg, j);
    lemma_first_found_unique(msg, w, k);
}

/// One attempt: the candidate of counter `k` on the message that `msg` holds.
/// `msg` holds the same bytes on return.
fn attempt(msg: &mut Vec<u8>, k: u64) -> (c: u32)
    ensures
        c == candidate(old(msg)@, k),
        final(msg)@ == old(msg)@,
{
    let n = msg.len();
    append_be_u64(msg, k);
    let c = digest_candidate(msg);
    msg.truncate(n);
    proof {
        reveal(candidate);
    }
    assert(msg@ =~= old(msg)@);
    c
}

/// Tries the counters 1, 2, ... in turn on the bytes of `msg` and returns the
/// first candidate that is prime; `None` once the `u64` counters are spent.
fn search_prime(msg: &mut Vec<u8>) -> (r: Option<u128>)
    ensures
        r == prime_hash(old(msg)@),
{
    let ghost prefix = msg@;
    let mut search: u64 = 0;
    while search < u64::MAX
        invariant
            msg@ == prefix,
            prefix == old(msg)@,
            forall|j: u64| 1 <= j <= search ==> !#[trigger] found_at(prefix, j),
        decreases u64::MAX - search,
    {
        search += 1;
        let c = attempt(msg, search);
        if slow_primes::is_prime_miller_rabin(c as u64) {
            proof {
                assert(found_at(prefix, search));
                assert forall|j: u64| 1 <= j < search implies !#[trigger] found_at(prefix, j) by {
                    assert(j <= search - 1);
                }
                lemma_prime_hash_first(prefix, search);
            }
            return Some(c as u128);
        }
    }
    None
}

/// The prime hash depends on the bytes alone: equal byte strings have equal
/// prime hashes.
pub proof fn lemma_hash_deterministic(a: Seq<u8>, b: Seq<u8>)
    requires
        a =~= b,
    ensures
        prime_hash(a) == prime_hash(b),
{
}

/// Hashing the two parts `a` and `b` as a list gives the prime hash of their
/// concatenation.
pub proof fn lemma_hashv_concat(a: Seq<u8>, b: Seq<u8>)
    ensures
        prime_hash(seq![a, b].flatten()) == prime_hash(a + b),
{
    seq![a].lemma_flatten_push(b);
    assert(seq![a].push(b) =~= seq![a, b]);
    seq![a].lemma_flatten_singleton();
}

impl PrimeHasher {
    /// The prime hash of `data`: for the counters 1, 2, ..., the SHA3-256
    /// digest of `data` followed by the counter's eight big-endian bytes is
    /// taken, its last four bytes are read as a big-endian word, the low bit
    /// is set, and the first such word that is prime is returned. `None` only
    /// where every `u64` counter has been tried.
    pub fn hash(data: &[u8]) -> (r: Option<u128>)
        ensures
            r == prime_hash(data@),
            r is Some <==> exists|k: u64| found_at(data@, k),
            r matches Some(p) ==> is_prime(p as nat) && p % 2 == 1 && p <= 0xFFFF_FFFF,
    {
        let mut msg: Vec<u8> = Vec::new();
        append_bytes(&mut msg, data);
        assert(msg@ =~= data@);
        proof {
            lemma_prime_hash_odd_prime(data@);
        }
        search_prime(&mut msg)
    }

    /// The prime hash of the parts of `data` taken in order, as one byte
    /// string.
    pub fn hashv(data: &[&[u8]]) -> (r: Option<u128>)
        ensures
            r == prime_hash(part_bytes(data@).flatten()),
            r is Some <==> exists|k: u64| found_at(part_bytes(data@).flatten(), k),
            r matches Some(p) ==> is_prime(p as nat) && p % 2 == 1 && p <= 0xFFFF_FFFF,
    {
        let mut msg: Vec<u8> = Vec::new();
        let mut i: usize = 0;
        while i < data.len()
            invariant
                i <= data@.len(),
                msg@ == part_bytes(data@.subrange(0, i as int)).flatten(),
            decreases data@.len() - i,
        {
            let part: &[u8] = data[i];
            append_bytes(&mut msg, part);
            proof {
                let f = |p: &[u8]| p@;
                assert(data@.subrange(0, i + 1).map_values(f) =~= data@.subrange(0, i as int).map_values(f).push(part@));
                data@.subrange(0, i as int).map_values(f).lemma_flatten_push(part@);
            }
            i += 1;
        }
        assert(data@.subrange(0, data@.len() as int) =~= data@);
        proof {
            lemma_prime_hash_odd_prime(part_bytes(data@).flatten());
        }
        search_prime(&mut msg)
    }
}

} // verus!
