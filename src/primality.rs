use vstd::prelude::*;

verus! {

/// `n` is prime: at least 2, and no integer in `2 .. n` divides it.
pub open spec fn is_prime(n: nat) -> bool {
    &&& n >= 2
    &&& forall|d: nat| 2 <= d < n ==> #[trigger] (n % d) != 0
}

/// Relies on `slow_primes::is_prime_miller_rabin`, which runs Miller-Rabin
/// with a witness set chosen by the size of `n` (bases 2, 7 and 61 cover every
/// `n` below 4_759_123_141). Below 2^32 the answer is exact, and no product of
/// two residues overflows `u64`; above that the squarings can overflow, so the
/// argument is kept within 32 bits.
pub assume_specification[ slow_primes::is_prime_miller_rabin ](n: u64) -> (r: bool)
    requires
        n <= 0xFFFF_FFFF,
    ensures
        r == is_prime(n as nat),
;

} // verus!
