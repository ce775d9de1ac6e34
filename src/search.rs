//! Prefix search over derived addresses.
use crate::address::{
    address_of_public, address_of_seed, address_payload, checksum_message, generate_address, keypair_public_of,
    keypair_secret_of, sha3_256_of,
};
use crate::base32::{is_symbol, lemma_base32_shape};
use rand::Rng;
use vstd::prelude::*;
use vstd::string::StrSliceExecFns;

verus! {

/// Whether `s` starts with `prefix`.
pub open spec fn has_prefix(s: Seq<char>, prefix: Seq<char>) -> bool {
    prefix.len() <= s.len() && s.subrange(0, prefix.len() as int) == prefix
}

/// Whether an address can start with `prefix`: it is no longer than an address
/// and made of base32 symbols only.
pub open spec fn prefix_reachable(prefix: Seq<char>) -> bool {
    prefix.len() <= 56 && forall|i: int| 0 <= i < prefix.len() ==> #[trigger] is_symbol(prefix[i])
}

/// A key pair whose address starts with the wanted prefix.
pub struct Found {
    /// How many seeds were tried, this one included.
    pub attempts: usize,
    /// The expanded secret key.
    pub secret: [u8; 64],
    /// The address, without the domain suffix.
    pub address: String,
}

/// Relies on rand::thread_rng and Rng::fill: twenty fresh random bytes, of
/// which nothing is known.
#[verifier::external_body]
fn random_seed() -> (r: [u8; 20]) {
    let mut seed = [0u8; 20];
    rand::thread_rng().fill(&mut seed[..]);
    seed
}

/// Whether `s` starts with `prefix`, character by character.
pub fn starts_with(s: &str, prefix: &str) -> (r: bool)
    ensures
        r == has_prefix(s@, prefix@),
{
    let n = s.unicode_len();
    let m = prefix.unicode_len();
    if m > n {
        return false;
    }
    let mut i: usize = 0;
    while i < m
        invariant
            m == prefix@.len(),
            n == s@.len(),
            m <= n,
            i <= m,
            s@.subrange(0, i as int) == prefix@.subrange(0, i as int),
        decreases m - i,
    {
        if s.get_char(i) != prefix.get_char(i) {
            assert(s@.subrange(0, m as int)[i as int] != prefix@[i as int]);
            return false;
        }
        i = i + 1;
        assert(s@.subrange(0, i as int) =~= prefix@.subrange(0, i as int));
    }
    assert(prefix@.subrange(0, m as int) =~= prefix@);
    true
}

/// Whether some address can start with `prefix`.
pub fn is_reachable_prefix(prefix: &str) -> (r: bool)
    ensures
        r == prefix_reachable(prefix@),
{
    let m = prefix.unicode_len();
    if m > 56 {
        return false;
    }
    let mut i: usize = 0;
    while i < m
        invariant
            m == prefix@.len(),
            i <= m,
            forall|j: int| 0 <= j < i ==> #[trigger] is_symbol(prefix@[j]),
        decreases m - i,
    {
        let c = prefix.get_char(i);
        if !(('a' <= c && c <= 'z') || ('2' <= c && c <= '7')) {
            assert(!is_symbol(prefix@[i as int]));
            return false;
        }
        i = i + 1;
    }
    true
}

/// No address starts with an unreachable prefix, so a search for one can stop
/// before it starts.
pub proof fn lemma_unreachable_prefix_never_matches(seed: Seq<u8>, prefix: Seq<char>)
    requires
        address_of_seed(seed).len() == 56,
        !prefix_reachable(prefix),
    ensures
        !has_prefix(address_of_seed(seed), prefix),
{
    let a = address_of_seed(seed);
    let public = keypair_public_of(seed);
    lemma_base32_shape(address_payload(public, sha3_256_of(checksum_message(public))));
    if prefix.len() <= 56 {
        let i = choose|i: int| 0 <= i < prefix.len() && !#[trigger] is_symbol(prefix[i]);
        assert(a.subrange(0, prefix.len() as int)[i] == a[i]);
    }
}

/// Derives the address of each seed in turn and stops at the first one that
/// starts with `prefix`; `attempts` is its position plus one.
pub fn find_match(prefix: &str, seeds: &Vec<[u8; 20]>) -> (r: Option<Found>)
    ensures
        match r {
            Some(f) => {
                &&& 1 <= f.attempts <= seeds@.len()
                &&& f.secret@ == keypair_secret_of(seeds@[f.attempts - 1]@)
                &&& f.address@ == address_of_seed(seeds@[f.attempts - 1]@)
                &&& has_prefix(f.address@, prefix@)
                &&& f.address@ == address_of_public(f.secret@.subrange(32, 64))
                &&& forall|j: int|
                    0 <= j < f.attempts - 1 ==> !has_prefix(
                        #[trigger] address_of_seed(seeds@[j]@),
                        prefix@,
                    )
            },
            None => forall|j: int|
                0 <= j < seeds@.len() ==> !has_prefix(
                    #[trigger] address_of_seed(seeds@[j]@),
                    prefix@,
                ),
        },
{
    let mut i: usize = 0;
    while i < seeds.len()
        invariant
            i <= seeds@.len(),
            forall|j: int|
                0 <= j < i ==> !has_prefix(#[trigger] address_of_seed(seeds@[j]@), prefix@),
        decreases seeds@.len() - i,
    {
        let (secret, address) = generate_address(&seeds[i]);
        if starts_with(address.as_str(), prefix) {
            return Some(Found { attempts: i + 1, secret, address });
        }
        i = i + 1;
    }
    None
}

/// Draws random seeds, at most `max_attempts` of them, until the address of
/// one starts with `prefix`. A prefix that no address can start with is
/// refused before any draw. An empty prefix is met by the first seed.
pub fn search(prefix: &str, max_attempts: usize) -> (r: Option<Found>)
    ensures
        !prefix_reachable(prefix@) ==> r is None,
        prefix@.len() == 0 && max_attempts >= 1 ==> r is Some && r->0.attempts == 1,
        match r {
            Some(f) => {
                &&& 1 <= f.attempts <= max_attempts
                &&& has_prefix(f.address@, prefix@)
                &&& f.address@ == address_of_public(f.secret@.subrange(32, 64))
                &&& exists|seed: Seq<u8>|
                    seed.len() == 20 && #[trigger] keypair_secret_of(seed) == f.secret@
                        && address_of_seed(seed) == f.address@
            },
            None => true,
        },
{
    if !is_reachable_prefix(prefix) {
        return None;
    }
    let mut i: usize = 0;
    while i < max_attempts
        invariant
            i <= max_attempts,
            prefix@.len() == 0 ==> i == 0,
            prefix_reachable(prefix@),
        decreases max_attempts - i,
    {
        let seed = random_seed();
        let (secret, address) = generate_address(&seed);
        proof {
            if prefix@.len() == 0 {
                assert(address@.subrange(0, 0) =~= prefix@);
            }
        }
        if starts_with(address.as_str(), prefix) {
            assert(keypair_secret_of(seed@) == secret@);
            return Some(Found { attempts: i + 1, secret, address });
        }
        i = i + 1;
    }
    None
}

} // verus!
