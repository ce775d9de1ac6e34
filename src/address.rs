//! Onion-service address derivation from a key seed.
use crate::base32::{base32, base32encode, lemma_base32_shape};
use crate::bytes::{ascii_bytes, push_all};
use crypto::digest::Digest;
use crypto::sha3::Sha3;
use vstd::prelude::*;
use vstd::string::{is_ascii, StringSliceAdditionalSpecFns};

verus! {

broadcast use vstd::string::group_string_axioms;

/// Domain-separation tag that starts the checksum's input.
pub const CHECKSUM_TAG: &'static str = ".onion checksum";

/// Address format version, last byte of the checksum input and of the payload.
pub const VERSION: u8 = 3;

/// Expanded 64-byte secret key that Ed25519 key generation makes from a seed.
pub uninterp spec fn keypair_secret_of(seed: Seq<u8>) -> Seq<u8>;

/// Public key that Ed25519 key generation makes from a seed.
pub uninterp spec fn keypair_public_of(seed: Seq<u8>) -> Seq<u8>;

/// SHA3-256 digest of a byte sequence.
pub uninterp spec fn sha3_256_of(data: Seq<u8>) -> Seq<u8>;

/// Relies on crypto::ed25519::keypair: the expanded secret key and the public
/// key, both determined by the seed alone; the secret key holds the seed's
/// bytes first and the public key in its last 32 bytes.
#[verifier::external_body]
fn ed25519_keypair(seed: &[u8; 20]) -> (r: ([u8; 64], [u8; 32]))
    ensures
        r.0@ == keypair_secret_of(seed@),
        r.1@ == keypair_public_of(seed@),
        r.0@.subrange(0, 20) == seed@,
        r.0@.subrange(32, 64) == r.1@,
{
    crypto::ed25519::keypair(seed)
}

/// Relies on crypto::sha3::Sha3::sha3_256, fed with Digest::input and read with
/// Digest::result: the SHA3-256 digest of the bytes.
#[verifier::external_body]
fn sha3_256(data: &[u8]) -> (r: [u8; 32])
    ensures
        r@ == sha3_256_of(data@),
{
    let mut hasher = Sha3::sha3_256();
    hasher.input(data);
    let mut out = [0u8; 32];
    hasher.result(&mut out);
    out
}

/// Input of the checksum: tag, public key, version byte.
pub open spec fn checksum_message(public: Seq<u8>) -> Seq<u8> {
    ascii_bytes(CHECKSUM_TAG@) + public + seq![VERSION]
}

/// The 35 encoded bytes: public key, first two checksum bytes, version byte.
pub open spec fn address_payload(public: Seq<u8>, checksum: Seq<u8>) -> Seq<u8> {
    public + checksum.subrange(0, 2) + seq![VERSION]
}

/// The address of a public key.
pub open spec fn address_of_public(public: Seq<u8>) -> Seq<char> {
    base32(address_payload(public, sha3_256_of(checksum_message(public))))
}

/// The address of the key pair generated from `seed`.
pub open spec fn address_of_seed(seed: Seq<u8>) -> Seq<char> {
    address_of_public(keypair_public_of(seed))
}

/// Builds the checksum's input for a public key.
pub fn build_checksum_message(public: &[u8; 32]) -> (r: Vec<u8>)
    ensures
        r@ == checksum_message(public@),
        r@.len() == 48,
{
    proof {
        reveal_strlit(".onion checksum");
        assert(is_ascii(CHECKSUM_TAG));
        assert(CHECKSUM_TAG.spec_bytes() =~= ascii_bytes(CHECKSUM_TAG@));
    }
    let mut msg: Vec<u8> = Vec::new();
    push_all(&mut msg, CHECKSUM_TAG.as_bytes());
    push_all(&mut msg, public.as_slice());
    msg.push(VERSION);
    assert(msg@ =~= checksum_message(public@));
    msg
}

/// The SHA3-256 checksum of a public key, of which the address keeps two bytes.
pub fn address_checksum(public: &[u8; 32]) -> (r: [u8; 32])
    ensures
        r@ == sha3_256_of(checksum_message(public@)),
{
    let msg = build_checksum_message(public);
    sha3_256(msg.as_slice())
}

/// The address of a public key, given its checksum: 56 base32 symbols.
pub fn onion_address(public: &[u8; 32], checksum: &[u8; 32]) -> (r: String)
    ensures
        r@ == base32(address_payload(public@, checksum@)),
        r@.len() == 56,
{
    let mut payload: Vec<u8> = Vec::new();
    push_all(&mut payload, public.as_slice());
    payload.push(checksum[0]);
    payload.push(checksum[1]);
    payload.push(VERSION);
    assert(payload@ =~= address_payload(public@, checksum@));
    proof {
        lemma_base32_shape(payload@);
    }
    base32encode(payload.as_slice())
}

/// Generates the key pair of `seed` and its address. The address is that of
/// the public key stored in the secret key's last 32 bytes.
pub fn generate_address(seed: &[u8; 20]) -> (r: ([u8; 64], String))
    ensures
        r.0@ == keypair_secret_of(seed@),
        r.1@ == address_of_seed(seed@),
        r.1@ == address_of_public(r.0@.subrange(32, 64)),
        r.0@.subrange(0, 20) == seed@,
        r.1@.len() == 56,
{
    let (secret, public) = ed25519_keypair(seed);
    let checksum = address_checksum(&public);
    let address = onion_address(&public, &checksum);
    (secret, address)
}

/// Derivation depends on the seed alone: equal seeds give equal secret keys and
/// equal addresses.
pub proof fn lemma_derivation_deterministic(s1: Seq<u8>, s2: Seq<u8>)
    requires
        s1 == s2,
    ensures
        keypair_secret_of(s1) == keypair_secret_of(s2),
        address_of_seed(s1) == address_of_seed(s2),
{
}

} // verus!
