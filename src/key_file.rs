//! On-disk layout of the secret key that an onion-service host reads.
use crate::bytes::{ascii_bytes, push_all};
use vstd::prelude::*;
use vstd::string::{is_ascii, StringExecFns, StringSliceAdditionalSpecFns};

verus! {

broadcast use vstd::string::group_string_axioms;

/// The 32-byte format tag that starts the secret-key file.
pub const SECRET_KEY_TAG: &'static str = "== ed25519v1-secret: type0 ==\0\0\0";

/// Name of the secret-key file inside the address's directory.
pub const SECRET_KEY_FILE_NAME: &'static str = "hs_ed25519_secret_key";

/// Domain suffix shown after an address.
pub const ONION_SUFFIX: &'static str = ".onion";

/// The file: format tag, then the expanded secret key, nothing else.
pub open spec fn secret_key_file(secret: Seq<u8>) -> Seq<u8> {
    ascii_bytes(SECRET_KEY_TAG@) + secret
}

/// The bytes of the secret-key file for an expanded secret key.
pub fn secret_key_file_contents(secret: &[u8; 64]) -> (r: Vec<u8>)
    ensures
        r@ == secret_key_file(secret@),
        r@.len() == 96,
        r@.subrange(0, 32) == ascii_bytes(SECRET_KEY_TAG@),
        r@.subrange(32, 96) == secret@,
{
    proof {
        reveal_strlit("== ed25519v1-secret: type0 ==\0\0\0");
        assert(is_ascii(SECRET_KEY_TAG));
        assert(SECRET_KEY_TAG.spec_bytes() =~= ascii_bytes(SECRET_KEY_TAG@));
    }
    let mut out: Vec<u8> = Vec::new();
    push_all(&mut out, SECRET_KEY_TAG.as_bytes());
    push_all(&mut out, secret.as_slice());
    assert(out@.subrange(0, 32) =~= ascii_bytes(SECRET_KEY_TAG@));
    assert(out@.subrange(32, 96) =~= secret@);
    out
}

/// An address as shown to the operator, with the domain suffix.
pub fn display_address(address: &str) -> (r: String)
    ensures
        r@ == address@ + ONION_SUFFIX@,
{
    let mut s = String::from_str(address);
    s.append(ONION_SUFFIX);
    s
}

} // verus!
