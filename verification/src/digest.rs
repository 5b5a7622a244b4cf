//! The hash gate of contract initialisation: SHA-256 and lowercase hex
//! encoding, and the authorization key derived from them.
//!
//! The one-time instantiation of the registry is gated by a hash
//! comparison: the deploying identity, concatenated with a fixed suffix,
//! must hash to the key the request carries.

use vstd::prelude::*;
use vstd::string::StringExecFns;
use vstd::utf8::encode_utf8;

use sha2::Digest;

verus! {

/// The SHA-256 digest of a byte sequence. What the digest is takes pages
/// to state; it is a function of the input alone, so it only carries a
/// name here, with nothing stated about its value.
pub uninterp spec fn sha256_of(data: Seq<u8>) -> Seq<u8>;

/// The lowercase hex digit of a nibble.
pub open spec fn hex_digit(n: int) -> char {
    if n == 0 {
        '0'
    } else if n == 1 {
        '1'
    } else if n == 2 {
        '2'
    } else if n == 3 {
        '3'
    } else if n == 4 {
        '4'
    } else if n == 5 {
        '5'
    } else if n == 6 {
        '6'
    } else if n == 7 {
        '7'
    } else if n == 8 {
        '8'
    } else if n == 9 {
        '9'
    } else if n == 10 {
        'a'
    } else if n == 11 {
        'b'
    } else if n == 12 {
        'c'
    } else if n == 13 {
        'd'
    } else if n == 14 {
        'e'
    } else {
        'f'
    }
}

/// The lowercase hex encoding of a byte sequence: two digits per byte,
/// high nibble first.
pub open spec fn hex_lower_of(data: Seq<u8>) -> Seq<char>
    decreases data.len(),
{
    if data.len() == 0 {
        Seq::empty()
    } else {
        seq![hex_digit(data.first() as int / 16), hex_digit(data.first() as int % 16)]
            + hex_lower_of(data.drop_first())
    }
}

/// Relies on sha2's `Sha256::digest`: the digest depends on the input
/// bytes alone, so the result carries the name [`sha256_of`].
#[verifier::external_body]
fn sha256_digest(data: &[u8]) -> (r: Vec<u8>)
    ensures
        r@ == sha256_of(data@),
{
    sha2::Sha256::digest(data).to_vec()
}

/// Relies on `hex::encode`: each byte becomes its two lowercase hex
/// digits, high nibble first.
#[verifier::external_body]
fn hex_encode(data: &Vec<u8>) -> (r: String)
    ensures
        r@ == hex_lower_of(data@),
{
    hex::encode(data)
}

/// The fixed suffix mixed into the authorization hash of the registry.
pub open spec fn auth_suffix() -> Seq<char> {
    "sei1j7ah3st8qjr792qjwtnjmj65rqhpedjqf9dnsddj"@
}

/// The authorization key a deployer must present: the lowercase hex
/// SHA-256 digest of its identity followed by the fixed suffix, hashed
/// over the UTF-8 bytes.
pub open spec fn expected_auth_key(sender: Seq<char>) -> Seq<char> {
    hex_lower_of(sha256_of(encode_utf8(sender + auth_suffix())))
}

/// Derive the authorization key for a deploying identity.
pub fn compute_auth_key(sender: &String) -> (r: String)
    ensures
        r@ == expected_auth_key(sender@),
{
    let data: String = sender.clone().concat(
        "sei1j7ah3st8qjr792qjwtnjmj65rqhpedjqf9dnsddj",
    );
    let digest = sha256_digest(data.as_str().as_bytes());
    hex_encode(&digest)
}

} // verus!
