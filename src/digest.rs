use vstd::prelude::*;

verus! {

/// A 32-byte SHA-256 digest: user, object and signature identifiers all have this type.
pub type Digest = [u8; 32];

/// The SHA-256 digest of a byte string.
pub uninterp spec fn sha256_of(data: Seq<u8>) -> [u8; 32];

/// Relies on openssl::sha::sha256: the SHA-256 digest of `data`, which depends on the bytes alone.
#[verifier::external_body]
pub(crate) fn sha256(data: &[u8]) -> (r: Digest)
    ensures
        r == sha256_of(data@),
{
    openssl::sha::sha256(data)
}

/// The lowercase hexadecimal digit of a value below 16.
pub open spec fn hex_digit(n: int) -> char {
    seq!['0', '1', '2', '3', '4', '5', '6', '7', '8', '9', 'a', 'b', 'c', 'd', 'e', 'f'][n]
}

/// Lowercase hexadecimal text of a byte string, two digits per byte, high digit first.
pub open spec fn hex_chars(b: Seq<u8>) -> Seq<char> {
    Seq::new(
        2 * b.len(),
        |i: int|
            if i % 2 == 0 {
                hex_digit(b[i / 2] as int / 16)
            } else {
                hex_digit(b[i / 2] as int % 16)
            },
    )
}

/// Relies on hex::encode: lowercase hexadecimal, two digits for each byte.
#[verifier::external_body]
pub(crate) fn to_hex(b: &[u8]) -> (r: String)
    ensures
        r@ == hex_chars(b@),
{
    hex::encode(b)
}

/// Relies on hex::decode: text that is the lowercase hexadecimal form of some bytes decodes to
/// those bytes.
#[verifier::external_body]
pub(crate) fn from_hex(s: &str) -> (r: Option<Vec<u8>>)
    ensures
        forall|b: Seq<u8>| hex_chars(b) == s@ ==> (r.is_some() && r.unwrap()@ == b),
{
    hex::decode(s).ok()
}

/// The identifier of a user: the digest of the username.
pub fn username_hash(username: &[u8]) -> (r: Digest)
    ensures
        r == sha256_of(username@),
{
    sha256(username)
}

/// The file name under which a record keyed by `key` is stored.
pub fn key_filename(key: &Digest) -> (r: String)
    ensures
        r@ == hex_chars(key@),
        r@.len() == 64,
{
    to_hex(key)
}

} // verus!
