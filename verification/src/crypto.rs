//! Random text and digests.
use vstd::prelude::*;
use vstd::utf8;
use rand::RngCore;
use sha2::{Digest, Sha256};
use crate::b64;

verus! {

/// The SHA-256 digest of a message, as computed by `sha2`.
pub uninterp spec fn sha256_digest(message: Seq<u8>) -> Seq<u8>;

/// The base64url form of the SHA-256 digest of a text.
pub open spec fn s256_text(s: Seq<char>) -> Seq<char> {
    b64::b64url(sha256_digest(utf8::encode_utf8(s)))
}

/// The text is the base64url form of `n` bytes.
pub open spec fn is_random_text(s: Seq<char>, n: nat) -> bool {
    exists|bytes: Seq<u8>| bytes.len() == n && #[trigger] b64::b64url(bytes) == s
}

/// `rand`'s `OsRng::fill_bytes` fills a buffer from the operating system's
/// generator. What the bytes are is left to chance.
#[verifier::external_body]
fn random_bytes(n: usize) -> (bytes: Vec<u8>)
    ensures
        bytes@.len() == n,
{
    let mut bytes = vec![0u8; n];
    rand::rngs::OsRng.fill_bytes(&mut bytes);
    bytes
}

/// `sha2`'s `Sha256::digest`: the digest depends on the message alone and is
/// thirty-two bytes long.
#[verifier::external_body]
fn sha256(message: &[u8]) -> (digest: Vec<u8>)
    ensures
        digest@ == sha256_digest(message@),
        digest@.len() == 32,
{
    Sha256::digest(message).to_vec()
}

/// `n` random bytes in base64url.
pub fn rand_b64(n: usize) -> (s: String)
    ensures
        is_random_text(s@, n as nat),
{
    b64::encode(random_bytes(n).as_slice())
}

/// The SHA-256 digest of a text in base64url: the `S256` code challenge of a
/// verifier, and the hash by which a proof is bound to an access token.
pub fn s256(s: &str) -> (r: String)
    ensures
        r@ == s256_text(s@),
        r@.len() == 43,
{
    let digest = sha256(s.as_bytes());
    proof {
        b64::law_b64url_len(digest@);
    }
    b64::encode(digest.as_slice())
}

/// Whoever decodes the hash of a text gets the digest of its UTF-8 bytes, and
/// texts with the same hash have the same digest.
pub proof fn law_hash_is_the_digest(s: Seq<char>, t: Seq<char>, bytes: Seq<u8>)
    ensures
        b64::b64url(bytes) == s256_text(s) ==> bytes == sha256_digest(utf8::encode_utf8(s)),
        s256_text(s) == s256_text(t) ==> sha256_digest(utf8::encode_utf8(s)) == sha256_digest(
            utf8::encode_utf8(t),
        ),
        b64::is_b64url(s256_text(s)),
{
    let d = sha256_digest(utf8::encode_utf8(s));
    if b64::b64url(bytes) == s256_text(s) {
        b64::law_b64url_injective(bytes, d);
    }
    if s256_text(s) == s256_text(t) {
        b64::law_b64url_injective(d, sha256_digest(utf8::encode_utf8(t)));
    }
}

/// Random text decodes to as many bytes as were asked for.
pub proof fn law_random_text(s: Seq<char>, n: nat, bytes: Seq<u8>)
    requires
        is_random_text(s, n),
    ensures
        b64::is_b64url(s),
        b64::b64url(bytes) == s ==> bytes.len() == n,
        s.len() == (4 * n + 2) / 3,
{
    let drawn = choose|drawn: Seq<u8>| drawn.len() == n && #[trigger] b64::b64url(drawn) == s;
    b64::law_b64url_len(drawn);
    if b64::b64url(bytes) == s {
        b64::law_b64url_injective(bytes, drawn);
    }
}

} // verus!
