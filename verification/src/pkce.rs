use crate::strutil::{chars_to_string, str_to_chars};
use sha2::Digest;
use vstd::prelude::*;

verus! {

/// The unreserved URI characters (RFC 7636 section 4.1) from which PKCE
/// verifiers and CSRF state tokens are drawn.
pub open spec fn url_safe_alphabet() -> Seq<char> {
    "ABCDEFGHIJKLMNOPQRSTUVWXYZabcdefghijklmnopqrstuvwxyz0123456789-._~"@
}

/// The URL-safe alphabet as a vector of characters.
fn url_safe_chars() -> (chars: Vec<char>)
    ensures
        chars@ == url_safe_alphabet(),
        chars@.len() == 66,
{
    let chars = str_to_chars(
        "ABCDEFGHIJKLMNOPQRSTUVWXYZabcdefghijklmnopqrstuvwxyz0123456789-._~",
    );
    proof {
        reveal_strlit("ABCDEFGHIJKLMNOPQRSTUVWXYZabcdefghijklmnopqrstuvwxyz0123456789-._~");
    }
    chars
}

/// Relies on `rand::Rng::gen_range` over `rand::thread_rng`: a uniformly
/// random index strictly below the bound (the call panics on an empty range,
/// which the precondition rules out).
#[verifier::external_body]
fn random_index(bound: usize) -> (idx: usize)
    requires
        bound > 0,
    ensures
        idx < bound,
{
    rand::Rng::gen_range(&mut rand::thread_rng(), 0..bound)
}

/// A fresh random string of exactly `len` characters, each drawn from the
/// URL-safe alphabet. Used with length 64 for PKCE verifiers and length 16
/// for CSRF state tokens.
pub fn url_safe_rand(len: usize) -> (s: String)
    ensures
        s@.len() == len,
        forall|i: int| 0 <= i < s@.len() ==> url_safe_alphabet().contains(#[trigger] s@[i]),
{
    let alphabet = url_safe_chars();
    let mut chars: Vec<char> = Vec::new();
    let mut k: usize = 0;
    while k < len
        invariant
            k <= len,
            chars@.len() == k,
            alphabet@ == url_safe_alphabet(),
            alphabet@.len() == 66,
            forall|i: int| 0 <= i < k ==> url_safe_alphabet().contains(#[trigger] chars@[i]),
        decreases len - k,
    {
        let idx = random_index(alphabet.len());
        chars.push(alphabet[idx]);
        proof {
            assert(chars@[k as int] == url_safe_alphabet()[idx as int]);
        }
        k += 1;
    }
    chars_to_string(&chars)
}

/// The digest of the UTF-8 bytes of a character sequence under SHA-256,
/// named here; `sha256_digest` below computes it.
pub uninterp spec fn sha256_of(s: Seq<char>) -> Seq<u8>;

/// Relies on `sha2::Sha256::digest` (FIPS 180-4 SHA-256): the digest is a
/// function of the input bytes alone and is exactly 32 bytes long.
#[verifier::external_body]
fn sha256_digest(s: &str) -> (digest: Vec<u8>)
    ensures
        digest@ == sha256_of(s@),
        digest@.len() == 32,
{
    sha2::Sha256::digest(s.as_bytes()).to_vec()
}

/// The base64 alphabet in its URL-safe variant.
pub open spec fn base64url_alphabet() -> Seq<char> {
    "ABCDEFGHIJKLMNOPQRSTUVWXYZabcdefghijklmnopqrstuvwxyz0123456789-_"@
}

/// The character encoding the 6-bit group `v`.
pub open spec fn base64url_char(v: int) -> char {
    base64url_alphabet()[v]
}

/// Base64url without padding: bytes taken three at a time into four 6-bit
/// groups; a trailing byte yields two characters, two trailing bytes yield
/// three, and no `=` padding is appended.
pub open spec fn base64url_encode(bytes: Seq<u8>) -> Seq<char>
    decreases bytes.len(),
{
    if bytes.len() == 0 {
        Seq::empty()
    } else if bytes.len() == 1 {
        let b0 = bytes[0] as int;
        seq![base64url_char(b0 / 4), base64url_char((b0 % 4) * 16)]
    } else if bytes.len() == 2 {
        let b0 = bytes[0] as int;
        let b1 = bytes[1] as int;
        seq![
            base64url_char(b0 / 4),
            base64url_char((b0 % 4) * 16 + b1 / 16),
            base64url_char((b1 % 16) * 4),
        ]
    } else {
        let b0 = bytes[0] as int;
        let b1 = bytes[1] as int;
        let b2 = bytes[2] as int;
        seq![
            base64url_char(b0 / 4),
            base64url_char((b0 % 4) * 16 + b1 / 16),
            base64url_char((b1 % 16) * 4 + b2 / 64),
            base64url_char(b2 % 64),
        ] + base64url_encode(bytes.skip(3))
    }
}

/// Relies on `base64_url::encode`, which encodes with base64's
/// `URL_SAFE_NO_PAD` engine: the URL-safe alphabet, no `=` padding.
#[verifier::external_body]
fn base64url_no_pad(bytes: &Vec<u8>) -> (encoded: String)
    ensures
        encoded@ == base64url_encode(bytes@),
{
    base64_url::encode(bytes.as_slice())
}

/// Derive the PKCE challenge for a verifier: the base64url encoding, without
/// padding, of the SHA-256 digest of the verifier.
pub fn verifier_to_challenge(verifier: &str) -> (challenge: String)
    ensures
        challenge@ == base64url_encode(sha256_of(verifier@)),
{
    let digest = sha256_digest(verifier);
    base64url_no_pad(&digest)
}

} // verus!
