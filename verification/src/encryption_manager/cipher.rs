//! The symmetric cipher. Sealing and opening are the work of the `fernet`
//! crate; this module states what the codec relies on and proves none of it.
//!
//! The crate reads the clock and the system's random source, and panics
//! where the clock stands before 1970 or the random source gives nothing.

use fernet::Fernet;
use vstd::prelude::*;

verus! {

/// Whether `Fernet::new` accepts the key, that is, whether the key is the
/// URL-safe base64 text of 32 bytes.
pub uninterp spec fn key_accepted(key: Seq<char>) -> bool;

/// The plaintext that a token carries under a key, `None` where the token
/// does not authenticate under it. This is what `Fernet::decrypt` returns
/// whenever it accepts the token; it refuses an authentic token as well when
/// the token is dated more than a minute after the clock's present time.
pub uninterp spec fn token_payload(key: Seq<char>, token: Seq<u8>) -> Option<Seq<u8>>;

/// The length of the token that seals a plaintext of `plain_len` bytes. A
/// token is the padded base64 text of a version byte, 8 bytes of time, 16 of
/// initialisation vector, the plaintext padded up to the next multiple of 16
/// (a whole block where it is one already) and 32 bytes of signature.
pub open spec fn token_len(plain_len: nat) -> nat {
    4 * ((57 + 16 * (plain_len / 16 + 1) + 2) / 3)
}

/// Calls `Fernet::new` on the key and says whether it returned a cipher.
#[verifier::external_body]
pub(crate) fn accepts_key(key: &str) -> (r: bool)
    ensures
        r == key_accepted(key@),
{
    Fernet::new(key).is_some()
}

/// Calls `Fernet::generate_key`: 32 random bytes as URL-safe base64, which
/// `Fernet::new` accepts. The bytes come from the system's random source,
/// so nothing more is claimed of the key.
#[verifier::external_body]
pub(crate) fn fresh_key() -> (r: String)
    ensures
        key_accepted(r@),
{
    Fernet::generate_key()
}

/// Builds the cipher of the key with `Fernet::new` and seals the plaintext
/// with `Fernet::encrypt`, which returns the token as text; its bytes are
/// handed back. `None` where the key is refused. The token holds the time and
/// a random vector, so two calls differ; every token carries the plaintext
/// under the key and has the length that the plaintext's length fixes.
#[verifier::external_body]
pub(crate) fn seal(key: &str, plain: &[u8]) -> (r: Option<Vec<u8>>)
    ensures
        r is Some <==> key_accepted(key@),
        r matches Some(token) ==> token_payload(key@, token@) == Some(plain@) && token@.len()
            == token_len(plain@.len()),
{
    match Fernet::new(key) {
        Some(cipher) => Some(cipher.encrypt(plain).into_bytes()),
        None => None,
    }
}

/// Builds the cipher of the key with `Fernet::new`, reads the token as text
/// with `std::str::from_utf8` and opens it with `Fernet::decrypt`. `None`
/// where the key is refused, the token is no text, or the cipher refuses it.
/// Whatever is returned is the plaintext that the token carries.
#[verifier::external_body]
pub(crate) fn open(key: &str, token: &[u8]) -> (r: Option<Vec<u8>>)
    ensures
        r matches Some(plain) ==> key_accepted(key@) && token_payload(key@, token@) == Some(
            plain@,
        ),
{
    let cipher = Fernet::new(key)?;
    let text = std::str::from_utf8(token).ok()?;
    cipher.decrypt(text).ok()
}

} // verus!
