//! Password hashing for the remote deck and the check of HTTP Basic
//! credentials against the stored hash.
//!
//! Hashing is Argon2 with the crate's default parameters, stored as a PHC
//! string. What Argon2 computes is named, not restated; what this module
//! decides around it (the minimum length, how a header is taken apart) is
//! stated exactly.
use vstd::prelude::*;
use argon2::password_hash::{PasswordHash, PasswordHasher, PasswordVerifier, Salt, SaltString};
use argon2::Argon2;
use base64::Engine;
use crate::text::{base64_padded, chars_of, string_from_range, starts_with};

verus! {

/// The PHC string that `Argon2::default().hash_password` gives for a password
/// and a B64-encoded salt, or the text of its error.
pub uninterp spec fn argon2_hash_result(password: Seq<char>, salt: Seq<char>) -> Result<Seq<char>, Seq<char>>;

/// Whether `Argon2::default().verify_password` accepts a password against a
/// PHC string (false when the string does not parse).
pub uninterp spec fn password_matches_hash(password: Seq<char>, hash: Seq<char>) -> bool;

/// What `general_purpose::STANDARD.decode` gives for a text: the decoded
/// bytes, or `None` when the text is not canonical padded base64 (the
/// `base64_padded` form of some bytes).
pub uninterp spec fn base64_standard_decoded(text: Seq<char>) -> Option<Seq<u8>>;

/// The value of a character of the B64 alphabet (`A-Z`, `a-z`, `0-9`, `+`,
/// `/`), which salts are written in.
pub open spec fn b64_digit(c: char) -> Option<int> {
    if 'A' <= c <= 'Z' {
        Some(c as int - 'A' as int)
    } else if 'a' <= c <= 'z' {
        Some(c as int - 'a' as int + 26)
    } else if '0' <= c <= '9' {
        Some(c as int - '0' as int + 52)
    } else if c == '+' {
        Some(62)
    } else if c == '/' {
        Some(63)
    } else {
        None
    }
}

/// A salt as `SaltString::generate` writes it: 16 random bytes in unpadded
/// B64, that is 22 characters of the B64 alphabet whose last character
/// carries only the last two bits of the final byte (its low four bits are
/// zero).
pub open spec fn is_generated_salt(salt: Seq<char>) -> bool {
    &&& salt.len() == 22
    &&& forall|i: int| 0 <= i < 22 ==> #[trigger] b64_digit(salt[i]) is Some
    &&& b64_digit(salt[21])->0 % 16 == 0
}

/// A fresh random salt: `SaltString::generate(&mut OsRng)`, as its B64 text.
/// Which salt comes out is left open; its form is that of 16 bytes encoded
/// in unpadded B64. `OsRng` panics if the operating system cannot supply
/// random bytes, which no `requires` can exclude.
#[verifier::external_body]
fn random_salt() -> (salt: String)
    ensures
        is_generated_salt(salt@),
{
    SaltString::generate(&mut rand_core::OsRng).as_str().to_string()
}

/// `Argon2::default().hash_password(password.as_bytes(), salt)` with the salt
/// parsed by `Salt::from_b64`, as a PHC string; errors as their text. The
/// result is the named function of both arguments; and a hash that it
/// returns verifies the same password: `verify_password` recomputes the hash
/// with the salt and parameters written in the PHC string and compares.
/// It fails only on a salt that `Salt::from_b64` or the B64 decoder refuses
/// or that decodes to fewer than 8 bytes, or on a password longer than
/// `u32::MAX` bytes; so a generated salt and a password within that length
/// always give a hash.
#[verifier::external_body]
fn argon2_hash(password: &str, salt: &str) -> (hashed: Result<String, String>)
    ensures
        match hashed {
            Ok(h) => argon2_hash_result(password@, salt@) == Ok::<Seq<char>, Seq<char>>(h@),
            Err(e) => argon2_hash_result(password@, salt@) == Err::<Seq<char>, Seq<char>>(e@),
        },
        hashed matches Ok(h) ==> password_matches_hash(password@, h@),
        is_generated_salt(salt@) && within_argon2_limit(password@) ==> hashed is Ok,
{
    let salt = Salt::from_b64(salt).map_err(|error| error.to_string())?;
    Argon2::default()
        .hash_password(password.as_bytes(), salt)
        .map(|hash| hash.to_string())
        .map_err(|error| error.to_string())
}

/// `PasswordHash::new(hash)` followed by `Argon2::default().verify_password`;
/// true when both succeed.
#[verifier::external_body]
fn argon2_verify(password: &str, hash: &str) -> (accepted: bool)
    ensures
        accepted == password_matches_hash(password@, hash@),
{
    match PasswordHash::new(hash) {
        Ok(parsed) => Argon2::default().verify_password(password.as_bytes(), &parsed).is_ok(),
        Err(_) => false,
    }
}

/// `general_purpose::STANDARD.decode`. The `STANDARD` engine requires
/// canonical padding and refuses set trailing bits, so it accepts exactly
/// the texts that `base64_padded` writes, and gives back bytes that encode
/// to the text.
#[verifier::external_body]
fn base64_decode(text: &str) -> (bytes: Option<Vec<u8>>)
    ensures
        match bytes {
            Some(b) => base64_standard_decoded(text@) == Some(b@),
            None => base64_standard_decoded(text@) is None,
        },
        bytes matches Some(b) ==> base64_padded(b@) == text@,
        (exists|b: Seq<u8>| #[trigger] base64_padded(b) == text@) ==> bytes is Some,
{
    base64::engine::general_purpose::STANDARD.decode(text).ok()
}

/// `String::from_utf8`: the text when the bytes are valid UTF-8.
#[verifier::external_body]
fn utf8_text(bytes: Vec<u8>) -> (text: Option<String>)
    ensures
        text is Some <==> vstd::utf8::valid_utf8(bytes@),
        text matches Some(t) ==> t@ == vstd::utf8::decode_utf8(bytes@),
{
    String::from_utf8(bytes).ok()
}

/// Argon2 takes passwords of at most `u32::MAX` bytes.
pub open spec fn within_argon2_limit(password: Seq<char>) -> bool {
    vstd::utf8::encode_utf8(password).len() <= 0xffff_ffff
}

/// The text of the error for a password that is too short.
pub open spec fn short_password_message() -> Seq<char> {
    "Password must contain at least 8 characters"@
}

/// A password is long enough when its UTF-8 form has at least 8 bytes
/// (`str::len`).
pub open spec fn long_enough(password: Seq<char>) -> bool {
    crate::persistence::byte_len(password) >= 8
}

/// Hashes a password with a given salt: refused below 8 bytes, otherwise
/// exactly what Argon2 gives for the password and salt.
pub fn hash_password_with_salt(password: &str, salt: &str) -> (hashed: Result<String, String>)
    ensures
        !long_enough(password@) ==> (hashed matches Err(e) && e@ == short_password_message()),
        long_enough(password@) ==> match hashed {
            Ok(h) => argon2_hash_result(password@, salt@) == Ok::<Seq<char>, Seq<char>>(h@),
            Err(e) => argon2_hash_result(password@, salt@) == Err::<Seq<char>, Seq<char>>(e@),
        },
        hashed matches Ok(h) ==> password_matches_hash(password@, h@),
        long_enough(password@) && within_argon2_limit(password@) && is_generated_salt(salt@) ==> hashed is Ok,
{
    if password.len() < 8 {
        return Err("Password must contain at least 8 characters".to_string());
    }
    argon2_hash(password, salt)
}

/// Hashes a password with a fresh random salt. Refused below 8 bytes;
/// otherwise hashed (for any password Argon2 accepts, at most `u32::MAX`
/// bytes), the hash being Argon2's for the password and some salt, and it
/// verifies the password.
pub fn hash_password(password: &str) -> (hashed: Result<String, String>)
    ensures
        !long_enough(password@) ==> (hashed matches Err(e) && e@ == short_password_message()),
        long_enough(password@) ==> exists|salt: Seq<char>| match hashed {
            Ok(h) => #[trigger] argon2_hash_result(password@, salt) == Ok::<Seq<char>, Seq<char>>(h@),
            Err(e) => argon2_hash_result(password@, salt) == Err::<Seq<char>, Seq<char>>(e@),
        },
        hashed matches Ok(h) ==> password_matches_hash(password@, h@),
        long_enough(password@) && within_argon2_limit(password@) ==> hashed is Ok,
{
    if password.len() < 8 {
        return Err("Password must contain at least 8 characters".to_string());
    }
    let salt = random_salt();
    let hashed = hash_password_with_salt(password, salt.as_str());
    assert(match hashed {
        Ok(h) => argon2_hash_result(password@, salt@) == Ok::<Seq<char>, Seq<char>>(h@),
        Err(e) => argon2_hash_result(password@, salt@) == Err::<Seq<char>, Seq<char>>(e@),
    });
    hashed
}

/// Whether a password matches a stored hash.
pub fn verify_password(password: &str, hash: &str) -> (accepted: bool)
    ensures
        accepted == password_matches_hash(password@, hash@),
{
    argon2_verify(password, hash)
}

} // verus!

verus! {

/// The scheme prefix of an HTTP Basic `Authorization` value.
pub open spec fn basic_prefix() -> Seq<char> {
    seq!['B', 'a', 's', 'i', 'c', ' ']
}

/// The user name and password carried by an `Authorization` value:
/// "Basic " (exactly), then standard base64 of UTF-8 text, split at its
/// first ':'.
pub open spec fn basic_credentials(header: Seq<char>) -> Option<(Seq<char>, Seq<char>)> {
    if starts_with(header, basic_prefix()) {
        match base64_standard_decoded(header.subrange(6, header.len() as int)) {
            Some(bytes) => if vstd::utf8::valid_utf8(bytes) {
                crate::text::split_once(vstd::utf8::decode_utf8(bytes), ':')
            } else {
                None
            },
            None => None,
        }
    } else {
        None
    }
}

/// Whether a request may pass: always when authentication is off; otherwise
/// only with Basic credentials naming the configured user and a password
/// that matches the stored hash.
pub open spec fn access_granted(
    authentication_enabled: bool,
    username: Seq<char>,
    password_hash: Seq<char>,
    header: Option<Seq<char>>,
) -> bool {
    !authentication_enabled || match header {
        Some(h) => match basic_credentials(h) {
            Some((user, password)) => user == username && password_matches_hash(password, password_hash),
            None => false,
        },
        None => false,
    }
}

/// The user name and password of an `Authorization` value, if it carries
/// Basic credentials.
pub fn credentials_of(header: &str) -> (credentials: Option<(String, String)>)
    ensures
        match credentials {
            Some((user, password)) => basic_credentials(header@) == Some((user@, password@)),
            None => basic_credentials(header@) is None,
        },
{
    let chars = chars_of(header);
    let n = chars.len();
    if n < 6 || chars[0] != 'B' || chars[1] != 'a' || chars[2] != 's' || chars[3] != 'i'
        || chars[4] != 'c' || chars[5] != ' ' {
        proof {
            if starts_with(header@, basic_prefix()) {
                assert(header@.subrange(0, 6)[0] == header@[0]);
                assert(header@.subrange(0, 6)[1] == header@[1]);
                assert(header@.subrange(0, 6)[2] == header@[2]);
                assert(header@.subrange(0, 6)[3] == header@[3]);
                assert(header@.subrange(0, 6)[4] == header@[4]);
                assert(header@.subrange(0, 6)[5] == header@[5]);
            }
        }
        return None;
    }
    assert(header@.subrange(0, 6) =~= basic_prefix());
    let encoded = string_from_range(&chars, 6, n);
    match base64_decode(encoded.as_str()) {
        Some(bytes) => match utf8_text(bytes) {
            Some(text) => crate::text::split_once_str(text.as_str(), ':'),
            None => None,
        },
        None => None,
    }
}

/// Decides whether a remote request is let through (see `access_granted`).
/// `header` is the request's `Authorization` value when it is present and
/// visible ASCII.
pub fn authorize(
    authentication_enabled: bool,
    username: &str,
    password_hash: &str,
    header: Option<&str>,
) -> (granted: bool)
    ensures
        granted == access_granted(
            authentication_enabled,
            username@,
            password_hash@,
            match header {
                Some(h) => Some(h@),
                None => None,
            },
        ),
{
    if !authentication_enabled {
        return true;
    }
    match header {
        Some(h) => match credentials_of(h) {
            Some((user, password)) => crate::text::str_equal(user.as_str(), username)
                && verify_password(password.as_str(), password_hash),
            None => false,
        },
        None => false,
    }
}

} // verus!

verus! {

/// With authentication on, a request passes only when it carries Basic
/// credentials naming the configured user with a password that matches the
/// stored hash; every other request is refused.
pub proof fn law_access_needs_the_configured_credentials(
    username: Seq<char>,
    password_hash: Seq<char>,
    header: Option<Seq<char>>,
)
    ensures
        access_granted(true, username, password_hash, header) <==> (header matches Some(h) && basic_credentials(
            h,
        ) matches Some((user, password)) && user == username && password_matches_hash(password, password_hash)),
        header is None ==> !access_granted(true, username, password_hash, header),
        access_granted(false, username, password_hash, header),
{
}

} // verus!
