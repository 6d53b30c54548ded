//! The outside cryptographic calls the core relies on: password
//! hashing and verification (rust-argon2), token encoding (base64) and
//! randomness (rand, uuid). Each call stands behind a trusted wrapper
//! whose contract states no more than the crate's source shows.
use vstd::prelude::*;

verus! {

/// What `argon2::verify_encoded` returns for an encoded hash and a
/// password: `Some(accepted)` where it decides, `None` where it cannot
/// decode the hash. A pure function of its two arguments.
pub uninterp spec fn phc_check(hash: Seq<char>, password: Seq<char>) -> Option<bool>;

/// An encoded hash opens with the seven characters `$argon2`.
pub open spec fn phc_prefixed(s: Seq<char>) -> bool {
    s.len() >= 7 && s[0] == '$' && s[1] == 'a' && s[2] == 'r' && s[3] == 'g' && s[4] == 'o'
        && s[5] == 'n' && s[6] == '2'
}

/// The byte budget rust-argon2 puts on passwords and salts.
pub open spec fn argon2_len_ok(chars: nat) -> bool {
    chars <= 0x3FFFFFFF
}

/// Relies on `argon2::hash_encoded` (rust-argon2): with the default
/// configuration and a salt of eight bytes or more it returns an
/// encoded hash rather than an error; the encoding opens with
/// `$argon2`, and `argon2::verify_encoded` recomputes the same hash
/// from the same password, so it accepts the pair.
#[verifier::external_body]
pub(crate) fn argon2_hash(password: &str, salt: &Vec<u8>) -> (r: String)
    requires
        8 <= salt@.len() <= 0xFFFFFFFF,
        argon2_len_ok(password@.len()),
    ensures
        phc_prefixed(r@),
        phc_check(r@, password@) == Some(true),
{
    argon2::hash_encoded(password.as_bytes(), salt.as_slice(), &argon2::Config::default()).unwrap()
}

/// Relies on `argon2::verify_encoded` (rust-argon2): a pure function
/// of the encoded hash and the password, erring exactly where the hash
/// cannot be decoded; its outcome is the one `phc_check` names.
#[verifier::external_body]
pub(crate) fn argon2_verify(hash: &str, password: &str) -> (r: Option<bool>)
    requires
        argon2_len_ok(password@.len()),
    ensures
        r == phc_check(hash@, password@),
{
    match argon2::verify_encoded(hash, password.as_bytes()) {
        Ok(accepted) => Some(accepted),
        Err(_) => None,
    }
}

/// What base64's `URL_SAFE_NO_PAD` engine returns for a byte sequence.
/// A pure function of the bytes.
pub uninterp spec fn b64url_of(bytes: Seq<u8>) -> Seq<char>;

/// A character of the URL-safe base64 alphabet: letters, digits, `-`
/// and `_`.
pub open spec fn is_b64url_char(c: char) -> bool {
    ('A' <= c && c <= 'Z') || ('a' <= c && c <= 'z') || ('0' <= c && c <= '9') || c == '-' || c
        == '_'
}

/// Relies on `base64::engine::general_purpose::URL_SAFE_NO_PAD`:
/// encodes without padding, four characters for every three bytes,
/// rounded up, every output character drawn from the URL-safe
/// alphabet `A-Z a-z 0-9 - _`.
#[verifier::external_body]
pub(crate) fn b64url_encode(bytes: &Vec<u8>) -> (r: String)
    ensures
        r@ == b64url_of(bytes@),
        r@.len() == (bytes@.len() * 4 + 2) / 3,
        forall|i: int| 0 <= i < r@.len() ==> is_b64url_char(#[trigger] r@[i]),
{
    base64::Engine::encode(&base64::engine::general_purpose::URL_SAFE_NO_PAD, bytes.as_slice())
}

/// Relies on `rand::rngs::ThreadRng::fill_bytes`: fills the buffer
/// with random bytes. Nothing is assumed of the values.
#[verifier::external_body]
pub(crate) fn fill_random(n: usize) -> (r: Vec<u8>)
    ensures
        r@.len() == n as nat,
{
    let mut buf = vec![0u8; n];
    rand::RngCore::fill_bytes(&mut rand::thread_rng(), &mut buf);
    buf
}

/// Relies on `uuid::Uuid::new_v4`: a random identifier whose version
/// nibble is four. Nothing else is assumed of the value.
#[verifier::external_body]
pub(crate) fn random_uuid() -> (r: u128)
    ensures
        (r >> 76) & 0xf == 4,
{
    uuid::Uuid::new_v4().as_u128()
}

} // verus!
