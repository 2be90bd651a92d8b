//! Credential checking and authentication tokens.
//!
//! A login token has the reference format `"<user_id>-<random_hex>"`: the
//! user id in decimal, one separator, and 32 hex digits of fresh randomness.
//! Verifying a token splits it at the first separator and parses the id.
//! Password hashing and checking are done by an outside bcrypt
//! implementation behind trusted wrappers; looking users up in the store is
//! the caller's concern.
use vstd::prelude::*;

use crate::text::{
    all_digits, i64_to_string, lemma_dec_nat_roundtrip, parse_dec_i64, spec_dec_int, spec_dec_nat,
    spec_dec_val, spec_hex_lower, spec_is_digit,
};

verus! {

/// A stored user account record.
pub struct User {
    pub id: i64,
    pub username: String,
    pub email: String,
    pub password_hash: String,
}

/// Why an authentication step failed.
#[derive(Debug)]
pub enum AuthError {
    HashingError,
    InvalidCredentials,
    DatabaseError(String),
    UserAlreadyExists,
}

/// A successful login: the fresh token and whose it is.
pub struct LoginResponse {
    pub token: String,
    pub user_id: i64,
}

impl AuthError {
    /// A human-readable description of the error.
    pub fn describe(&self) -> (s: String)
        ensures
            self is HashingError ==> s@ == "Password hashing failed"@,
            self is InvalidCredentials ==> s@ == "Invalid credentials"@,
            self matches AuthError::DatabaseError(e) ==> s@ == "Database error: "@ + e@,
            self is UserAlreadyExists ==> s@ == "User already exists"@,
    {
        match self {
            AuthError::HashingError => String::from_str("Password hashing failed"),
            AuthError::InvalidCredentials => String::from_str("Invalid credentials"),
            AuthError::DatabaseError(e) => {
                let mut s = String::from_str("Database error: ");
                s.append(e.as_str());
                s
            },
            AuthError::UserAlreadyExists => String::from_str("User already exists"),
        }
    }
}

/// Relies on hex::encode: lowercase hex, two digits per input byte, most
/// significant nibble first.
#[verifier::external_body]
fn hex_encode(data: &[u8]) -> (r: String)
    ensures
        r@ == spec_hex_lower(data@),
{
    hex::encode(data)
}

/// Relies on rand::random: 16 bytes of fresh randomness. Nothing is promised
/// of their values.
#[verifier::external_body]
fn random_bytes_16() -> (r: Vec<u8>)
    ensures
        r@.len() == 16,
{
    rand::random::<[u8; 16]>().to_vec()
}

/// Whether bcrypt accepts `password` against the stored `hash`:
/// `Some(true)` on a match, `Some(false)` on a mismatch, `None` when the
/// stored hash is not a well-formed bcrypt string. A function of the two
/// arguments alone.
pub uninterp spec fn spec_bcrypt_accepts(password: Seq<char>, hash: Seq<char>) -> Option<bool>;

/// Relies on bcrypt::verify: deterministic in the password and the stored
/// hash string.
#[verifier::external_body]
fn bcrypt_verify(password: &str, hash: &str) -> (r: Option<bool>)
    ensures
        r == spec_bcrypt_accepts(password@, hash@),
{
    match bcrypt::verify(password, hash) {
        Ok(b) => Some(b),
        Err(_) => None,
    }
}

/// Relies on bcrypt::hash: produces a salted hash string, or fails. The salt
/// is random, so nothing is promised of the result's value.
#[verifier::external_body]
fn bcrypt_hash_default(password: &str) -> (r: Option<String>)
{
    match bcrypt::hash(password, bcrypt::DEFAULT_COST) {
        Ok(h) => Some(h),
        Err(_) => None,
    }
}

/// Hashes a password for storage.
pub fn hash_password(password: &str) -> (r: Result<String, AuthError>)
    ensures
        r is Err ==> r->Err_0 is HashingError,
{
    match bcrypt_hash_default(password) {
        Some(h) => Ok(h),
        None => Err(AuthError::HashingError),
    }
}

/// Checks a password against a stored hash; any mismatch or malformed hash
/// is an invalid-credentials error.
pub fn verify_password(hash: &str, password: &str) -> (r: Result<(), AuthError>)
    ensures
        r is Ok <==> spec_bcrypt_accepts(password@, hash@) == Some(true),
        r is Err ==> r->Err_0 is InvalidCredentials,
{
    match bcrypt_verify(password, hash) {
        Some(true) => Ok(()),
        _ => Err(AuthError::InvalidCredentials),
    }
}

/// Whether the password matches the user's stored hash.
pub fn verify_user_password(user: &User, password: &str) -> (b: bool)
    ensures
        b == (spec_bcrypt_accepts(password@, user.password_hash@) == Some(true)),
{
    match verify_password(user.password_hash.as_str(), password) {
        Ok(()) => true,
        Err(_) => false,
    }
}

/// Whether position `i` holds the first separator of `s`.
pub open spec fn is_first_dash(s: Seq<char>, i: int) -> bool {
    &&& 0 <= i < s.len()
    &&& s[i] == '-'
    &&& forall|j: int| 0 <= j < i ==> s[j] != '-'
}

/// The user id encoded in a token, if any: the part before the first
/// separator, read as an unsigned decimal number fitting in `i64`.
pub open spec fn spec_token_user_id(s: Seq<char>) -> Option<int> {
    if exists|i: int| is_first_dash(s, i) {
        let i = choose|i: int| is_first_dash(s, i);
        let pre = s.take(i);
        if pre.len() >= 1 && all_digits(pre) && spec_dec_val(pre) <= i64::MAX as int {
            Some(spec_dec_val(pre))
        } else {
            None
        }
    } else {
        None
    }
}

proof fn lemma_first_dash_unique(s: Seq<char>, i: int, j: int)
    requires
        is_first_dash(s, i),
        is_first_dash(s, j),
    ensures
        i == j,
{
    if i < j {
        assert(s[i] == '-');
    } else if j < i {
        assert(s[j] == '-');
    }
}

/// A well-formed token names its user: parsing the text
/// `<decimal n>-<anything>` yields `n`, whatever follows the separator.
pub proof fn lemma_token_roundtrip(n: int, rest: Seq<char>)
    requires
        0 <= n <= i64::MAX,
    ensures
        spec_token_user_id(spec_dec_nat(n as nat) + seq!['-'] + rest) == Some(n),
{
    let d = spec_dec_nat(n as nat);
    lemma_dec_nat_roundtrip(n as nat);
    let t = d + seq!['-'] + rest;
    assert(t[d.len() as int] == '-');
    assert(forall|j: int| 0 <= j < d.len() ==> t[j] == d[j]);
    assert(forall|j: int| 0 <= j < d.len() ==> spec_is_digit(#[trigger] t[j]) && t[j] != '-');
    assert(is_first_dash(t, d.len() as int));
    let i = choose|i: int| is_first_dash(t, i);
    lemma_first_dash_unique(t, i, d.len() as int);
    assert(t.take(d.len() as int) =~= d);
}

/// Extracts the user id from an authentication token by splitting at the
/// first separator; any malformed token is an invalid-credentials error.
pub fn parse_auth_token(token: &str) -> (r: Result<i64, AuthError>)
    ensures
        r is Ok <==> spec_token_user_id(token@) is Some,
        r is Ok ==> spec_token_user_id(token@) == Some(r->Ok_0 as int),
        r is Err ==> r->Err_0 is InvalidCredentials,
{
    let n = token.unicode_len();
    let mut i: usize = 0;
    while i < n
        invariant
            0 <= i <= n,
            n == token@.len(),
            forall|j: int| 0 <= j < i ==> token@[j] != '-',
        decreases n - i,
    {
        let c = token.get_char(i);
        if c == '-' {
            proof {
                assert(is_first_dash(token@, i as int));
                let k = choose|k: int| is_first_dash(token@, k);
                lemma_first_dash_unique(token@, k, i as int);
            }
            let pre = token.substring_char(0, i);
            assert(pre@ =~= token@.take(i as int));
            match parse_dec_i64(pre) {
                Some(v) => {
                    return Ok(v);
                },
                None => {
                    return Err(AuthError::InvalidCredentials);
                },
            }
        }
        i = i + 1;
    }
    assert(forall|k: int| !is_first_dash(token@, k));
    Err(AuthError::InvalidCredentials)
}

/// Checks the password against the user's record and, on success, issues a
/// fresh login token of the reference format `"<user_id>-<random_hex>"`.
/// For the non-negative ids the store hands out, the token verifies back to
/// the same user.
pub fn login_user(user: &User, password: &str) -> (r: Result<LoginResponse, AuthError>)
    ensures
        r is Ok <==> spec_bcrypt_accepts(password@, user.password_hash@) == Some(true),
        r matches Ok(resp) ==> resp.user_id == user.id && (exists|b: Seq<u8>|
            b.len() == 16 && resp.token@ == spec_dec_int(user.id as int) + seq!['-']
                + spec_hex_lower(b)),
        user.id >= 0 ==> (r matches Ok(resp) ==> spec_token_user_id(resp.token@) == Some(
            user.id as int,
        )),
        r is Err ==> r->Err_0 is InvalidCredentials,
{
    match verify_password(user.password_hash.as_str(), password) {
        Ok(()) => {
            let rb = random_bytes_16();
            let suffix = hex_encode(rb.as_slice());
            let mut token = i64_to_string(user.id);
            token.append("-");
            proof {
                reveal_strlit("-");
            }
            token.append(suffix.as_str());
            proof {
                assert("-"@ =~= seq!['-']);
                assert(token@ == spec_dec_int(user.id as int) + seq!['-'] + spec_hex_lower(rb@));
                if user.id >= 0 {
                    lemma_token_roundtrip(user.id as int, spec_hex_lower(rb@));
                }
            }
            Ok(LoginResponse { token, user_id: user.id })
        },
        Err(e) => Err(e),
    }
}

} // verus!
