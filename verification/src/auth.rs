//! Credentials and token claims: Argon2 password hashes, the claims of
//! access and refresh tokens, and the clock and identifiers they carry.
use vstd::prelude::*;

use argon2::password_hash::rand_core::{OsRng, RngCore};
use argon2::password_hash::SaltString;
use argon2::{Argon2, PasswordHash, PasswordHasher, PasswordVerifier};
use vstd::utf8::encode_utf8;

verus! {

/// Seconds an access token lives: 15 minutes.
pub const ACCESS_TTL_SECS: i64 = 900;

/// Seconds a refresh token lives: 7 days.
pub const REFRESH_TTL_SECS: i64 = 604800;

/// The claims a token carries.
#[derive(Clone, Debug)]
pub struct Claims {
    pub sub: String,
    pub role: String,
    pub exp: usize,
    pub iat: usize,
    pub jti: String,
    pub iss: String,
    pub aud: String,
}

/// The body of a login request.
#[derive(Clone, Debug)]
pub struct LoginRequest {
    pub username: String,
    pub password: String,
}

/// A stored user.
#[derive(Clone, Debug)]
pub struct UserRow {
    pub username: String,
    pub password_hash: String,
    pub role: String,
}

/// A request whose access token was accepted, with its claims.
#[derive(Clone, Debug)]
pub struct AuthUser(pub Claims);

/// Unix time in seconds, as far as `chrono` can represent an instant.
pub open spec fn unix_secs_in_range(t: i64) -> bool {
    -8_400_000_000_000 <= t <= 8_300_000_000_000
}

/// `chrono::Utc::now()`, as its Unix seconds and nanoseconds. The time is
/// not stated; claimed is only that it lies in the range of `DateTime<Utc>`,
/// no earlier than the Unix epoch (`Utc::now` panics on a system time before
/// it), and that the nanoseconds stay below two seconds (a leap second may
/// carry them past one).
#[verifier::external_body]
pub(crate) fn utc_now() -> (t: (i64, u32))
    ensures
        unix_secs_in_range(t.0),
        0 <= t.0,
        t.1 < 2_000_000_000,
{
    let now = chrono::Utc::now();
    (now.timestamp(), now.timestamp_subsec_nanos())
}

/// A lowercase hexadecimal digit.
pub open spec fn lower_hex_digit(c: char) -> bool {
    ('0' <= c && c <= '9') || ('a' <= c && c <= 'f')
}

/// The hyphenated lowercase text of a version 4 (random) UUID: 8-4-4-4-12
/// hexadecimal digits, the version digit `4`, the variant digit one of `8`,
/// `9`, `a`, `b`.
pub open spec fn uuid_v4_text(s: Seq<char>) -> bool {
    &&& s.len() == 36
    &&& forall|i: int|
        0 <= i < 36 ==> if i == 8 || i == 13 || i == 18 || i == 23 {
            #[trigger] s[i] == '-'
        } else {
            lower_hex_digit(s[i])
        }
    &&& s[14] == '4'
    &&& (s[19] == '8' || s[19] == '9' || s[19] == 'a' || s[19] == 'b')
}

/// `uuid::Uuid::new_v4()` written out with `to_string`. The identifier is
/// random; claimed is its form, as the `uuid` source shows: `new_v4` masks
/// in the version (4) and the RFC 4122 variant (`10` in the top bits of the
/// variant digit), and `Display` writes the hyphenated lowercase form.
#[verifier::external_body]
pub(crate) fn new_token_id() -> (id: String)
    ensures
        uuid_v4_text(id@),
{
    uuid::Uuid::new_v4().to_string()
}

/// The claims of a token for `sub` with `role`, naming the service as
/// issuer (`webx-metrics-pro`) and its web client as audience (`webx-client`), issued at `now` with
/// identifier `jti`, living `ttl` seconds.
pub open spec fn claims_spec(sub: Seq<char>, role: Seq<char>, now: i64, ttl: i64, jti: Seq<char>, c: Claims) -> bool {
    &&& c.sub@ == sub
    &&& c.role@ == role
    &&& c.iat == now as usize
    &&& c.exp == (now + ttl) as usize
    &&& c.jti@ == jti
    &&& c.iss@ == "webx-metrics-pro"@
    &&& c.aud@ == "webx-client"@
}

fn make_claims(sub: &str, role: &str, now: i64, ttl: i64, jti: String) -> (c: Claims)
    requires
        unix_secs_in_range(now),
        0 <= ttl <= REFRESH_TTL_SECS,
    ensures
        claims_spec(sub@, role@, now, ttl, jti@, c),
{
    Claims {
        sub: String::from_str(sub),
        role: String::from_str(role),
        iat: now as usize,
        exp: (now + ttl) as usize,
        jti,
        iss: String::from_str("webx-metrics-pro"),
        aud: String::from_str("webx-client"),
    }
}

/// The claims of an access token for `sub` with `role`, issued at `now`
/// (Unix seconds) under identifier `jti`: it expires 15 minutes later.
pub fn access_claims(sub: &str, role: &str, now: i64, jti: String) -> (c: Claims)
    requires
        unix_secs_in_range(now),
    ensures
        claims_spec(sub@, role@, now, ACCESS_TTL_SECS, jti@, c),
{
    make_claims(sub, role, now, ACCESS_TTL_SECS, jti)
}

/// The claims of a refresh token for `sub`, issued at `now` under
/// identifier `jti`: its role is `refresh` and it expires 7 days later.
pub fn refresh_claims(sub: &str, now: i64, jti: String) -> (c: Claims)
    requires
        unix_secs_in_range(now),
    ensures
        claims_spec(sub@, "refresh"@, now, REFRESH_TTL_SECS, jti@, c),
{
    make_claims(sub, "refresh", now, REFRESH_TTL_SECS, jti)
}

/// The claims of a new access token for `sub` with `role`, issued now
/// under a fresh identifier.
pub fn create_access_claims(sub: &str, role: &str) -> (c: Claims)
    ensures
        exists|now: i64| 0 <= now && unix_secs_in_range(now) && claims_spec(sub@, role@, now, ACCESS_TTL_SECS, c.jti@, c),
        uuid_v4_text(c.jti@),
{
    let now = utc_now();
    let jti = new_token_id();
    access_claims(sub, role, now.0, jti)
}

/// The claims of a new refresh token for `sub`, issued now under a fresh
/// identifier.
pub fn create_refresh_claims(sub: &str) -> (c: Claims)
    ensures
        exists|now: i64| 0 <= now && unix_secs_in_range(now) && claims_spec(sub@, "refresh"@, now, REFRESH_TTL_SECS, c.jti@, c),
        uuid_v4_text(c.jti@),
{
    let now = utc_now();
    let jti = new_token_id();
    refresh_claims(sub, now.0, jti)
}

/// What checking `password` against the PHC string `hash` with Argon2
/// gives: `None` when the string does not parse as a password hash,
/// otherwise whether the password matches.
pub uninterp spec fn argon2_check(hash: Seq<char>, password: Seq<char>) -> Option<bool>;

/// Whether `password` is the one `hash` was made from.
pub open spec fn password_matches(hash: Seq<char>, password: Seq<char>) -> bool {
    argon2_check(hash, password) == Some(true)
}

/// The length of a text in UTF-8 bytes.
pub open spec fn utf8_len(s: Seq<char>) -> nat {
    encode_utf8(s).len()
}

/// The longest password Argon2 takes, in bytes (`argon2::MAX_PWD_LEN`).
pub open spec fn max_password_bytes() -> nat {
    0xFFFF_FFFF
}

/// `RngCore::fill_bytes` of `OsRng` over 16 bytes: the bytes of a fresh
/// salt, the number `SaltString::generate` draws. They are random, so
/// nothing is stated of them.
#[verifier::external_body]
fn os_random_salt() -> [u8; 16] {
    let mut b = [0u8; 16];
    OsRng.fill_bytes(&mut b);
    b
}

/// `PasswordHasher::hash_password` of `Argon2::default()` with the salt
/// bytes as a `SaltString` (`SaltString::encode_b64`), written out as a PHC
/// string. Claimed, as the `argon2` and `password-hash` sources show: the
/// string starts with `$argon2id$` (the default algorithm); checking the
/// same password against it succeeds, since checking recomputes the hash
/// with the algorithm, version, parameters and salt the string records; and
/// for a salt of 8 (`MIN_SALT_LEN`) to 48 bytes (what fits the 64
/// characters of a `SaltString`; shorter salts are not taken, as their text
/// would be refused by `Salt`), hashing succeeds exactly when the password
/// has at most `MAX_PWD_LEN` bytes (else `PwdTooLong`), the default
/// parameters and output length being valid. How the hash depends on the
/// salt is not stated.
#[verifier::external_body]
fn argon2_hash(password: &str, salt: &[u8]) -> (r: Option<String>)
    requires
        8 <= salt@.len() <= 48,
    ensures
        r matches Some(h) ==> password_matches(h@, password@) && "$argon2id$"@.is_prefix_of(h@),
        r is Some == (utf8_len(password@) <= max_password_bytes()),
{
    let salt = match SaltString::encode_b64(salt) {
        Ok(s) => s,
        Err(_) => return None,
    };
    match Argon2::default().hash_password(password.as_bytes(), &salt) {
        Ok(h) => Some(h.to_string()),
        Err(_) => None,
    }
}

/// Whether a text begins as a PHC string does, with `$`.
pub open spec fn starts_as_phc(s: Seq<char>) -> bool {
    s.len() > 0 && s[0] == '$'
}

/// `PasswordHash::new` on `hash`, then `PasswordVerifier::verify_password`
/// of `Argon2::default()` with `password`: `None` when the string does not
/// parse, else whether the check succeeded. Claimed: the result is the
/// named check of the two strings; and a string that is empty or does not
/// begin with `$` does not parse (`PasswordHash::parse` requires an empty
/// field before the first `$`).
#[verifier::external_body]
fn argon2_verify(hash: &str, password: &str) -> (r: Option<bool>)
    ensures
        r == argon2_check(hash@, password@),
        !starts_as_phc(hash@) ==> r is None,
{
    match PasswordHash::new(hash) {
        Ok(parsed) => Some(Argon2::default().verify_password(password.as_bytes(), &parsed).is_ok()),
        Err(_) => None,
    }
}

/// A password hash could not be made.
#[derive(Debug)]
pub enum HashError {
    Failed,
}

/// Hashes a password with Argon2id under a fresh random 16-byte salt. It
/// succeeds for every password of at most `0xFFFF_FFFF` bytes, and the
/// hash that comes back accepts the password it was made from.
pub fn hash_password(p: &str) -> (r: Result<String, HashError>)
    ensures
        r matches Ok(h) ==> password_matches(h@, p@) && "$argon2id$"@.is_prefix_of(h@),
        r is Err == (utf8_len(p@) > max_password_bytes()),
{
    let salt = os_random_salt();
    match argon2_hash(p, &salt) {
        Some(h) => Ok(h),
        None => Err(HashError::Failed),
    }
}

/// The outcome of a password check: only a parsed hash that matched counts.
pub fn password_accepted(check: Option<bool>) -> (r: bool)
    ensures
        r == (check == Some(true)),
{
    match check {
        Some(b) => b,
        None => false,
    }
}

/// Whether `p` is the password `h` was made from; a string that is no
/// password hash accepts nothing.
pub fn verify_password(h: &str, p: &str) -> (r: bool)
    ensures
        r == password_matches(h@, p@),
        !starts_as_phc(h@) ==> !r,
{
    password_accepted(argon2_verify(h, p))
}

} // verus!
