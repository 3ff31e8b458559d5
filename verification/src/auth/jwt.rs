//! Issuing and verifying signed access tokens, and minting refresh tokens.

use crate::models::Claims;
use crate::models::ClaimsView;
use crate::text::str_eq;
use jsonwebtoken::decode;
use jsonwebtoken::encode;
use jsonwebtoken::errors::ErrorKind;
use jsonwebtoken::DecodingKey;
use jsonwebtoken::EncodingKey;
use jsonwebtoken::Header;
use jsonwebtoken::Validation;
use serde_json::Value;
use vstd::prelude::*;

verus! {

/// Seconds in an hour.
pub const SECONDS_PER_HOUR: i64 = 3600;

/// The error type of the signing crate, carried through unread.
#[verifier::external_type_specification]
#[verifier::external_body]
pub struct ExJwtError(jsonwebtoken::errors::Error);

/// Why no token could be issued.
#[derive(Clone, Copy, Debug, PartialEq, Eq, Structural)]
pub enum IssuanceError {
    /// The expiry does not fit the claim that carries it. Only issuing that
    /// admits every lifetime answers so.
    ExpiryOutOfRange,
    /// Signing failed, or the signed token did not read back as written.
    Signing,
}

/// Why a token was refused.
#[derive(Clone, Copy, Debug, PartialEq, Eq, Structural)]
pub enum AuthError {
    /// Not a token, or one that lacks a claim.
    Malformed,
    /// The signature is not the one the secret gives.
    InvalidSignature,
    /// The expiry second has been reached.
    Expired,
}

/// How the signing crate refused a token.
#[derive(Clone, Copy, Debug, PartialEq, Eq, Structural)]
pub enum DecodeFault {
    /// The signature did not match.
    InvalidSignature,
    /// Anything else: shape, encoding, algorithm, a claim the crate requires.
    Other,
}

/// The four claims as found in a payload, each absent when the payload has no
/// member of that name and type.
#[derive(Debug, Clone)]
pub struct RawClaims {
    pub sub: Option<String>,
    pub user_id: Option<i64>,
    pub is_admin: Option<bool>,
    pub exp: Option<u64>,
}

/// A `RawClaims` with its text as a sequence of characters.
pub struct RawClaimsView {
    pub sub: Option<Seq<char>>,
    pub user_id: Option<i64>,
    pub is_admin: Option<bool>,
    pub exp: Option<u64>,
}

impl View for RawClaims {
    type V = RawClaimsView;

    open spec fn view(&self) -> RawClaimsView {
        RawClaimsView {
            sub: match self.sub {
                Some(s) => Some(s@),
                None => None,
            },
            user_id: self.user_id,
            is_admin: self.is_admin,
            exp: self.exp,
        }
    }
}

/// The token that `jsonwebtoken::encode` makes of these claims under this
/// secret with the default header (HS256), or `None` where it fails.
pub uninterp spec fn jwt_encoded(claims: ClaimsView, secret: Seq<char>) -> Option<Seq<char>>;

/// What `jsonwebtoken::decode` makes of a token under this secret, with the
/// default validation but for the expiry, which is left to this crate.
pub uninterp spec fn jwt_decoded(token: Seq<char>, secret: Seq<char>) -> Result<
    RawClaimsView,
    DecodeFault,
>;

/// `i` is the place of the last `.` in `t`.
pub open spec fn is_last_dot(t: Seq<char>, i: int) -> bool {
    &&& 0 <= i < t.len()
    &&& t[i] == '.'
    &&& forall|j: int| i < j < t.len() ==> t[j] != '.'
}

/// The two tokens agree up to and including their last `.` and differ after
/// it: the same header and payload with another signature.
pub open spec fn differs_in_signature_only(a: Seq<char>, b: Seq<char>) -> bool {
    exists|i: int|
        #![trigger is_last_dot(a, i)]
        is_last_dot(a, i) && is_last_dot(b, i) && a.take(i) == b.take(i) && a.skip(i + 1)
            != b.skip(i + 1)
}

/// The view of a decoding result.
pub open spec fn raw_result_view(res: Result<RawClaims, DecodeFault>) -> Result<
    RawClaimsView,
    DecodeFault,
> {
    match res {
        Ok(c) => Ok(c@),
        Err(f) => Err(f),
    }
}

/// The decoding result that reports a signature that does not match.
pub open spec fn refused_signature() -> Result<RawClaimsView, DecodeFault> {
    Err(DecodeFault::InvalidSignature)
}

/// Trusted: `jsonwebtoken::encode` with `Header::default()` and a key made by
/// `EncodingKey::from_secret`, on a JSON object that holds the four claims in
/// the order `sub`, `user_id`, `is_admin`, `exp`. The contract only names the
/// result: HMAC signing and the serialisation are functions of their input.
#[verifier::external_body]
fn jwt_encode(claims: &Claims, secret: &str) -> (res: Result<String, jsonwebtoken::errors::Error>)
    ensures
        res matches Ok(t) ==> jwt_encoded(claims@, secret@) == Some(t@),
        res is Err ==> jwt_encoded(claims@, secret@) is None,
{
    let mut payload = serde_json::Map::new();
    payload.insert("sub".to_owned(), Value::from(claims.sub.as_str()));
    payload.insert("user_id".to_owned(), Value::from(claims.user_id));
    payload.insert("is_admin".to_owned(), Value::from(claims.is_admin));
    payload.insert("exp".to_owned(), Value::from(claims.exp));
    encode(&Header::default(), &payload, &EncodingKey::from_secret(secret.as_bytes()))
}

/// Trusted: `jsonwebtoken::decode` into a JSON value with
/// `Validation::default()` whose `validate_exp` is switched off, and a key
/// made by `DecodingKey::from_secret`; then the four claims read from the
/// payload. With the expiry check off the crate reads no clock, so the result
/// is a function of token and secret, which the first clause names.
///
/// The second clause states what the crate's HMAC check is: it signs the text
/// before the last `.` anew and compares the outcome with the text after it,
/// before it looks at the payload. So where some token is accepted, the same
/// text with another signature is refused as `InvalidSignature`.
#[verifier::external_body]
fn jwt_decode(token: &str, secret: &str) -> (res: Result<RawClaims, DecodeFault>)
    ensures
        jwt_decoded(token@, secret@) == raw_result_view(res),
        forall|other: Seq<char>|
            #![trigger jwt_decoded(other, secret@)]
            differs_in_signature_only(token@, other) && jwt_decoded(other, secret@) is Ok
                ==> raw_result_view(res) == refused_signature(),
{
    let mut rules = Validation::default();
    rules.validate_exp = false;
    match decode::<Value>(token, &DecodingKey::from_secret(secret.as_bytes()), &rules) {
        Ok(data) => Ok(RawClaims {
            sub: data.claims["sub"].as_str().map(str::to_owned),
            user_id: data.claims["user_id"].as_i64(),
            is_admin: data.claims["is_admin"].as_bool(),
            exp: data.claims["exp"].as_u64(),
        }),
        Err(e) => Err(match e.kind() {
            ErrorKind::InvalidSignature => DecodeFault::InvalidSignature,
            _ => DecodeFault::Other,
        }),
    }
}

/// The last second that the clock can show: 23:59:59 on the last day of the
/// year 262142, the last year that `chrono` can tell.
pub const LAST_CLOCK_SECOND: i64 = 8_210_266_876_799;

/// Whether the clock can show a second: it lies between the Unix epoch and
/// the last second that `chrono` can tell.
pub open spec fn is_clock_second(now: i64) -> bool {
    0 <= now <= LAST_CLOCK_SECOND
}

/// Trusted: `chrono::Utc::now().timestamp()`, the clock in whole seconds
/// since the Unix epoch. `Utc::now` builds its value from a duration since
/// the epoch by `DateTime::from_timestamp`, so the result is never negative
/// and never later than the last second of the last year that `chrono` can
/// tell; nothing else is known of it.
#[verifier::external_body]
pub(crate) fn current_timestamp() -> (now: i64)
    ensures
        is_clock_second(now),
{
    chrono::Utc::now().timestamp()
}

/// The second at which a token issued at `now` for `ttl_hours` expires.
pub open spec fn expiry_of(now: i64, ttl_hours: i64) -> int {
    now + ttl_hours * SECONDS_PER_HOUR
}

/// Whether an expiry can be carried in the `exp` claim.
pub open spec fn expiry_fits(exp: int) -> bool {
    0 <= exp <= i64::MAX && exp <= usize::MAX
}

/// The claims of a token issued at `now`.
pub open spec fn claims_issued(
    username: Seq<char>,
    user_id: i64,
    is_admin: bool,
    ttl_hours: i64,
    now: i64,
) -> ClaimsView {
    ClaimsView { sub: username, user_id, is_admin, exp: expiry_of(now, ttl_hours) as usize }
}

/// The payload members that a complete set of claims is written as.
pub open spec fn claims_fields(c: ClaimsView) -> RawClaimsView {
    RawClaimsView {
        sub: Some(c.sub),
        user_id: Some(c.user_id),
        is_admin: Some(c.is_admin),
        exp: Some(c.exp as u64),
    }
}

/// The claims that a payload holds, when it holds all four and the expiry
/// fits.
pub open spec fn complete_claims(raw: RawClaimsView) -> Option<ClaimsView> {
    if raw.sub is Some && raw.user_id is Some && raw.is_admin is Some && raw.exp is Some
        && raw.exp->0 <= usize::MAX {
        Some(
            ClaimsView {
                sub: raw.sub->0,
                user_id: raw.user_id->0,
                is_admin: raw.is_admin->0,
                exp: raw.exp->0 as usize,
            },
        )
    } else {
        None
    }
}

/// What issuing at `now` yields: the signed token, provided that the expiry
/// fits, that signing succeeds, and that the token reads back as the claims
/// written into it.
pub open spec fn issued_token(
    username: Seq<char>,
    user_id: i64,
    is_admin: bool,
    secret: Seq<char>,
    ttl_hours: i64,
    now: i64,
) -> Result<Seq<char>, IssuanceError> {
    if !expiry_fits(expiry_of(now, ttl_hours)) {
        Err(IssuanceError::ExpiryOutOfRange)
    } else {
        let claims = claims_issued(username, user_id, is_admin, ttl_hours, now);
        match jwt_encoded(claims, secret) {
            None => Err(IssuanceError::Signing),
            Some(t) => if jwt_decoded(t, secret) == Ok::<RawClaimsView, DecodeFault>(
                claims_fields(claims),
            ) {
                Ok(t)
            } else {
                Err(IssuanceError::Signing)
            },
        }
    }
}

/// What verifying at `now` yields: the claims of a well-signed, complete
/// token whose expiry lies after `now`, and else the reason for refusal.
/// The signature is judged before the payload is read, and the expiry last.
pub open spec fn token_verdict(token: Seq<char>, secret: Seq<char>, now: i64) -> Result<
    ClaimsView,
    AuthError,
> {
    match jwt_decoded(token, secret) {
        Err(DecodeFault::InvalidSignature) => Err(AuthError::InvalidSignature),
        Err(DecodeFault::Other) => Err(AuthError::Malformed),
        Ok(raw) => match complete_claims(raw) {
            None => Err(AuthError::Malformed),
            Some(c) => if now < c.exp {
                Ok(c)
            } else {
                Err(AuthError::Expired)
            },
        },
    }
}

/// The view of an issuing result.
pub open spec fn token_result_view(res: Result<String, IssuanceError>) -> Result<
    Seq<char>,
    IssuanceError,
> {
    match res {
        Ok(t) => Ok(t@),
        Err(e) => Err(e),
    }
}

/// The view of a verifying result.
pub open spec fn claims_result_view(res: Result<Claims, AuthError>) -> Result<
    ClaimsView,
    AuthError,
> {
    match res {
        Ok(c) => Ok(c@),
        Err(e) => Err(e),
    }
}

/// Computes the expiry of a token issued at `now`, if it fits the claim.
pub fn expiry_timestamp(now: i64, ttl_hours: i64) -> (res: Option<usize>)
    ensures
        res == if expiry_fits(expiry_of(now, ttl_hours)) {
            Some(expiry_of(now, ttl_hours) as usize)
        } else {
            None
        },
{
    assert(-0x8000_0000_0000_0000 * 3600 <= ttl_hours * 3600 <= 0x8000_0000_0000_0000 * 3600)
        by (nonlinear_arith)
        requires
            -0x8000_0000_0000_0000 <= ttl_hours <= 0x8000_0000_0000_0000,
    ;
    let exp: i128 = now as i128 + (ttl_hours as i128) * 3600;
    if exp < 0 || exp > i64::MAX as i128 || exp > usize::MAX as i128 {
        None
    } else {
        Some(exp as usize)
    }
}

/// Whether a decoded payload holds exactly the claims given.
fn payload_matches(raw: &RawClaims, claims: &Claims) -> (same: bool)
    ensures
        same == (raw@ == claims_fields(claims@)),
{
    let sub_same = match &raw.sub {
        Some(s) => str_eq(s.as_str(), claims.sub.as_str()),
        None => false,
    };
    let id_same = match raw.user_id {
        Some(id) => id == claims.user_id,
        None => false,
    };
    let admin_same = match raw.is_admin {
        Some(a) => a == claims.is_admin,
        None => false,
    };
    let exp_same = match raw.exp {
        Some(e) => e == claims.exp as u64,
        None => false,
    };
    sub_same && id_same && admin_same && exp_same
}

/// Issues an access token as of the second `now`, if the expiry
/// `now + expiry_hours` hours fits the claim that carries it, and says so
/// where it does not. The claims are the identity given and the expiry,
/// signed with `secret`. Before the token is handed out it is read back with
/// the same secret, so that an issued token is always one that verification
/// accepts.
pub fn try_create_jwt_at(
    username: &str,
    user_id: i64,
    is_admin: bool,
    secret: &str,
    expiry_hours: i64,
    now: i64,
) -> (res: Result<String, IssuanceError>)
    ensures
        token_result_view(res) == issued_token(
            username@,
            user_id,
            is_admin,
            secret@,
            expiry_hours,
            now,
        ),
{
    let exp = match expiry_timestamp(now, expiry_hours) {
        Some(e) => e,
        None => { return Err(IssuanceError::ExpiryOutOfRange); },
    };
    let claims = Claims { sub: username.to_owned(), user_id, is_admin, exp };
    match jwt_encode(&claims, secret) {
        Err(_) => Err(IssuanceError::Signing),
        Ok(token) => match jwt_decode(token.as_str(), secret) {
            Err(_) => Err(IssuanceError::Signing),
            Ok(raw) => if payload_matches(&raw, &claims) {
                Ok(token)
            } else {
                Err(IssuanceError::Signing)
            },
        },
    }
}

/// The issuing result that reports an expiry out of range.
pub open spec fn refused_for_expiry() -> Result<Seq<char>, IssuanceError> {
    Err(IssuanceError::ExpiryOutOfRange)
}

/// Issues an access token as of the second `now`, for a lifetime whose
/// expiry fits the claim. It fails for no reason but signing.
pub fn create_jwt_at(
    username: &str,
    user_id: i64,
    is_admin: bool,
    secret: &str,
    expiry_hours: i64,
    now: i64,
) -> (res: Result<String, IssuanceError>)
    requires
        expiry_fits(expiry_of(now, expiry_hours)),
    ensures
        token_result_view(res) == issued_token(
            username@,
            user_id,
            is_admin,
            secret@,
            expiry_hours,
            now,
        ),
        token_result_view(res) != refused_for_expiry(),
{
    try_create_jwt_at(username, user_id, is_admin, secret, expiry_hours, now)
}

/// Whether a lifetime in hours gives an expiry that fits the claim at every
/// second that the clock can show.
pub open spec fn lifetime_fits(expiry_hours: i64) -> bool {
    &&& 0 <= expiry_hours
    &&& expiry_fits(LAST_CLOCK_SECOND + expiry_hours * SECONDS_PER_HOUR)
}

/// Issues an access token for an identity, valid for `expiry_hours` hours
/// from the present second. The lifetime must be one whose expiry fits the
/// claim whatever the clock shows; issuing then fails for no reason but
/// signing.
pub fn create_jwt(
    username: &str,
    user_id: i64,
    is_admin: bool,
    secret: &str,
    expiry_hours: i64,
) -> (res: Result<String, IssuanceError>)
    requires
        lifetime_fits(expiry_hours),
    ensures
        exists|now: i64|
            is_clock_second(now) && token_result_view(res) == #[trigger] issued_token(
                username@,
                user_id,
                is_admin,
                secret@,
                expiry_hours,
                now,
            ),
        token_result_view(res) != refused_for_expiry(),
{
    let now = current_timestamp();
    assert(expiry_fits(expiry_of(now, expiry_hours))) by (nonlinear_arith)
        requires
            is_clock_second(now),
            lifetime_fits(expiry_hours),
    ;
    create_jwt_at(username, user_id, is_admin, secret, expiry_hours, now)
}

/// Assembles the claims from a decoded payload, if all four are there.
fn claims_from_payload(raw: RawClaims) -> (res: Option<Claims>)
    ensures
        match res {
            Some(c) => complete_claims(raw@) == Some(c@),
            None => complete_claims(raw@) is None,
        },
{
    match (raw.sub, raw.user_id, raw.is_admin, raw.exp) {
        (Some(sub), Some(user_id), Some(is_admin), Some(exp)) => {
            if exp > usize::MAX as u64 {
                None
            } else {
                Some(Claims { sub, user_id, is_admin, exp: exp as usize })
            }
        },
        _ => None,
    }
}

/// Verifies a token as of the second `now`. The signature is checked first,
/// then the claims must all be there, then `now` must lie before the expiry:
/// a token is refused from its expiry second on, with no grace.
///
/// The last clause is tamper evidence: a token that differs from an accepted
/// one only after its last `.` is refused for its signature.
pub fn decode_jwt_at(token: &str, secret: &str, now: i64) -> (res: Result<Claims, AuthError>)
    ensures
        claims_result_view(res) == token_verdict(token@, secret@, now),
        forall|other: Seq<char>, at: i64|
            #![trigger token_verdict(other, secret@, at)]
            differs_in_signature_only(token@, other) && token_verdict(other, secret@, at) is Ok
                ==> claims_result_view(res) == refused_for_signature(),
{
    match jwt_decode(token, secret) {
        Err(DecodeFault::InvalidSignature) => Err(AuthError::InvalidSignature),
        Err(DecodeFault::Other) => Err(AuthError::Malformed),
        Ok(raw) => {
            match claims_from_payload(raw) {
                None => Err(AuthError::Malformed),
                Some(claims) => {
                    if now < 0 || (now as u64) < (claims.exp as u64) {
                        Ok(claims)
                    } else {
                        Err(AuthError::Expired)
                    }
                },
            }
        },
    }
}

/// The verifying result that reports a signature that does not match.
pub open spec fn refused_for_signature() -> Result<ClaimsView, AuthError> {
    Err(AuthError::InvalidSignature)
}

/// Verifies a token as of the present second.
pub fn decode_jwt(token: &str, secret: &str) -> (res: Result<Claims, AuthError>)
    ensures
        exists|now: i64|
            is_clock_second(now) && claims_result_view(res) == #[trigger] token_verdict(
                token@,
                secret@,
                now,
            ),
        forall|other: Seq<char>, at: i64|
            #![trigger token_verdict(other, secret@, at)]
            differs_in_signature_only(token@, other) && token_verdict(other, secret@, at) is Ok
                ==> claims_result_view(res) == refused_for_signature(),
{
    let now = current_timestamp();
    decode_jwt_at(token, secret, now)
}

/// A token read back under the secret it was issued with, at any second
/// before its expiry, yields the identity it was issued for, unchanged.
pub proof fn law_round_trip(
    username: Seq<char>,
    user_id: i64,
    is_admin: bool,
    secret: Seq<char>,
    ttl_hours: i64,
    issued_at: i64,
    token: Seq<char>,
    checked_at: i64,
)
    requires
        issued_token(username, user_id, is_admin, secret, ttl_hours, issued_at) == Ok::<
            Seq<char>,
            IssuanceError,
        >(token),
        checked_at < expiry_of(issued_at, ttl_hours),
    ensures
        token_verdict(token, secret, checked_at) == Ok::<ClaimsView, AuthError>(
            claims_issued(username, user_id, is_admin, ttl_hours, issued_at),
        ),
        claims_issued(username, user_id, is_admin, ttl_hours, issued_at).exp == expiry_of(
            issued_at,
            ttl_hours,
        ),
{
    let claims = claims_issued(username, user_id, is_admin, ttl_hours, issued_at);
    assert(complete_claims(claims_fields(claims)) == Some(claims));
}

/// The same token, read at its expiry second or later, is refused as
/// expired.
pub proof fn law_expiry(
    username: Seq<char>,
    user_id: i64,
    is_admin: bool,
    secret: Seq<char>,
    ttl_hours: i64,
    issued_at: i64,
    token: Seq<char>,
    checked_at: i64,
)
    requires
        issued_token(username, user_id, is_admin, secret, ttl_hours, issued_at) == Ok::<
            Seq<char>,
            IssuanceError,
        >(token),
        checked_at >= expiry_of(issued_at, ttl_hours),
    ensures
        token_verdict(token, secret, checked_at) == Err::<ClaimsView, AuthError>(
            AuthError::Expired,
        ),
{
    let claims = claims_issued(username, user_id, is_admin, ttl_hours, issued_at);
    assert(complete_claims(claims_fields(claims)) == Some(claims));
}

/// Bytes of randomness in a refresh token.
pub const REFRESH_TOKEN_BYTES: usize = 32;

/// The character that stands for a six-bit value in the URL-safe base64
/// alphabet: `A`-`Z`, `a`-`z`, `0`-`9`, `-`, `_`.
pub open spec fn base64url_digit(v: int) -> char {
    if v < 26 {
        (65 + v) as char
    } else if v < 52 {
        (97 + (v - 26)) as char
    } else if v < 62 {
        (48 + (v - 52)) as char
    } else if v == 62 {
        '-'
    } else {
        '_'
    }
}

/// The four characters that three bytes are written as.
pub open spec fn base64url_group(b0: int, b1: int, b2: int) -> Seq<char> {
    seq![
        base64url_digit(b0 / 4),
        base64url_digit((b0 % 4) * 16 + b1 / 16),
        base64url_digit((b1 % 16) * 4 + b2 / 64),
        base64url_digit(b2 % 64),
    ]
}

/// URL-safe base64 without padding: three bytes become four characters, and
/// a rest of one or two bytes, filled up with zero bits, becomes two or
/// three.
pub open spec fn base64url(bytes: Seq<u8>) -> Seq<char>
    decreases bytes.len(),
{
    if bytes.len() == 0 {
        Seq::empty()
    } else if bytes.len() == 1 {
        base64url_group(bytes[0] as int, 0, 0).take(2)
    } else if bytes.len() == 2 {
        base64url_group(bytes[0] as int, bytes[1] as int, 0).take(3)
    } else {
        base64url_group(bytes[0] as int, bytes[1] as int, bytes[2] as int) + base64url(
            bytes.skip(3),
        )
    }
}

/// A character that needs no escaping in a URL: an ASCII letter or digit,
/// `-` or `_`.
pub open spec fn is_url_safe(c: char) -> bool {
    ('A' <= c <= 'Z') || ('a' <= c <= 'z') || ('0' <= c <= '9') || c == '-' || c == '_'
}

/// The length of the base64 text of `n` bytes.
pub open spec fn base64url_len(n: nat) -> nat {
    (4 * n + 2) / 3
}

/// Base64 text has the length that its input gives it and holds URL-safe
/// characters only.
pub proof fn lemma_base64url_shape(bytes: Seq<u8>)
    ensures
        base64url(bytes).len() == base64url_len(bytes.len()),
        forall|i: int| 0 <= i < base64url(bytes).len() ==> is_url_safe(#[trigger] base64url(bytes)[i]),
    decreases bytes.len(),
{
    if bytes.len() >= 3 {
        lemma_base64url_shape(bytes.skip(3));
        let head = base64url_group(bytes[0] as int, bytes[1] as int, bytes[2] as int);
        let tail = base64url(bytes.skip(3));
        assert(base64url(bytes) == head + tail);
        assert forall|i: int| 0 <= i < base64url(bytes).len() implies is_url_safe(
            #[trigger] base64url(bytes)[i],
        ) by {
            if i >= 4 {
                assert(base64url(bytes)[i] == tail[i - 4]);
            }
        }
    }
}

/// Whether a text is a refresh token as this crate mints them: 32 bytes
/// written in URL-safe base64.
pub open spec fn is_refresh_token(token: Seq<char>) -> bool {
    exists|bytes: Seq<u8>| bytes.len() == REFRESH_TOKEN_BYTES && token == #[trigger] base64url(bytes)
}

/// A refresh token has 43 characters, all of them URL-safe.
pub proof fn lemma_refresh_token_shape(token: Seq<char>)
    requires
        is_refresh_token(token),
    ensures
        token.len() == 43,
        forall|i: int| 0 <= i < token.len() ==> is_url_safe(#[trigger] token[i]),
{
    let bytes = choose|bytes: Seq<u8>|
        bytes.len() == REFRESH_TOKEN_BYTES && token == #[trigger] base64url(bytes);
    lemma_base64url_shape(bytes);
}

/// Trusted: `rand::thread_rng().fill_bytes` on a buffer of 32 bytes. The
/// bytes come from the thread's generator, so nothing is stated of them.
#[verifier::external_body]
fn random_token_bytes() -> (bytes: [u8; 32]) {
    let mut bytes = [0u8; 32];
    rand::RngCore::fill_bytes(&mut rand::thread_rng(), &mut bytes);
    bytes
}

/// Trusted: `base64::Engine::encode` of the engine `URL_SAFE_NO_PAD`, which
/// writes its input in the URL-safe alphabet of RFC 4648 without padding.
#[verifier::external_body]
fn base64url_encode(bytes: &[u8; 32]) -> (text: String)
    ensures
        text@ == base64url(bytes@),
{
    base64::Engine::encode(&base64::engine::general_purpose::URL_SAFE_NO_PAD, bytes)
}

/// Mints a refresh token: 256 bits from the thread's random generator,
/// written as 43 URL-safe characters.
pub fn generate_refresh_token() -> (token: String)
    ensures
        is_refresh_token(token@),
        token@.len() == 43,
        forall|i: int| 0 <= i < token@.len() ==> is_url_safe(#[trigger] token@[i]),
{
    let bytes = random_token_bytes();
    let token = base64url_encode(&bytes);
    proof {
        assert(bytes@.len() == REFRESH_TOKEN_BYTES && token@ == base64url(bytes@));
        lemma_refresh_token_shape(token@);
    }
    token
}

} // verus!
