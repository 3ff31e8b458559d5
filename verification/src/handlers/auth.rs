//! Registration, login, renewal, and the answer to "who am I".

use crate::auth::get_claims;
use crate::auth::jwt::try_create_jwt_at;
use crate::auth::jwt::current_timestamp;
use crate::auth::jwt::is_clock_second;
use crate::auth::jwt::generate_refresh_token;
use crate::auth::jwt::is_refresh_token;
use crate::auth::jwt::issued_token;
use crate::auth::middleware::RequestContext;
use crate::config::ConfigView;
use crate::db::AppState;
use crate::db::Database;
use crate::db::DatabaseView;
use crate::db::InsertError;
use crate::db::UserRow;
use crate::db::UserRowView;
use crate::handlers::ApiError;
use crate::models::AuthResponse;
use crate::models::AuthResponseView;
use crate::models::ClaimsView;
use crate::models::CurrentUserResponse;
use crate::models::CurrentUserResponseView;
use crate::models::LoginRequest;
use crate::models::RefreshRequest;
use crate::models::RefreshResponse;
use crate::models::RefreshResponseView;
use crate::models::RegisterRequest;
use crate::security::first_violation;
use crate::security::is_account_locked_at;
use crate::security::locked_out;
use crate::security::password_violation;
use crate::security::record_login_attempt_at;
use crate::security::swept;
use vstd::prelude::*;

verus! {

/// Shortest username accepted, in bytes of its UTF-8 encoding.
pub const MIN_USERNAME_BYTES: usize = 3;

/// The hashing crate's error, carried through unread.
#[verifier::external_type_specification]
#[verifier::external_body]
pub struct ExBcryptError(bcrypt::BcryptError);

/// What `bcrypt::verify` answers for a password and a stored hash: whether
/// they match, or `None` where the hash cannot be read.
pub uninterp spec fn bcrypt_verified(password: Seq<char>, hash: Seq<char>) -> Option<bool>;

/// Trusted: `bcrypt::hash` at the crate's default cost. The salt is drawn at
/// random, so the hash is not named. What holds of every hash is that it
/// verifies: `bcrypt::verify` reads salt and cost from the hash, hashes the
/// password anew with them, and compares.
#[verifier::external_body]
fn hash_password(password: &str) -> (res: Result<String, bcrypt::BcryptError>)
    ensures
        res matches Ok(h) ==> bcrypt_verified(password@, h@) == Some(true),
{
    bcrypt::hash(password, bcrypt::DEFAULT_COST)
}

/// Trusted: `bcrypt::verify`, which hashes the password with the salt and
/// cost found in the stored hash and compares. The contract only names the
/// result, a function of the two texts.
#[verifier::external_body]
fn verify_password(password: &str, hash: &str) -> (res: Result<bool, bcrypt::BcryptError>)
    ensures
        res matches Ok(b) ==> bcrypt_verified(password@, hash@) == Some(b),
        res is Err ==> bcrypt_verified(password@, hash@) is None,
{
    bcrypt::verify(password, hash)
}

/// The second from which a refresh token issued at `now` for `ttl_days` is
/// no longer honoured; a second beyond the 64-bit range is taken as the
/// nearest one within it.
pub open spec fn refresh_expiry(now: i64, ttl_days: i64) -> i64 {
    let exact = now + ttl_days * 86400;
    if exact > i64::MAX {
        i64::MAX
    } else if exact < i64::MIN {
        i64::MIN
    } else {
        exact as i64
    }
}

/// Computes the expiry of a refresh token issued at `now`.
pub fn refresh_expiry_timestamp(now: i64, ttl_days: i64) -> (expires_at: i64)
    ensures
        expires_at == refresh_expiry(now, ttl_days),
{
    assert(-0x8000_0000_0000_0000 * 86400 <= ttl_days * 86400 <= 0x8000_0000_0000_0000 * 86400)
        by (nonlinear_arith)
        requires
            -0x8000_0000_0000_0000 <= ttl_days <= 0x8000_0000_0000_0000,
    ;
    let exact: i128 = now as i128 + (ttl_days as i128) * 86400;
    if exact > i64::MAX as i128 {
        i64::MAX
    } else if exact < i64::MIN as i128 {
        i64::MIN
    } else {
        exact as i64
    }
}

/// The store after a refresh token was issued to an account at `now`: the
/// token is on record until `now` plus the configured days, unless its
/// string is on record already or the account is gone.
pub open spec fn with_issued_refresh_token(
    db: DatabaseView,
    user_id: i64,
    token: Seq<char>,
    ttl_days: i64,
    now: i64,
) -> DatabaseView {
    db.with_refresh_token(user_id, token, refresh_expiry(now, ttl_days), now)
}

/// Puts a freshly minted refresh token on record for an account.
pub fn issue_refresh_token_with(
    db: &mut Database,
    user_id: i64,
    token: &str,
    ttl_days: i64,
    now: i64,
) -> (stored: bool)
    requires
        old(db)@.wf(),
    ensures
        final(db)@.wf(),
        final(db)@ == with_issued_refresh_token(old(db)@, user_id, token@, ttl_days, now),
        stored == (old(db)@.refresh_token_insertable(user_id, token@) is Ok),
{
    let expires_at = refresh_expiry_timestamp(now, ttl_days);
    db.insert_refresh_token(user_id, token, expires_at, now).is_ok()
}

/// Issues a refresh token to an account: mints one, puts it on record for
/// `ttl_days` days from the present second, and returns it.
pub fn issue_refresh_token(db: &mut Database, user_id: i64, ttl_days: i64) -> (token: String)
    requires
        old(db)@.wf(),
    ensures
        final(db)@.wf(),
        is_refresh_token(token@),
        exists|now: i64|
            is_clock_second(now) && final(db)@ == #[trigger] with_issued_refresh_token(
                old(db)@,
                user_id,
                token@,
                ttl_days,
                now,
            ),
{
    let now = current_timestamp();
    let token = generate_refresh_token();
    let _ = issue_refresh_token_with(db, user_id, token.as_str(), ttl_days, now);
    token
}

/// Why a refresh token was not redeemed.
#[derive(Clone, Copy, Debug, PartialEq, Eq, Structural)]
pub enum RedeemError {
    /// No such token is on record for an account that exists.
    NotFound,
    /// The token is on record and its expiry has passed.
    Expired,
}

/// Whether a refresh token can be redeemed at `now`, and for which account:
/// the token must be on record, its expiry must lie after `now`, and its
/// account must exist.
pub open spec fn redeemable(db: DatabaseView, token: Seq<char>, now: i64) -> Result<
    UserRowView,
    RedeemError,
> {
    match db.refresh_token_row(token) {
        None => Err(RedeemError::NotFound),
        Some(row) => if row.expires_at <= now {
            Err(RedeemError::Expired)
        } else {
            match db.user_with_id(row.user_id) {
                None => Err(RedeemError::NotFound),
                Some(user) => Ok(user),
            }
        },
    }
}

/// The store after an attempt to redeem: without the token where it was
/// redeemable, unchanged where it was not. A token that has expired stays on
/// record.
pub open spec fn after_redeem(db: DatabaseView, token: Seq<char>, now: i64) -> DatabaseView {
    if redeemable(db, token, now) is Ok {
        db.without_refresh_token(token)
    } else {
        db
    }
}

/// The view of the outcome of a redemption.
pub open spec fn redeemed_view(res: Result<UserRow, RedeemError>) -> Result<
    UserRowView,
    RedeemError,
> {
    match res {
        Ok(u) => Ok(u@),
        Err(e) => Err(e),
    }
}

/// Redeems a refresh token at the second `now`: finds its account and
/// deletes the token, so that it cannot be redeemed again.
pub fn redeem_refresh_token(db: &mut Database, token: &str, now: i64) -> (res: Result<
    UserRow,
    RedeemError,
>)
    requires
        old(db)@.wf(),
    ensures
        final(db)@.wf(),
        redeemed_view(res) == redeemable(old(db)@, token@, now),
        final(db)@ == after_redeem(old(db)@, token@, now),
{
    let row = match db.find_refresh_token(token) {
        Some(r) => r,
        None => { return Err(RedeemError::NotFound); },
    };
    if row.expires_at <= now {
        return Err(RedeemError::Expired);
    }
    let user = match db.find_user_by_id(row.user_id) {
        Some(u) => u,
        None => { return Err(RedeemError::NotFound); },
    };
    let _ = db.delete_refresh_token(token);
    Ok(user)
}

/// What stands in the way of a registration before the password is hashed,
/// if anything: registration closed while an account exists, an empty
/// username or password, a username under three bytes, a weak password.
pub open spec fn registration_obstacle(
    db: DatabaseView,
    allow_registration: bool,
    username: Seq<char>,
    password: Seq<char>,
) -> Option<ApiError> {
    if !allow_registration && db.users.len() > 0 {
        Some(ApiError::RegistrationDisabled)
    } else if username.len() == 0 || password.len() == 0 {
        Some(ApiError::EmptyCredentials)
    } else if vstd::utf8::encode_utf8(username).len() < MIN_USERNAME_BYTES {
        Some(ApiError::UsernameTooShort)
    } else {
        match first_violation(password) {
            Some(v) => Some(ApiError::WeakPassword(v)),
            None => None,
        }
    }
}

/// The answer to a registration whose password hash is `hash` (`None` where
/// hashing failed), and the store after it. The first account ever becomes
/// elevated, every later one does not. An account that was stored stays
/// stored even where no access token could be issued for it.
pub open spec fn registration_outcome(
    db: DatabaseView,
    config: ConfigView,
    username: Seq<char>,
    hash: Option<Seq<char>>,
    now: i64,
    fresh: Seq<char>,
) -> (Result<AuthResponseView, ApiError>, DatabaseView) {
    match hash {
        None => (Err(ApiError::HashingFailed), db),
        Some(h) => {
            let is_admin = db.users.len() == 0;
            match db.user_insertable(username) {
                Err(InsertError::Duplicate) => (Err(ApiError::UsernameTaken), db),
                Err(_) => (Err(ApiError::StoreFault), db),
                Ok(()) => {
                    let stored = db.with_user(username, h, is_admin, now);
                    match issued_token(
                        username,
                        db.next_user_id,
                        is_admin,
                        config.jwt_secret,
                        config.jwt_expiry_hours,
                        now,
                    ) {
                        Err(_) => (Err(ApiError::TokenCreationFailed), stored),
                        Ok(token) => (
                            Ok(AuthResponseView { token, refresh_token: fresh, username }),
                            with_issued_refresh_token(
                                stored,
                                db.next_user_id,
                                fresh,
                                config.refresh_token_expiry_days,
                                now,
                            ),
                        ),
                    }
                },
            }
        },
    }
}

/// The view of the answer to a registration or a login.
pub open spec fn auth_result_view(res: Result<AuthResponse, ApiError>) -> Result<
    AuthResponseView,
    ApiError,
> {
    match res {
        Ok(r) => Ok(r@),
        Err(e) => Err(e),
    }
}

/// Whether a hash, if there is one, is a hash of this password: one that
/// the password verifies against.
pub open spec fn hashes(password: Seq<char>, hash: Option<Seq<char>>) -> bool {
    hash matches Some(h) ==> bcrypt_verified(password, h) == Some(true)
}

/// The view of a hash, if there is one.
pub open spec fn hash_view(hash: Option<&str>) -> Option<Seq<char>> {
    match hash {
        Some(h) => Some(h@),
        None => None,
    }
}

/// Checks a registration before any work is spent on it.
pub fn check_registration(data: &AppState, req: &RegisterRequest) -> (res: Option<ApiError>)
    ensures
        res == registration_obstacle(
            data@.db,
            data@.config.allow_registration,
            req.username@,
            req.password@,
        ),
{
    if !data.config.allow_registration && data.db.count_users() > 0 {
        return Some(ApiError::RegistrationDisabled);
    }
    if req.username.as_str().is_empty() || req.password.as_str().is_empty() {
        return Some(ApiError::EmptyCredentials);
    }
    if req.username.as_str().as_bytes().len() < MIN_USERNAME_BYTES {
        return Some(ApiError::UsernameTooShort);
    }
    match password_violation(req.password.as_str()) {
        Err(v) => Some(ApiError::WeakPassword(v)),
        Ok(()) => None,
    }
}

/// Completes a registration that passed its checks, given the hash of the
/// password, the second, and a freshly minted refresh token.
pub fn complete_registration(
    data: &mut AppState,
    username: &str,
    hash: Option<&str>,
    now: i64,
    fresh: String,
) -> (res: Result<AuthResponse, ApiError>)
    requires
        old(data)@.db.wf(),
    ensures
        final(data)@.db.wf(),
        final(data)@.config == old(data)@.config,
        (auth_result_view(res), final(data)@.db) == registration_outcome(
            old(data)@.db,
            old(data)@.config,
            username@,
            hash_view(hash),
            now,
            fresh@,
        ),
{
    let hash = match hash {
        Some(h) => h,
        None => { return Err(ApiError::HashingFailed); },
    };
    let is_admin = data.db.count_users() == 0;
    let user_id = match data.db.insert_user(username, hash, is_admin, now) {
        Ok(id) => id,
        Err(InsertError::Duplicate) => { return Err(ApiError::UsernameTaken); },
        Err(_) => { return Err(ApiError::StoreFault); },
    };
    let token = match try_create_jwt_at(
        username,
        user_id,
        is_admin,
        data.config.jwt_secret.as_str(),
        data.config.jwt_expiry_hours,
        now,
    ) {
        Ok(t) => t,
        Err(_) => { return Err(ApiError::TokenCreationFailed); },
    };
    let _ = issue_refresh_token_with(
        &mut data.db,
        user_id,
        fresh.as_str(),
        data.config.refresh_token_expiry_days,
        now,
    );
    Ok(AuthResponse { token, refresh_token: fresh, username: username.to_owned() })
}

/// Registers an account and logs it in. A request that fails a check is
/// refused before the password is hashed and leaves the store untouched;
/// any other request is answered as `registration_outcome` says, for a hash
/// of the password, the second and the refresh token that were drawn.
pub fn register(data: &mut AppState, req: &RegisterRequest) -> (res: Result<AuthResponse, ApiError>)
    requires
        old(data)@.db.wf(),
    ensures
        final(data)@.db.wf(),
        final(data)@.config == old(data)@.config,
        registration_obstacle(
            old(data)@.db,
            old(data)@.config.allow_registration,
            req.username@,
            req.password@,
        ) matches Some(e) ==> auth_result_view(res) == refusal(e) && final(data)@.db == old(
            data,
        )@.db,
        registration_obstacle(
            old(data)@.db,
            old(data)@.config.allow_registration,
            req.username@,
            req.password@,
        ) is None ==> exists|hash: Option<Seq<char>>, now: i64, fresh: Seq<char>|
            is_clock_second(now) && is_refresh_token(fresh) && hashes(req.password@, hash) && (
            auth_result_view(res),
            final(data)@.db,
        ) == #[trigger] registration_outcome(
                old(data)@.db,
                old(data)@.config,
                req.username@,
                hash,
                now,
                fresh,
            ),
{
    if let Some(e) = check_registration(data, req) {
        return Err(e);
    }
    let hashed = hash_password(req.password.as_str());
    let now = current_timestamp();
    let fresh = generate_refresh_token();
    match hashed {
        Ok(h) => complete_registration(data, req.username.as_str(), Some(h.as_str()), now, fresh),
        Err(_) => complete_registration(data, req.username.as_str(), None, now, fresh),
    }
}

/// The answer that refuses a registration or a login.
pub open spec fn refusal(e: ApiError) -> Result<AuthResponseView, ApiError> {
    Err(e)
}

/// The answer to a login at `now`, and the store after it. The lockout is
/// judged first, on the username as typed and before any account is looked
/// up or any password compared; a locked username is refused and nothing is
/// put on record. Otherwise an unknown username and a wrong password are
/// refused alike, and each is put on record as a failed attempt.
pub open spec fn login_outcome(
    db: DatabaseView,
    config: ConfigView,
    username: Seq<char>,
    password: Seq<char>,
    now: i64,
    fresh: Seq<char>,
) -> (Result<AuthResponseView, ApiError>, DatabaseView) {
    if locked_out(
        db,
        username,
        config.account_lockout_attempts,
        config.account_lockout_duration_minutes,
        now,
    ) {
        (Err(ApiError::AccountLocked(config.account_lockout_duration_minutes)), db)
    } else {
        match db.user_named(username) {
            None => (
                Err(ApiError::InvalidCredentials),
                db.with_login_attempt(username, false, now),
            ),
            Some(user) => match bcrypt_verified(password, user.password) {
                None => (Err(ApiError::AuthenticationFault), db),
                Some(false) => (
                    Err(ApiError::InvalidCredentials),
                    db.with_login_attempt(username, false, now),
                ),
                Some(true) => {
                    let noted = db.with_login_attempt(username, true, now);
                    match issued_token(
                        user.username,
                        user.user_id,
                        user.is_admin,
                        config.jwt_secret,
                        config.jwt_expiry_hours,
                        now,
                    ) {
                        Err(_) => (Err(ApiError::TokenCreationFailed), noted),
                        Ok(token) => (
                            Ok(
                                AuthResponseView {
                                    token,
                                    refresh_token: fresh,
                                    username: user.username,
                                },
                            ),
                            with_issued_refresh_token(
                                noted,
                                user.user_id,
                                fresh,
                                config.refresh_token_expiry_days,
                                now,
                            ),
                        ),
                    }
                },
            },
        }
    }
}

/// Answers a login at the second `now`, with a freshly minted refresh token
/// at hand.
pub fn login_at(data: &mut AppState, req: &LoginRequest, now: i64, fresh: String) -> (res: Result<
    AuthResponse,
    ApiError,
>)
    requires
        old(data)@.db.wf(),
    ensures
        final(data)@.db.wf(),
        final(data)@.config == old(data)@.config,
        (auth_result_view(res), final(data)@.db) == login_outcome(
            old(data)@.db,
            old(data)@.config,
            req.username@,
            req.password@,
            now,
            fresh@,
        ),
{
    let username = req.username.as_str();
    if is_account_locked_at(
        &data.db,
        username,
        data.config.account_lockout_attempts,
        data.config.account_lockout_duration_minutes,
        now,
    ) {
        return Err(ApiError::AccountLocked(data.config.account_lockout_duration_minutes));
    }
    let user = match data.db.find_user_by_username(username) {
        Some(u) => u,
        None => {
            record_login_attempt_at(&mut data.db, username, false, now);
            return Err(ApiError::InvalidCredentials);
        },
    };
    match verify_password(req.password.as_str(), user.password.as_str()) {
        Err(_) => Err(ApiError::AuthenticationFault),
        Ok(false) => {
            record_login_attempt_at(&mut data.db, username, false, now);
            Err(ApiError::InvalidCredentials)
        },
        Ok(true) => {
            record_login_attempt_at(&mut data.db, username, true, now);
            let token = match try_create_jwt_at(
                user.username.as_str(),
                user.user_id,
                user.is_admin,
                data.config.jwt_secret.as_str(),
                data.config.jwt_expiry_hours,
                now,
            ) {
                Ok(t) => t,
                Err(_) => { return Err(ApiError::TokenCreationFailed); },
            };
            let _ = issue_refresh_token_with(
                &mut data.db,
                user.user_id,
                fresh.as_str(),
                data.config.refresh_token_expiry_days,
                now,
            );
            Ok(AuthResponse { token, refresh_token: fresh, username: user.username })
        },
    }
}

/// Answers a login at the present second. Nothing is deleted: a login that
/// is refused for a lockout leaves the store as it was, and any other
/// appends to it.
pub fn login(data: &mut AppState, req: &LoginRequest) -> (res: Result<AuthResponse, ApiError>)
    requires
        old(data)@.db.wf(),
    ensures
        final(data)@.db.wf(),
        final(data)@.config == old(data)@.config,
        exists|now: i64, fresh: Seq<char>|
            is_clock_second(now) && is_refresh_token(fresh) && (
            auth_result_view(res),
            final(data)@.db,
        ) == #[trigger] login_outcome(
                old(data)@.db,
                old(data)@.config,
                req.username@,
                req.password@,
                now,
                fresh,
            ),
{
    let now = current_timestamp();
    let fresh = generate_refresh_token();
    login_at(data, req, now, fresh)
}

/// The answer to a renewal at `now`, and the store after it. A token that
/// can be redeemed is deleted before anything else is done, and the answer
/// carries the token that replaces it.
pub open spec fn refresh_outcome(
    db: DatabaseView,
    config: ConfigView,
    token: Seq<char>,
    now: i64,
    fresh: Seq<char>,
) -> (Result<RefreshResponseView, ApiError>, DatabaseView) {
    match redeemable(db, token, now) {
        Err(_) => (Err(ApiError::InvalidRefreshToken), db),
        Ok(user) => {
            let spent = db.without_refresh_token(token);
            match issued_token(
                user.username,
                user.user_id,
                user.is_admin,
                config.jwt_secret,
                config.jwt_expiry_hours,
                now,
            ) {
                Err(_) => (Err(ApiError::TokenCreationFailed), spent),
                Ok(access) => (
                    Ok(RefreshResponseView { token: access, refresh_token: fresh }),
                    with_issued_refresh_token(
                        spent,
                        user.user_id,
                        fresh,
                        config.refresh_token_expiry_days,
                        now,
                    ),
                ),
            }
        },
    }
}

/// The view of the answer to a renewal.
pub open spec fn refresh_result_view(res: Result<RefreshResponse, ApiError>) -> Result<
    RefreshResponseView,
    ApiError,
> {
    match res {
        Ok(r) => Ok(r@),
        Err(e) => Err(e),
    }
}

/// Answers a renewal at the second `now`, with a freshly minted refresh
/// token at hand.
pub fn refresh_token_at(data: &mut AppState, req: &RefreshRequest, now: i64, fresh: String) -> (res:
    Result<RefreshResponse, ApiError>)
    requires
        old(data)@.db.wf(),
    ensures
        final(data)@.db.wf(),
        final(data)@.config == old(data)@.config,
        (refresh_result_view(res), final(data)@.db) == refresh_outcome(
            old(data)@.db,
            old(data)@.config,
            req.refresh_token@,
            now,
            fresh@,
        ),
{
    let user = match redeem_refresh_token(&mut data.db, req.refresh_token.as_str(), now) {
        Ok(u) => u,
        Err(_) => { return Err(ApiError::InvalidRefreshToken); },
    };
    let token = match try_create_jwt_at(
        user.username.as_str(),
        user.user_id,
        user.is_admin,
        data.config.jwt_secret.as_str(),
        data.config.jwt_expiry_hours,
        now,
    ) {
        Ok(t) => t,
        Err(_) => { return Err(ApiError::TokenCreationFailed); },
    };
    let _ = issue_refresh_token_with(
        &mut data.db,
        user.user_id,
        fresh.as_str(),
        data.config.refresh_token_expiry_days,
        now,
    );
    Ok(RefreshResponse { token, refresh_token: fresh })
}

/// Answers a renewal at the present second: the refresh token presented is
/// spent, and a new access token and a new refresh token are handed out.
pub fn refresh_token(data: &mut AppState, req: &RefreshRequest) -> (res: Result<
    RefreshResponse,
    ApiError,
>)
    requires
        old(data)@.db.wf(),
    ensures
        final(data)@.db.wf(),
        final(data)@.config == old(data)@.config,
        exists|now: i64, fresh: Seq<char>|
            is_clock_second(now) && is_refresh_token(fresh) && (refresh_result_view(res), final(data)@.db)
                == #[trigger] refresh_outcome(
                old(data)@.db,
                old(data)@.config,
                req.refresh_token@,
                now,
                fresh,
            ),
{
    let now = current_timestamp();
    let fresh = generate_refresh_token();
    refresh_token_at(data, req, now, fresh)
}

/// Who the caller is, from the identity attached to the request.
pub open spec fn current_user_outcome(identity: Option<ClaimsView>) -> Result<
    CurrentUserResponseView,
    ApiError,
> {
    match identity {
        None => Err(ApiError::Unauthorized),
        Some(c) => Ok(
            CurrentUserResponseView { user_id: c.user_id, username: c.sub, is_admin: c.is_admin },
        ),
    }
}

/// The view of the answer to "who am I".
pub open spec fn current_user_view(res: Result<CurrentUserResponse, ApiError>) -> Result<
    CurrentUserResponseView,
    ApiError,
> {
    match res {
        Ok(r) => Ok(r@),
        Err(e) => Err(e),
    }
}

/// Tells the caller who they are: the identity that was attached to the
/// request, or `Unauthorized` where none was.
pub fn get_current_user(http_req: &RequestContext) -> (res: Result<CurrentUserResponse, ApiError>)
    ensures
        current_user_view(res) == current_user_outcome(http_req@),
{
    match get_claims(http_req) {
        None => Err(ApiError::Unauthorized),
        Some(claims) => Ok(
            CurrentUserResponse {
                user_id: claims.user_id,
                username: claims.sub,
                is_admin: claims.is_admin,
            },
        ),
    }
}

/// A refresh token is good for one renewal. Where a renewal succeeds and the
/// token handed out differs from the one presented, the answer carries the
/// new token, and the one presented is gone for good: at any later time it
/// is not found, and a renewal with it is refused and changes nothing.
pub proof fn law_single_use(
    db: DatabaseView,
    config: ConfigView,
    token: Seq<char>,
    now: i64,
    fresh: Seq<char>,
    later: i64,
    next_fresh: Seq<char>,
)
    requires
        db.wf(),
        refresh_outcome(db, config, token, now, fresh).0 is Ok,
        fresh != token,
    ensures
        refresh_outcome(db, config, token, now, fresh).0->Ok_0.refresh_token == fresh,
        refresh_outcome(db, config, token, now, fresh).1.wf(),
        redeemable(refresh_outcome(db, config, token, now, fresh).1, token, later) == Err::<
            UserRowView,
            RedeemError,
        >(RedeemError::NotFound),
        refresh_outcome(
            refresh_outcome(db, config, token, now, fresh).1,
            config,
            token,
            later,
            next_fresh,
        ) == (
            Err::<RefreshResponseView, ApiError>(ApiError::InvalidRefreshToken),
            refresh_outcome(db, config, token, now, fresh).1,
        ),
{
    let user = redeemable(db, token, now)->Ok_0;
    let spent = db.without_refresh_token(token);
    db.lemma_without_refresh_token(token);
    let expires_at = refresh_expiry(now, config.refresh_token_expiry_days);
    spent.lemma_with_refresh_token(user.user_id, fresh, expires_at, now);
    let after = refresh_outcome(db, config, token, now, fresh).1;
    assert(after == spent.with_refresh_token(user.user_id, fresh, expires_at, now));
    assert(!after.has_refresh_token(token)) by {
        if after.has_refresh_token(token) {
            let i = choose|i: int|
                0 <= i < after.refresh_tokens.len() && (#[trigger] after.refresh_tokens[i]).token
                    == token;
            if i < spent.refresh_tokens.len() {
                assert(spent.refresh_tokens[i].token == token);
            }
        }
    }
}

/// A refresh token that has expired stays expired: as long as it is on
/// record, no later second finds it redeemable.
pub proof fn law_expired_stays_expired(db: DatabaseView, token: Seq<char>, now: i64, later: i64)
    requires
        redeemable(db, token, now) == Err::<UserRowView, RedeemError>(RedeemError::Expired),
        now <= later,
    ensures
        redeemable(db, token, later) == Err::<UserRowView, RedeemError>(RedeemError::Expired),
{
}

/// A sweep changes no renewal: at the second of the sweep and at every later
/// one, a refresh token renews after the sweep exactly if it would without
/// it, and for the same account.
pub proof fn law_sweep_keeps_renewals(
    db: DatabaseView,
    lockout_minutes: i64,
    now: i64,
    token: Seq<char>,
    later: i64,
)
    requires
        db.wf(),
        now <= later,
    ensures
        crate::security::swept(db, lockout_minutes, now).wf(),
        redeemable(db, token, later) is Ok ==> redeemable(
            crate::security::swept(db, lockout_minutes, now),
            token,
            later,
        ) == redeemable(db, token, later),
        redeemable(db, token, later) is Err ==> redeemable(
            crate::security::swept(db, lockout_minutes, now),
            token,
            later,
        ) is Err,
{
    let pred = |r: crate::db::RefreshTokenRowView| r.expires_at > now;
    let attempts = db.login_attempts.filter(
        |a: crate::db::LoginAttemptRowView|
            a.attempted_at > crate::security::lockout_cutoff(now, lockout_minutes),
    );
    db.lemma_filter_refresh_tokens(pred, attempts, token);
}

/// A locked username is refused whatever the password and whether or not an
/// account has it, and the refusal leaves the store as it was: no account is
/// looked up, no password compared, nothing put on record.
pub proof fn law_lockout(
    db: DatabaseView,
    config: ConfigView,
    username: Seq<char>,
    password: Seq<char>,
    now: i64,
    fresh: Seq<char>,
)
    requires
        locked_out(
            db,
            username,
            config.account_lockout_attempts,
            config.account_lockout_duration_minutes,
            now,
        ),
    ensures
        login_outcome(db, config, username, password, now, fresh) == (
            Err::<AuthResponseView, ApiError>(
                ApiError::AccountLocked(config.account_lockout_duration_minutes),
            ),
            db,
        ),
        ApiError::AccountLocked(config.account_lockout_duration_minutes).status_spec() == 429,
{
}

/// Every login that is refused for its credentials counts: it raises the
/// number of failed attempts on the username, as seen from any cutoff before
/// it, by one. So a username on which failures keep coming within the window
/// reaches any threshold.
pub proof fn law_failed_login_counts(
    db: DatabaseView,
    config: ConfigView,
    username: Seq<char>,
    password: Seq<char>,
    now: i64,
    fresh: Seq<char>,
    cutoff: int,
)
    requires
        login_outcome(db, config, username, password, now, fresh).0 == Err::<
            AuthResponseView,
            ApiError,
        >(ApiError::InvalidCredentials),
        cutoff < now,
    ensures
        login_outcome(db, config, username, password, now, fresh).1.failed_attempts_since(
            username,
            cutoff,
        ) == db.failed_attempts_since(username, cutoff) + 1,
{
    crate::security::law_attempts_count(db, username, false, now, username, cutoff);
}

/// A registration that succeeds stores one account more, under the username
/// asked for, and that account is elevated exactly if it is the first: the
/// store held no account before.
pub proof fn law_first_account_elevated(
    db: DatabaseView,
    config: ConfigView,
    username: Seq<char>,
    hash: Seq<char>,
    now: i64,
    fresh: Seq<char>,
)
    requires
        db.wf(),
        registration_outcome(db, config, username, Some(hash), now, fresh).0 is Ok,
    ensures
        registration_outcome(db, config, username, Some(hash), now, fresh).1.wf(),
        registration_outcome(db, config, username, Some(hash), now, fresh).1.users.len()
            == db.users.len() + 1,
        registration_outcome(db, config, username, Some(hash), now, fresh).1.user_named(username)
            matches Some(account) && account.is_admin == (db.users.len() == 0) && account.user_id
            == db.next_user_id && account.username == username && account.password == hash,
{
    let stored = db.with_user(username, hash, db.users.len() == 0, now);
    db.lemma_with_user(username, hash, db.users.len() == 0, now);
    let expires_at = refresh_expiry(now, config.refresh_token_expiry_days);
    stored.lemma_with_refresh_token(db.next_user_id, fresh, expires_at, now);
    let after = registration_outcome(db, config, username, Some(hash), now, fresh).1;
    assert(after.users == stored.users);
    let last = db.users.len() as int;
    assert(stored.users[last].username == username);
    assert(after.has_user_named(username));
    let k = choose|k: int|
        0 <= k < after.users.len() && (#[trigger] after.users[k]).username == username;
    assert(k == last) by {
        if k < last {
            assert(after.users[k].username != after.users[last].username);
        }
    }
}

/// A registration that passed its checks, of a username that is free, in a
/// store that has ids left, fails for nothing but the work done outside:
/// hashing the password, or issuing the access token. Where both succeed
/// the answer carries the username and the refresh token that was drawn.
pub proof fn law_registration_succeeds_unless_outside_work_fails(
    db: DatabaseView,
    config: ConfigView,
    username: Seq<char>,
    hash: Option<Seq<char>>,
    now: i64,
    fresh: Seq<char>,
)
    requires
        !db.has_user_named(username),
        db.next_user_id < i64::MAX,
    ensures
        match registration_outcome(db, config, username, hash, now, fresh).0 {
            Ok(answer) => answer.username == username && answer.refresh_token == fresh,
            Err(e) => (e == ApiError::HashingFailed && hash is None) || (e
                == ApiError::TokenCreationFailed && issued_token(
                username,
                db.next_user_id,
                db.users.len() == 0,
                config.jwt_secret,
                config.jwt_expiry_hours,
                now,
            ) is Err),
        },
{
}

/// The password that an account was registered with logs it in. After a
/// registration that succeeded with a hash of the password, a login with the
/// same username and password, at a second when the username is not locked,
/// is not refused for its credentials: it is answered with tokens, unless no
/// access token can be issued.
pub proof fn law_registered_password_logs_in(
    db: DatabaseView,
    config: ConfigView,
    username: Seq<char>,
    password: Seq<char>,
    hash: Seq<char>,
    now: i64,
    fresh: Seq<char>,
    later: i64,
    next_fresh: Seq<char>,
)
    requires
        db.wf(),
        hashes(password, Some(hash)),
        registration_outcome(db, config, username, Some(hash), now, fresh).0 is Ok,
        !locked_out(
            registration_outcome(db, config, username, Some(hash), now, fresh).1,
            username,
            config.account_lockout_attempts,
            config.account_lockout_duration_minutes,
            later,
        ),
    ensures
        login_outcome(
            registration_outcome(db, config, username, Some(hash), now, fresh).1,
            config,
            username,
            password,
            later,
            next_fresh,
        ).0 matches Err(e) ==> e == ApiError::TokenCreationFailed,
{
    law_first_account_elevated(db, config, username, hash, now, fresh);
}

/// A sweep changes no login: at the second of the sweep, a login is answered
/// after the sweep as it would be without it.
pub proof fn law_sweep_keeps_logins(
    db: DatabaseView,
    config: ConfigView,
    username: Seq<char>,
    password: Seq<char>,
    now: i64,
    fresh: Seq<char>,
)
    ensures
        login_outcome(
            swept(db, config.account_lockout_duration_minutes, now),
            config,
            username,
            password,
            now,
            fresh,
        ).0 == login_outcome(db, config, username, password, now, fresh).0,
{
    crate::security::law_sweep_keeps_lockouts(
        db,
        config.account_lockout_duration_minutes,
        now,
        username,
        config.account_lockout_attempts,
        now,
    );
}

/// A username can be registered once. After a registration succeeded, every
/// further registration of the same username is refused as taken, which is
/// answered with status 409, and leaves the store as it was.
pub proof fn law_username_registers_once(
    db: DatabaseView,
    config: ConfigView,
    username: Seq<char>,
    hash: Seq<char>,
    now: i64,
    fresh: Seq<char>,
    next_hash: Seq<char>,
    later: i64,
    next_fresh: Seq<char>,
)
    requires
        db.wf(),
        registration_outcome(db, config, username, Some(hash), now, fresh).0 is Ok,
    ensures
        registration_outcome(
            registration_outcome(db, config, username, Some(hash), now, fresh).1,
            config,
            username,
            Some(next_hash),
            later,
            next_fresh,
        ) == (
            Err::<AuthResponseView, ApiError>(ApiError::UsernameTaken),
            registration_outcome(db, config, username, Some(hash), now, fresh).1,
        ),
        ApiError::UsernameTaken.status_spec() == 409,
{
    law_first_account_elevated(db, config, username, hash, now, fresh);
}

} // verus!
