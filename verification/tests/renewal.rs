use rus::auth::jwt::decode_jwt_at;
use rus::config::Config;
use rus::config::ConfigValues;
use rus::db::AppState;
use rus::handlers::auth::issue_refresh_token;
use rus::handlers::auth::issue_refresh_token_with;
use rus::handlers::auth::redeem_refresh_token;
use rus::handlers::auth::refresh_expiry_timestamp;
use rus::handlers::auth::refresh_token;
use rus::handlers::auth::refresh_token_at;
use rus::handlers::auth::RedeemError;
use rus::handlers::ApiError;
use rus::models::RefreshRequest;

fn values_for_renewal() -> ConfigValues {
    ConfigValues {
        jwt_secret: Some("renewal-secret".to_string()),
        jwt_expiry: Some("1".to_string()),
        refresh_token_expiry: Some("7".to_string()),
        max_url_length: None,
        account_lockout_attempts: None,
        account_lockout_duration: None,
        click_retention_days: None,
        host_url: None,
        db_path: None,
        host: None,
        port: None,
        allow_registration: None,
    }
}

fn state_with_two_accounts() -> AppState {
    let mut state = AppState::new(Config::from_values(&values_for_renewal()));
    state.db.insert_user("alice", "hash-a", true, 0).unwrap();
    state.db.insert_user("bob", "hash-b", false, 0).unwrap();
    state
}

fn renewal(token: &str) -> RefreshRequest {
    RefreshRequest { refresh_token: token.to_string() }
}

const DAY: i64 = 86400;

#[test]
fn refresh_token_renews_once_and_is_then_not_found() {
    let mut state = state_with_two_accounts();
    assert!(issue_refresh_token_with(&mut state.db, 2, "t1", 7, 1000));
    let answer = refresh_token_at(&mut state, &renewal("t1"), 2000, "t2".to_string()).unwrap();
    assert_eq!(answer.refresh_token, "t2");
    assert_ne!(answer.refresh_token, "t1");
    let claims = decode_jwt_at(&answer.token, "renewal-secret", 2000).unwrap();
    assert_eq!(claims.sub, "bob");
    assert_eq!(claims.user_id, 2);
    assert!(!claims.is_admin);
    assert_eq!(claims.exp, 2000 + 3600);
    // The old token is gone, the new one is on record.
    assert_eq!(state.db.refresh_tokens.len(), 1);
    assert_eq!(state.db.refresh_tokens[0].token, "t2");
    assert_eq!(state.db.refresh_tokens[0].user_id, 2);
    assert_eq!(state.db.refresh_tokens[0].expires_at, 2000 + 7 * DAY);
    // A second renewal with the old token fails and changes nothing.
    let again = refresh_token_at(&mut state, &renewal("t1"), 2001, "t3".to_string());
    let refusal = again.unwrap_err();
    assert_eq!(refusal, ApiError::InvalidRefreshToken);
    assert_eq!(refusal.status_code(), 401);
    assert_eq!(refusal.message(), "Invalid or expired refresh token");
    assert_eq!(state.db.refresh_tokens.len(), 1);
    assert_eq!(state.db.refresh_tokens[0].token, "t2");
    assert_eq!(
        redeem_refresh_token(&mut state.db, "t1", 2002).unwrap_err(),
        RedeemError::NotFound
    );
    // The new token renews in its turn.
    let next = refresh_token_at(&mut state, &renewal("t2"), 2003, "t3".to_string()).unwrap();
    assert_eq!(next.refresh_token, "t3");
}

#[test]
fn expired_refresh_token_is_refused_and_stays_on_record() {
    let mut state = state_with_two_accounts();
    assert!(issue_refresh_token_with(&mut state.db, 1, "t1", 7, 1000));
    let expiry = 1000 + 7 * DAY;
    assert_eq!(state.db.refresh_tokens[0].expires_at, expiry);
    assert_eq!(
        redeem_refresh_token(&mut state.db, "t1", expiry).unwrap_err(),
        RedeemError::Expired
    );
    assert_eq!(
        redeem_refresh_token(&mut state.db, "t1", expiry + 1).unwrap_err(),
        RedeemError::Expired
    );
    assert_eq!(state.db.refresh_tokens.len(), 1);
    let res = refresh_token_at(&mut state, &renewal("t1"), expiry, "t2".to_string());
    assert_eq!(res.unwrap_err(), ApiError::InvalidRefreshToken);
    assert_eq!(state.db.refresh_tokens.len(), 1);
    assert_eq!(state.db.refresh_tokens[0].token, "t1");
    // One second earlier it is still good.
    let user = redeem_refresh_token(&mut state.db, "t1", expiry - 1).unwrap();
    assert_eq!(user.username, "alice");
    assert!(state.db.refresh_tokens.is_empty());
}

#[test]
fn unknown_refresh_token_is_not_found() {
    let mut state = state_with_two_accounts();
    assert_eq!(
        redeem_refresh_token(&mut state.db, "never-issued", 0).unwrap_err(),
        RedeemError::NotFound
    );
    assert_eq!(redeem_refresh_token(&mut state.db, "", 0).unwrap_err(), RedeemError::NotFound);
    let res = refresh_token_at(&mut state, &renewal("never-issued"), 0, "t".to_string());
    assert_eq!(res.unwrap_err(), ApiError::InvalidRefreshToken);
    assert!(state.db.refresh_tokens.is_empty());
}

#[test]
fn refresh_token_of_a_deleted_account_is_gone_with_it() {
    let mut state = state_with_two_accounts();
    assert!(issue_refresh_token_with(&mut state.db, 2, "bobs", 7, 1000));
    assert!(issue_refresh_token_with(&mut state.db, 2, "bobs-too", 7, 1000));
    assert!(issue_refresh_token_with(&mut state.db, 1, "alices", 7, 1000));
    assert!(state.db.delete_user(2));
    assert_eq!(state.db.refresh_tokens.len(), 1);
    assert_eq!(state.db.refresh_tokens[0].token, "alices");
    assert_eq!(
        redeem_refresh_token(&mut state.db, "bobs", 1001).unwrap_err(),
        RedeemError::NotFound
    );
    assert!(redeem_refresh_token(&mut state.db, "alices", 1001).is_ok());
}

#[test]
fn token_strings_are_unique_on_record() {
    let mut state = state_with_two_accounts();
    assert!(issue_refresh_token_with(&mut state.db, 1, "same", 7, 1000));
    assert!(!issue_refresh_token_with(&mut state.db, 2, "same", 7, 1001));
    assert_eq!(state.db.refresh_tokens.len(), 1);
    assert_eq!(state.db.refresh_tokens[0].user_id, 1);
    // A token for an account that does not exist is not put on record.
    assert!(!issue_refresh_token_with(&mut state.db, 99, "orphan", 7, 1000));
    assert_eq!(state.db.refresh_tokens.len(), 1);
}

#[test]
fn renewal_that_hands_back_the_same_string_keeps_it_alive() {
    // The one case in which the presented token is not gone for good: the
    // token drawn to replace it is the same string.
    let mut state = state_with_two_accounts();
    assert!(issue_refresh_token_with(&mut state.db, 1, "t1", 7, 1000));
    let answer = refresh_token_at(&mut state, &renewal("t1"), 2000, "t1".to_string()).unwrap();
    assert_eq!(answer.refresh_token, "t1");
    assert!(refresh_token_at(&mut state, &renewal("t1"), 2001, "t2".to_string()).is_ok());
}

#[test]
fn refresh_expiry_is_now_plus_days() {
    assert_eq!(refresh_expiry_timestamp(1000, 7), 1000 + 7 * 86400);
    assert_eq!(refresh_expiry_timestamp(0, 0), 0);
    assert_eq!(refresh_expiry_timestamp(1000, -1), 1000 - 86400);
    assert_eq!(refresh_expiry_timestamp(1_700_000_000, 30), 1_702_592_000);
    // Beyond the range the nearest second within it is taken.
    assert_eq!(refresh_expiry_timestamp(0, i64::MAX), i64::MAX);
    assert_eq!(refresh_expiry_timestamp(i64::MAX, 1), i64::MAX);
    assert_eq!(refresh_expiry_timestamp(0, i64::MIN), i64::MIN);
    assert_eq!(refresh_expiry_timestamp(i64::MIN, -1), i64::MIN);
    assert_eq!(refresh_expiry_timestamp(i64::MIN, i64::MAX / 86400), i64::MIN + (i64::MAX / 86400) * 86400);
}

#[test]
fn renewal_by_the_present_second() {
    let mut state = state_with_two_accounts();
    let first = issue_refresh_token(&mut state.db, 1, 7);
    assert_eq!(first.len(), 43);
    assert_eq!(state.db.refresh_tokens.len(), 1);
    let answer = refresh_token(&mut state, &renewal(&first)).unwrap();
    assert_ne!(answer.refresh_token, first);
    assert_eq!(answer.refresh_token.len(), 43);
    assert_eq!(state.db.refresh_tokens.len(), 1);
    assert_eq!(state.db.refresh_tokens[0].token, answer.refresh_token);
    assert_eq!(
        refresh_token(&mut state, &renewal(&first)).unwrap_err(),
        ApiError::InvalidRefreshToken
    );
    // A token issued for no time at all cannot be redeemed.
    let stale = issue_refresh_token(&mut state.db, 1, 0);
    assert_eq!(
        refresh_token(&mut state, &renewal(&stale)).unwrap_err(),
        ApiError::InvalidRefreshToken
    );
}

#[test]
fn spent_token_is_gone_even_where_no_access_token_can_be_issued() {
    let mut values = values_for_renewal();
    values.jwt_expiry = Some("-1".to_string());
    let mut state = AppState::new(Config::from_values(&values));
    state.db.insert_user("alice", "hash-a", true, 0).unwrap();
    assert!(issue_refresh_token_with(&mut state.db, 1, "t1", 7, 0));
    let res = refresh_token_at(&mut state, &renewal("t1"), 100, "t2".to_string());
    assert_eq!(res.unwrap_err(), ApiError::TokenCreationFailed);
    assert!(state.db.refresh_tokens.is_empty());
}
