use rus::auth::jwt::decode_jwt_at;
use rus::config::Config;
use rus::config::ConfigValues;
use rus::db::AppState;
use rus::handlers::auth::check_registration;
use rus::handlers::auth::complete_registration;
use rus::handlers::auth::login;
use rus::handlers::auth::register;
use rus::handlers::ApiError;
use rus::models::LoginRequest;
use rus::models::RegisterRequest;
use rus::security::PolicyViolation;

fn values_for_registration(allow: Option<&str>) -> ConfigValues {
    ConfigValues {
        jwt_secret: Some("registration-secret".to_string()),
        jwt_expiry: Some("2".to_string()),
        refresh_token_expiry: Some("7".to_string()),
        max_url_length: None,
        account_lockout_attempts: None,
        account_lockout_duration: None,
        click_retention_days: None,
        host_url: None,
        db_path: None,
        host: None,
        port: None,
        allow_registration: allow.map(|s| s.to_string()),
    }
}

fn open_state() -> AppState {
    AppState::new(Config::from_values(&values_for_registration(None)))
}

fn request(username: &str, password: &str) -> RegisterRequest {
    RegisterRequest { username: username.to_string(), password: password.to_string() }
}

const HASH: &str = "$2b$04$abcdefghijklmnopqrstuuabcdefghijklmnopqrstuvwxyz01234";

#[test]
fn first_account_is_elevated_and_the_second_is_not() {
    let mut state = open_state();
    let first =
        complete_registration(&mut state, "alice", Some(HASH), 1000, "token-a".to_string())
            .unwrap();
    let second =
        complete_registration(&mut state, "bob", Some(HASH), 1001, "token-b".to_string()).unwrap();
    assert_eq!(state.db.users.len(), 2);
    assert!(state.db.users[0].is_admin);
    assert!(!state.db.users[1].is_admin);
    assert_eq!(state.db.users[0].user_id, 1);
    assert_eq!(state.db.users[1].user_id, 2);
    assert_eq!(state.db.users[0].created_at, 1000);
    assert_eq!(state.db.users[0].password, HASH);
    let first_claims = decode_jwt_at(&first.token, "registration-secret", 1000).unwrap();
    assert!(first_claims.is_admin);
    assert_eq!(first_claims.user_id, 1);
    assert_eq!(first_claims.sub, "alice");
    assert_eq!(first_claims.exp, 1000 + 2 * 3600);
    let second_claims = decode_jwt_at(&second.token, "registration-secret", 1001).unwrap();
    assert!(!second_claims.is_admin);
    assert_eq!(second_claims.user_id, 2);
    assert_eq!(first.username, "alice");
    assert_eq!(first.refresh_token, "token-a");
    assert_eq!(second.refresh_token, "token-b");
}

#[test]
fn registered_account_gets_a_refresh_token_on_record_for_the_configured_days() {
    let mut state = open_state();
    complete_registration(&mut state, "alice", Some(HASH), 1000, "token-a".to_string()).unwrap();
    assert_eq!(state.db.refresh_tokens.len(), 1);
    let row = &state.db.refresh_tokens[0];
    assert_eq!(row.token, "token-a");
    assert_eq!(row.user_id, 1);
    assert_eq!(row.expires_at, 1000 + 7 * 86400);
    assert_eq!(row.created_at, 1000);
    assert_eq!(row.id, 1);
}

#[test]
fn username_registers_once() {
    let mut state = open_state();
    complete_registration(&mut state, "alice", Some(HASH), 1000, "token-a".to_string()).unwrap();
    let again = complete_registration(&mut state, "alice", Some(HASH), 1001, "token-b".to_string());
    let refusal = again.unwrap_err();
    assert_eq!(refusal, ApiError::UsernameTaken);
    assert_eq!(refusal.status_code(), 409);
    assert_eq!(refusal.message(), "Username already exists");
    assert_eq!(state.db.users.len(), 1);
    assert_eq!(state.db.refresh_tokens.len(), 1);
    // Usernames are compared as they are written.
    assert!(complete_registration(&mut state, "Alice", Some(HASH), 1002, "token-c".to_string())
        .is_ok());
}

#[test]
fn registration_through_the_front_door() {
    let mut state = open_state();
    let first = register(&mut state, &request("alice", "Correct1!")).unwrap();
    assert_eq!(first.username, "alice");
    assert_eq!(first.refresh_token.len(), 43);
    assert!(state.db.users[0].is_admin);
    assert!(state.db.users[0].password.starts_with("$2"));
    assert_ne!(state.db.users[0].password, "Correct1!");
    let again = register(&mut state, &request("alice", "Correct1!"));
    assert_eq!(again.unwrap_err().status_code(), 409);
    // The password that was registered logs in, another does not.
    let good = LoginRequest { username: "alice".to_string(), password: "Correct1!".to_string() };
    let answer = login(&mut state, &good).unwrap();
    assert_eq!(answer.username, "alice");
    assert_ne!(answer.refresh_token, first.refresh_token);
    let bad = LoginRequest { username: "alice".to_string(), password: "Correct1?".to_string() };
    assert_eq!(login(&mut state, &bad).unwrap_err(), ApiError::InvalidCredentials);
}

#[test]
fn request_is_checked_before_anything_is_stored() {
    let mut state = open_state();
    let cases = [
        ("", "Correct1!", ApiError::EmptyCredentials),
        ("alice", "", ApiError::EmptyCredentials),
        ("", "", ApiError::EmptyCredentials),
        ("al", "Correct1!", ApiError::UsernameTooShort),
        ("alice", "short1!", ApiError::WeakPassword(PolicyViolation::TooShort)),
        ("alice", "longenough1!", ApiError::WeakPassword(PolicyViolation::NoUppercase)),
        ("alice", "LONGENOUGH!", ApiError::WeakPassword(PolicyViolation::NoDigit)),
        ("alice", "Longenough1", ApiError::WeakPassword(PolicyViolation::NoSymbol)),
    ];
    for (username, password, expected) in cases {
        let req = request(username, password);
        assert_eq!(check_registration(&state, &req), Some(expected));
        let refusal = register(&mut state, &req).unwrap_err();
        assert_eq!(refusal, expected);
        assert_eq!(refusal.status_code(), 400);
    }
    assert!(state.db.users.is_empty());
    assert!(state.db.refresh_tokens.is_empty());
    assert_eq!(check_registration(&state, &request("bob", "Correct1!")), None);
    // Three bytes are enough for a username.
    assert_eq!(check_registration(&state, &request("bob", "Aa1!aaaa")), None);
    assert_eq!(check_registration(&state, &request("\u{e9}b", "Aa1!aaaa")), None);
}

#[test]
fn refusals_of_a_registration_have_their_words() {
    assert_eq!(
        ApiError::EmptyCredentials.message(),
        "Username and password cannot be empty"
    );
    assert_eq!(
        ApiError::UsernameTooShort.message(),
        "Username must be at least 3 characters"
    );
    assert_eq!(
        ApiError::WeakPassword(PolicyViolation::NoDigit).message(),
        "Password must contain at least one number"
    );
    assert_eq!(
        ApiError::RegistrationDisabled.message(),
        "New user registration is disabled. Please contact the administrator."
    );
    assert_eq!(ApiError::RegistrationDisabled.status_code(), 403);
    assert_eq!(ApiError::HashingFailed.message(), "Failed to hash password");
    assert_eq!(ApiError::HashingFailed.status_code(), 500);
    assert_eq!(ApiError::StoreFault.message(), "Failed to create user");
    assert_eq!(ApiError::StoreFault.status_code(), 500);
    assert_eq!(ApiError::TokenCreationFailed.message(), "Failed to create token");
    assert_eq!(ApiError::TokenCreationFailed.status_code(), 500);
}

#[test]
fn closed_registration_admits_the_first_account_only() {
    let mut state = AppState::new(Config::from_values(&values_for_registration(Some("false"))));
    assert!(!state.config.allow_registration);
    assert_eq!(check_registration(&state, &request("alice", "Correct1!")), None);
    complete_registration(&mut state, "alice", Some(HASH), 1000, "token-a".to_string()).unwrap();
    assert_eq!(
        check_registration(&state, &request("bob", "Correct1!")),
        Some(ApiError::RegistrationDisabled)
    );
    // Closed registration is reported before anything else is looked at.
    assert_eq!(
        check_registration(&state, &request("", "")),
        Some(ApiError::RegistrationDisabled)
    );
    assert_eq!(
        register(&mut state, &request("bob", "Correct1!")).unwrap_err(),
        ApiError::RegistrationDisabled
    );
    assert_eq!(state.db.users.len(), 1);
}

#[test]
fn failed_hashing_stores_nothing() {
    let mut state = open_state();
    let res = complete_registration(&mut state, "alice", None, 1000, "token-a".to_string());
    assert_eq!(res.unwrap_err(), ApiError::HashingFailed);
    assert!(state.db.users.is_empty());
    assert!(state.db.refresh_tokens.is_empty());
}

#[test]
fn account_stays_stored_where_no_token_can_be_issued() {
    let mut values = values_for_registration(None);
    values.jwt_expiry = Some("-1".to_string());
    let mut state = AppState::new(Config::from_values(&values));
    // An expiry before the epoch cannot be carried by a token.
    let res = complete_registration(&mut state, "alice", Some(HASH), 100, "token-a".to_string());
    assert_eq!(res.unwrap_err(), ApiError::TokenCreationFailed);
    assert_eq!(state.db.users.len(), 1);
    assert!(state.db.refresh_tokens.is_empty());
}

#[test]
fn after_all_accounts_are_gone_the_next_one_is_elevated_again() {
    let mut state = open_state();
    complete_registration(&mut state, "alice", Some(HASH), 1000, "token-a".to_string()).unwrap();
    assert!(state.db.delete_user(1));
    complete_registration(&mut state, "bob", Some(HASH), 1001, "token-b".to_string()).unwrap();
    assert_eq!(state.db.users.len(), 1);
    assert!(state.db.users[0].is_admin);
    // Ids are never used twice.
    assert_eq!(state.db.users[0].user_id, 2);
}

#[test]
fn store_that_has_run_out_of_ids_takes_no_account() {
    let mut state = open_state();
    state.db.next_user_id = i64::MAX;
    let res = complete_registration(&mut state, "alice", Some(HASH), 1000, "token-a".to_string());
    let refusal = res.unwrap_err();
    assert_eq!(refusal, ApiError::StoreFault);
    assert_eq!(refusal.status_code(), 500);
    assert!(state.db.users.is_empty());
}

#[test]
fn stored_hash_is_one_that_the_password_verifies_against() {
    let mut state = open_state();
    register(&mut state, &request("alice", "Correct1!")).unwrap();
    let stored = state.db.users[0].password.clone();
    assert!(bcrypt::verify("Correct1!", &stored).unwrap());
    assert!(!bcrypt::verify("", &stored).unwrap());
    assert!(!bcrypt::verify("Correct1?", &stored).unwrap());
}
