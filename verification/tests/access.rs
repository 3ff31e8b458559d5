use rus::auth::get_claims;
use rus::auth::jwt::create_jwt;
use rus::auth::jwt::create_jwt_at;
use rus::auth::middleware::admin_validator;
use rus::auth::middleware::admin_validator_at;
use rus::auth::middleware::check_credentials;
use rus::auth::middleware::jwt_validator;
use rus::auth::middleware::jwt_validator_at;
use rus::auth::middleware::AccessError;
use rus::auth::middleware::RequestContext;
use rus::handlers::auth::get_current_user;
use rus::handlers::ApiError;

const KEY: &str = "signing-secret";

#[test]
fn request_without_credential_is_unauthorized() {
    let outcome = jwt_validator_at(RequestContext::new(), None, KEY, 0);
    match outcome {
        Err((e, req)) => {
            assert_eq!(e, AccessError::Unauthorized);
            assert!(req.claims.is_none());
        }
        Ok(_) => panic!("a request without a credential passed"),
    }
    assert_eq!(check_credentials(None, KEY, 0, false).unwrap_err(), AccessError::Unauthorized);
    assert_eq!(check_credentials(None, KEY, 0, true).unwrap_err(), AccessError::Unauthorized);
}

#[test]
fn request_with_valid_token_passes_with_the_identity_attached() {
    let token = create_jwt_at("alice", 3, false, KEY, 1, 100).unwrap();
    let req = match jwt_validator_at(RequestContext::new(), Some(&token), KEY, 200) {
        Ok(req) => req,
        Err(_) => panic!("a valid token was turned away"),
    };
    let claims = get_claims(&req).unwrap();
    assert_eq!(claims.sub, "alice");
    assert_eq!(claims.user_id, 3);
    assert!(!claims.is_admin);
    assert_eq!(claims.exp, 3700);
    let me = get_current_user(&req).unwrap();
    assert_eq!(me.user_id, 3);
    assert_eq!(me.username, "alice");
    assert!(!me.is_admin);
}

#[test]
fn request_with_bad_token_is_unauthorized_whatever_is_wrong_with_it() {
    let token = create_jwt_at("alice", 3, true, KEY, 1, 100).unwrap();
    let expired_at = 3700;
    let mut tampered = token.clone();
    tampered.pop();
    for (credential, now) in
        [(token.as_str(), expired_at), (tampered.as_str(), 200), ("garbage", 200), ("", 200)]
    {
        for elevated_only in [false, true] {
            assert_eq!(
                check_credentials(Some(credential), KEY, now, elevated_only).unwrap_err(),
                AccessError::Unauthorized
            );
        }
    }
    assert_eq!(
        check_credentials(Some(&token), "another-secret", 200, false).unwrap_err(),
        AccessError::Unauthorized
    );
}

#[test]
fn refused_request_is_handed_back_as_it_came() {
    let token = create_jwt_at("alice", 3, false, KEY, 1, 100).unwrap();
    let carried = match jwt_validator_at(RequestContext::new(), Some(&token), KEY, 200) {
        Ok(req) => req,
        Err(_) => panic!("a valid token was turned away"),
    };
    match jwt_validator_at(carried, Some("garbage"), KEY, 200) {
        Err((e, req)) => {
            assert_eq!(e, AccessError::Unauthorized);
            assert_eq!(get_claims(&req).unwrap().sub, "alice");
        }
        Ok(_) => panic!("garbage passed"),
    }
}

#[test]
fn elevated_route_is_forbidden_to_a_plain_account() {
    let token = create_jwt_at("bob", 9, false, KEY, 1, 100).unwrap();
    match admin_validator_at(RequestContext::new(), Some(&token), KEY, 200) {
        Err((e, req)) => {
            assert_eq!(e, AccessError::Forbidden);
            assert!(req.claims.is_none());
        }
        Ok(_) => panic!("a plain account passed an elevated route"),
    }
    // The same token is good on a plain route.
    assert!(jwt_validator_at(RequestContext::new(), Some(&token), KEY, 200).is_ok());
}

#[test]
fn elevated_route_is_open_to_an_elevated_account() {
    let token = create_jwt_at("root", 1, true, KEY, 1, 100).unwrap();
    let req = match admin_validator_at(RequestContext::new(), Some(&token), KEY, 200) {
        Ok(req) => req,
        Err(_) => panic!("an elevated account was turned away"),
    };
    let claims = get_claims(&req).unwrap();
    assert!(claims.is_admin);
    assert_eq!(claims.user_id, 1);
}

#[test]
fn expired_token_of_an_elevated_account_is_unauthorized_not_forbidden() {
    let token = create_jwt_at("root", 1, true, KEY, 1, 100).unwrap();
    match admin_validator_at(RequestContext::new(), Some(&token), KEY, 3700) {
        Err((e, _)) => assert_eq!(e, AccessError::Unauthorized),
        Ok(_) => panic!("an expired token passed"),
    }
}

#[test]
fn validators_judge_by_the_present_second() {
    let fresh = create_jwt("alice", 3, false, KEY, 1).unwrap();
    assert!(jwt_validator(RequestContext::new(), Some(&fresh), KEY).is_ok());
    match admin_validator(RequestContext::new(), Some(&fresh), KEY) {
        Err((e, _)) => assert_eq!(e, AccessError::Forbidden),
        Ok(_) => panic!("a plain account passed an elevated route"),
    }
    let stale = create_jwt("alice", 3, true, KEY, 0).unwrap();
    match admin_validator(RequestContext::new(), Some(&stale), KEY) {
        Err((e, _)) => assert_eq!(e, AccessError::Unauthorized),
        Ok(_) => panic!("an expired token passed"),
    }
    match jwt_validator(RequestContext::new(), None, KEY) {
        Err((e, _)) => assert_eq!(e, AccessError::Unauthorized),
        Ok(_) => panic!("a request without a credential passed"),
    }
}

#[test]
fn refusals_have_their_status_and_words() {
    assert_eq!(AccessError::Unauthorized.status_code(), 401);
    assert_eq!(AccessError::Forbidden.status_code(), 403);
    assert_eq!(AccessError::Unauthorized.message(), "Invalid token");
    assert_eq!(AccessError::Forbidden.message(), "Admin access required");
}

#[test]
fn nobody_is_known_on_a_request_that_carries_no_identity() {
    let req = RequestContext::new();
    assert!(get_claims(&req).is_none());
    assert_eq!(get_current_user(&req).unwrap_err(), ApiError::Unauthorized);
}
