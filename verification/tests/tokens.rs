use rus::auth::jwt::create_jwt;
use rus::auth::jwt::create_jwt_at;
use rus::auth::jwt::decode_jwt;
use rus::auth::jwt::decode_jwt_at;
use rus::auth::jwt::expiry_timestamp;
use rus::auth::jwt::generate_refresh_token;
use rus::auth::jwt::try_create_jwt_at;
use rus::auth::jwt::AuthError;
use rus::auth::jwt::IssuanceError;

const SECRET: &str = "a-secret-for-tests";

fn seconds_now() -> i64 {
    std::time::SystemTime::now()
        .duration_since(std::time::UNIX_EPOCH)
        .unwrap()
        .as_secs() as i64
}

fn replace_char_at(text: &str, at: usize, with: char) -> String {
    let mut chars: Vec<char> = text.chars().collect();
    chars[at] = with;
    chars.into_iter().collect()
}

#[test]
fn expiry_is_now_plus_hours() {
    assert_eq!(expiry_timestamp(1000, 2), Some(8200));
    assert_eq!(expiry_timestamp(0, 0), Some(0));
    assert_eq!(expiry_timestamp(1_700_000_000, 1), Some(1_700_003_600));
    assert_eq!(expiry_timestamp(10_000, -1), Some(6400));
}

#[test]
fn expiry_outside_the_claim_is_refused() {
    assert_eq!(expiry_timestamp(0, -1), None);
    assert_eq!(expiry_timestamp(i64::MAX, 1), None);
    assert_eq!(expiry_timestamp(0, i64::MAX), None);
    assert_eq!(expiry_timestamp(i64::MIN, i64::MIN), None);
    // The span alone leaves the range, the sum does not.
    assert_eq!(
        expiry_timestamp(-3600 * 3, i64::MAX / 3600 + 1),
        Some(((i64::MAX / 3600 + 1) as i128 * 3600 - 3600 * 3) as usize)
    );
    assert_eq!(
        try_create_jwt_at("alice", 1, false, SECRET, -1, 0),
        Err(IssuanceError::ExpiryOutOfRange)
    );
}

#[test]
fn token_reads_back_as_issued_before_its_expiry() {
    let token = create_jwt_at("alice", 7, true, SECRET, 1, 1000).unwrap();
    for at in [i64::MIN, -1, 0, 1000, 4599] {
        let claims = decode_jwt_at(&token, SECRET, at).unwrap();
        assert_eq!(claims.sub, "alice");
        assert_eq!(claims.user_id, 7);
        assert!(claims.is_admin);
        assert_eq!(claims.exp, 4600);
    }
}

#[test]
fn token_is_expired_from_its_expiry_second_on() {
    let token = create_jwt_at("alice", 7, false, SECRET, 1, 1000).unwrap();
    assert_eq!(decode_jwt_at(&token, SECRET, 4600).unwrap_err(), AuthError::Expired);
    assert_eq!(decode_jwt_at(&token, SECRET, 4601).unwrap_err(), AuthError::Expired);
    assert_eq!(decode_jwt_at(&token, SECRET, i64::MAX).unwrap_err(), AuthError::Expired);
    // No grace: a minute before the expiry is fine, the expiry itself is not.
    assert!(decode_jwt_at(&token, SECRET, 4540).is_ok());
}

#[test]
fn token_with_any_changed_signature_character_is_refused_for_its_signature() {
    let token = create_jwt_at("alice", 7, false, SECRET, 1, 1000).unwrap();
    let last_dot = token.rfind('.').unwrap();
    let mut changed = 0;
    for at in (last_dot + 1)..token.len() {
        let old = token.as_bytes()[at] as char;
        for with in ['A', 'b', '7', '-', '_', '!', ' ', '='] {
            if with == old {
                continue;
            }
            let tampered = replace_char_at(&token, at, with);
            assert_eq!(
                decode_jwt_at(&tampered, SECRET, 1000).unwrap_err(),
                AuthError::InvalidSignature
            );
            // Also when the expiry has passed the signature is judged first.
            assert_eq!(
                decode_jwt_at(&tampered, SECRET, 10_000).unwrap_err(),
                AuthError::InvalidSignature
            );
            changed += 1;
        }
    }
    assert!(changed > 43 * 6);
}

#[test]
fn token_with_shortened_or_lengthened_signature_is_refused_for_its_signature() {
    let token = create_jwt_at("alice", 7, false, SECRET, 1, 1000).unwrap();
    let shorter = &token[..token.len() - 1];
    assert_eq!(decode_jwt_at(shorter, SECRET, 1000).unwrap_err(), AuthError::InvalidSignature);
    let longer = format!("{}A", token);
    assert_eq!(decode_jwt_at(&longer, SECRET, 1000).unwrap_err(), AuthError::InvalidSignature);
    let last_dot = token.rfind('.').unwrap();
    let none = &token[..last_dot + 1];
    assert_eq!(decode_jwt_at(none, SECRET, 1000).unwrap_err(), AuthError::InvalidSignature);
}

#[test]
fn dot_in_the_signature_makes_the_token_malformed() {
    let token = create_jwt_at("alice", 7, false, SECRET, 1, 1000).unwrap();
    let last_dot = token.rfind('.').unwrap();
    let tampered = replace_char_at(&token, last_dot + 5, '.');
    assert_eq!(decode_jwt_at(&tampered, SECRET, 1000).unwrap_err(), AuthError::Malformed);
}

#[test]
fn token_under_another_secret_is_refused_for_its_signature() {
    let token = create_jwt_at("alice", 7, false, SECRET, 1, 1000).unwrap();
    assert_eq!(
        decode_jwt_at(&token, "another-secret", 1000).unwrap_err(),
        AuthError::InvalidSignature
    );
    assert_eq!(decode_jwt_at(&token, "", 1000).unwrap_err(), AuthError::InvalidSignature);
}

#[test]
fn changed_payload_is_refused_for_its_signature() {
    let token = create_jwt_at("alice", 7, false, SECRET, 1, 1000).unwrap();
    let other = create_jwt_at("alice", 7, true, SECRET, 1, 1000).unwrap();
    let parts: Vec<&str> = token.split('.').collect();
    let other_parts: Vec<&str> = other.split('.').collect();
    let forged = format!("{}.{}.{}", parts[0], other_parts[1], parts[2]);
    assert_eq!(decode_jwt_at(&forged, SECRET, 1000).unwrap_err(), AuthError::InvalidSignature);
}

#[test]
fn text_that_is_no_token_is_malformed() {
    for text in ["", "abc", "a.b", "a.b.c", "a.b.c.d", "..", "not a token at all"] {
        assert_eq!(decode_jwt_at(text, SECRET, 0).unwrap_err(), AuthError::Malformed);
    }
}

#[test]
fn well_signed_token_without_the_claims_is_malformed() {
    let key = jsonwebtoken::EncodingKey::from_secret(SECRET.as_bytes());
    let header = jsonwebtoken::Header::default();
    // No account id and no elevation flag.
    let mut partial = serde_json::Map::new();
    partial.insert("sub".to_string(), serde_json::Value::from("alice"));
    partial.insert("exp".to_string(), serde_json::Value::from(4600u64));
    let token = jsonwebtoken::encode(&header, &partial, &key).unwrap();
    assert_eq!(decode_jwt_at(&token, SECRET, 1000).unwrap_err(), AuthError::Malformed);
    // A claim of the wrong type.
    let mut mistyped = serde_json::Map::new();
    mistyped.insert("sub".to_string(), serde_json::Value::from("alice"));
    mistyped.insert("user_id".to_string(), serde_json::Value::from("seven"));
    mistyped.insert("is_admin".to_string(), serde_json::Value::from(false));
    mistyped.insert("exp".to_string(), serde_json::Value::from(4600u64));
    let token = jsonwebtoken::encode(&header, &mistyped, &key).unwrap();
    assert_eq!(decode_jwt_at(&token, SECRET, 1000).unwrap_err(), AuthError::Malformed);
    // No expiry.
    let mut open_ended = serde_json::Map::new();
    open_ended.insert("sub".to_string(), serde_json::Value::from("alice"));
    open_ended.insert("user_id".to_string(), serde_json::Value::from(7));
    open_ended.insert("is_admin".to_string(), serde_json::Value::from(false));
    let token = jsonwebtoken::encode(&header, &open_ended, &key).unwrap();
    assert_eq!(decode_jwt_at(&token, SECRET, 1000).unwrap_err(), AuthError::Malformed);
}

#[test]
fn token_signed_with_another_algorithm_is_malformed() {
    let key = jsonwebtoken::EncodingKey::from_secret(SECRET.as_bytes());
    let header = jsonwebtoken::Header::new(jsonwebtoken::Algorithm::HS512);
    let mut claims = serde_json::Map::new();
    claims.insert("sub".to_string(), serde_json::Value::from("alice"));
    claims.insert("user_id".to_string(), serde_json::Value::from(7));
    claims.insert("is_admin".to_string(), serde_json::Value::from(true));
    claims.insert("exp".to_string(), serde_json::Value::from(4600u64));
    let token = jsonwebtoken::encode(&header, &claims, &key).unwrap();
    assert_eq!(decode_jwt_at(&token, SECRET, 1000).unwrap_err(), AuthError::Malformed);
}

#[test]
fn token_of_another_issuer_with_the_same_claims_is_accepted() {
    let key = jsonwebtoken::EncodingKey::from_secret(SECRET.as_bytes());
    let mut claims = serde_json::Map::new();
    claims.insert("exp".to_string(), serde_json::Value::from(4600u64));
    claims.insert("is_admin".to_string(), serde_json::Value::from(true));
    claims.insert("user_id".to_string(), serde_json::Value::from(-3));
    claims.insert("sub".to_string(), serde_json::Value::from("bob"));
    claims.insert("extra".to_string(), serde_json::Value::from("ignored"));
    let token = jsonwebtoken::encode(&jsonwebtoken::Header::default(), &claims, &key).unwrap();
    let read = decode_jwt_at(&token, SECRET, 1000).unwrap();
    assert_eq!(read.sub, "bob");
    assert_eq!(read.user_id, -3);
    assert!(read.is_admin);
    assert_eq!(read.exp, 4600);
}

#[test]
fn payload_holds_the_four_claims_in_order() {
    let token = create_jwt_at("alice", 7, true, SECRET, 1, 1000).unwrap();
    let parts: Vec<&str> = token.split('.').collect();
    assert_eq!(parts.len(), 3);
    let payload = base64::Engine::decode(
        &base64::engine::general_purpose::URL_SAFE_NO_PAD,
        parts[1],
    )
    .unwrap();
    assert_eq!(
        String::from_utf8(payload).unwrap(),
        "{\"sub\":\"alice\",\"user_id\":7,\"is_admin\":true,\"exp\":4600}"
    );
    let header = base64::Engine::decode(
        &base64::engine::general_purpose::URL_SAFE_NO_PAD,
        parts[0],
    )
    .unwrap();
    assert_eq!(String::from_utf8(header).unwrap(), "{\"typ\":\"JWT\",\"alg\":\"HS256\"}");
}

#[test]
fn issuing_is_a_function_of_its_arguments() {
    let a = create_jwt_at("alice", 7, true, SECRET, 1, 1000).unwrap();
    let b = create_jwt_at("alice", 7, true, SECRET, 1, 1000).unwrap();
    assert_eq!(a, b);
    assert_ne!(a, create_jwt_at("alice", 7, true, SECRET, 1, 1001).unwrap());
    assert_ne!(a, create_jwt_at("alice", 8, true, SECRET, 1, 1000).unwrap());
    assert_ne!(a, create_jwt_at("alice", 7, false, SECRET, 1, 1000).unwrap());
    assert_ne!(a, create_jwt_at("alicf", 7, true, SECRET, 1, 1000).unwrap());
    assert_ne!(a, create_jwt_at("alice", 7, true, "other", 1, 1000).unwrap());
}

#[test]
fn names_of_any_characters_travel_unchanged() {
    for name in ["", "a b", "\"quoted\"", "back\\slash", "tab\tnew\nline", "\u{e9}\u{20ac}\u{1f600}", "a.b.c"] {
        let token = create_jwt_at(name, i64::MIN, false, SECRET, 1, 0).unwrap();
        let claims = decode_jwt_at(&token, SECRET, 0).unwrap();
        assert_eq!(claims.sub, name);
        assert_eq!(claims.user_id, i64::MIN);
        assert_eq!(claims.exp, 3600);
    }
}

#[test]
fn token_issued_now_is_valid_now_and_for_its_hours() {
    let before = seconds_now();
    let token = create_jwt("alice", 7, false, SECRET, 2).unwrap();
    let after = seconds_now();
    let claims = decode_jwt(&token, SECRET).unwrap();
    assert_eq!(claims.sub, "alice");
    assert!(claims.exp as i64 >= before + 7200);
    assert!(claims.exp as i64 <= after + 7200);
    assert!(decode_jwt_at(&token, SECRET, after + 7199).is_ok() || before != after);
    assert_eq!(decode_jwt_at(&token, SECRET, after + 7200).unwrap_err(), AuthError::Expired);
}

#[test]
fn token_issued_for_no_time_is_expired_at_once() {
    let token = create_jwt("alice", 7, false, SECRET, 0).unwrap();
    assert_eq!(decode_jwt(&token, SECRET).unwrap_err(), AuthError::Expired);
    let past = try_create_jwt_at("alice", 7, false, SECRET, -1, seconds_now()).unwrap();
    assert_eq!(decode_jwt(&past, SECRET).unwrap_err(), AuthError::Expired);
}

#[test]
fn refresh_token_is_43_url_safe_characters() {
    for _ in 0..50 {
        let token = generate_refresh_token();
        assert_eq!(token.len(), 43);
        assert!(token
            .chars()
            .all(|c| c.is_ascii_alphanumeric() || c == '-' || c == '_'));
        let bytes = base64::Engine::decode(
            &base64::engine::general_purpose::URL_SAFE_NO_PAD,
            &token,
        )
        .unwrap();
        assert_eq!(bytes.len(), 32);
    }
}

#[test]
fn refresh_tokens_differ_from_draw_to_draw() {
    let mut seen = std::collections::HashSet::new();
    for _ in 0..200 {
        assert!(seen.insert(generate_refresh_token()));
    }
}

#[test]
fn token_for_any_sensible_lifetime_is_issued() {
    for hours in [0, 1, 24, 24 * 365, 24 * 365 * 1000, 2_562_045_507_385_527] {
        let token = create_jwt("alice", 7, false, SECRET, hours).unwrap();
        let claims = decode_jwt_at(&token, SECRET, 0).unwrap();
        assert!(claims.exp as i128 >= hours as i128 * 3600);
    }
    // Issuing that admits every lifetime serves one that leaves the range
    // only at the last second of the clock, as long as it fits today.
    assert!(try_create_jwt_at(
        "alice",
        7,
        false,
        SECRET,
        2_562_045_507_385_528,
        seconds_now()
    )
    .is_ok());
    // It says so where the expiry does not fit.
    assert_eq!(
        try_create_jwt_at("alice", 7, false, SECRET, 2_562_045_507_385_528, 8_210_266_876_799),
        Err(IssuanceError::ExpiryOutOfRange)
    );
    assert_eq!(
        try_create_jwt_at("alice", 7, false, SECRET, i64::MAX / 3600 + 1, 0),
        Err(IssuanceError::ExpiryOutOfRange)
    );
    // Where the expiry fits, both ways of issuing give the same token.
    assert_eq!(
        try_create_jwt_at("alice", 7, false, SECRET, 1, 1000),
        create_jwt_at("alice", 7, false, SECRET, 1, 1000)
    );
}
