use rus::handlers::saas_auth::claims_from_payload;
use rus::handlers::saas_auth::find_middle_part;
use rus::handlers::saas_auth::get_user_from_cookie;
use rus::handlers::saas_auth::SaasPayload;

fn url_safe(text: &str) -> String {
    base64::Engine::encode(&base64::engine::general_purpose::URL_SAFE_NO_PAD, text)
}

fn standard(text: &str) -> String {
    base64::Engine::encode(&base64::engine::general_purpose::STANDARD, text)
}

fn cookie_of(payload: &str) -> String {
    format!("header.{}.signature", url_safe(payload))
}

fn payload_with(user_id: Option<i64>, sub: Option<&str>, id: Option<i64>) -> SaasPayload {
    SaasPayload {
        user_id,
        sub: sub.map(|s| s.to_string()),
        id,
        email: None,
        membership_status: None,
    }
}

#[test]
fn middle_part_is_what_stands_between_the_two_dots() {
    assert_eq!(find_middle_part("a.b.c"), Some("b".to_string()));
    assert_eq!(find_middle_part("header.payload.signature"), Some("payload".to_string()));
    assert_eq!(find_middle_part(".."), Some("".to_string()));
    assert_eq!(find_middle_part("a..c"), Some("".to_string()));
    assert_eq!(find_middle_part(".b."), Some("b".to_string()));
    assert_eq!(find_middle_part("\u{e9}.\u{20ac}\u{e9}.x"), Some("\u{20ac}\u{e9}".to_string()));
    for text in ["", "a", "a.b", ".", "a.b.c.d", "...", "a.b.c."] {
        assert_eq!(find_middle_part(text), None, "{:?}", text);
    }
}

#[test]
fn caller_is_read_from_the_cookie() {
    let cookie = cookie_of(
        "{\"user_id\":42,\"email\":\"me@example.com\",\"membership_status\":\"active\"}",
    );
    let claims = get_user_from_cookie(Some(&cookie)).unwrap();
    assert_eq!(claims.user_id, 42);
    assert_eq!(claims.email, Some("me@example.com".to_string()));
    assert_eq!(claims.membership_status, Some("active".to_string()));
    let bare = get_user_from_cookie(Some(&cookie_of("{\"user_id\":-5}"))).unwrap();
    assert_eq!(bare.user_id, -5);
    assert_eq!(bare.email, None);
    assert_eq!(bare.membership_status, None);
}

#[test]
fn account_id_is_taken_from_the_first_member_that_gives_one() {
    let cases = [
        ("{\"user_id\":1,\"sub\":\"2\",\"id\":3}", Some(1)),
        ("{\"sub\":\"2\",\"id\":3}", Some(2)),
        ("{\"id\":3}", Some(3)),
        ("{\"user_id\":\"1\",\"sub\":\"2\",\"id\":3}", Some(2)),
        ("{\"user_id\":1.5,\"sub\":\"two\",\"id\":3}", Some(3)),
        ("{\"sub\":2,\"id\":3}", Some(3)),
        ("{\"sub\":\"-7\"}", Some(-7)),
        ("{\"sub\":\"+7\"}", Some(7)),
        ("{\"sub\":\" 7\"}", None),
        ("{\"sub\":\"9223372036854775808\"}", None),
        ("{\"user_id\":9223372036854775808}", None),
        ("{\"user_id\":null}", None),
        ("{}", None),
        ("[]", None),
        ("42", None),
        ("\"user_id\"", None),
    ];
    for (payload, expected) in cases {
        let got = get_user_from_cookie(Some(&cookie_of(payload))).map(|c| c.user_id);
        assert_eq!(got, expected, "{}", payload);
    }
}

#[test]
fn caller_is_told_from_the_members_of_a_payload() {
    assert_eq!(claims_from_payload(payload_with(Some(1), Some("2"), Some(3))).unwrap().user_id, 1);
    assert_eq!(claims_from_payload(payload_with(None, Some("2"), Some(3))).unwrap().user_id, 2);
    assert_eq!(claims_from_payload(payload_with(None, Some("x"), Some(3))).unwrap().user_id, 3);
    assert_eq!(claims_from_payload(payload_with(None, None, Some(3))).unwrap().user_id, 3);
    assert!(claims_from_payload(payload_with(None, Some(""), None)).is_none());
    assert!(claims_from_payload(payload_with(None, None, None)).is_none());
    let mut canceled = payload_with(Some(1), None, None);
    canceled.membership_status = Some("canceled".to_string());
    canceled.email = Some("me@example.com".to_string());
    assert!(claims_from_payload(canceled).is_none());
    let mut cancelled = payload_with(Some(1), None, None);
    cancelled.membership_status = Some("Canceled".to_string());
    let claims = claims_from_payload(cancelled).unwrap();
    assert_eq!(claims.membership_status, Some("Canceled".to_string()));
}

#[test]
fn canceled_membership_is_turned_away() {
    let cookie = cookie_of("{\"user_id\":42,\"membership_status\":\"canceled\"}");
    assert!(get_user_from_cookie(Some(&cookie)).is_none());
    let cookie = cookie_of("{\"user_id\":42,\"membership_status\":\"past_due\"}");
    assert!(get_user_from_cookie(Some(&cookie)).is_some());
    // A status that is no text does not count as one.
    let cookie = cookie_of("{\"user_id\":42,\"membership_status\":[\"canceled\"]}");
    let claims = get_user_from_cookie(Some(&cookie)).unwrap();
    assert_eq!(claims.membership_status, None);
}

#[test]
fn payload_in_standard_base64_is_read_too() {
    // 43 bytes: the standard encoding ends in padding, which the URL-safe
    // decoder refuses.
    let payload = "{\"user_id\":42,\"email\":\"someone@example.org\"}";
    let encoded = standard(payload);
    assert!(encoded.ends_with('='));
    let cookie = format!("h.{}.s", encoded);
    let claims = get_user_from_cookie(Some(&cookie)).unwrap();
    assert_eq!(claims.user_id, 42);
    assert_eq!(claims.email, Some("someone@example.org".to_string()));
    // Bytes whose standard encoding holds `+` or `/`.
    let payload = "{\"user_id\":42,\"email\":\"\u{fb}\u{ff}\u{fe}~~~\"}";
    let encoded = standard(payload);
    assert!(encoded.contains('/') || encoded.contains('+'));
    let cookie = format!("h.{}.s", encoded);
    assert_eq!(get_user_from_cookie(Some(&cookie)).unwrap().user_id, 42);
}

#[test]
fn cookie_that_is_no_token_tells_of_nobody() {
    assert!(get_user_from_cookie(None).is_none());
    let good = url_safe("{\"user_id\":42}");
    let cases = [
        String::new(),
        good.clone(),
        format!("h.{}", good),
        format!("h.{}.s.x", good),
        "h.!!!.s".to_string(),
        "h..s".to_string(),
        format!("h.{}.s", url_safe("not json")),
        format!("h.{}.s", url_safe("{\"user_id\":42")),
        format!("h.{} .s", good),
    ];
    for cookie in cases {
        assert!(get_user_from_cookie(Some(&cookie)).is_none(), "{:?}", cookie);
    }
    assert!(get_user_from_cookie(Some(&format!("h.{}.s", good))).is_some());
    assert!(get_user_from_cookie(Some(&format!(".{}.", good))).is_some());
}
