//! The identity of a caller whom a hosting service has authenticated: read
//! from the payload of the access token that the hosting service set as a
//! cookie. The signature of that token is the hosting service's affair and
//! is not checked here.

use crate::models::optional_text;
use crate::text::chars_of;
use crate::text::parse_i64;
use crate::text::written_i64;
use crate::text::str_eq;
use vstd::prelude::*;
use vstd::string::StrSliceExecFns;

verus! {

/// What the access token of the hosting service says of a caller.
#[derive(Debug, Clone)]
pub struct SaasUserClaims {
    pub user_id: i64,
    pub email: Option<String>,
    pub membership_status: Option<String>,
}

/// A `SaasUserClaims` with its text as sequences of characters.
pub struct SaasUserClaimsView {
    pub user_id: i64,
    pub email: Option<Seq<char>>,
    pub membership_status: Option<Seq<char>>,
}

impl View for SaasUserClaims {
    type V = SaasUserClaimsView;

    open spec fn view(&self) -> SaasUserClaimsView {
        SaasUserClaimsView {
            user_id: self.user_id,
            email: optional_text(self.email),
            membership_status: optional_text(self.membership_status),
        }
    }
}

/// The members of a payload that tell of the caller, each absent where the
/// payload has no member of that name and type.
#[derive(Debug, Clone)]
pub struct SaasPayload {
    pub user_id: Option<i64>,
    pub sub: Option<String>,
    pub id: Option<i64>,
    pub email: Option<String>,
    pub membership_status: Option<String>,
}

/// A `SaasPayload` with its text as sequences of characters.
pub struct SaasPayloadView {
    pub user_id: Option<i64>,
    pub sub: Option<Seq<char>>,
    pub id: Option<i64>,
    pub email: Option<Seq<char>>,
    pub membership_status: Option<Seq<char>>,
}

impl View for SaasPayload {
    type V = SaasPayloadView;

    open spec fn view(&self) -> SaasPayloadView {
        SaasPayloadView {
            user_id: self.user_id,
            sub: optional_text(self.sub),
            id: self.id,
            email: optional_text(self.email),
            membership_status: optional_text(self.membership_status),
        }
    }
}

/// The bytes that a text stands for in URL-safe base64 without padding, as
/// the `base64` crate decodes it, or `None` where it refuses the text.
pub uninterp spec fn base64url_decoded(text: Seq<char>) -> Option<Seq<u8>>;

/// The bytes that a text stands for in standard base64 with padding, as the
/// `base64` crate decodes it, or `None` where it refuses the text.
pub uninterp spec fn base64_decoded(text: Seq<char>) -> Option<Seq<u8>>;

/// The members that `serde_json` finds in bytes read as a JSON document, or
/// `None` where the bytes are no such document.
pub uninterp spec fn json_payload(bytes: Seq<u8>) -> Option<SaasPayloadView>;

/// The view of bytes, if there are any.
pub open spec fn bytes_view(bytes: Option<Vec<u8>>) -> Option<Seq<u8>> {
    match bytes {
        Some(b) => Some(b@),
        None => None,
    }
}

/// The view of a payload, if there is one.
pub open spec fn payload_view(payload: Option<SaasPayload>) -> Option<SaasPayloadView> {
    match payload {
        Some(p) => Some(p@),
        None => None,
    }
}

/// Trusted: `base64::Engine::decode` of the engine `URL_SAFE_NO_PAD`.
/// Decoding reads nothing but the text, so the contract names the result.
#[verifier::external_body]
fn decode_base64url(text: &str) -> (bytes: Option<Vec<u8>>)
    ensures
        bytes_view(bytes) == base64url_decoded(text@),
{
    base64::Engine::decode(&base64::engine::general_purpose::URL_SAFE_NO_PAD, text).ok()
}

/// Trusted: `base64::Engine::decode` of the engine `STANDARD`. Decoding
/// reads nothing but the text, so the contract names the result.
#[verifier::external_body]
fn decode_base64(text: &str) -> (bytes: Option<Vec<u8>>)
    ensures
        bytes_view(bytes) == base64_decoded(text@),
{
    base64::Engine::decode(&base64::engine::general_purpose::STANDARD, text).ok()
}

/// Trusted: `serde_json::from_slice` into a JSON value, and of that value
/// the members `user_id`, `sub`, `id`, `email` and `membership_status`,
/// each read with `as_i64` or `as_str`. Parsing reads nothing but the bytes,
/// so the contract names the result.
#[verifier::external_body]
fn read_payload(bytes: &Vec<u8>) -> (payload: Option<SaasPayload>)
    ensures
        payload_view(payload) == json_payload(bytes@),
{
    let value: serde_json::Value = serde_json::from_slice(bytes).ok()?;
    Some(SaasPayload {
        user_id: value["user_id"].as_i64(),
        sub: value["sub"].as_str().map(str::to_owned),
        id: value["id"].as_i64(),
        email: value["email"].as_str().map(str::to_owned),
        membership_status: value["membership_status"].as_str().map(str::to_owned),
    })
}

/// `first` and `second` are the places of the only two `.` in the text.
pub open spec fn splits_in_three(text: Seq<char>, first: int, second: int) -> bool {
    &&& 0 <= first < second < text.len()
    &&& text[first] == '.'
    &&& text[second] == '.'
    &&& forall|i: int| 0 <= i < text.len() && i != first && i != second ==> text[i] != '.'
}

/// The middle one of the three parts that a token has between its `.`, or
/// `None` where the token has more parts or fewer.
pub open spec fn middle_part(text: Seq<char>) -> Option<Seq<char>> {
    if exists|first: int, second: int| splits_in_three(text, first, second) {
        let (first, second) = choose|first: int, second: int| splits_in_three(text, first, second);
        Some(text.subrange(first + 1, second))
    } else {
        None
    }
}

/// Finds the middle one of the three parts of a token.
pub fn find_middle_part(token: &str) -> (part: Option<String>)
    ensures
        optional_text(part) == middle_part(token@),
{
    let chars = chars_of(token);
    let mut dots: usize = 0;
    let mut first: usize = 0;
    let mut second: usize = 0;
    let mut i: usize = 0;
    while i < chars.len()
        invariant
            i <= chars@.len(),
            chars@ == token@,
            dots <= 2,
            dots == 0 ==> forall|j: int| 0 <= j < i ==> token@[j] != '.',
            dots == 1 ==> first < i && token@[first as int] == '.' && forall|j: int|
                0 <= j < i && j != first ==> token@[j] != '.',
            dots == 2 ==> first < second < i && token@[first as int] == '.' && token@[second as int]
                == '.' && forall|j: int|
                0 <= j < i && j != first && j != second ==> token@[j] != '.',
        decreases chars@.len() - i,
    {
        if chars[i] == '.' {
            if dots == 0 {
                first = i;
            } else if dots == 1 {
                second = i;
            } else {
                proof {
                    assert forall|a: int, b: int| !splits_in_three(token@, a, b) by {
                        if splits_in_three(token@, a, b) {
                            // Three places hold a `.`, and at most two of
                            // them can be `a` and `b`.
                            if first as int != a && first as int != b {
                                assert(token@[first as int] != '.');
                            } else if second as int != a && second as int != b {
                                assert(token@[second as int] != '.');
                            } else {
                                assert(token@[i as int] != '.');
                            }
                        }
                    }
                }
                return None;
            }
            dots = dots + 1;
        }
        i = i + 1;
    }
    if dots != 2 {
        proof {
            assert forall|a: int, b: int| !splits_in_three(token@, a, b) by {
                if splits_in_three(token@, a, b) {
                    if dots == 0 {
                        assert(token@[a] != '.');
                    } else {
                        if a != first as int {
                            assert(token@[a] != '.');
                        } else {
                            assert(token@[b] != '.');
                        }
                    }
                }
            }
        }
        return None;
    }
    proof {
        assert(splits_in_three(token@, first as int, second as int));
        let (a, b) = choose|a: int, b: int| splits_in_three(token@, a, b);
        assert(a == first && b == second) by {
            if a != first as int {
                assert(token@[first as int] != '.' || first as int == b);
                assert(token@[a] == '.');
            }
            if b != second as int {
                assert(token@[second as int] != '.' || second as int == a);
                assert(token@[b] == '.');
            }
        }
    }
    let part = token.substring_char(first + 1, second);
    Some(part.to_owned())
}

/// The account id that a payload gives: its `user_id`, or else its `sub`
/// read as a number, or else its `id`.
pub open spec fn payload_user_id(payload: SaasPayloadView) -> Option<i64> {
    if payload.user_id is Some {
        payload.user_id
    } else if payload.sub is Some && written_i64(payload.sub->0) is Some {
        written_i64(payload.sub->0)
    } else {
        payload.id
    }
}

/// The caller that a payload tells of, if it gives an account id and the
/// membership is not canceled.
pub open spec fn caller_of(payload: SaasPayloadView) -> Option<SaasUserClaimsView> {
    match payload_user_id(payload) {
        None => None,
        Some(user_id) => if payload.membership_status == Some("canceled"@) {
            None
        } else {
            Some(
                SaasUserClaimsView {
                    user_id,
                    email: payload.email,
                    membership_status: payload.membership_status,
                },
            )
        },
    }
}

/// The view of a caller, if there is one.
pub open spec fn caller_view(claims: Option<SaasUserClaims>) -> Option<SaasUserClaimsView> {
    match claims {
        Some(c) => Some(c@),
        None => None,
    }
}

/// Tells the caller from the members of a payload.
pub fn claims_from_payload(payload: SaasPayload) -> (claims: Option<SaasUserClaims>)
    ensures
        caller_view(claims) == caller_of(payload@),
{
    let from_sub = match &payload.sub {
        Some(sub) => parse_i64(sub.as_str()),
        None => None,
    };
    let user_id = match (payload.user_id, from_sub, payload.id) {
        (Some(id), _, _) => id,
        (None, Some(id), _) => id,
        (None, None, Some(id)) => id,
        (None, None, None) => { return None; },
    };
    let canceled = match &payload.membership_status {
        Some(status) => str_eq(status.as_str(), "canceled"),
        None => false,
    };
    if canceled {
        return None;
    }
    Some(
        SaasUserClaims {
            user_id,
            email: payload.email,
            membership_status: payload.membership_status,
        },
    )
}

/// The bytes of the middle part of a token: decoded as URL-safe base64, or
/// failing that as standard base64.
pub open spec fn decoded_part(part: Seq<char>) -> Option<Seq<u8>> {
    match base64url_decoded(part) {
        Some(bytes) => Some(bytes),
        None => base64_decoded(part),
    }
}

/// The caller that the cookie of the hosting service tells of.
pub open spec fn cookie_caller(cookie: Option<Seq<char>>) -> Option<SaasUserClaimsView> {
    match cookie {
        None => None,
        Some(token) => match middle_part(token) {
            None => None,
            Some(part) => match decoded_part(part) {
                None => None,
                Some(bytes) => match json_payload(bytes) {
                    None => None,
                    Some(payload) => caller_of(payload),
                },
            },
        },
    }
}

/// The characters of a cookie, if one was sent.
pub open spec fn cookie_view(cookie: Option<&str>) -> Option<Seq<char>> {
    match cookie {
        Some(c) => Some(c@),
        None => None,
    }
}

/// Reads the caller from the access token that the hosting service set as
/// a cookie: the token must have three parts, the middle one must decode to
/// a JSON document that gives an account id, and the membership must not be
/// canceled.
pub fn get_user_from_cookie(cookie: Option<&str>) -> (claims: Option<SaasUserClaims>)
    ensures
        caller_view(claims) == cookie_caller(cookie_view(cookie)),
{
    let token = match cookie {
        Some(t) => t,
        None => { return None; },
    };
    let part = match find_middle_part(token) {
        Some(p) => p,
        None => { return None; },
    };
    let bytes = match decode_base64url(part.as_str()) {
        Some(b) => b,
        None => match decode_base64(part.as_str()) {
            Some(b) => b,
            None => { return None; },
        },
    };
    match read_payload(&bytes) {
        Some(payload) => claims_from_payload(payload),
        None => None,
    }
}

} // verus!
