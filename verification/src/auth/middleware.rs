//! The guard in front of protected requests: a valid identity, and for some
//! routes an elevated one.

use crate::auth::jwt::current_timestamp;
use crate::auth::jwt::is_clock_second;
use crate::auth::jwt::decode_jwt_at;
use crate::auth::jwt::differs_in_signature_only;
use crate::auth::jwt::token_verdict;
use crate::auth::jwt::AuthError;
use crate::models::Claims;
use crate::models::ClaimsView;
use vstd::prelude::*;

verus! {

/// Why the guard turned a request away.
#[derive(Clone, Copy, Debug, PartialEq, Eq, Structural)]
pub enum AccessError {
    /// No credential, or one that does not verify.
    Unauthorized,
    /// A valid credential of an account that is not elevated.
    Forbidden,
}

impl AccessError {
    /// The HTTP status that answers the request.
    pub open spec fn status_spec(self) -> u16 {
        match self {
            AccessError::Unauthorized => 401,
            AccessError::Forbidden => 403,
        }
    }

    /// The HTTP status that answers the request.
    pub fn status_code(self) -> (code: u16)
        ensures
            code == self.status_spec(),
    {
        match self {
            AccessError::Unauthorized => 401,
            AccessError::Forbidden => 403,
        }
    }

    /// The text of the answer.
    pub open spec fn message_text(self) -> Seq<char> {
        match self {
            AccessError::Unauthorized => "Invalid token"@,
            AccessError::Forbidden => "Admin access required"@,
        }
    }

    /// The text of the answer.
    pub fn message(self) -> (text: String)
        ensures
            text@ == self.message_text(),
    {
        match self {
            AccessError::Unauthorized => "Invalid token".to_string(),
            AccessError::Forbidden => "Admin access required".to_string(),
        }
    }
}

/// What a request carries past the guard: the identity attached to it, if
/// any. Handlers behind the guard read the identity from here.
#[derive(Debug, Clone)]
pub struct RequestContext {
    pub claims: Option<Claims>,
}

impl View for RequestContext {
    type V = Option<ClaimsView>;

    open spec fn view(&self) -> Option<ClaimsView> {
        match self.claims {
            Some(c) => Some(c@),
            None => None,
        }
    }
}

impl RequestContext {
    /// A request with no identity attached.
    pub fn new() -> (req: RequestContext)
        ensures
            req@ is None,
    {
        RequestContext { claims: None }
    }
}

/// The characters of a bearer credential, if one was presented.
pub open spec fn credential_view(credentials: Option<&str>) -> Option<Seq<char>> {
    match credentials {
        Some(t) => Some(t@),
        None => None,
    }
}

/// What the guard decides at the second `now`: without a credential, or with
/// one that does not verify, `Unauthorized`; with a valid one of an account
/// that lacks a required elevation, `Forbidden`; else the identity.
pub open spec fn access_verdict(
    credentials: Option<Seq<char>>,
    secret: Seq<char>,
    now: i64,
    elevated_only: bool,
) -> Result<ClaimsView, AccessError> {
    match credentials {
        None => Err(AccessError::Unauthorized),
        Some(token) => match token_verdict(token, secret, now) {
            Err(_) => Err(AccessError::Unauthorized),
            Ok(claims) => if elevated_only && !claims.is_admin {
                Err(AccessError::Forbidden)
            } else {
                Ok(claims)
            },
        },
    }
}

/// The outcome of the guard over views: the request with the identity
/// attached, or the refusal together with the request as it came.
pub open spec fn access_outcome(
    req: Option<ClaimsView>,
    verdict: Result<ClaimsView, AccessError>,
) -> Result<Option<ClaimsView>, (AccessError, Option<ClaimsView>)> {
    match verdict {
        Ok(claims) => Ok(Some(claims)),
        Err(e) => Err((e, req)),
    }
}

/// The view of what a validator returns.
pub open spec fn outcome_view(
    res: Result<RequestContext, (AccessError, RequestContext)>,
) -> Result<Option<ClaimsView>, (AccessError, Option<ClaimsView>)> {
    match res {
        Ok(req) => Ok(req@),
        Err((e, req)) => Err((e, req@)),
    }
}

/// The view of a decision of the guard.
pub open spec fn verdict_view(res: Result<Claims, AccessError>) -> Result<ClaimsView, AccessError> {
    match res {
        Ok(c) => Ok(c@),
        Err(e) => Err(e),
    }
}

/// The refusal of a request that is not authenticated.
pub open spec fn unauthorized() -> Result<ClaimsView, AccessError> {
    Err(AccessError::Unauthorized)
}

/// Decides on a request at the second `now`. A token that differs from an
/// accepted one in its signature only never passes.
pub fn check_credentials(
    credentials: Option<&str>,
    secret: &str,
    now: i64,
    elevated_only: bool,
) -> (res: Result<Claims, AccessError>)
    ensures
        verdict_view(res) == access_verdict(credential_view(credentials), secret@, now, elevated_only),
        forall|other: Seq<char>, at: i64|
            #![trigger token_verdict(other, secret@, at)]
            credentials matches Some(t) && differs_in_signature_only(t@, other) && token_verdict(
                other,
                secret@,
                at,
            ) is Ok ==> verdict_view(res) == unauthorized(),
{
    match credentials {
        None => Err(AccessError::Unauthorized),
        Some(token) => match decode_jwt_at(token, secret, now) {
            Err(_) => Err(AccessError::Unauthorized),
            Ok(claims) => if elevated_only && !claims.is_admin {
                Err(AccessError::Forbidden)
            } else {
                Ok(claims)
            },
        },
    }
}

/// Lets a request pass at the second `now` if it carries a valid token, and
/// attaches the identity to it.
pub fn jwt_validator_at(req: RequestContext, credentials: Option<&str>, secret: &str, now: i64) -> (res:
    Result<RequestContext, (AccessError, RequestContext)>)
    ensures
        outcome_view(res) == access_outcome(
            req@,
            access_verdict(credential_view(credentials), secret@, now, false),
        ),
{
    match check_credentials(credentials, secret, now, false) {
        Ok(claims) => Ok(RequestContext { claims: Some(claims) }),
        Err(e) => Err((e, req)),
    }
}

/// Lets a request pass at the second `now` if it carries a valid token of an
/// elevated account, and attaches the identity to it.
pub fn admin_validator_at(
    req: RequestContext,
    credentials: Option<&str>,
    secret: &str,
    now: i64,
) -> (res: Result<RequestContext, (AccessError, RequestContext)>)
    ensures
        outcome_view(res) == access_outcome(
            req@,
            access_verdict(credential_view(credentials), secret@, now, true),
        ),
{
    match check_credentials(credentials, secret, now, true) {
        Ok(claims) => Ok(RequestContext { claims: Some(claims) }),
        Err(e) => Err((e, req)),
    }
}

/// Lets a request pass if it carries a token that is valid at the present
/// second, and attaches the identity to it; else answers `Unauthorized` and
/// hands the request back untouched.
pub fn jwt_validator(req: RequestContext, credentials: Option<&str>, secret: &str) -> (res: Result<
    RequestContext,
    (AccessError, RequestContext),
>)
    ensures
        exists|now: i64|
            is_clock_second(now) && outcome_view(res) == access_outcome(
                req@,
                #[trigger] access_verdict(credential_view(credentials), secret@, now, false),
            ),
{
    let now = current_timestamp();
    jwt_validator_at(req, credentials, secret, now)
}

/// As `jwt_validator`, and the account must be elevated: a valid token of an
/// account that is not is answered `Forbidden`.
pub fn admin_validator(req: RequestContext, credentials: Option<&str>, secret: &str) -> (res:
    Result<RequestContext, (AccessError, RequestContext)>)
    ensures
        exists|now: i64|
            is_clock_second(now) && outcome_view(res) == access_outcome(
                req@,
                #[trigger] access_verdict(credential_view(credentials), secret@, now, true),
            ),
{
    let now = current_timestamp();
    admin_validator_at(req, credentials, secret, now)
}

/// The guard never lets a request through without an identity, and never lets
/// one through an elevated-only route unless the identity is elevated.
pub proof fn law_guard_fails_closed(
    credentials: Option<Seq<char>>,
    secret: Seq<char>,
    now: i64,
    elevated_only: bool,
)
    ensures
        access_verdict(credentials, secret, now, elevated_only) matches Ok(claims) ==> {
            &&& credentials matches Some(token)
            &&& token_verdict(token, secret, now) == Ok::<ClaimsView, AuthError>(claims)
            &&& elevated_only ==> claims.is_admin
        },
{
}

} // verus!
