//! The values that travel between the service and its callers.

use vstd::prelude::*;

verus! {

/// The identity that an access token carries: who, which account, whether
/// elevated, and the second at which the token stops being valid.
#[derive(Debug, Clone)]
pub struct Claims {
    /// Username.
    pub sub: String,
    /// Account id.
    pub user_id: i64,
    /// Whether the account is elevated.
    pub is_admin: bool,
    /// Expiry, in seconds since the Unix epoch.
    pub exp: usize,
}

/// A `Claims` with its text as a sequence of characters.
pub struct ClaimsView {
    pub sub: Seq<char>,
    pub user_id: i64,
    pub is_admin: bool,
    pub exp: usize,
}

impl View for Claims {
    type V = ClaimsView;

    open spec fn view(&self) -> ClaimsView {
        ClaimsView {
            sub: self.sub@,
            user_id: self.user_id,
            is_admin: self.is_admin,
            exp: self.exp,
        }
    }
}

impl Claims {
    /// A copy with the same view.
    pub fn duplicate(&self) -> (copy: Claims)
        ensures
            copy@ == self@,
    {
        Claims {
            sub: self.sub.clone(),
            user_id: self.user_id,
            is_admin: self.is_admin,
            exp: self.exp,
        }
    }
}

/// A request to register.
#[derive(Debug, Clone)]
pub struct RegisterRequest {
    pub username: String,
    pub password: String,
}

/// A request to log in.
#[derive(Debug, Clone)]
pub struct LoginRequest {
    pub username: String,
    pub password: String,
}

/// The answer to a registration or a login: an access token, a refresh
/// token, and the username they are for.
#[derive(Debug, Clone)]
pub struct AuthResponse {
    pub token: String,
    pub refresh_token: String,
    pub username: String,
}

/// An `AuthResponse` with its text as sequences of characters.
pub struct AuthResponseView {
    pub token: Seq<char>,
    pub refresh_token: Seq<char>,
    pub username: Seq<char>,
}

impl View for AuthResponse {
    type V = AuthResponseView;

    open spec fn view(&self) -> AuthResponseView {
        AuthResponseView {
            token: self.token@,
            refresh_token: self.refresh_token@,
            username: self.username@,
        }
    }
}

/// A request to renew an access token.
#[derive(Debug, Clone)]
pub struct RefreshRequest {
    pub refresh_token: String,
}

/// The answer to a renewal: a new access token and the refresh token that
/// replaces the one presented.
#[derive(Debug, Clone)]
pub struct RefreshResponse {
    pub token: String,
    pub refresh_token: String,
}

/// A `RefreshResponse` with its text as sequences of characters.
pub struct RefreshResponseView {
    pub token: Seq<char>,
    pub refresh_token: Seq<char>,
}

impl View for RefreshResponse {
    type V = RefreshResponseView;

    open spec fn view(&self) -> RefreshResponseView {
        RefreshResponseView { token: self.token@, refresh_token: self.refresh_token@ }
    }
}

/// Who is asking, as the guard established it.
#[derive(Debug, Clone)]
pub struct CurrentUserResponse {
    pub user_id: i64,
    pub username: String,
    pub is_admin: bool,
}

/// A `CurrentUserResponse` with its text as a sequence of characters.
pub struct CurrentUserResponseView {
    pub user_id: i64,
    pub username: Seq<char>,
    pub is_admin: bool,
}

impl View for CurrentUserResponse {
    type V = CurrentUserResponseView;

    open spec fn view(&self) -> CurrentUserResponseView {
        CurrentUserResponseView {
            user_id: self.user_id,
            username: self.username@,
            is_admin: self.is_admin,
        }
    }
}

/// A request to shorten a link.
#[derive(Debug, Clone)]
pub struct ShortenRequest {
    pub url: String,
}

/// The answer to a request to shorten a link.
#[derive(Debug, Clone)]
pub struct ShortenResponse {
    pub short_code: String,
    pub short_url: String,
    pub original_url: String,
}

/// A `ShortenResponse` with its text as sequences of characters.
pub struct ShortenResponseView {
    pub short_code: Seq<char>,
    pub short_url: Seq<char>,
    pub original_url: Seq<char>,
}

impl View for ShortenResponse {
    type V = ShortenResponseView;

    open spec fn view(&self) -> ShortenResponseView {
        ShortenResponseView {
            short_code: self.short_code@,
            short_url: self.short_url@,
            original_url: self.original_url@,
        }
    }
}

/// A short link as its owner sees it.
#[derive(Debug, Clone)]
pub struct UrlEntry {
    pub original_url: String,
    pub short_code: String,
    pub name: Option<String>,
    pub clicks: u64,
}

/// A `UrlEntry` with its text as sequences of characters.
pub struct UrlEntryView {
    pub original_url: Seq<char>,
    pub short_code: Seq<char>,
    pub name: Option<Seq<char>>,
    pub clicks: u64,
}

/// The characters of an optional text.
pub open spec fn optional_text(text: Option<String>) -> Option<Seq<char>> {
    match text {
        Some(t) => Some(t@),
        None => None,
    }
}

impl View for UrlEntry {
    type V = UrlEntryView;

    open spec fn view(&self) -> UrlEntryView {
        UrlEntryView {
            original_url: self.original_url@,
            short_code: self.short_code@,
            name: optional_text(self.name),
            clicks: self.clicks,
        }
    }
}

/// A request to name a short link, or to take its name away.
#[derive(Debug, Clone)]
pub struct UpdateUrlNameRequest {
    pub name: Option<String>,
}

/// One click on a short link.
#[derive(Debug, Clone)]
pub struct ClickHistoryEntry {
    /// When the link was followed, as `YYYY-MM-DD HH:MM:SS` in UTC.
    pub clicked_at: String,
}

/// The clicks on a short link: the count, and the most recent ones.
#[derive(Debug, Clone)]
pub struct ClickStats {
    pub total_clicks: u64,
    pub history: Vec<ClickHistoryEntry>,
}

/// Whether the service is up, which version it is, and for how long it has
/// run.
#[derive(Debug, Clone)]
pub struct HealthResponse {
    pub status: String,
    pub version: String,
    pub uptime_seconds: u64,
}

/// A `HealthResponse` with its text as sequences of characters.
pub struct HealthResponseView {
    pub status: Seq<char>,
    pub version: Seq<char>,
    pub uptime_seconds: u64,
}

impl View for HealthResponse {
    type V = HealthResponseView;

    open spec fn view(&self) -> HealthResponseView {
        HealthResponseView {
            status: self.status@,
            version: self.version@,
            uptime_seconds: self.uptime_seconds,
        }
    }
}

/// The version of the service.
#[derive(Debug, Clone)]
pub struct VersionResponse {
    pub version: String,
}

/// The settings that the pages of the service need.
#[derive(Debug, Clone)]
pub struct ConfigResponse {
    pub host_url: String,
    pub max_url_length: usize,
    pub allow_registration: bool,
}

/// A `ConfigResponse` with its text as a sequence of characters.
pub struct ConfigResponseView {
    pub host_url: Seq<char>,
    pub max_url_length: usize,
    pub allow_registration: bool,
}

impl View for ConfigResponse {
    type V = ConfigResponseView;

    open spec fn view(&self) -> ConfigResponseView {
        ConfigResponseView {
            host_url: self.host_url@,
            max_url_length: self.max_url_length,
            allow_registration: self.allow_registration,
        }
    }
}

/// Whether the first account has yet to be made.
#[derive(Clone, Copy, Debug, PartialEq, Eq, Structural)]
pub struct SetupCheckResponse {
    pub setup_required: bool,
}

/// An account as an elevated account sees it.
#[derive(Debug, Clone)]
pub struct UserInfo {
    pub user_id: i64,
    pub username: String,
    pub is_admin: bool,
    /// When the account was made, as `YYYY-MM-DD HH:MM:SS` in UTC.
    pub created_at: String,
    pub url_count: i64,
}

/// A `UserInfo` with its text as sequences of characters.
pub struct UserInfoView {
    pub user_id: i64,
    pub username: Seq<char>,
    pub is_admin: bool,
    pub created_at: Seq<char>,
    pub url_count: i64,
}

impl View for UserInfo {
    type V = UserInfoView;

    open spec fn view(&self) -> UserInfoView {
        UserInfoView {
            user_id: self.user_id,
            username: self.username@,
            is_admin: self.is_admin,
            created_at: self.created_at@,
            url_count: self.url_count,
        }
    }
}

/// The totals of the service.
#[derive(Clone, Copy, Debug, PartialEq, Eq, Structural)]
pub struct AdminStatsResponse {
    pub total_users: i64,
    pub total_urls: i64,
    pub total_clicks: i64,
}

/// A report of abuse of a short link.
#[derive(Debug, Clone)]
pub struct SubmitReportRequest {
    pub short_code: String,
    pub reporter_email: Option<String>,
    pub reason: String,
    pub description: Option<String>,
}

/// A report of abuse as an elevated account sees it, with what is known of
/// the link and its owner.
#[derive(Debug, Clone)]
pub struct AbuseReport {
    pub id: i64,
    pub short_code: String,
    pub reporter_email: Option<String>,
    pub reason: String,
    pub description: Option<String>,
    pub status: String,
    pub created_at: String,
    pub resolved_at: Option<String>,
    pub resolved_by: Option<i64>,
    pub original_url: Option<String>,
    pub url_owner_username: Option<String>,
    pub url_owner_id: Option<i64>,
}

/// An `AbuseReport` with its text as sequences of characters.
pub struct AbuseReportView {
    pub id: i64,
    pub short_code: Seq<char>,
    pub reporter_email: Option<Seq<char>>,
    pub reason: Seq<char>,
    pub description: Option<Seq<char>>,
    pub status: Seq<char>,
    pub created_at: Seq<char>,
    pub resolved_at: Option<Seq<char>>,
    pub resolved_by: Option<i64>,
    pub original_url: Option<Seq<char>>,
    pub url_owner_username: Option<Seq<char>>,
    pub url_owner_id: Option<i64>,
}

impl View for AbuseReport {
    type V = AbuseReportView;

    open spec fn view(&self) -> AbuseReportView {
        AbuseReportView {
            id: self.id,
            short_code: self.short_code@,
            reporter_email: optional_text(self.reporter_email),
            reason: self.reason@,
            description: optional_text(self.description),
            status: self.status@,
            created_at: self.created_at@,
            resolved_at: optional_text(self.resolved_at),
            resolved_by: self.resolved_by,
            original_url: optional_text(self.original_url),
            url_owner_username: optional_text(self.url_owner_username),
            url_owner_id: self.url_owner_id,
        }
    }
}

/// What to do about a report: `dismiss`, `delete_url` or `ban_user`.
#[derive(Debug, Clone)]
pub struct ResolveReportRequest {
    pub action: String,
}

} // verus!
