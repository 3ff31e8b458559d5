//! What the service does with a request once the caller is known: the
//! decisions of each endpoint, on the store and the settings.

pub mod abuse;
pub mod admin;
pub mod auth;
pub mod pages;
pub mod saas_auth;
pub mod urls;

pub use abuse::admin_list_reports;
pub use abuse::admin_resolve_report;
pub use abuse::submit_abuse_report;
pub use admin::admin_delete_user;
pub use admin::admin_get_stats;
pub use admin::admin_list_users;
pub use admin::admin_promote_user;
pub use auth::get_current_user;
pub use auth::login;
pub use auth::refresh_token;
pub use auth::register;
pub use pages::check_setup_required;
pub use pages::get_config;
pub use pages::health_check;
pub use urls::delete_url;
pub use urls::get_click_history;
pub use urls::get_qr_code;
pub use urls::get_stats;
pub use urls::get_user_urls;
pub use urls::redirect_url;
pub use urls::shorten_url;
pub use urls::update_url_name;

use crate::security::PolicyViolation;
use crate::url::shortener::UrlError;
use crate::text::concat;
use crate::text::decimal_string;
use crate::text::decimal_text;
use vstd::prelude::*;

verus! {

/// Why a request was not served.
#[derive(Clone, Copy, Debug, PartialEq, Eq, Structural)]
pub enum ApiError {
    /// Registration is closed and an account exists.
    RegistrationDisabled,
    /// Username or password is empty.
    EmptyCredentials,
    /// The username has fewer than three bytes.
    UsernameTooShort,
    /// The password breaks a rule of the policy.
    WeakPassword(PolicyViolation),
    /// The password could not be hashed.
    HashingFailed,
    /// The username is taken.
    UsernameTaken,
    /// The store could not take the account.
    StoreFault,
    /// No access token could be issued.
    TokenCreationFailed,
    /// Too many failed attempts on the username; the window in minutes.
    AccountLocked(i64),
    /// Unknown username or wrong password; the two are not told apart.
    InvalidCredentials,
    /// The stored hash could not be compared.
    AuthenticationFault,
    /// The refresh token is unknown, used or expired.
    InvalidRefreshToken,
    /// The request carries no identity.
    Unauthorized,
    /// An elevated account tried to delete itself.
    CannotDeleteSelf,
    /// No account has the id.
    UserNotFound,
    /// The account is elevated already.
    AlreadyAdmin,
    /// The caller's account is not elevated.
    Forbidden,
    /// No link was given.
    EmptyUrl,
    /// The link may not be shortened.
    InvalidUrl(UrlError),
    /// The store could not take the link.
    ShortenFailed,
    /// No link of the caller has the code.
    UrlNotFound,
    /// A QR code was asked for in a format that is not offered.
    InvalidQrFormat,
    /// A report names no link.
    EmptyShortCode,
    /// A report gives no reason.
    EmptyReason,
    /// The reporter's address has no `@`.
    InvalidEmail,
    /// No link has the code that a report names.
    ShortCodeNotFound,
    /// The store could not take the report.
    ReportFailed,
    /// No report has the id.
    ReportNotFound,
    /// The report is closed already.
    ReportAlreadyResolved,
    /// The owner of a reported link is elevated and cannot be banned.
    CannotBanAdmin,
    /// The reported link, or its owner, is gone.
    UrlOrUserNotFound,
    /// Not one of the actions that close a report.
    InvalidAction,
}

impl ApiError {
    /// The HTTP status that answers the request.
    pub open spec fn status_spec(self) -> u16 {
        match self {
            ApiError::RegistrationDisabled => 403,
            ApiError::EmptyCredentials => 400,
            ApiError::UsernameTooShort => 400,
            ApiError::WeakPassword(_) => 400,
            ApiError::HashingFailed => 500,
            ApiError::UsernameTaken => 409,
            ApiError::StoreFault => 500,
            ApiError::TokenCreationFailed => 500,
            ApiError::AccountLocked(_) => 429,
            ApiError::InvalidCredentials => 401,
            ApiError::AuthenticationFault => 500,
            ApiError::InvalidRefreshToken => 401,
            ApiError::Unauthorized => 401,
            ApiError::CannotDeleteSelf => 400,
            ApiError::UserNotFound => 404,
            ApiError::AlreadyAdmin => 400,
            ApiError::Forbidden => 403,
            ApiError::EmptyUrl => 400,
            ApiError::InvalidUrl(_) => 400,
            ApiError::ShortenFailed => 500,
            ApiError::UrlNotFound => 404,
            ApiError::InvalidQrFormat => 400,
            ApiError::EmptyShortCode => 400,
            ApiError::EmptyReason => 400,
            ApiError::InvalidEmail => 400,
            ApiError::ShortCodeNotFound => 404,
            ApiError::ReportFailed => 500,
            ApiError::ReportNotFound => 404,
            ApiError::ReportAlreadyResolved => 400,
            ApiError::CannotBanAdmin => 400,
            ApiError::UrlOrUserNotFound => 404,
            ApiError::InvalidAction => 400,
        }
    }

    /// The HTTP status that answers the request.
    pub fn status_code(self) -> (code: u16)
        ensures
            code == self.status_spec(),
    {
        match self {
            ApiError::RegistrationDisabled => 403,
            ApiError::EmptyCredentials => 400,
            ApiError::UsernameTooShort => 400,
            ApiError::WeakPassword(_) => 400,
            ApiError::HashingFailed => 500,
            ApiError::UsernameTaken => 409,
            ApiError::StoreFault => 500,
            ApiError::TokenCreationFailed => 500,
            ApiError::AccountLocked(_) => 429,
            ApiError::InvalidCredentials => 401,
            ApiError::AuthenticationFault => 500,
            ApiError::InvalidRefreshToken => 401,
            ApiError::Unauthorized => 401,
            ApiError::CannotDeleteSelf => 400,
            ApiError::UserNotFound => 404,
            ApiError::AlreadyAdmin => 400,
            ApiError::Forbidden => 403,
            ApiError::EmptyUrl => 400,
            ApiError::InvalidUrl(_) => 400,
            ApiError::ShortenFailed => 500,
            ApiError::UrlNotFound => 404,
            ApiError::InvalidQrFormat => 400,
            ApiError::EmptyShortCode => 400,
            ApiError::EmptyReason => 400,
            ApiError::InvalidEmail => 400,
            ApiError::ShortCodeNotFound => 404,
            ApiError::ReportFailed => 500,
            ApiError::ReportNotFound => 404,
            ApiError::ReportAlreadyResolved => 400,
            ApiError::CannotBanAdmin => 400,
            ApiError::UrlOrUserNotFound => 404,
            ApiError::InvalidAction => 400,
        }
    }

    /// The text of the answer. Nothing of the store or of a fault inside the
    /// service shows in it.
    pub open spec fn message_text(self) -> Seq<char> {
        match self {
            ApiError::RegistrationDisabled => {
                "New user registration is disabled. Please contact the administrator."@
            },
            ApiError::EmptyCredentials => "Username and password cannot be empty"@,
            ApiError::UsernameTooShort => "Username must be at least 3 characters"@,
            ApiError::WeakPassword(v) => v.message_text(),
            ApiError::HashingFailed => "Failed to hash password"@,
            ApiError::UsernameTaken => "Username already exists"@,
            ApiError::StoreFault => "Failed to create user"@,
            ApiError::TokenCreationFailed => "Failed to create token"@,
            ApiError::AccountLocked(minutes) => {
                "Account locked due to too many failed attempts. Try again in "@ + decimal_text(
                    minutes as int,
                ) + " minutes."@
            },
            ApiError::InvalidCredentials => "Invalid credentials"@,
            ApiError::AuthenticationFault => "Authentication error"@,
            ApiError::InvalidRefreshToken => "Invalid or expired refresh token"@,
            ApiError::Unauthorized => "Unauthorized"@,
            ApiError::CannotDeleteSelf => "Cannot delete your own account"@,
            ApiError::UserNotFound => "User not found"@,
            ApiError::AlreadyAdmin => "User is already an admin"@,
            ApiError::Forbidden => "Admin access required"@,
            ApiError::EmptyUrl => "URL cannot be empty"@,
            ApiError::InvalidUrl(e) => e.message_text(),
            ApiError::ShortenFailed => "Failed to create short URL"@,
            ApiError::UrlNotFound => "Short URL not found or not owned by you"@,
            ApiError::InvalidQrFormat => "Invalid format. Use 'png' or 'svg'"@,
            ApiError::EmptyShortCode => "Short code cannot be empty"@,
            ApiError::EmptyReason => "Reason cannot be empty"@,
            ApiError::InvalidEmail => "Invalid email format"@,
            ApiError::ShortCodeNotFound => "Short code not found"@,
            ApiError::ReportFailed => "Failed to submit report"@,
            ApiError::ReportNotFound => "Report not found"@,
            ApiError::ReportAlreadyResolved => "Report has already been resolved"@,
            ApiError::CannotBanAdmin => "Cannot ban admin users"@,
            ApiError::UrlOrUserNotFound => "URL or user not found"@,
            ApiError::InvalidAction => {
                "Invalid action. Must be 'dismiss', 'delete_url', or 'ban_user'"@
            },
        }
    }

    /// The text of the answer.
    pub fn message(self) -> (text: String)
        ensures
            text@ == self.message_text(),
    {
        match self {
            ApiError::RegistrationDisabled => {
                "New user registration is disabled. Please contact the administrator.".to_string()
            },
            ApiError::EmptyCredentials => "Username and password cannot be empty".to_string(),
            ApiError::UsernameTooShort => "Username must be at least 3 characters".to_string(),
            ApiError::WeakPassword(v) => v.message(),
            ApiError::HashingFailed => "Failed to hash password".to_string(),
            ApiError::UsernameTaken => "Username already exists".to_string(),
            ApiError::StoreFault => "Failed to create user".to_string(),
            ApiError::TokenCreationFailed => "Failed to create token".to_string(),
            ApiError::AccountLocked(minutes) => {
                let number = decimal_string(minutes);
                let head = concat(
                    "Account locked due to too many failed attempts. Try again in ",
                    number.as_str(),
                );
                concat(head.as_str(), " minutes.")
            },
            ApiError::InvalidCredentials => "Invalid credentials".to_string(),
            ApiError::AuthenticationFault => "Authentication error".to_string(),
            ApiError::InvalidRefreshToken => "Invalid or expired refresh token".to_string(),
            ApiError::Unauthorized => "Unauthorized".to_string(),
            ApiError::CannotDeleteSelf => "Cannot delete your own account".to_string(),
            ApiError::UserNotFound => "User not found".to_string(),
            ApiError::AlreadyAdmin => "User is already an admin".to_string(),
            ApiError::Forbidden => "Admin access required".to_string(),
            ApiError::EmptyUrl => "URL cannot be empty".to_string(),
            ApiError::InvalidUrl(e) => e.message(),
            ApiError::ShortenFailed => "Failed to create short URL".to_string(),
            ApiError::UrlNotFound => "Short URL not found or not owned by you".to_string(),
            ApiError::InvalidQrFormat => "Invalid format. Use 'png' or 'svg'".to_string(),
            ApiError::EmptyShortCode => "Short code cannot be empty".to_string(),
            ApiError::EmptyReason => "Reason cannot be empty".to_string(),
            ApiError::InvalidEmail => "Invalid email format".to_string(),
            ApiError::ShortCodeNotFound => "Short code not found".to_string(),
            ApiError::ReportFailed => "Failed to submit report".to_string(),
            ApiError::ReportNotFound => "Report not found".to_string(),
            ApiError::ReportAlreadyResolved => "Report has already been resolved".to_string(),
            ApiError::CannotBanAdmin => "Cannot ban admin users".to_string(),
            ApiError::UrlOrUserNotFound => "URL or user not found".to_string(),
            ApiError::InvalidAction => {
                "Invalid action. Must be 'dismiss', 'delete_url', or 'ban_user'".to_string()
            },
        }
    }
}

} // verus!
