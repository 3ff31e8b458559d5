//! The settings of the service.

use crate::models::optional_text;
use crate::text::concat;
use crate::text::decimal_digits;
use crate::text::decimal_of_u64;
use crate::text::decimal_string;
use crate::text::decimal_text;
use crate::text::parse_bool;
use crate::text::parse_i32;
use crate::text::parse_i64;
use crate::text::parse_u16;
use crate::text::parse_usize;
use crate::text::written_i32;
use crate::text::written_i64;
use crate::text::written_u16;
use crate::text::written_usize;
use crate::text::written_bool;
use vstd::prelude::*;

verus! {

/// The settings of the service.
#[derive(Clone, Debug)]
pub struct Config {
    /// The secret that access tokens are signed with.
    pub jwt_secret: String,
    /// Hours for which an access token is valid.
    pub jwt_expiry_hours: i64,
    /// Days for which a refresh token is honoured.
    pub refresh_token_expiry_days: i64,
    /// Longest link accepted, in bytes.
    pub max_url_length: usize,
    /// Failed attempts within the window that lock a username.
    pub account_lockout_attempts: i32,
    /// The lockout window, in minutes.
    pub account_lockout_duration_minutes: i64,
    /// Days for which clicks are kept.
    pub click_retention_days: i64,
    /// The address under which short links are published.
    pub host_url: String,
    /// Where the data is kept on disk.
    pub db_path: String,
    /// The interface to listen on.
    pub host: String,
    /// The port to listen on.
    pub port: u16,
    /// Whether anyone may register once an account exists.
    pub allow_registration: bool,
}

/// A `Config` with its text as sequences of characters.
pub struct ConfigView {
    pub jwt_secret: Seq<char>,
    pub jwt_expiry_hours: i64,
    pub refresh_token_expiry_days: i64,
    pub max_url_length: usize,
    pub account_lockout_attempts: i32,
    pub account_lockout_duration_minutes: i64,
    pub click_retention_days: i64,
    pub host_url: Seq<char>,
    pub db_path: Seq<char>,
    pub host: Seq<char>,
    pub port: u16,
    pub allow_registration: bool,
}

impl View for Config {
    type V = ConfigView;

    open spec fn view(&self) -> ConfigView {
        ConfigView {
            jwt_secret: self.jwt_secret@,
            jwt_expiry_hours: self.jwt_expiry_hours,
            refresh_token_expiry_days: self.refresh_token_expiry_days,
            max_url_length: self.max_url_length,
            account_lockout_attempts: self.account_lockout_attempts,
            account_lockout_duration_minutes: self.account_lockout_duration_minutes,
            click_retention_days: self.click_retention_days,
            host_url: self.host_url@,
            db_path: self.db_path@,
            host: self.host@,
            port: self.port,
            allow_registration: self.allow_registration,
        }
    }
}

/// The settings as they come from outside, each as the text that was given
/// for it, if any was.
#[derive(Debug, Clone)]
pub struct ConfigValues {
    /// `JWT_SECRET`
    pub jwt_secret: Option<String>,
    /// `JWT_EXPIRY`, in hours
    pub jwt_expiry: Option<String>,
    /// `REFRESH_TOKEN_EXPIRY`, in days
    pub refresh_token_expiry: Option<String>,
    /// `MAX_URL_LENGTH`
    pub max_url_length: Option<String>,
    /// `ACCOUNT_LOCKOUT_ATTEMPTS`
    pub account_lockout_attempts: Option<String>,
    /// `ACCOUNT_LOCKOUT_DURATION`, in minutes
    pub account_lockout_duration: Option<String>,
    /// `CLICK_RETENTION_DAYS`
    pub click_retention_days: Option<String>,
    /// `HOST_URL`
    pub host_url: Option<String>,
    /// `DB_PATH`
    pub db_path: Option<String>,
    /// `HOST`
    pub host: Option<String>,
    /// `PORT`
    pub port: Option<String>,
    /// `ALLOW_REGISTRATION`
    pub allow_registration: Option<String>,
}

/// A `ConfigValues` with its texts as sequences of characters.
pub struct ConfigValuesView {
    pub jwt_secret: Option<Seq<char>>,
    pub jwt_expiry: Option<Seq<char>>,
    pub refresh_token_expiry: Option<Seq<char>>,
    pub max_url_length: Option<Seq<char>>,
    pub account_lockout_attempts: Option<Seq<char>>,
    pub account_lockout_duration: Option<Seq<char>>,
    pub click_retention_days: Option<Seq<char>>,
    pub host_url: Option<Seq<char>>,
    pub db_path: Option<Seq<char>>,
    pub host: Option<Seq<char>>,
    pub port: Option<Seq<char>>,
    pub allow_registration: Option<Seq<char>>,
}

impl View for ConfigValues {
    type V = ConfigValuesView;

    open spec fn view(&self) -> ConfigValuesView {
        ConfigValuesView {
            jwt_secret: optional_text(self.jwt_secret),
            jwt_expiry: optional_text(self.jwt_expiry),
            refresh_token_expiry: optional_text(self.refresh_token_expiry),
            max_url_length: optional_text(self.max_url_length),
            account_lockout_attempts: optional_text(self.account_lockout_attempts),
            account_lockout_duration: optional_text(self.account_lockout_duration),
            click_retention_days: optional_text(self.click_retention_days),
            host_url: optional_text(self.host_url),
            db_path: optional_text(self.db_path),
            host: optional_text(self.host),
            port: optional_text(self.port),
            allow_registration: optional_text(self.allow_registration),
        }
    }
}

/// What was given for a setting and reads as a value of its type, or the
/// default where nothing was given or what was given does not read.
pub open spec fn value_or<T>(read: Option<Option<T>>, default: T) -> T {
    match read {
        Some(Some(v)) => v,
        _ => default,
    }
}

/// What a function makes of the text given for a setting, if any was.
pub open spec fn read_with<T>(value: Option<Seq<char>>, read: spec_fn(Seq<char>) -> Option<T>) -> Option<
    Option<T>,
> {
    match value {
        Some(text) => Some(read(text)),
        None => None,
    }
}

/// The text given for a setting, or the default where none was given.
pub open spec fn text_or(value: Option<Seq<char>>, default: Seq<char>) -> Seq<char> {
    match value {
        Some(v) => v,
        None => default,
    }
}

/// The settings that the values given amount to. What is absent, and what
/// does not read as a value of the setting's type, takes its default.
pub open spec fn config_of(values: ConfigValuesView) -> ConfigView {
    ConfigView {
        jwt_secret: text_or(values.jwt_secret, "your-secret-key-change-this-in-production"@),
        jwt_expiry_hours: value_or(read_with(values.jwt_expiry, |t| written_i64(t)), 1),
        refresh_token_expiry_days: value_or(
            read_with(values.refresh_token_expiry, |t| written_i64(t)),
            7,
        ),
        max_url_length: value_or(read_with(values.max_url_length, |t| written_usize(t)), 2048),
        account_lockout_attempts: value_or(
            read_with(values.account_lockout_attempts, |t| written_i32(t)),
            5,
        ),
        account_lockout_duration_minutes: value_or(
            read_with(values.account_lockout_duration, |t| written_i64(t)),
            30,
        ),
        click_retention_days: value_or(
            read_with(values.click_retention_days, |t| written_i64(t)),
            30,
        ),
        host_url: text_or(values.host_url, "http://localhost:8080"@),
        db_path: text_or(values.db_path, "./data/rus.db"@),
        host: text_or(values.host, "0.0.0.0"@),
        port: value_or(read_with(values.port, |t| written_u16(t)), 8080),
        allow_registration: value_or(read_with(values.allow_registration, |t| written_bool(t)), true),
    }
}

/// Takes the text given for a setting, or the default.
fn take_text(value: &Option<String>, default: &str) -> (text: String)
    ensures
        text@ == text_or(optional_text(*value), default@),
{
    match value {
        Some(v) => v.clone(),
        None => default.to_owned(),
    }
}

/// A truth value as it is written.
pub open spec fn bool_text(b: bool) -> Seq<char> {
    if b {
        "true"@
    } else {
        "false"@
    }
}

/// A line that names a setting and gives its value, with what follows the
/// value.
pub open spec fn banner_line(label: Seq<char>, value: Seq<char>, unit: Seq<char>) -> Seq<char> {
    label + value + unit
}

/// The lines that announce the settings when the service starts. The
/// signing secret is not among them.
pub open spec fn banner_of(config: ConfigView) -> Seq<Seq<char>> {
    seq![
        "========================================"@,
        "  Rust URL Shortener - Standalone Mode"@,
        "========================================"@,
        banner_line("Host: "@, config.host, ""@),
        banner_line("Port: "@, decimal_digits(config.port as nat), ""@),
        banner_line("Host URL: "@, config.host_url, ""@),
        banner_line("Database Path: "@, config.db_path, ""@),
        banner_line("JWT Expiry: "@, decimal_text(config.jwt_expiry_hours as int), " hours"@),
        banner_line(
            "Refresh Token Expiry: "@,
            decimal_text(config.refresh_token_expiry_days as int),
            " days"@,
        ),
        banner_line("Max URL Length: "@, decimal_digits(config.max_url_length as nat), ""@),
        banner_line(
            "Account Lockout Attempts: "@,
            decimal_text(config.account_lockout_attempts as int),
            ""@,
        ),
        banner_line(
            "Account Lockout Duration: "@,
            decimal_text(config.account_lockout_duration_minutes as int),
            " minutes"@,
        ),
        banner_line(
            "Click Retention: "@,
            decimal_text(config.click_retention_days as int),
            " days"@,
        ),
        banner_line("Allow Registration: "@, bool_text(config.allow_registration), ""@),
        "========================================"@,
    ]
}

/// The views of some lines.
pub open spec fn line_views(lines: Seq<String>) -> Seq<Seq<char>> {
    lines.map_values(|l: String| l@)
}

/// Writes a line that names a setting and gives its value.
fn make_line(label: &str, value: &str, unit: &str) -> (line: String)
    ensures
        line@ == banner_line(label@, value@, unit@),
{
    let head = concat(label, value);
    concat(head.as_str(), unit)
}

impl Config {
    /// The lines that announce the settings when the service starts.
    pub fn banner_lines(&self) -> (lines: Vec<String>)
        ensures
            line_views(lines@) == banner_of(self@),
    {
        let rule = "========================================";
        let mut lines: Vec<String> = Vec::new();
        lines.push(rule.to_owned());
        lines.push("  Rust URL Shortener - Standalone Mode".to_owned());
        lines.push(rule.to_owned());
        lines.push(make_line("Host: ", self.host.as_str(), ""));
        lines.push(make_line("Port: ", decimal_of_u64(self.port as u64).as_str(), ""));
        lines.push(make_line("Host URL: ", self.host_url.as_str(), ""));
        lines.push(make_line("Database Path: ", self.db_path.as_str(), ""));
        lines.push(
            make_line("JWT Expiry: ", decimal_string(self.jwt_expiry_hours).as_str(), " hours"),
        );
        lines.push(
            make_line(
                "Refresh Token Expiry: ",
                decimal_string(self.refresh_token_expiry_days).as_str(),
                " days",
            ),
        );
        lines.push(
            make_line("Max URL Length: ", decimal_of_u64(self.max_url_length as u64).as_str(), ""),
        );
        lines.push(
            make_line(
                "Account Lockout Attempts: ",
                decimal_string(self.account_lockout_attempts as i64).as_str(),
                "",
            ),
        );
        lines.push(
            make_line(
                "Account Lockout Duration: ",
                decimal_string(self.account_lockout_duration_minutes).as_str(),
                " minutes",
            ),
        );
        lines.push(
            make_line(
                "Click Retention: ",
                decimal_string(self.click_retention_days).as_str(),
                " days",
            ),
        );
        let allowed = if self.allow_registration {
            "true"
        } else {
            "false"
        };
        lines.push(make_line("Allow Registration: ", allowed, ""));
        lines.push(rule.to_owned());
        assert(line_views(lines@) =~= banner_of(self@));
        lines
    }

    /// The settings that the values given amount to.
    pub fn from_values(values: &ConfigValues) -> (config: Config)
        ensures
            config@ == config_of(values@),
    {
        Config {
            jwt_secret: take_text(&values.jwt_secret, "your-secret-key-change-this-in-production"),
            jwt_expiry_hours: match &values.jwt_expiry {
                Some(text) => parse_i64(text.as_str()).unwrap_or(1),
                None => 1,
            },
            refresh_token_expiry_days: match &values.refresh_token_expiry {
                Some(text) => parse_i64(text.as_str()).unwrap_or(7),
                None => 7,
            },
            max_url_length: match &values.max_url_length {
                Some(text) => parse_usize(text.as_str()).unwrap_or(2048),
                None => 2048,
            },
            account_lockout_attempts: match &values.account_lockout_attempts {
                Some(text) => parse_i32(text.as_str()).unwrap_or(5),
                None => 5,
            },
            account_lockout_duration_minutes: match &values.account_lockout_duration {
                Some(text) => parse_i64(text.as_str()).unwrap_or(30),
                None => 30,
            },
            click_retention_days: match &values.click_retention_days {
                Some(text) => parse_i64(text.as_str()).unwrap_or(30),
                None => 30,
            },
            host_url: take_text(&values.host_url, "http://localhost:8080"),
            db_path: take_text(&values.db_path, "./data/rus.db"),
            host: take_text(&values.host, "0.0.0.0"),
            port: match &values.port {
                Some(text) => parse_u16(text.as_str()).unwrap_or(8080),
                None => 8080,
            },
            allow_registration: match &values.allow_registration {
                Some(text) => parse_bool(text.as_str()).unwrap_or(true),
                None => true,
            },
        }
    }

    /// The signing secret: the text given for it, or the default.
    pub fn jwt_secret_from(value: &Option<String>) -> (secret: String)
        ensures
            secret@ == text_or(
                optional_text(*value),
                "your-secret-key-change-this-in-production"@,
            ),
    {
        take_text(value, "your-secret-key-change-this-in-production")
    }

    /// Whether the signing secret is the default, which anyone can know.
    pub fn uses_default_secret(&self) -> (unsafe_secret: bool)
        ensures
            unsafe_secret == (self@.jwt_secret == "your-secret-key-change-this-in-production"@),
    {
        crate::text::str_eq(
            self.jwt_secret.as_str(),
            "your-secret-key-change-this-in-production",
        )
    }
}

} // verus!
