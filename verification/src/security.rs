//! Password policy and the failed-login ledger.

use crate::auth::jwt::current_timestamp;
use crate::auth::jwt::is_clock_second;
use crate::config::Config;
use crate::db::AppState;
use crate::db::Database;
use crate::db::DatabaseView;
use vstd::prelude::*;

verus! {

/// Shortest password accepted, in characters.
pub const MIN_PASSWORD_CHARS: usize = 8;

/// What `char::is_uppercase` answers for a character: whether Unicode gives
/// it the `Uppercase` property.
pub uninterp spec fn is_uppercase_char(c: char) -> bool;

/// What `char::is_numeric` answers for a character: whether it belongs to one
/// of Unicode's general categories for numbers.
pub uninterp spec fn is_numeric_char(c: char) -> bool;

/// What `char::is_alphanumeric` answers for a character: whether Unicode
/// takes it for a letter or for a number.
pub uninterp spec fn is_alphanumeric_char(c: char) -> bool;

/// Whether a character is one of ASCII.
pub open spec fn is_ascii_char(c: char) -> bool {
    (c as u32) < 128
}

/// Whether a character is one of the ASCII letters `A` to `Z`.
pub open spec fn is_ascii_capital(c: char) -> bool {
    'A' <= c <= 'Z'
}

/// Whether a character is one of the ASCII digits `0` to `9`.
pub open spec fn is_ascii_digit(c: char) -> bool {
    '0' <= c <= '9'
}

/// Whether a character is an ASCII letter or an ASCII digit.
pub open spec fn is_ascii_letter_or_digit(c: char) -> bool {
    ('A' <= c <= 'Z') || ('a' <= c <= 'z') || ('0' <= c <= '9')
}

/// What the three tests answer on a character of ASCII: uppercase are the
/// letters `A` to `Z`, numbers are the digits `0` to `9`, and letters or
/// numbers are the letters and the digits. Of other characters this says
/// nothing.
pub open spec fn ascii_classes_hold(c: char) -> bool {
    is_ascii_char(c) ==> {
        &&& is_uppercase_char(c) == is_ascii_capital(c)
        &&& is_numeric_char(c) == is_ascii_digit(c)
        &&& is_alphanumeric_char(c) == is_ascii_letter_or_digit(c)
    }
}

/// The three tests answer on every ASCII character of a text as
/// `ascii_classes_hold` says.
pub open spec fn ascii_classes_hold_in(text: Seq<char>) -> bool {
    forall|i: int| 0 <= i < text.len() ==> ascii_classes_hold(#[trigger] text[i])
}

/// Trusted: `char::is_uppercase`. The result is taken to be a function of the
/// character alone, which the Unicode tables compiled into std make it. Of
/// the characters of ASCII, Unicode gives the `Uppercase` property to the
/// letters `A` to `Z` and to no other.
#[verifier::external_body]
fn char_is_uppercase(c: char) -> (b: bool)
    ensures
        b == is_uppercase_char(c),
        is_ascii_char(c) ==> b == is_ascii_capital(c),
{
    c.is_uppercase()
}

/// Trusted: `char::is_numeric`, a function of the character alone. Of the
/// characters of ASCII, Unicode puts the digits `0` to `9` into a category
/// for numbers and no other.
#[verifier::external_body]
fn char_is_numeric(c: char) -> (b: bool)
    ensures
        b == is_numeric_char(c),
        is_ascii_char(c) ==> b == is_ascii_digit(c),
{
    c.is_numeric()
}

/// Trusted: `char::is_alphanumeric`, a function of the character alone. Of
/// the characters of ASCII, Unicode takes the letters `A` to `Z` and `a` to
/// `z` for letters, the digits `0` to `9` for numbers, and no other for
/// either.
#[verifier::external_body]
fn char_is_alphanumeric(c: char) -> (b: bool)
    ensures
        b == is_alphanumeric_char(c),
        is_ascii_char(c) ==> b == is_ascii_letter_or_digit(c),
{
    c.is_alphanumeric()
}

/// The rule of the password policy that a candidate breaks.
#[derive(Clone, Copy, Debug, PartialEq, Eq, Structural)]
pub enum PolicyViolation {
    /// Fewer than eight characters.
    TooShort,
    /// No uppercase letter.
    NoUppercase,
    /// No digit.
    NoDigit,
    /// No character that is neither letter nor digit.
    NoSymbol,
}

impl PolicyViolation {
    /// The sentence shown to the person who chose the password.
    pub open spec fn message_text(self) -> Seq<char> {
        match self {
            PolicyViolation::TooShort => "Password must be at least 8 characters long"@,
            PolicyViolation::NoUppercase => "Password must contain at least one uppercase letter"@,
            PolicyViolation::NoDigit => "Password must contain at least one number"@,
            PolicyViolation::NoSymbol => "Password must contain at least one special character"@,
        }
    }

    /// The sentence shown to the person who chose the password.
    pub fn message(self) -> (text: String)
        ensures
            text@ == self.message_text(),
    {
        match self {
            PolicyViolation::TooShort => "Password must be at least 8 characters long".to_string(),
            PolicyViolation::NoUppercase => {
                "Password must contain at least one uppercase letter".to_string()
            },
            PolicyViolation::NoDigit => "Password must contain at least one number".to_string(),
            PolicyViolation::NoSymbol => {
                "Password must contain at least one special character".to_string()
            },
        }
    }
}

/// The password has an uppercase letter.
pub open spec fn has_uppercase(s: Seq<char>) -> bool {
    exists|i: int| 0 <= i < s.len() && is_uppercase_char(#[trigger] s[i])
}

/// The password has a digit.
pub open spec fn has_digit(s: Seq<char>) -> bool {
    exists|i: int| 0 <= i < s.len() && is_numeric_char(#[trigger] s[i])
}

/// The password has a character that is neither letter nor digit.
pub open spec fn has_symbol(s: Seq<char>) -> bool {
    exists|i: int| 0 <= i < s.len() && !is_alphanumeric_char(#[trigger] s[i])
}

/// The first rule broken, the rules taken in the order length, uppercase,
/// digit, symbol; `None` when all four are met.
pub open spec fn policy_verdict(
    length: nat,
    upper: bool,
    digit: bool,
    symbol: bool,
) -> Option<PolicyViolation> {
    if length < MIN_PASSWORD_CHARS {
        Some(PolicyViolation::TooShort)
    } else if !upper {
        Some(PolicyViolation::NoUppercase)
    } else if !digit {
        Some(PolicyViolation::NoDigit)
    } else if !symbol {
        Some(PolicyViolation::NoSymbol)
    } else {
        None
    }
}

/// The first rule that a password breaks, if any.
pub open spec fn first_violation(password: Seq<char>) -> Option<PolicyViolation> {
    policy_verdict(
        password.len(),
        has_uppercase(password),
        has_digit(password),
        has_symbol(password),
    )
}

/// A password that meets all four rules breaks none, and a password that
/// misses exactly one of them breaks that one.
pub proof fn law_policy(password: Seq<char>)
    ensures
        password.len() >= MIN_PASSWORD_CHARS && has_uppercase(password)
            && has_digit(password) && has_symbol(password) <==> first_violation(password) is None,
        password.len() < MIN_PASSWORD_CHARS ==> first_violation(password)
            == Some(PolicyViolation::TooShort),
        password.len() >= MIN_PASSWORD_CHARS && !has_uppercase(password)
            ==> first_violation(password) == Some(PolicyViolation::NoUppercase),
        password.len() >= MIN_PASSWORD_CHARS && has_uppercase(password)
            && !has_digit(password) ==> first_violation(password) == Some(PolicyViolation::NoDigit),
        password.len() >= MIN_PASSWORD_CHARS && has_uppercase(password)
            && has_digit(password) && !has_symbol(password) ==> first_violation(password) == Some(
            PolicyViolation::NoSymbol,
        ),
{
}

/// Judges a password from what is known of it: its length in characters
/// and whether it holds an uppercase letter, a digit and a symbol.
pub fn check_policy(length: usize, upper: bool, digit: bool, symbol: bool) -> (res: Result<
    (),
    PolicyViolation,
>)
    ensures
        res == match policy_verdict(length as nat, upper, digit, symbol) {
            Some(v) => Err::<(), PolicyViolation>(v),
            None => Ok(()),
        },
{
    if length < MIN_PASSWORD_CHARS {
        Err(PolicyViolation::TooShort)
    } else if !upper {
        Err(PolicyViolation::NoUppercase)
    } else if !digit {
        Err(PolicyViolation::NoDigit)
    } else if !symbol {
        Err(PolicyViolation::NoSymbol)
    } else {
        Ok(())
    }
}

/// The view of a verdict on a password.
pub open spec fn violation_result(verdict: Option<PolicyViolation>) -> Result<(), PolicyViolation> {
    match verdict {
        Some(v) => Err(v),
        None => Ok(()),
    }
}

/// Finds the first rule of the policy that a password breaks. The length is
/// counted in characters, whatever their size in bytes.
///
/// The second clause hands on what is known of the three character tests on
/// ASCII, so that the verdict on a password of ASCII characters follows from
/// its characters alone.
pub fn password_violation(password: &str) -> (res: Result<(), PolicyViolation>)
    ensures
        res == violation_result(first_violation(password@)),
        ascii_classes_hold_in(password@),
{
    let mut counted: usize = 0;
    let mut upper = false;
    let mut digit = false;
    let mut symbol = false;
    for c in iter: password.chars()
        invariant
            iter.seq() == password@,
            counted == if iter.index() < MIN_PASSWORD_CHARS {
                iter.index() as int
            } else {
                MIN_PASSWORD_CHARS as int
            },
            upper == exists|j: int|
                0 <= j < iter.index() && is_uppercase_char(#[trigger] password@[j]),
            digit == exists|j: int|
                0 <= j < iter.index() && is_numeric_char(#[trigger] password@[j]),
            symbol == exists|j: int|
                0 <= j < iter.index() && !is_alphanumeric_char(#[trigger] password@[j]),
            forall|j: int| 0 <= j < iter.index() ==> ascii_classes_hold(#[trigger] password@[j]),
    {
        if counted < MIN_PASSWORD_CHARS {
            counted = counted + 1;
        }
        if char_is_uppercase(c) {
            upper = true;
        }
        if char_is_numeric(c) {
            digit = true;
        }
        if !char_is_alphanumeric(c) {
            symbol = true;
        }
    }
    check_policy(counted, upper, digit, symbol)
}

/// Validates a password against the policy: at least eight characters, an
/// uppercase letter, a digit, and a character that is neither letter nor
/// digit. The error is the message of the first rule broken.
pub fn validate_password(password: &str) -> (res: Result<(), String>)
    ensures
        first_violation(password@) is None <==> res is Ok,
        first_violation(password@) matches Some(v) ==> res matches Err(m) && m@
            == v.message_text(),
        ascii_classes_hold_in(password@),
{
    match password_violation(password) {
        Ok(()) => Ok(()),
        Err(v) => Err(v.message()),
    }
}

/// The second after which a failed attempt counts towards a lockout that is
/// judged at `now` over a window of `lockout_minutes` minutes.
pub open spec fn lockout_cutoff(now: i64, lockout_minutes: i64) -> int {
    now - lockout_minutes * 60
}

/// Whether a username is locked at `now`: the failed attempts on it within
/// the trailing window number at least `max_attempts`.
pub open spec fn locked_out(
    db: DatabaseView,
    username: Seq<char>,
    max_attempts: i32,
    lockout_minutes: i64,
    now: i64,
) -> bool {
    db.failed_attempts_since(username, lockout_cutoff(now, lockout_minutes)) >= max_attempts
}

/// Whether a username is locked at the second `now`. Attempts count by the
/// username as typed, whether or not an account has it, and only those later
/// than `now` less the window.
pub fn is_account_locked_at(
    db: &Database,
    username: &str,
    max_attempts: i32,
    lockout_minutes: i64,
    now: i64,
) -> (locked: bool)
    ensures
        locked == locked_out(db@, username@, max_attempts, lockout_minutes, now),
{
    assert(-0x8000_0000_0000_0000 * 60 <= lockout_minutes * 60 <= 0x8000_0000_0000_0000 * 60)
        by (nonlinear_arith)
        requires
            -0x8000_0000_0000_0000 <= lockout_minutes <= 0x8000_0000_0000_0000,
    ;
    let cutoff: i128 = now as i128 - (lockout_minutes as i128) * 60;
    let failed = db.count_failed_attempts(username, cutoff);
    max_attempts <= 0 || failed as u64 >= max_attempts as u64
}

/// Whether a username is locked at the present second.
pub fn is_account_locked(db: &Database, username: &str, max_attempts: i32, lockout_minutes: i64) -> (locked:
    bool)
    ensures
        exists|now: i64|
            is_clock_second(now) && locked == #[trigger] locked_out(
                db@,
                username@,
                max_attempts,
                lockout_minutes,
                now,
            ),
{
    let now = current_timestamp();
    is_account_locked_at(db, username, max_attempts, lockout_minutes, now)
}

/// Puts an attempt on record as of the second `now`, whatever the username.
pub fn record_login_attempt_at(db: &mut Database, username: &str, success: bool, now: i64)
    ensures
        final(db)@ == old(db)@.with_login_attempt(username@, success, now),
        old(db)@.wf() ==> final(db)@.wf(),
{
    db.insert_login_attempt(username, success, now);
}

/// Puts an attempt on record as of the present second.
pub fn record_login_attempt(db: &mut Database, username: &str, success: bool)
    ensures
        exists|now: i64|
            is_clock_second(now) && final(db)@ == #[trigger] old(db)@.with_login_attempt(
                username@,
                success,
                now,
            ),
        old(db)@.wf() ==> final(db)@.wf(),
{
    let now = current_timestamp();
    record_login_attempt_at(db, username, success, now);
}

/// The second before which clicks are forgotten at `now`, when they are
/// kept for `retention_days` days.
pub open spec fn retention_cutoff(now: i64, retention_days: i64) -> int {
    now - retention_days * 86400
}

/// Forgets, as of the second `now`, the clicks that are older than the days
/// for which they are kept.
pub fn cleanup_old_clicks_at(db: &mut Database, retention_days: i64, now: i64)
    ensures
        final(db)@ == (DatabaseView {
            links: old(db)@.links.without_clicks_before(retention_cutoff(now, retention_days)),
            ..old(db)@
        }),
        old(db)@.wf() ==> final(db)@.wf(),
{
    assert(-0x8000_0000_0000_0000 * 86400 <= retention_days * 86400 <= 0x8000_0000_0000_0000
        * 86400) by (nonlinear_arith)
        requires
            -0x8000_0000_0000_0000 <= retention_days <= 0x8000_0000_0000_0000,
    ;
    let cutoff: i128 = now as i128 - (retention_days as i128) * 86400;
    db.links.delete_clicks_before(cutoff);
}

/// Forgets the clicks that are older than the days for which they are kept.
pub fn cleanup_old_clicks(db: &mut Database, retention_days: i64)
    ensures
        exists|now: i64|
            is_clock_second(now) && final(db)@ == (DatabaseView {
                links: old(db)@.links.without_clicks_before(
                    #[trigger] retention_cutoff(now, retention_days),
                ),
                ..old(db)@
            }),
        old(db)@.wf() ==> final(db)@.wf(),
{
    let now = current_timestamp();
    cleanup_old_clicks_at(db, retention_days, now);
}

/// Seconds from one sweep of a running service to the next.
pub const SWEEP_INTERVAL_SECONDS: u64 = 3600;

/// The store after a sweep at `now`: without the refresh tokens that have
/// expired and without the attempts that have left the lockout window.
pub open spec fn swept(db: DatabaseView, lockout_minutes: i64, now: i64) -> DatabaseView {
    db.without_stale_rows(now, lockout_cutoff(now, lockout_minutes))
}

/// Sweeps the store at the second `now`. No request deletes a refresh token
/// for its age, or an attempt at all: they are kept until a sweep, which the
/// service runs when it starts and once in every `SWEEP_INTERVAL_SECONDS`
/// after. A sweep deletes the refresh tokens that have expired, which
/// nothing can redeem any more, and the attempts that have left the lockout
/// window, which count towards no lockout any more. Clicks have a retention
/// of their own.
pub fn sweep_at(db: &mut Database, lockout_minutes: i64, now: i64)
    requires
        old(db)@.wf(),
    ensures
        final(db)@.wf(),
        final(db)@ == swept(old(db)@, lockout_minutes, now),
{
    assert(-0x8000_0000_0000_0000 * 60 <= lockout_minutes * 60 <= 0x8000_0000_0000_0000 * 60)
        by (nonlinear_arith)
        requires
            -0x8000_0000_0000_0000 <= lockout_minutes <= 0x8000_0000_0000_0000,
    ;
    let cutoff: i128 = now as i128 - (lockout_minutes as i128) * 60;
    db.delete_stale_rows(now, cutoff);
}

/// Sweeps the store at the present second.
pub fn sweep(db: &mut Database, lockout_minutes: i64)
    requires
        old(db)@.wf(),
    ensures
        final(db)@.wf(),
        exists|now: i64| is_clock_second(now) && final(db)@ == #[trigger] swept(old(db)@, lockout_minutes, now),
{
    let now = current_timestamp();
    sweep_at(db, lockout_minutes, now);
}

/// Starts the service on a store that was kept elsewhere: the store is
/// swept at the present second, so that rows that can no longer matter are
/// not carried along from run to run.
pub fn start_service(config: Config, db: Database) -> (state: AppState)
    requires
        db@.wf(),
    ensures
        state@.db.wf(),
        state@.config == config@,
        exists|now: i64|
            is_clock_second(now) && state@.db == #[trigger] swept(
                db@,
                config@.account_lockout_duration_minutes,
                now,
            ),
{
    let ghost before = db@;
    let mut store = db;
    let now = current_timestamp();
    sweep_at(&mut store, config.account_lockout_duration_minutes, now);
    assert(store@ == swept(before, config@.account_lockout_duration_minutes, now));
    AppState { db: store, config }
}

/// A sweep changes no lockout: at the second of the sweep and at every later
/// one, a username is locked after the sweep exactly if it would be without
/// it.
pub proof fn law_sweep_keeps_lockouts(
    db: DatabaseView,
    lockout_minutes: i64,
    now: i64,
    username: Seq<char>,
    max_attempts: i32,
    later: i64,
)
    requires
        now <= later,
    ensures
        locked_out(swept(db, lockout_minutes, now), username, max_attempts, lockout_minutes, later)
            == locked_out(db, username, max_attempts, lockout_minutes, later),
{
    let kept = |a: crate::db::LoginAttemptRowView|
        a.attempted_at > lockout_cutoff(now, lockout_minutes);
    let counted = |a: crate::db::LoginAttemptRowView|
        a.username == username && !a.success && a.attempted_at > lockout_cutoff(
            later,
            lockout_minutes,
        );
    crate::seqs::lemma_filter_narrows(db.login_attempts, kept, counted);
}

/// One more failed attempt within the window raises the count of a username
/// by one and leaves the count of every other username as it was; an attempt
/// that succeeded, or one at or before the cutoff, changes no count.
pub proof fn law_attempts_count(
    db: DatabaseView,
    tried: Seq<char>,
    success: bool,
    at: i64,
    username: Seq<char>,
    cutoff: int,
)
    ensures
        db.with_login_attempt(tried, success, at).failed_attempts_since(username, cutoff)
            == db.failed_attempts_since(username, cutoff) + (if tried == username && !success && at
            > cutoff {
            1int
        } else {
            0int
        }),
{
    let pred = |a: crate::db::LoginAttemptRowView|
        a.username == username && !a.success && a.attempted_at > cutoff;
    let row = crate::db::LoginAttemptRowView { username: tried, attempted_at: at, success };
    db.login_attempts.lemma_filter_push(row, pred);
}

} // verus!
