//! Reports of abuse: taking them in, showing them, and acting on them.

use crate::auth::get_claims;
use crate::auth::jwt::current_timestamp;
use crate::auth::jwt::is_clock_second;
use crate::auth::middleware::RequestContext;
use crate::db::AppState;
use crate::db::DatabaseView;
use crate::handlers::admin::elevation_obstacle;
use crate::handlers::ApiError;
use crate::links::duplicate_text;
use crate::models::optional_text;
use crate::models::AbuseReport;
use crate::models::AbuseReportView;
use crate::models::ClaimsView;
use crate::models::ResolveReportRequest;
use crate::models::SubmitReportRequest;
use crate::ordering::highest_first;
use crate::ordering::order_highest_first;
use crate::reports::report_views;
use crate::reports::ReportRow;
use crate::reports::ReportRowView;
use crate::reports::ReportStatus;
use crate::text::contains_text;
use crate::text::has_substring;
use crate::text::str_eq;
use crate::text::time_string;
use crate::text::time_text;
use vstd::prelude::*;

verus! {

/// What can be done about a report.
#[derive(Clone, Copy, Debug, PartialEq, Eq, Structural)]
pub enum ResolveAction {
    /// Close the report as baseless.
    Dismiss,
    /// Delete the reported link.
    DeleteUrl,
    /// Delete the account that owns the reported link.
    BanUser,
}

/// The action that a word names: `dismiss`, `delete_url` or `ban_user`.
pub open spec fn named_action(word: Seq<char>) -> Option<ResolveAction> {
    if word == "dismiss"@ {
        Some(ResolveAction::Dismiss)
    } else if word == "delete_url"@ {
        Some(ResolveAction::DeleteUrl)
    } else if word == "ban_user"@ {
        Some(ResolveAction::BanUser)
    } else {
        None
    }
}

/// Reads the action that a word names.
pub fn parse_action(word: &str) -> (action: Option<ResolveAction>)
    ensures
        action == named_action(word@),
{
    if str_eq(word, "dismiss") {
        Some(ResolveAction::Dismiss)
    } else if str_eq(word, "delete_url") {
        Some(ResolveAction::DeleteUrl)
    } else if str_eq(word, "ban_user") {
        Some(ResolveAction::BanUser)
    } else {
        None
    }
}

/// What was done about a report.
#[derive(Clone, Copy, Debug, PartialEq, Eq, Structural)]
pub enum Resolution {
    /// The report was closed as baseless.
    Dismissed,
    /// The reported link was deleted.
    UrlDeleted,
    /// The owner of the reported link was deleted.
    UserBanned,
}

impl Resolution {
    /// The words that tell of it.
    pub open spec fn message_text(self) -> Seq<char> {
        match self {
            Resolution::Dismissed => "Report dismissed"@,
            Resolution::UrlDeleted => "URL deleted and report resolved"@,
            Resolution::UserBanned => "User banned, all URLs deleted, and report resolved"@,
        }
    }

    /// The words that tell of it.
    pub fn message(self) -> (text: String)
        ensures
            text@ == self.message_text(),
    {
        match self {
            Resolution::Dismissed => "Report dismissed".to_string(),
            Resolution::UrlDeleted => "URL deleted and report resolved".to_string(),
            Resolution::UserBanned => {
                "User banned, all URLs deleted, and report resolved".to_string()
            },
        }
    }
}

/// Whether an address that a reporter gave can be one: it is empty, or it
/// has an `@`.
pub open spec fn email_plausible(email: Option<Seq<char>>) -> bool {
    match email {
        Some(e) => e.len() == 0 || has_substring(e, "@"@),
        None => true,
    }
}

/// The answer to a report at `now`, and the store after it.
pub open spec fn submit_outcome(
    db: DatabaseView,
    short_code: Seq<char>,
    reporter_email: Option<Seq<char>>,
    reason: Seq<char>,
    description: Option<Seq<char>>,
    now: i64,
) -> (Result<(), ApiError>, DatabaseView) {
    if short_code.len() == 0 {
        (Err(ApiError::EmptyShortCode), db)
    } else if reason.len() == 0 {
        (Err(ApiError::EmptyReason), db)
    } else if !email_plausible(reporter_email) {
        (Err(ApiError::InvalidEmail), db)
    } else if !db.links.has_code(short_code) {
        (Err(ApiError::ShortCodeNotFound), db)
    } else if db.reports.next_report_id == i64::MAX {
        (Err(ApiError::ReportFailed), db)
    } else {
        (
            Ok(()),
            DatabaseView {
                reports: db.reports.with_report(
                    short_code,
                    reporter_email,
                    reason,
                    description,
                    now,
                ),
                ..db
            },
        )
    }
}

/// Takes in a report at the second `now`.
pub fn submit_abuse_report_at(data: &mut AppState, req: &SubmitReportRequest, now: i64) -> (res:
    Result<(), ApiError>)
    requires
        old(data)@.db.wf(),
    ensures
        final(data)@.db.wf(),
        final(data)@.config == old(data)@.config,
        (res, final(data)@.db) == submit_outcome(
            old(data)@.db,
            req.short_code@,
            optional_text(req.reporter_email),
            req.reason@,
            optional_text(req.description),
            now,
        ),
{
    if req.short_code.as_str().is_empty() {
        return Err(ApiError::EmptyShortCode);
    }
    if req.reason.as_str().is_empty() {
        return Err(ApiError::EmptyReason);
    }
    if let Some(email) = &req.reporter_email {
        if !email.as_str().is_empty() && !contains_text(email.as_str(), "@") {
            return Err(ApiError::InvalidEmail);
        }
    }
    if data.db.links.find_url(req.short_code.as_str()).is_none() {
        return Err(ApiError::ShortCodeNotFound);
    }
    let stored = data.db.reports.insert_report(
        req.short_code.as_str(),
        &req.reporter_email,
        req.reason.as_str(),
        &req.description,
        now,
    );
    assert(data@.db.users == old(data)@.db.users);
    assert(data@.db.refresh_tokens == old(data)@.db.refresh_tokens);
    match stored {
        Ok(_) => Ok(()),
        Err(_) => Err(ApiError::ReportFailed),
    }
}

/// Takes in a report of abuse of a link. Anyone may report; the link must
/// exist.
pub fn submit_abuse_report(data: &mut AppState, req: &SubmitReportRequest) -> (res: Result<
    (),
    ApiError,
>)
    requires
        old(data)@.db.wf(),
    ensures
        final(data)@.db.wf(),
        final(data)@.config == old(data)@.config,
        exists|now: i64|
            is_clock_second(now) && (res, final(data)@.db) == #[trigger] submit_outcome(
                old(data)@.db,
                req.short_code@,
                optional_text(req.reporter_email),
                req.reason@,
                optional_text(req.description),
                now,
            ),
{
    let now = current_timestamp();
    submit_abuse_report_at(data, req, now)
}

/// The words that thank a reporter.
pub fn report_received_message() -> (text: String)
    ensures
        text@ == "Report submitted successfully. Thank you for helping keep our service safe."@,
{
    "Report submitted successfully. Thank you for helping keep our service safe.".to_string()
}

/// The text of a second, if there is one.
pub open spec fn optional_time_text(t: Option<i64>) -> Option<Seq<char>> {
    match t {
        Some(second) => Some(time_text(second)),
        None => None,
    }
}

/// A report as an elevated account sees it: with the address of the
/// reported link, if the link still exists, and with its owner, if the
/// owner does.
pub open spec fn report_shown(db: DatabaseView, report: ReportRowView) -> AbuseReportView {
    let url = db.links.url_with_code(report.short_code);
    let owner = match url {
        Some(u) => db.user_with_id(u.user_id),
        None => None,
    };
    AbuseReportView {
        id: report.id,
        short_code: report.short_code,
        reporter_email: report.reporter_email,
        reason: report.reason,
        description: report.description,
        status: report.status.text_spec(),
        created_at: time_text(report.created_at),
        resolved_at: optional_time_text(report.resolved_at),
        resolved_by: report.resolved_by,
        original_url: match url {
            Some(u) => Some(u.original_url),
            None => None,
        },
        url_owner_username: match owner {
            Some(o) => Some(o.username),
            None => None,
        },
        url_owner_id: match owner {
            Some(o) => Some(o.user_id),
            None => None,
        },
    }
}

/// The key by which reports are put in order: pending ones first, then
/// those acted upon, then the rest, and within each the newest first.
pub open spec fn report_key(report: ReportRowView) -> i128 {
    let rank: int = match report.status {
        ReportStatus::Pending => 1,
        ReportStatus::Resolved => 2,
        ReportStatus::Dismissed => 3,
    };
    ((3 - rank) * 0x2_0000_0000_0000_0000 + report.created_at) as i128
}

/// The keys of some reports.
pub open spec fn report_keys(reports: Seq<ReportRowView>) -> Seq<i128> {
    reports.map_values(|r: ReportRowView| report_key(r))
}

/// All reports as an elevated account sees them, in the order of their
/// keys.
pub open spec fn listed_reports(db: DatabaseView) -> Seq<AbuseReportView> {
    highest_first(report_keys(db.reports.reports)).map_values(
        |p: usize| report_shown(db, db.reports.reports[p as int]),
    )
}

/// The views of some reports as shown.
pub open spec fn shown_views(reports: Seq<AbuseReport>) -> Seq<AbuseReportView> {
    reports.map_values(|r: AbuseReport| r@)
}

/// Computes the key of a report.
fn key_of(report: &ReportRow) -> (key: i128)
    ensures
        key == report_key(report@),
{
    let rank: i128 = match report.status {
        ReportStatus::Pending => 1,
        ReportStatus::Resolved => 2,
        ReportStatus::Dismissed => 3,
    };
    (3 - rank) * 0x2_0000_0000_0000_0000 + report.created_at as i128
}

/// Shows a report with what is known of the link and its owner.
fn show_report(data: &AppState, report: &ReportRow) -> (shown: AbuseReport)
    requires
        data@.db.wf(),
    ensures
        shown@ == report_shown(data@.db, report@),
{
    let url = data.db.links.find_url(report.short_code.as_str());
    let owner = match &url {
        Some(u) => data.db.find_user_by_id(u.user_id),
        None => None,
    };
    AbuseReport {
        id: report.id,
        short_code: report.short_code.clone(),
        reporter_email: duplicate_text(&report.reporter_email),
        reason: report.reason.clone(),
        description: duplicate_text(&report.description),
        status: report.status.text(),
        created_at: time_string(report.created_at),
        resolved_at: match report.resolved_at {
            Some(second) => Some(time_string(second)),
            None => None,
        },
        resolved_by: report.resolved_by,
        original_url: match &url {
            Some(u) => Some(u.original_url.clone()),
            None => None,
        },
        url_owner_username: match &owner {
            Some(o) => Some(o.username.clone()),
            None => None,
        },
        url_owner_id: match &owner {
            Some(o) => Some(o.user_id),
            None => None,
        },
    }
}

/// Lists all reports: the pending ones first, and the newest first among
/// reports of the same standing.
pub fn admin_list_reports(data: &AppState) -> (res: Vec<AbuseReport>)
    requires
        data@.db.wf(),
    ensures
        shown_views(res@) == listed_reports(data@.db),
{
    let rows = data.db.reports.all_reports();
    let mut keys: Vec<i128> = Vec::new();
    let mut i: usize = 0;
    while i < rows.len()
        invariant
            i <= rows@.len(),
            keys@ == report_keys(report_views(rows@)).take(i as int),
        decreases rows@.len() - i,
    {
        keys.push(key_of(&rows[i]));
        assert(keys@ =~= report_keys(report_views(rows@)).take(i + 1));
        i = i + 1;
    }
    assert(keys@ =~= report_keys(report_views(rows@)));
    let order = order_highest_first(&keys);
    let mut shown: Vec<AbuseReport> = Vec::new();
    let mut k: usize = 0;
    while k < order.len()
        invariant
            k <= order@.len(),
            data@.db.wf(),
            report_views(rows@) == data@.db.reports.reports,
            order@.len() == rows@.len(),
            forall|j: int| 0 <= j < order@.len() ==> (#[trigger] order@[j]) < rows@.len(),
            shown_views(shown@) == order@.take(k as int).map_values(
                |p: usize| report_shown(data@.db, data@.db.reports.reports[p as int]),
            ),
        decreases order@.len() - k,
    {
        let ghost so_far = shown_views(shown@);
        let report = show_report(data, &rows[order[k]]);
        assert(report@ == report_shown(
            data@.db,
            data@.db.reports.reports[order@[k as int] as int],
        ));
        shown.push(report);
        assert(shown_views(shown@) =~= so_far.push(
            report_shown(data@.db, data@.db.reports.reports[order@[k as int] as int]),
        ));
        assert(shown_views(shown@) =~= order@.take(k + 1).map_values(
            |p: usize| report_shown(data@.db, data@.db.reports.reports[p as int]),
        ));
        k = k + 1;
    }
    assert(order@.take(k as int) =~= order@);
    shown
}

/// The store with a report closed.
pub open spec fn with_report_closed(
    db: DatabaseView,
    report_id: i64,
    status: ReportStatus,
    now: i64,
    resolver: i64,
) -> DatabaseView {
    DatabaseView { reports: db.reports.with_closed(report_id, status, now, resolver), ..db }
}

/// The answer to a request to act on a report at `now`, and the store
/// after it. Only a pending report is acted on. An account that is
/// elevated is never banned.
pub open spec fn resolve_outcome(
    db: DatabaseView,
    identity: Option<ClaimsView>,
    report_id: i64,
    action: Seq<char>,
    now: i64,
) -> (Result<Resolution, ApiError>, DatabaseView) {
    match elevation_obstacle(identity) {
        Some(e) => (Err(e), db),
        None => match db.reports.report_with_id(report_id) {
            None => (Err(ApiError::ReportNotFound), db),
            Some(report) => if report.status != ReportStatus::Pending {
                (Err(ApiError::ReportAlreadyResolved), db)
            } else {
                let resolver = identity->0.user_id;
                match named_action(action) {
                    None => (Err(ApiError::InvalidAction), db),
                    Some(ResolveAction::Dismiss) => (
                        Ok(Resolution::Dismissed),
                        with_report_closed(db, report_id, ReportStatus::Dismissed, now, resolver),
                    ),
                    Some(ResolveAction::DeleteUrl) => (
                        Ok(Resolution::UrlDeleted),
                        with_report_closed(
                            DatabaseView { links: db.links.without_code(report.short_code), ..db },
                            report_id,
                            ReportStatus::Resolved,
                            now,
                            resolver,
                        ),
                    ),
                    Some(ResolveAction::BanUser) => match db.links.url_with_code(
                        report.short_code,
                    ) {
                        None => (Err(ApiError::UrlOrUserNotFound), db),
                        Some(url) => if db.user_with_id(url.user_id) matches Some(owner)
                            && owner.is_admin {
                            (Err(ApiError::CannotBanAdmin), db)
                        } else {
                            (
                                Ok(Resolution::UserBanned),
                                with_report_closed(
                                    db.without_user(url.user_id),
                                    report_id,
                                    ReportStatus::Resolved,
                                    now,
                                    resolver,
                                ),
                            )
                        },
                    },
                }
            },
        },
    }
}

/// Acts on a report at the second `now`.
pub fn admin_resolve_report_at(
    data: &mut AppState,
    report_id: i64,
    req: &ResolveReportRequest,
    http_req: &RequestContext,
    now: i64,
) -> (res: Result<Resolution, ApiError>)
    requires
        old(data)@.db.wf(),
    ensures
        final(data)@.db.wf(),
        final(data)@.config == old(data)@.config,
        (res, final(data)@.db) == resolve_outcome(
            old(data)@.db,
            http_req@,
            report_id,
            req.action@,
            now,
        ),
{
    let claims = match get_claims(http_req) {
        Some(c) => c,
        None => { return Err(ApiError::Unauthorized); },
    };
    if !claims.is_admin {
        return Err(ApiError::Forbidden);
    }
    let report = match data.db.reports.find_report(report_id) {
        Some(r) => r,
        None => { return Err(ApiError::ReportNotFound); },
    };
    if report.status != ReportStatus::Pending {
        return Err(ApiError::ReportAlreadyResolved);
    }
    let action = match parse_action(req.action.as_str()) {
        Some(a) => a,
        None => { return Err(ApiError::InvalidAction); },
    };
    match action {
        ResolveAction::Dismiss => {
            let _ = data.db.reports.close_report(
                report_id,
                ReportStatus::Dismissed,
                now,
                claims.user_id,
            );
            assert(data@.db.users == old(data)@.db.users);
            assert(data@.db.refresh_tokens == old(data)@.db.refresh_tokens);
            Ok(Resolution::Dismissed)
        },
        ResolveAction::DeleteUrl => {
            let _ = data.db.links.delete_code(report.short_code.as_str());
            let _ = data.db.reports.close_report(
                report_id,
                ReportStatus::Resolved,
                now,
                claims.user_id,
            );
            assert(data@.db.users == old(data)@.db.users);
            assert(data@.db.refresh_tokens == old(data)@.db.refresh_tokens);
            Ok(Resolution::UrlDeleted)
        },
        ResolveAction::BanUser => {
            let url = match data.db.links.find_url(report.short_code.as_str()) {
                Some(u) => u,
                None => { return Err(ApiError::UrlOrUserNotFound); },
            };
            let owner_elevated = match data.db.find_user_by_id(url.user_id) {
                Some(owner) => owner.is_admin,
                None => false,
            };
            if owner_elevated {
                return Err(ApiError::CannotBanAdmin);
            }
            let _ = data.db.delete_user(url.user_id);
            let ghost banned = data@.db;
            let _ = data.db.reports.close_report(
                report_id,
                ReportStatus::Resolved,
                now,
                claims.user_id,
            );
            assert(data@.db.users == banned.users);
            assert(data@.db.refresh_tokens == banned.refresh_tokens);
            Ok(Resolution::UserBanned)
        },
    }
}

/// Acts on a pending report: dismisses it, deletes the reported link, or
/// deletes the account that owns the link with all that belongs to it.
pub fn admin_resolve_report(
    data: &mut AppState,
    report_id: i64,
    req: &ResolveReportRequest,
    http_req: &RequestContext,
) -> (res: Result<Resolution, ApiError>)
    requires
        old(data)@.db.wf(),
    ensures
        final(data)@.db.wf(),
        final(data)@.config == old(data)@.config,
        exists|now: i64|
            is_clock_second(now) && (res, final(data)@.db) == #[trigger] resolve_outcome(
                old(data)@.db,
                http_req@,
                report_id,
                req.action@,
                now,
            ),
{
    let now = current_timestamp();
    admin_resolve_report_at(data, report_id, req, http_req, now)
}

/// No action on a report touches an elevated account: whoever asks and
/// whatever is asked, every account that is elevated before is there
/// after, unchanged. And an identity that is not elevated changes nothing
/// at all.
pub proof fn law_elevated_accounts_survive_reports(
    db: DatabaseView,
    identity: Option<ClaimsView>,
    report_id: i64,
    action: Seq<char>,
    now: i64,
    user_id: i64,
)
    requires
        db.wf(),
    ensures
        !(identity matches Some(claims) && claims.is_admin) ==> resolve_outcome(
            db,
            identity,
            report_id,
            action,
            now,
        ).1 == db,
        db.user_with_id(user_id) matches Some(account) && account.is_admin ==> resolve_outcome(
            db,
            identity,
            report_id,
            action,
            now,
        ).1.user_with_id(user_id) == db.user_with_id(user_id),
{
    let after = resolve_outcome(db, identity, report_id, action, now).1;
    if db.user_with_id(user_id) matches Some(account) && account.is_admin {
        if after.users != db.users {
            let report = db.reports.report_with_id(report_id)->0;
            let url = db.links.url_with_code(report.short_code)->0;
            assert(after.users == db.without_user(url.user_id).users);
            assert(url.user_id != user_id);
            db.lemma_without_user_keeps(url.user_id, user_id);
        }
    }
}

} // verus!
