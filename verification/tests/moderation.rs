use rus::auth::middleware::RequestContext;
use rus::config::Config;
use rus::config::ConfigValues;
use rus::db::AppState;
use rus::handlers::abuse::admin_list_reports;
use rus::handlers::abuse::admin_resolve_report;
use rus::handlers::abuse::admin_resolve_report_at;
use rus::handlers::abuse::parse_action;
use rus::handlers::abuse::report_received_message;
use rus::handlers::abuse::submit_abuse_report;
use rus::handlers::abuse::submit_abuse_report_at;
use rus::handlers::abuse::Resolution;
use rus::handlers::abuse::ResolveAction;
use rus::handlers::admin::admin_delete_user;
use rus::handlers::admin::admin_get_stats;
use rus::handlers::admin::admin_list_users;
use rus::handlers::admin::admin_promote_user;
use rus::handlers::admin::show_number;
use rus::handlers::pages::check_setup_required;
use rus::handlers::pages::get_config;
use rus::handlers::pages::health_check;
use rus::handlers::ApiError;
use rus::models::Claims;
use rus::models::ResolveReportRequest;
use rus::models::SubmitReportRequest;
use rus::reports::ReportStatus;
use rus::reports::ReportStore;

fn no_values_for_moderation() -> ConfigValues {
    ConfigValues {
        jwt_secret: None,
        jwt_expiry: None,
        refresh_token_expiry: None,
        max_url_length: None,
        account_lockout_attempts: None,
        account_lockout_duration: None,
        click_retention_days: None,
        host_url: None,
        db_path: None,
        host: None,
        port: None,
        allow_registration: None,
    }
}

/// Accounts 1 (root, elevated), 2 (bob), 3 (carol, elevated); links
/// `boblnk` and `bobtwo` of bob, `carlnk` of carol.
fn service() -> AppState {
    let mut state = AppState::new(Config::from_values(&no_values_for_moderation()));
    state.db.insert_user("root", "hash", true, 1_700_000_000).unwrap();
    state.db.insert_user("bob", "hash", false, 1_700_000_100).unwrap();
    state.db.insert_user("carol", "hash", true, 1_700_000_050).unwrap();
    state.db.insert_url(2, "https://example.com/bob", "boblnk", 10).unwrap();
    state.db.insert_url(2, "https://example.com/bob2", "bobtwo", 11).unwrap();
    state.db.insert_url(3, "https://example.com/carol", "carlnk", 12).unwrap();
    state.db.links.record_click(1, 20);
    state.db.links.record_click(1, 21);
    state.db.links.record_click(3, 22);
    state.db.insert_refresh_token(2, "bobs-token", 1000, 0).unwrap();
    state
}

fn identity(user_id: i64, name: &str, is_admin: bool) -> RequestContext {
    RequestContext { claims: Some(Claims { sub: name.to_string(), user_id, is_admin, exp: 0 }) }
}

fn report(code: &str, email: Option<&str>, reason: &str) -> SubmitReportRequest {
    SubmitReportRequest {
        short_code: code.to_string(),
        reporter_email: email.map(|e| e.to_string()),
        reason: reason.to_string(),
        description: Some("details".to_string()),
    }
}

fn action(word: &str) -> ResolveReportRequest {
    ResolveReportRequest { action: word.to_string() }
}

#[test]
fn report_is_taken_in_pending() {
    let mut state = service();
    assert_eq!(
        submit_abuse_report_at(&mut state, &report("boblnk", Some("me@example.com"), "spam"), 500),
        Ok(())
    );
    let rows = state.db.reports.all_reports();
    assert_eq!(rows.len(), 1);
    assert_eq!(rows[0].id, 1);
    assert_eq!(rows[0].short_code, "boblnk");
    assert_eq!(rows[0].reporter_email, Some("me@example.com".to_string()));
    assert_eq!(rows[0].reason, "spam");
    assert_eq!(rows[0].description, Some("details".to_string()));
    assert_eq!(rows[0].status, ReportStatus::Pending);
    assert_eq!(rows[0].created_at, 500);
    assert_eq!(rows[0].resolved_at, None);
    assert_eq!(rows[0].resolved_by, None);
    assert_eq!(
        report_received_message(),
        "Report submitted successfully. Thank you for helping keep our service safe."
    );
    assert_eq!(submit_abuse_report(&mut state, &report("carlnk", None, "phishing")), Ok(()));
    assert_eq!(state.db.reports.all_reports().len(), 2);
}

#[test]
fn report_is_refused_with_its_reason() {
    let mut state = service();
    let cases = [
        (report("", Some("me@example.com"), "spam"), ApiError::EmptyShortCode, 400),
        (report("boblnk", None, ""), ApiError::EmptyReason, 400),
        (report("", None, ""), ApiError::EmptyShortCode, 400),
        (report("boblnk", Some("no-at-sign"), "spam"), ApiError::InvalidEmail, 400),
        (report("nope00", Some("no-at-sign"), "spam"), ApiError::InvalidEmail, 400),
        (report("nope00", Some("me@example.com"), "spam"), ApiError::ShortCodeNotFound, 404),
    ];
    for (req, expected, status) in cases {
        let refusal = submit_abuse_report_at(&mut state, &req, 0).unwrap_err();
        assert_eq!(refusal, expected);
        assert_eq!(refusal.status_code(), status);
    }
    assert!(state.db.reports.all_reports().is_empty());
    // An empty address is as good as none, and an `@` is all it takes.
    assert_eq!(submit_abuse_report_at(&mut state, &report("boblnk", Some(""), "spam"), 0), Ok(()));
    assert_eq!(submit_abuse_report_at(&mut state, &report("boblnk", Some("@"), "spam"), 0), Ok(()));
    assert_eq!(ApiError::EmptyShortCode.message(), "Short code cannot be empty");
    assert_eq!(ApiError::EmptyReason.message(), "Reason cannot be empty");
    assert_eq!(ApiError::InvalidEmail.message(), "Invalid email format");
    assert_eq!(ApiError::ShortCodeNotFound.message(), "Short code not found");
    assert_eq!(ApiError::ReportFailed.message(), "Failed to submit report");
    assert_eq!(ApiError::ReportFailed.status_code(), 500);
}

#[test]
fn actions_are_named_by_three_words() {
    assert_eq!(parse_action("dismiss"), Some(ResolveAction::Dismiss));
    assert_eq!(parse_action("delete_url"), Some(ResolveAction::DeleteUrl));
    assert_eq!(parse_action("ban_user"), Some(ResolveAction::BanUser));
    for word in ["", "Dismiss", "dismiss ", "delete", "ban", "ban_user!"] {
        assert_eq!(parse_action(word), None);
    }
    assert_eq!(Resolution::Dismissed.message(), "Report dismissed");
    assert_eq!(Resolution::UrlDeleted.message(), "URL deleted and report resolved");
    assert_eq!(
        Resolution::UserBanned.message(),
        "User banned, all URLs deleted, and report resolved"
    );
}

#[test]
fn dismissing_closes_the_report_and_touches_nothing_else() {
    let mut state = service();
    submit_abuse_report_at(&mut state, &report("boblnk", None, "spam"), 500).unwrap();
    let root = identity(1, "root", true);
    let done = admin_resolve_report_at(&mut state, 1, &action("dismiss"), &root, 900);
    assert_eq!(done, Ok(Resolution::Dismissed));
    let rows = state.db.reports.all_reports();
    assert_eq!(rows[0].status, ReportStatus::Dismissed);
    assert_eq!(rows[0].resolved_at, Some(900));
    assert_eq!(rows[0].resolved_by, Some(1));
    assert_eq!(state.db.links.urls().len(), 3);
    assert_eq!(state.db.users.len(), 3);
    // A closed report is not acted on again.
    let again = admin_resolve_report_at(&mut state, 1, &action("delete_url"), &root, 901);
    assert_eq!(again, Err(ApiError::ReportAlreadyResolved));
    assert_eq!(state.db.links.urls().len(), 3);
    assert_eq!(ApiError::ReportAlreadyResolved.status_code(), 400);
    assert_eq!(ApiError::ReportAlreadyResolved.message(), "Report has already been resolved");
}

#[test]
fn deleting_the_link_takes_its_clicks_along() {
    let mut state = service();
    submit_abuse_report_at(&mut state, &report("boblnk", None, "spam"), 500).unwrap();
    let carol = identity(3, "carol", true);
    let done = admin_resolve_report_at(&mut state, 1, &action("delete_url"), &carol, 900);
    assert_eq!(done, Ok(Resolution::UrlDeleted));
    let codes: Vec<&str> =
        state.db.links.urls().iter().map(|u| u.short_code.as_str()).collect();
    assert_eq!(codes, vec!["bobtwo", "carlnk"]);
    let clicks: Vec<i64> = state.db.links.clicks().iter().map(|c| c.url_id).collect();
    assert_eq!(clicks, vec![3]);
    let rows = state.db.reports.all_reports();
    assert_eq!(rows[0].status, ReportStatus::Resolved);
    assert_eq!(rows[0].resolved_by, Some(3));
    assert_eq!(state.db.users.len(), 3);
}

#[test]
fn banning_deletes_the_owner_with_all_that_is_theirs() {
    let mut state = service();
    submit_abuse_report_at(&mut state, &report("boblnk", None, "spam"), 500).unwrap();
    let root = identity(1, "root", true);
    let done = admin_resolve_report_at(&mut state, 1, &action("ban_user"), &root, 900);
    assert_eq!(done, Ok(Resolution::UserBanned));
    let names: Vec<&str> = state.db.users.iter().map(|u| u.username.as_str()).collect();
    assert_eq!(names, vec!["root", "carol"]);
    let codes: Vec<&str> =
        state.db.links.urls().iter().map(|u| u.short_code.as_str()).collect();
    assert_eq!(codes, vec!["carlnk"]);
    assert_eq!(state.db.links.clicks().len(), 1);
    assert!(state.db.refresh_tokens.is_empty());
    let rows = state.db.reports.all_reports();
    assert_eq!(rows[0].status, ReportStatus::Resolved);
    assert_eq!(rows[0].resolved_at, Some(900));
}

#[test]
fn elevated_account_is_never_banned() {
    let mut state = service();
    submit_abuse_report_at(&mut state, &report("carlnk", None, "spam"), 500).unwrap();
    let root = identity(1, "root", true);
    let res = admin_resolve_report_at(&mut state, 1, &action("ban_user"), &root, 900);
    let refusal = res.unwrap_err();
    assert_eq!(refusal, ApiError::CannotBanAdmin);
    assert_eq!(refusal.status_code(), 400);
    assert_eq!(refusal.message(), "Cannot ban admin users");
    assert_eq!(state.db.users.len(), 3);
    assert_eq!(state.db.links.urls().len(), 3);
    assert_eq!(state.db.reports.all_reports()[0].status, ReportStatus::Pending);
}

#[test]
fn acting_on_reports_takes_an_elevated_identity() {
    let mut state = service();
    submit_abuse_report_at(&mut state, &report("boblnk", None, "spam"), 500).unwrap();
    for word in ["dismiss", "delete_url", "ban_user", "nonsense"] {
        let plain = identity(2, "bob", false);
        let res = admin_resolve_report_at(&mut state, 1, &action(word), &plain, 900);
        assert_eq!(res, Err(ApiError::Forbidden));
        let nobody = RequestContext::new();
        let res = admin_resolve_report_at(&mut state, 1, &action(word), &nobody, 900);
        assert_eq!(res, Err(ApiError::Unauthorized));
    }
    assert_eq!(state.db.users.len(), 3);
    assert_eq!(state.db.links.urls().len(), 3);
    assert_eq!(state.db.reports.all_reports()[0].status, ReportStatus::Pending);
    assert_eq!(ApiError::Forbidden.status_code(), 403);
    assert_eq!(ApiError::Forbidden.message(), "Admin access required");
}

#[test]
fn acting_is_refused_with_its_reason() {
    let mut state = service();
    submit_abuse_report_at(&mut state, &report("boblnk", None, "spam"), 500).unwrap();
    let root = identity(1, "root", true);
    let res = admin_resolve_report_at(&mut state, 7, &action("dismiss"), &root, 900);
    assert_eq!(res, Err(ApiError::ReportNotFound));
    assert_eq!(ApiError::ReportNotFound.status_code(), 404);
    assert_eq!(ApiError::ReportNotFound.message(), "Report not found");
    let res = admin_resolve_report_at(&mut state, 1, &action("shrug"), &root, 900);
    let refusal = res.unwrap_err();
    assert_eq!(refusal, ApiError::InvalidAction);
    assert_eq!(refusal.status_code(), 400);
    assert_eq!(
        refusal.message(),
        "Invalid action. Must be 'dismiss', 'delete_url', or 'ban_user'"
    );
    // The link is deleted behind the report's back: nobody is left to ban.
    assert!(state.db.links.delete_code("boblnk"));
    let res = admin_resolve_report_at(&mut state, 1, &action("ban_user"), &root, 900);
    let refusal = res.unwrap_err();
    assert_eq!(refusal, ApiError::UrlOrUserNotFound);
    assert_eq!(refusal.status_code(), 404);
    assert_eq!(refusal.message(), "URL or user not found");
    assert_eq!(state.db.reports.all_reports()[0].status, ReportStatus::Pending);
    // Deleting a link that is gone still closes the report.
    let res = admin_resolve_report(&mut state, 1, &action("delete_url"), &root);
    assert_eq!(res, Ok(Resolution::UrlDeleted));
}

#[test]
fn reports_are_listed_pending_first_and_newest_first() {
    let mut state = service();
    for (code, at) in [("boblnk", 100), ("bobtwo", 300), ("carlnk", 200), ("boblnk", 400), ("boblnk", 50)] {
        submit_abuse_report_at(&mut state, &report(code, None, "spam"), at).unwrap();
    }
    let root = identity(1, "root", true);
    admin_resolve_report_at(&mut state, 2, &action("dismiss"), &root, 1_700_000_000).unwrap();
    admin_resolve_report_at(&mut state, 1, &action("delete_url"), &root, 1_700_000_001).unwrap();
    admin_resolve_report_at(&mut state, 4, &action("dismiss"), &root, 1_700_000_002).unwrap();
    let listed = admin_list_reports(&state);
    let ids: Vec<i64> = listed.iter().map(|r| r.id).collect();
    // Pending: 3 (200), 5 (50); resolved: 1; dismissed: 4 (400), 2 (300).
    assert_eq!(ids, vec![3, 5, 1, 4, 2]);
    assert_eq!(listed[0].status, "pending");
    assert_eq!(listed[0].created_at, "1970-01-01 00:03:20");
    assert_eq!(listed[0].original_url, Some("https://example.com/carol".to_string()));
    assert_eq!(listed[0].url_owner_username, Some("carol".to_string()));
    assert_eq!(listed[0].url_owner_id, Some(3));
    assert_eq!(listed[0].resolved_at, None);
    assert_eq!(listed[2].status, "resolved");
    assert_eq!(listed[2].resolved_at, Some("2023-11-14 22:13:21".to_string()));
    assert_eq!(listed[2].resolved_by, Some(1));
    // The link of report 1 was deleted: nothing is known of it any more.
    assert_eq!(listed[2].original_url, None);
    assert_eq!(listed[2].url_owner_username, None);
    assert_eq!(listed[2].url_owner_id, None);
    assert_eq!(listed[3].status, "dismissed");
    assert_eq!(listed[3].reason, "spam");
    assert_eq!(listed[3].description, Some("details".to_string()));
}

#[test]
fn accounts_are_listed_newest_first_with_their_links_counted() {
    let state = service();
    let listed = admin_list_users(&state);
    let names: Vec<&str> = listed.iter().map(|u| u.username.as_str()).collect();
    assert_eq!(names, vec!["bob", "carol", "root"]);
    assert_eq!(listed[0].user_id, 2);
    assert!(!listed[0].is_admin);
    assert_eq!(listed[0].url_count, 2);
    assert_eq!(listed[0].created_at, "2023-11-14 22:15:00");
    assert_eq!(listed[1].url_count, 1);
    assert!(listed[1].is_admin);
    assert_eq!(listed[2].url_count, 0);
    assert_eq!(listed[2].created_at, "2023-11-14 22:13:20");
}

#[test]
fn deleting_an_account_takes_an_elevated_identity_and_another_account() {
    let mut state = service();
    let root = identity(1, "root", true);
    assert_eq!(admin_delete_user(&mut state, 2, &identity(2, "bob", false)), Err(ApiError::Forbidden));
    assert_eq!(admin_delete_user(&mut state, 1, &identity(2, "bob", false)), Err(ApiError::Forbidden));
    assert_eq!(admin_delete_user(&mut state, 2, &RequestContext::new()), Err(ApiError::Unauthorized));
    assert_eq!(admin_delete_user(&mut state, 1, &root), Err(ApiError::CannotDeleteSelf));
    assert_eq!(admin_delete_user(&mut state, 9, &root), Err(ApiError::UserNotFound));
    assert_eq!(state.db.users.len(), 3);
    assert_eq!(ApiError::CannotDeleteSelf.status_code(), 400);
    assert_eq!(ApiError::CannotDeleteSelf.message(), "Cannot delete your own account");
    assert_eq!(ApiError::UserNotFound.status_code(), 404);
    assert_eq!(ApiError::UserNotFound.message(), "User not found");
    assert_eq!(admin_delete_user(&mut state, 2, &root), Ok(()));
    let names: Vec<&str> = state.db.users.iter().map(|u| u.username.as_str()).collect();
    assert_eq!(names, vec!["root", "carol"]);
    assert_eq!(state.db.links.urls().len(), 1);
    assert_eq!(state.db.links.clicks().len(), 1);
    assert!(state.db.refresh_tokens.is_empty());
    assert_eq!(admin_delete_user(&mut state, 2, &root), Err(ApiError::UserNotFound));
    // One elevated account may delete another.
    assert_eq!(admin_delete_user(&mut state, 3, &root), Ok(()));
    assert!(state.db.links.urls().is_empty());
}

#[test]
fn deleted_account_no_longer_stands_as_the_one_who_closed_a_report() {
    let mut state = service();
    submit_abuse_report_at(&mut state, &report("boblnk", None, "spam"), 500).unwrap();
    submit_abuse_report_at(&mut state, &report("boblnk", None, "more"), 501).unwrap();
    admin_resolve_report_at(&mut state, 1, &action("dismiss"), &identity(3, "carol", true), 900)
        .unwrap();
    admin_resolve_report_at(&mut state, 2, &action("dismiss"), &identity(1, "root", true), 901)
        .unwrap();
    assert_eq!(admin_delete_user(&mut state, 3, &identity(1, "root", true)), Ok(()));
    let rows = state.db.reports.all_reports();
    assert_eq!(rows[0].status, ReportStatus::Dismissed);
    assert_eq!(rows[0].resolved_at, Some(900));
    assert_eq!(rows[0].resolved_by, None);
    assert_eq!(rows[1].resolved_by, Some(1));
}

#[test]
fn promoting_elevates_a_plain_account_once() {
    let mut state = service();
    let root = identity(1, "root", true);
    assert_eq!(
        admin_promote_user(&mut state, 2, &identity(2, "bob", false)),
        Err(ApiError::Forbidden)
    );
    assert_eq!(admin_promote_user(&mut state, 2, &RequestContext::new()), Err(ApiError::Unauthorized));
    assert!(!state.db.users[1].is_admin);
    assert_eq!(admin_promote_user(&mut state, 9, &root), Err(ApiError::UserNotFound));
    assert_eq!(
        admin_promote_user(&mut state, 2, &root),
        Ok("User 'bob' promoted to admin successfully".to_string())
    );
    assert!(state.db.users[1].is_admin);
    assert_eq!(state.db.users[1].username, "bob");
    assert_eq!(state.db.users[1].user_id, 2);
    assert_eq!(admin_promote_user(&mut state, 2, &root), Err(ApiError::AlreadyAdmin));
    assert_eq!(admin_promote_user(&mut state, 1, &root), Err(ApiError::AlreadyAdmin));
    assert_eq!(ApiError::AlreadyAdmin.status_code(), 400);
    assert_eq!(ApiError::AlreadyAdmin.message(), "User is already an admin");
}

#[test]
fn totals_count_accounts_links_and_clicks() {
    let mut state = service();
    let stats = admin_get_stats(&state);
    assert_eq!(stats.total_users, 3);
    assert_eq!(stats.total_urls, 3);
    assert_eq!(stats.total_clicks, 3);
    state.db.delete_user(2);
    let stats = admin_get_stats(&state);
    assert_eq!(stats.total_users, 2);
    assert_eq!(stats.total_urls, 1);
    assert_eq!(stats.total_clicks, 1);
    let empty = AppState::new(Config::from_values(&no_values_for_moderation()));
    let stats = admin_get_stats(&empty);
    assert_eq!((stats.total_users, stats.total_urls, stats.total_clicks), (0, 0, 0));
    assert_eq!(show_number(0), 0);
    assert_eq!(show_number(17), 17);
    assert_eq!(show_number(usize::MAX), i64::MAX);
}

#[test]
fn pages_learn_what_they_need() {
    let mut state = AppState::new(Config::from_values(&no_values_for_moderation()));
    assert!(check_setup_required(&state).setup_required);
    state.db.insert_user("root", "hash", true, 0).unwrap();
    assert!(!check_setup_required(&state).setup_required);
    let shown = get_config(&state);
    assert_eq!(shown.host_url, "http://localhost:8080");
    assert_eq!(shown.max_url_length, 2048);
    assert!(shown.allow_registration);
    let health = health_check("1.2.3", 77);
    assert_eq!(health.status, "healthy");
    assert_eq!(health.version, "1.2.3");
    assert_eq!(health.uptime_seconds, 77);
}

#[test]
fn table_of_reports_that_has_run_out_of_ids_takes_no_report() {
    let mut state = service();
    state.db.reports = ReportStore::from_rows(vec![], i64::MAX).unwrap();
    let res = submit_abuse_report_at(&mut state, &report("boblnk", None, "spam"), 0);
    assert_eq!(res, Err(ApiError::ReportFailed));
    assert!(state.db.reports.all_reports().is_empty());
}
