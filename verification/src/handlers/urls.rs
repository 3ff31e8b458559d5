//! What a caller does with short links: make them, follow them, look at
//! them, name them, delete them.

use crate::auth::get_claims;
use crate::auth::jwt::current_timestamp;
use crate::auth::jwt::is_clock_second;
use crate::auth::middleware::RequestContext;
use crate::config::ConfigView;
use crate::db::AppState;
use crate::db::DatabaseView;
use crate::handlers::ApiError;
use crate::links::ClickRow;
use crate::links::LinkStore;
use crate::links::UrlRow;
use crate::links::UrlRowView;
use crate::links::duplicate_text;
use crate::links::url_views;
use crate::models::optional_text;
use crate::models::ClaimsView;
use crate::models::ClickHistoryEntry;
use crate::models::ClickStats;
use crate::models::ShortenRequest;
use crate::models::ShortenResponse;
use crate::models::ShortenResponseView;
use crate::models::UpdateUrlNameRequest;
use crate::models::UrlEntry;
use crate::models::UrlEntryView;
use crate::ordering::highest_first;
use crate::ordering::order_highest_first;
use crate::security::cleanup_old_clicks_at;
use crate::security::retention_cutoff;
use crate::text::concat;
use crate::text::str_eq;
use crate::text::time_string;
use crate::text::time_text;
use crate::url::qr::generate_qr_code_png;
use crate::url::qr::generate_qr_code_svg;
use crate::url::qr::qr_png;
use crate::url::qr::qr_svg;
use crate::url::shortener::check_url;
use crate::url::shortener::generate_short_code;
use crate::url::shortener::is_short_code;
use crate::url::shortener::random_below;
use crate::url::shortener::url_violation;
use vstd::prelude::*;

verus! {

/// Codes that are drawn for one link before the attempt is given up.
pub const MAX_CODE_DRAWS: u32 = u32::MAX;

/// Clicks that a history shows.
pub const HISTORY_LIMIT: usize = 1000;

/// One request in so many clears out old clicks.
pub const CLEANUP_ODDS: usize = 100;

/// The address under which a short link is published.
pub open spec fn short_url_text(host_url: Seq<char>, code: Seq<char>) -> Seq<char> {
    host_url + "/"@ + code
}

/// The answer that tells of a link.
pub open spec fn shorten_response(
    host_url: Seq<char>,
    code: Seq<char>,
    original_url: Seq<char>,
) -> ShortenResponseView {
    ShortenResponseView {
        short_code: code,
        short_url: short_url_text(host_url, code),
        original_url,
    }
}

/// The answer to a request to shorten a link at `now`, with `code` drawn
/// for it, and the store after it. A link that the caller has shortened
/// before keeps its code, and the code drawn goes unused.
pub open spec fn shorten_outcome(
    db: DatabaseView,
    config: ConfigView,
    identity: Option<ClaimsView>,
    url: Seq<char>,
    code: Seq<char>,
    now: i64,
) -> (Result<ShortenResponseView, ApiError>, DatabaseView) {
    match identity {
        None => (Err(ApiError::Unauthorized), db),
        Some(claims) => if url.len() == 0 {
            (Err(ApiError::EmptyUrl), db)
        } else {
            match url_violation(url, config.max_url_length) {
                Some(e) => (Err(ApiError::InvalidUrl(e)), db),
                None => match db.links.link_to(claims.user_id, url) {
                    Some(known) => (
                        Ok(shorten_response(config.host_url, known.short_code, url)),
                        db,
                    ),
                    None => if db.url_insertable(claims.user_id, code) is Ok {
                        (
                            Ok(shorten_response(config.host_url, code, url)),
                            db.with_url(claims.user_id, url, code, now),
                        )
                    } else {
                        (Err(ApiError::ShortenFailed), db)
                    },
                },
            }
        },
    }
}

/// The view of the answer to a request to shorten a link.
pub open spec fn shorten_result_view(res: Result<ShortenResponse, ApiError>) -> Result<
    ShortenResponseView,
    ApiError,
> {
    match res {
        Ok(r) => Ok(r@),
        Err(e) => Err(e),
    }
}

/// Builds the answer that tells of a link.
fn make_shorten_response(host_url: &str, code: &str, original_url: &str) -> (res: ShortenResponse)
    ensures
        res@ == shorten_response(host_url@, code@, original_url@),
{
    let with_slash = concat(host_url, "/");
    let short_url = concat(with_slash.as_str(), code);
    ShortenResponse {
        short_code: code.to_owned(),
        short_url,
        original_url: original_url.to_owned(),
    }
}

/// Shortens a link at the second `now`, with a code drawn for it.
pub fn shorten_url_with(
    data: &mut AppState,
    req_payload: &ShortenRequest,
    http_req: &RequestContext,
    code: &str,
    now: i64,
) -> (res: Result<ShortenResponse, ApiError>)
    requires
        old(data)@.db.wf(),
    ensures
        final(data)@.db.wf(),
        final(data)@.config == old(data)@.config,
        (shorten_result_view(res), final(data)@.db) == shorten_outcome(
            old(data)@.db,
            old(data)@.config,
            http_req@,
            req_payload.url@,
            code@,
            now,
        ),
{
    let claims = match get_claims(http_req) {
        Some(c) => c,
        None => { return Err(ApiError::Unauthorized); },
    };
    let url = req_payload.url.as_str();
    if url.is_empty() {
        return Err(ApiError::EmptyUrl);
    }
    if let Err(e) = check_url(url, data.config.max_url_length) {
        return Err(ApiError::InvalidUrl(e));
    }
    if let Some(known) = data.db.links.find_link_to(claims.user_id, url) {
        return Ok(
            make_shorten_response(data.config.host_url.as_str(), known.short_code.as_str(), url),
        );
    }
    match data.db.insert_url(claims.user_id, url, code, now) {
        Ok(_) => Ok(make_shorten_response(data.config.host_url.as_str(), code, url)),
        Err(_) => Err(ApiError::ShortenFailed),
    }
}

/// Draws codes until one is free. After `MAX_CODE_DRAWS` draws the last
/// code drawn is returned, free or not.
pub fn draw_code(links: &LinkStore) -> (code: String)
    requires
        links@.wf(),
    ensures
        is_short_code(code@),
{
    let mut code = generate_short_code();
    let mut draws: u32 = 1;
    while draws < MAX_CODE_DRAWS && links.find_url(code.as_str()).is_some()
        invariant
            links@.wf(),
            is_short_code(code@),
        decreases MAX_CODE_DRAWS - draws,
    {
        code = generate_short_code();
        draws = draws + 1;
    }
    code
}

/// Shortens a link for the caller: the link must be one that may be
/// shortened; a link that the caller shortened before is answered with the
/// code it has; any other gets a code drawn at random.
pub fn shorten_url(
    data: &mut AppState,
    req_payload: &ShortenRequest,
    http_req: &RequestContext,
) -> (res: Result<ShortenResponse, ApiError>)
    requires
        old(data)@.db.wf(),
    ensures
        final(data)@.db.wf(),
        final(data)@.config == old(data)@.config,
        exists|code: Seq<char>, now: i64|
            is_short_code(code) && is_clock_second(now) && (shorten_result_view(res), final(data)@.db)
                == #[trigger] shorten_outcome(
                old(data)@.db,
                old(data)@.config,
                http_req@,
                req_payload.url@,
                code,
                now,
            ),
{
    let code = draw_code(&data.db.links);
    let now = current_timestamp();
    shorten_url_with(data, req_payload, http_req, code.as_str(), now)
}

/// Where following a code leads at `now`, and the store after it: the
/// click is counted and put on record, and where the lot `lottery` is zero,
/// clicks older than the days for which they are kept are forgotten.
pub open spec fn redirect_outcome(
    db: DatabaseView,
    config: ConfigView,
    code: Seq<char>,
    now: i64,
    lottery: usize,
) -> (Option<Seq<char>>, DatabaseView) {
    match db.links.url_with_code(code) {
        None => (None, db),
        Some(url) => {
            let clicked = db.links.with_click(url.id, now);
            (
                Some(url.original_url),
                DatabaseView {
                    links: if lottery == 0 {
                        clicked.without_clicks_before(
                            retention_cutoff(now, config.click_retention_days),
                        )
                    } else {
                        clicked
                    },
                    ..db
                },
            )
        },
    }
}

/// Follows a code at the second `now`, with a lot drawn for the cleanup.
pub fn redirect_url_with(data: &mut AppState, code: &str, now: i64, lottery: usize) -> (location:
    Option<String>)
    requires
        old(data)@.db.wf(),
    ensures
        final(data)@.db.wf(),
        final(data)@.config == old(data)@.config,
        (optional_text(location), final(data)@.db) == redirect_outcome(
            old(data)@.db,
            old(data)@.config,
            code@,
            now,
            lottery,
        ),
{
    let url = match data.db.links.find_url(code) {
        Some(u) => u,
        None => { return None; },
    };
    data.db.links.record_click(url.id, now);
    assert(data@.db.users == old(data)@.db.users);
    assert(data@.db.refresh_tokens == old(data)@.db.refresh_tokens);
    assert(data@.db.wf());
    if lottery == 0 {
        cleanup_old_clicks_at(&mut data.db, data.config.click_retention_days, now);
    }
    Some(url.original_url)
}

/// Follows a code: answers with the address it stands for, or with nothing
/// where no link has the code.
pub fn redirect_url(data: &mut AppState, code: &str) -> (location: Option<String>)
    requires
        old(data)@.db.wf(),
    ensures
        final(data)@.db.wf(),
        final(data)@.config == old(data)@.config,
        exists|now: i64, lottery: usize|
            is_clock_second(now) && lottery < CLEANUP_ODDS && (optional_text(location), final(data)@.db)
                == #[trigger] redirect_outcome(
                old(data)@.db,
                old(data)@.config,
                code@,
                now,
                lottery,
            ),
{
    let now = current_timestamp();
    let lottery = random_below(CLEANUP_ODDS);
    redirect_url_with(data, code, now, lottery)
}

/// A link as its owner sees it.
pub open spec fn entry_of(url: UrlRowView) -> UrlEntryView {
    UrlEntryView {
        original_url: url.original_url,
        short_code: url.short_code,
        name: url.name,
        clicks: url.clicks,
    }
}

/// Shows a link as its owner sees it.
fn make_entry(url: &UrlRow) -> (entry: UrlEntry)
    ensures
        entry@ == entry_of(url@),
{
    UrlEntry {
        original_url: url.original_url.clone(),
        short_code: url.short_code.clone(),
        name: duplicate_text(&url.name),
        clicks: url.clicks,
    }
}

/// The link of this code as the caller sees it, if the caller owns it.
pub open spec fn stats_outcome(db: DatabaseView, identity: Option<ClaimsView>, code: Seq<char>) -> Result<
    UrlEntryView,
    ApiError,
> {
    match identity {
        None => Err(ApiError::Unauthorized),
        Some(claims) => match db.links.owned_url(code, claims.user_id) {
            Some(url) => Ok(entry_of(url)),
            None => Err(ApiError::UrlNotFound),
        },
    }
}

/// The view of an answer that shows a link.
pub open spec fn entry_result_view(res: Result<UrlEntry, ApiError>) -> Result<
    UrlEntryView,
    ApiError,
> {
    match res {
        Ok(e) => Ok(e@),
        Err(e) => Err(e),
    }
}

/// Shows the caller a link of theirs.
pub fn get_stats(data: &AppState, code: &str, http_req: &RequestContext) -> (res: Result<
    UrlEntry,
    ApiError,
>)
    requires
        data@.db.wf(),
    ensures
        entry_result_view(res) == stats_outcome(data@.db, http_req@, code@),
{
    let claims = match get_claims(http_req) {
        Some(c) => c,
        None => { return Err(ApiError::Unauthorized); },
    };
    match data.db.links.find_owned_url(code, claims.user_id) {
        Some(url) => Ok(make_entry(&url)),
        None => Err(ApiError::UrlNotFound),
    }
}

/// The seconds of creation of some links.
pub open spec fn creation_keys(urls: Seq<UrlRowView>) -> Seq<i128> {
    urls.map_values(|u: UrlRowView| u.created_at as i128)
}

/// The links of an account as their owner sees them, the newest first.
pub open spec fn listed_urls(db: DatabaseView, user_id: i64) -> Seq<UrlEntryView> {
    let own = db.links.urls_of(user_id);
    highest_first(creation_keys(own)).map_values(|p: usize| entry_of(own[p as int]))
}

/// The views of some entries.
pub open spec fn entry_views(entries: Seq<UrlEntry>) -> Seq<UrlEntryView> {
    entries.map_values(|e: UrlEntry| e@)
}

/// The links of the caller, if the caller is known.
pub open spec fn user_urls_outcome(db: DatabaseView, identity: Option<ClaimsView>) -> Result<
    Seq<UrlEntryView>,
    ApiError,
> {
    match identity {
        None => Err(ApiError::Unauthorized),
        Some(claims) => Ok(listed_urls(db, claims.user_id)),
    }
}

/// The view of an answer that lists links.
pub open spec fn entries_result_view(res: Result<Vec<UrlEntry>, ApiError>) -> Result<
    Seq<UrlEntryView>,
    ApiError,
> {
    match res {
        Ok(v) => Ok(entry_views(v@)),
        Err(e) => Err(e),
    }
}

/// Lists the caller's links, the newest first.
pub fn get_user_urls(data: &AppState, http_req: &RequestContext) -> (res: Result<
    Vec<UrlEntry>,
    ApiError,
>)
    ensures
        entries_result_view(res) == user_urls_outcome(data@.db, http_req@),
{
    let claims = match get_claims(http_req) {
        Some(c) => c,
        None => { return Err(ApiError::Unauthorized); },
    };
    let own = data.db.links.urls_of(claims.user_id);
    let mut keys: Vec<i128> = Vec::new();
    let mut i: usize = 0;
    while i < own.len()
        invariant
            i <= own@.len(),
            keys@ == creation_keys(url_views(own@)).take(i as int),
        decreases own@.len() - i,
    {
        keys.push(own[i].created_at as i128);
        assert(keys@ =~= creation_keys(url_views(own@)).take(i + 1));
        i = i + 1;
    }
    assert(keys@ =~= creation_keys(url_views(own@)));
    let order = order_highest_first(&keys);
    let mut entries: Vec<UrlEntry> = Vec::new();
    let mut k: usize = 0;
    while k < order.len()
        invariant
            k <= order@.len(),
            order@.len() == own@.len(),
            forall|j: int| 0 <= j < order@.len() ==> (#[trigger] order@[j]) < own@.len(),
            entry_views(entries@) == order@.take(k as int).map_values(
                |p: usize| entry_of(url_views(own@)[p as int]),
            ),
        decreases order@.len() - k,
    {
        let ghost so_far = entry_views(entries@);
        entries.push(make_entry(&own[order[k]]));
        assert(entry_views(entries@) =~= so_far.push(entry_of(url_views(own@)[order@[k as int] as int])));
        assert(entry_views(entries@) =~= order@.take(k + 1).map_values(
            |p: usize| entry_of(url_views(own@)[p as int]),
        ));
        k = k + 1;
    }
    assert(order@.take(k as int) =~= order@);
    Ok(entries)
}

/// The answer to a request to delete a link, and the store after it.
pub open spec fn delete_url_outcome(db: DatabaseView, identity: Option<ClaimsView>, code: Seq<char>) -> (
    Result<(), ApiError>,
    DatabaseView,
) {
    match identity {
        None => (Err(ApiError::Unauthorized), db),
        Some(claims) => if db.links.owned_url(code, claims.user_id) is Some {
            (
                Ok(()),
                DatabaseView { links: db.links.without_owned_url(code, claims.user_id), ..db },
            )
        } else {
            (Err(ApiError::UrlNotFound), db)
        },
    }
}

/// Deletes a link of the caller, with its clicks.
pub fn delete_url(data: &mut AppState, code: &str, http_req: &RequestContext) -> (res: Result<
    (),
    ApiError,
>)
    requires
        old(data)@.db.wf(),
    ensures
        final(data)@.db.wf(),
        final(data)@.config == old(data)@.config,
        (res, final(data)@.db) == delete_url_outcome(old(data)@.db, http_req@, code@),
{
    let claims = match get_claims(http_req) {
        Some(c) => c,
        None => { return Err(ApiError::Unauthorized); },
    };
    let deleted = data.db.links.delete_owned_url(code, claims.user_id);
    assert(data@.db.users == old(data)@.db.users);
    assert(data@.db.refresh_tokens == old(data)@.db.refresh_tokens);
    if deleted {
        Ok(())
    } else {
        Err(ApiError::UrlNotFound)
    }
}

/// The answer to a request to name a link, and the store after it.
pub open spec fn update_name_outcome(
    db: DatabaseView,
    identity: Option<ClaimsView>,
    code: Seq<char>,
    name: Option<Seq<char>>,
) -> (Result<(), ApiError>, DatabaseView) {
    match identity {
        None => (Err(ApiError::Unauthorized), db),
        Some(claims) => if db.links.owned_url(code, claims.user_id) is Some {
            (Ok(()), DatabaseView { links: db.links.with_name(code, claims.user_id, name), ..db })
        } else {
            (Err(ApiError::UrlNotFound), db)
        },
    }
}

/// Names a link of the caller, or takes its name away.
pub fn update_url_name(
    data: &mut AppState,
    code: &str,
    req_payload: &UpdateUrlNameRequest,
    http_req: &RequestContext,
) -> (res: Result<(), ApiError>)
    requires
        old(data)@.db.wf(),
    ensures
        final(data)@.db.wf(),
        final(data)@.config == old(data)@.config,
        (res, final(data)@.db) == update_name_outcome(
            old(data)@.db,
            http_req@,
            code@,
            optional_text(req_payload.name),
        ),
{
    let claims = match get_claims(http_req) {
        Some(c) => c,
        None => { return Err(ApiError::Unauthorized); },
    };
    if data.db.links.find_owned_url(code, claims.user_id).is_none() {
        return Err(ApiError::UrlNotFound);
    }
    let _ = data.db.links.rename_url(code, claims.user_id, &req_payload.name);
    assert(data@.db.users == old(data)@.db.users);
    assert(data@.db.refresh_tokens == old(data)@.db.refresh_tokens);
    Ok(())
}

/// The clicks on a link: the count, and the seconds of the most recent
/// ones as texts.
pub struct ClickStatsView {
    pub total_clicks: u64,
    pub history: Seq<Seq<char>>,
}

/// The view of a history of clicks.
pub open spec fn click_stats_view(stats: ClickStats) -> ClickStatsView {
    ClickStatsView {
        total_clicks: stats.total_clicks,
        history: stats.history@.map_values(|e: ClickHistoryEntry| e.clicked_at@),
    }
}

/// The seconds of some clicks.
pub open spec fn click_keys(clicks: Seq<ClickRow>) -> Seq<i128> {
    clicks.map_values(|c: ClickRow| c.clicked_at as i128)
}

/// How many clicks a history shows of so many.
pub open spec fn shown_count(clicks: nat) -> int {
    if clicks < HISTORY_LIMIT {
        clicks as int
    } else {
        HISTORY_LIMIT as int
    }
}

/// The history that is shown of a link: its most recent clicks, the latest
/// first, at most a thousand of them.
pub open spec fn shown_history(db: DatabaseView, url_id: i64) -> Seq<Seq<char>> {
    let clicks = db.links.clicks_on(url_id);
    highest_first(click_keys(clicks)).take(shown_count(clicks.len())).map_values(
        |p: usize| time_text(clicks[p as int].clicked_at),
    )
}

/// The history of the link of this code, if the caller owns it.
pub open spec fn click_history_outcome(
    db: DatabaseView,
    identity: Option<ClaimsView>,
    code: Seq<char>,
) -> Result<ClickStatsView, ApiError> {
    match identity {
        None => Err(ApiError::Unauthorized),
        Some(claims) => match db.links.owned_url(code, claims.user_id) {
            None => Err(ApiError::UrlNotFound),
            Some(url) => Ok(
                ClickStatsView { total_clicks: url.clicks, history: shown_history(db, url.id) },
            ),
        },
    }
}

/// The view of an answer that shows a history.
pub open spec fn stats_result_view(res: Result<ClickStats, ApiError>) -> Result<
    ClickStatsView,
    ApiError,
> {
    match res {
        Ok(s) => Ok(click_stats_view(s)),
        Err(e) => Err(e),
    }
}

/// Shows the caller how often a link of theirs was followed, and when.
pub fn get_click_history(data: &AppState, code: &str, http_req: &RequestContext) -> (res: Result<
    ClickStats,
    ApiError,
>)
    requires
        data@.db.wf(),
    ensures
        stats_result_view(res) == click_history_outcome(data@.db, http_req@, code@),
{
    let claims = match get_claims(http_req) {
        Some(c) => c,
        None => { return Err(ApiError::Unauthorized); },
    };
    let url = match data.db.links.find_owned_url(code, claims.user_id) {
        Some(u) => u,
        None => { return Err(ApiError::UrlNotFound); },
    };
    let clicks = data.db.links.clicks_on(url.id);
    let mut keys: Vec<i128> = Vec::new();
    let mut i: usize = 0;
    while i < clicks.len()
        invariant
            i <= clicks@.len(),
            keys@ == click_keys(clicks@).take(i as int),
        decreases clicks@.len() - i,
    {
        keys.push(clicks[i].clicked_at as i128);
        assert(keys@ =~= click_keys(clicks@).take(i + 1));
        i = i + 1;
    }
    assert(keys@ =~= click_keys(clicks@));
    let order = order_highest_first(&keys);
    let shown = if clicks.len() < HISTORY_LIMIT {
        clicks.len()
    } else {
        HISTORY_LIMIT
    };
    let mut history: Vec<ClickHistoryEntry> = Vec::new();
    let mut k: usize = 0;
    while k < shown
        invariant
            k <= shown <= order@.len(),
            order@.len() == clicks@.len(),
            forall|j: int| 0 <= j < order@.len() ==> (#[trigger] order@[j]) < clicks@.len(),
            history@.map_values(|e: ClickHistoryEntry| e.clicked_at@) == order@.take(
                k as int,
            ).map_values(|p: usize| time_text(clicks@[p as int].clicked_at)),
        decreases shown - k,
    {
        let ghost so_far = history@.map_values(|e: ClickHistoryEntry| e.clicked_at@);
        let entry = ClickHistoryEntry { clicked_at: time_string(clicks[order[k]].clicked_at) };
        history.push(entry);
        assert(history@.map_values(|e: ClickHistoryEntry| e.clicked_at@) =~= so_far.push(
            time_text(clicks@[order@[k as int] as int].clicked_at),
        ));
        assert(history@.map_values(|e: ClickHistoryEntry| e.clicked_at@) =~= order@.take(
            k + 1,
        ).map_values(|p: usize| time_text(clicks@[p as int].clicked_at)));
        k = k + 1;
    }
    Ok(ClickStats { total_clicks: url.clicks, history })
}

/// A QR code as a file.
#[derive(Debug, Clone)]
pub enum QrFile {
    /// A PNG image.
    Png(Vec<u8>),
    /// An SVG document.
    Svg(String),
}

/// A `QrFile` with its content as a sequence.
pub enum QrFileView {
    Png(Seq<u8>),
    Svg(Seq<char>),
}

impl View for QrFile {
    type V = QrFileView;

    open spec fn view(&self) -> QrFileView {
        match self {
            QrFile::Png(bytes) => QrFileView::Png(bytes@),
            QrFile::Svg(text) => QrFileView::Svg(text@),
        }
    }
}

/// Why no QR code was made.
#[derive(Debug, Clone)]
pub enum QrFailure {
    /// The request was refused.
    Refused(ApiError),
    /// Drawing failed; the words are those of the drawing.
    Render(String),
}

/// A `QrFailure` with its text as a sequence of characters.
pub enum QrFailureView {
    Refused(ApiError),
    Render(Seq<char>),
}

impl View for QrFailure {
    type V = QrFailureView;

    open spec fn view(&self) -> QrFailureView {
        match self {
            QrFailure::Refused(e) => QrFailureView::Refused(*e),
            QrFailure::Render(text) => QrFailureView::Render(text@),
        }
    }
}

impl QrFailure {
    /// The HTTP status that answers the request.
    pub fn status_code(&self) -> (code: u16)
        ensures
            code == match self@ {
                QrFailureView::Refused(e) => e.status_spec(),
                QrFailureView::Render(_) => 500,
            },
    {
        match self {
            QrFailure::Refused(e) => e.status_code(),
            QrFailure::Render(_) => 500,
        }
    }

    /// The text of the answer.
    pub fn message(&self) -> (text: String)
        ensures
            text@ == match self@ {
                QrFailureView::Refused(e) => e.message_text(),
                QrFailureView::Render(words) => "Failed to generate QR code: "@ + words,
            },
    {
        match self {
            QrFailure::Refused(e) => e.message(),
            QrFailure::Render(words) => concat("Failed to generate QR code: ", words.as_str()),
        }
    }
}

/// The address that a QR code of a link encodes: the scheme and host by
/// which the request came, and the code.
pub open spec fn qr_target(scheme: Seq<char>, host: Seq<char>, code: Seq<char>) -> Seq<char> {
    (if scheme == "https"@ {
        "https"@
    } else {
        "http"@
    }) + "://"@ + host + "/"@ + code
}

/// The QR code of the link of this code in the format asked for, if the
/// caller owns the link and the format is `png` or `svg`.
pub open spec fn qr_outcome(
    db: DatabaseView,
    identity: Option<ClaimsView>,
    code: Seq<char>,
    format: Seq<char>,
    scheme: Seq<char>,
    host: Seq<char>,
) -> Result<QrFileView, QrFailureView> {
    match identity {
        None => Err(QrFailureView::Refused(ApiError::Unauthorized)),
        Some(claims) => if db.links.owned_url(code, claims.user_id) is None {
            Err(QrFailureView::Refused(ApiError::UrlNotFound))
        } else if format == "png"@ {
            match qr_png(qr_target(scheme, host, code)) {
                Ok(bytes) => Ok(QrFileView::Png(bytes)),
                Err(words) => Err(QrFailureView::Render(words)),
            }
        } else if format == "svg"@ {
            match qr_svg(qr_target(scheme, host, code)) {
                Ok(text) => Ok(QrFileView::Svg(text)),
                Err(words) => Err(QrFailureView::Render(words)),
            }
        } else {
            Err(QrFailureView::Refused(ApiError::InvalidQrFormat))
        },
    }
}

/// The view of an answer that carries a QR code.
pub open spec fn qr_result_view(res: Result<QrFile, QrFailure>) -> Result<
    QrFileView,
    QrFailureView,
> {
    match res {
        Ok(f) => Ok(f@),
        Err(e) => Err(e@),
    }
}

/// Makes the QR code of a link of the caller, as PNG or as SVG. The code
/// leads to the host by which the request came.
pub fn get_qr_code(
    data: &AppState,
    code: &str,
    format: &str,
    http_req: &RequestContext,
    scheme: &str,
    host: &str,
) -> (res: Result<QrFile, QrFailure>)
    requires
        data@.db.wf(),
    ensures
        qr_result_view(res) == qr_outcome(data@.db, http_req@, code@, format@, scheme@, host@),
{
    let claims = match get_claims(http_req) {
        Some(c) => c,
        None => { return Err(QrFailure::Refused(ApiError::Unauthorized)); },
    };
    if data.db.links.find_owned_url(code, claims.user_id).is_none() {
        return Err(QrFailure::Refused(ApiError::UrlNotFound));
    }
    let shown_scheme = if str_eq(scheme, "https") {
        "https"
    } else {
        "http"
    };
    let a = concat(shown_scheme, "://");
    let b = concat(a.as_str(), host);
    let c = concat(b.as_str(), "/");
    let full_url = concat(c.as_str(), code);
    if str_eq(format, "png") {
        match generate_qr_code_png(full_url.as_str()) {
            Ok(bytes) => Ok(QrFile::Png(bytes)),
            Err(words) => Err(QrFailure::Render(words)),
        }
    } else if str_eq(format, "svg") {
        match generate_qr_code_svg(full_url.as_str()) {
            Ok(text) => Ok(QrFile::Svg(text)),
            Err(words) => Err(QrFailure::Render(words)),
        }
    } else {
        Err(QrFailure::Refused(ApiError::InvalidQrFormat))
    }
}

} // verus!
