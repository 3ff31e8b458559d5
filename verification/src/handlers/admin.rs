//! What an elevated account does with the accounts of the service.

use crate::auth::get_claims;
use crate::auth::middleware::RequestContext;
use crate::db::AppState;
use crate::db::DatabaseView;
use crate::db::UserRowView;
use crate::handlers::ApiError;
use crate::links::click_sum;
use crate::models::AdminStatsResponse;
use crate::models::ClaimsView;
use crate::models::UserInfo;
use crate::models::UserInfoView;
use crate::ordering::highest_first;
use crate::ordering::order_highest_first;
use crate::text::concat;
use crate::text::time_string;
use crate::text::time_text;
use vstd::prelude::*;

verus! {

/// A count as the 64-bit number that answers carry; a count beyond the
/// range is shown as the highest number there is.
pub open spec fn shown_number(n: nat) -> i64 {
    if n > i64::MAX {
        i64::MAX
    } else {
        n as i64
    }
}

/// Turns a count into the 64-bit number that answers carry.
pub fn show_number(n: usize) -> (shown: i64)
    ensures
        shown == shown_number(n as nat),
{
    if n as u64 > i64::MAX as u64 {
        i64::MAX
    } else {
        n as i64
    }
}

/// An account as an elevated account sees it.
pub open spec fn info_of(db: DatabaseView, user: UserRowView) -> UserInfoView {
    UserInfoView {
        user_id: user.user_id,
        username: user.username,
        is_admin: user.is_admin,
        created_at: time_text(user.created_at),
        url_count: shown_number(db.links.urls_of(user.user_id).len()),
    }
}

/// The seconds of creation of some accounts.
pub open spec fn user_keys(users: Seq<UserRowView>) -> Seq<i128> {
    users.map_values(|u: UserRowView| u.created_at as i128)
}

/// All accounts as an elevated account sees them, the newest first.
pub open spec fn listed_users(db: DatabaseView) -> Seq<UserInfoView> {
    highest_first(user_keys(db.users)).map_values(|p: usize| info_of(db, db.users[p as int]))
}

/// The views of some accounts as shown.
pub open spec fn info_views(infos: Seq<UserInfo>) -> Seq<UserInfoView> {
    infos.map_values(|i: UserInfo| i@)
}

/// Lists all accounts, the newest first, each with the number of its
/// links.
pub fn admin_list_users(data: &AppState) -> (res: Vec<UserInfo>)
    ensures
        info_views(res@) == listed_users(data@.db),
{
    let users = &data.db.users;
    let mut keys: Vec<i128> = Vec::new();
    let mut i: usize = 0;
    while i < users.len()
        invariant
            i <= users@.len(),
            users@ == data.db.users@,
            keys@ == user_keys(data@.db.users).take(i as int),
        decreases users@.len() - i,
    {
        keys.push(users[i].created_at as i128);
        assert(keys@ =~= user_keys(data@.db.users).take(i + 1));
        i = i + 1;
    }
    assert(keys@ =~= user_keys(data@.db.users));
    let order = order_highest_first(&keys);
    let mut infos: Vec<UserInfo> = Vec::new();
    let mut k: usize = 0;
    while k < order.len()
        invariant
            k <= order@.len(),
            users@ == data.db.users@,
            order@.len() == users@.len(),
            forall|j: int| 0 <= j < order@.len() ==> (#[trigger] order@[j]) < users@.len(),
            info_views(infos@) == order@.take(k as int).map_values(
                |p: usize| info_of(data@.db, data@.db.users[p as int]),
            ),
        decreases order@.len() - k,
    {
        let user = &users[order[k]];
        let ghost so_far = info_views(infos@);
        let own = data.db.links.urls_of(user.user_id);
        let info = UserInfo {
            user_id: user.user_id,
            username: user.username.clone(),
            is_admin: user.is_admin,
            created_at: time_string(user.created_at),
            url_count: show_number(own.len()),
        };
        assert(info@ == info_of(data@.db, data@.db.users[order@[k as int] as int]));
        infos.push(info);
        assert(info_views(infos@) =~= so_far.push(
            info_of(data@.db, data@.db.users[order@[k as int] as int]),
        ));
        assert(info_views(infos@) =~= order@.take(k + 1).map_values(
            |p: usize| info_of(data@.db, data@.db.users[p as int]),
        ));
        k = k + 1;
    }
    assert(order@.take(k as int) =~= order@);
    infos
}

/// Whether an identity may act on accounts, and if not, how the request is
/// refused: without an identity `Unauthorized`, with one that is not
/// elevated `Forbidden`.
pub open spec fn elevation_obstacle(identity: Option<ClaimsView>) -> Option<ApiError> {
    match identity {
        None => Some(ApiError::Unauthorized),
        Some(claims) => if claims.is_admin {
            None
        } else {
            Some(ApiError::Forbidden)
        },
    }
}

/// The answer to a request to delete an account, and the store after it.
/// Nobody deletes their own account.
pub open spec fn delete_user_outcome(
    db: DatabaseView,
    identity: Option<ClaimsView>,
    user_id: i64,
) -> (Result<(), ApiError>, DatabaseView) {
    match elevation_obstacle(identity) {
        Some(e) => (Err(e), db),
        None => if identity->0.user_id == user_id {
            (Err(ApiError::CannotDeleteSelf), db)
        } else if db.has_user(user_id) {
            (Ok(()), db.without_user(user_id))
        } else {
            (Err(ApiError::UserNotFound), db)
        },
    }
}

/// Deletes an account with all that belongs to it: its refresh tokens, its
/// links and their clicks.
pub fn admin_delete_user(data: &mut AppState, user_id: i64, http_req: &RequestContext) -> (res:
    Result<(), ApiError>)
    requires
        old(data)@.db.wf(),
    ensures
        final(data)@.db.wf(),
        final(data)@.config == old(data)@.config,
        (res, final(data)@.db) == delete_user_outcome(old(data)@.db, http_req@, user_id),
{
    let claims = match get_claims(http_req) {
        Some(c) => c,
        None => { return Err(ApiError::Unauthorized); },
    };
    if !claims.is_admin {
        return Err(ApiError::Forbidden);
    }
    if claims.user_id == user_id {
        return Err(ApiError::CannotDeleteSelf);
    }
    if data.db.find_user_by_id(user_id).is_none() {
        return Err(ApiError::UserNotFound);
    }
    let _ = data.db.delete_user(user_id);
    Ok(())
}

/// The words that tell of a promotion.
pub open spec fn promoted_text(username: Seq<char>) -> Seq<char> {
    "User '"@ + username + "' promoted to admin successfully"@
}

/// The answer to a request to elevate an account, and the store after it.
pub open spec fn promote_user_outcome(
    db: DatabaseView,
    identity: Option<ClaimsView>,
    user_id: i64,
) -> (Result<Seq<char>, ApiError>, DatabaseView) {
    match elevation_obstacle(identity) {
        Some(e) => (Err(e), db),
        None => match db.user_with_id(user_id) {
            None => (Err(ApiError::UserNotFound), db),
            Some(user) => if user.is_admin {
                (Err(ApiError::AlreadyAdmin), db)
            } else {
                (Ok(promoted_text(user.username)), db.with_admin(user_id))
            },
        },
    }
}

/// The view of an answer in words.
pub open spec fn words_result_view(res: Result<String, ApiError>) -> Result<Seq<char>, ApiError> {
    match res {
        Ok(words) => Ok(words@),
        Err(e) => Err(e),
    }
}

/// Elevates an account that is not elevated yet.
pub fn admin_promote_user(data: &mut AppState, user_id: i64, http_req: &RequestContext) -> (res:
    Result<String, ApiError>)
    requires
        old(data)@.db.wf(),
    ensures
        final(data)@.db.wf(),
        final(data)@.config == old(data)@.config,
        (words_result_view(res), final(data)@.db) == promote_user_outcome(
            old(data)@.db,
            http_req@,
            user_id,
        ),
{
    let claims = match get_claims(http_req) {
        Some(c) => c,
        None => { return Err(ApiError::Unauthorized); },
    };
    if !claims.is_admin {
        return Err(ApiError::Forbidden);
    }
    let user = match data.db.find_user_by_id(user_id) {
        Some(u) => u,
        None => { return Err(ApiError::UserNotFound); },
    };
    if user.is_admin {
        return Err(ApiError::AlreadyAdmin);
    }
    let _ = data.db.promote_user(user_id);
    let head = concat("User '", user.username.as_str());
    Ok(concat(head.as_str(), "' promoted to admin successfully"))
}

/// The totals of the service. A sum of clicks beyond the 64-bit range is
/// shown as zero.
pub open spec fn stats_of(db: DatabaseView) -> AdminStatsResponse {
    AdminStatsResponse {
        total_users: shown_number(db.users.len()),
        total_urls: shown_number(db.links.urls.len()),
        total_clicks: if click_sum(db.links.urls) > i64::MAX {
            0
        } else {
            click_sum(db.links.urls) as i64
        },
    }
}

/// Counts the accounts, the links, and the clicks on all links.
pub fn admin_get_stats(data: &AppState) -> (res: AdminStatsResponse)
    ensures
        res == stats_of(data@.db),
{
    let clicks = data.db.links.total_clicks();
    AdminStatsResponse {
        total_users: show_number(data.db.count_users()),
        total_urls: show_number(data.db.links.count_urls()),
        total_clicks: if clicks > i64::MAX as u128 {
            0
        } else {
            clicks as i64
        },
    }
}

/// An identity that is not elevated changes no account: its requests to
/// delete or to elevate one are refused, and the store stays as it was.
pub proof fn law_accounts_need_elevation(db: DatabaseView, identity: Option<ClaimsView>, user_id: i64)
    requires
        !(identity matches Some(claims) && claims.is_admin),
    ensures
        delete_user_outcome(db, identity, user_id).0 is Err,
        delete_user_outcome(db, identity, user_id).1 == db,
        promote_user_outcome(db, identity, user_id).0 is Err,
        promote_user_outcome(db, identity, user_id).1 == db,
{
}

} // verus!
