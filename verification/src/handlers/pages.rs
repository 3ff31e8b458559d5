//! What the pages of the service ask about it.

use crate::db::AppState;
use crate::db::AppStateView;
use crate::models::ConfigResponse;
use crate::models::ConfigResponseView;
use crate::models::HealthResponse;
use crate::models::HealthResponseView;
use crate::models::SetupCheckResponse;
use vstd::prelude::*;

verus! {

/// Says that the service is up, in which version, and for how long.
pub fn health_check(version: &str, uptime_seconds: u64) -> (res: HealthResponse)
    ensures
        res@ == (HealthResponseView { status: "healthy"@, version: version@, uptime_seconds }),
{
    HealthResponse { status: "healthy".to_string(), version: version.to_owned(), uptime_seconds }
}

/// The settings that the pages may know.
pub open spec fn public_config(state: AppStateView) -> ConfigResponseView {
    ConfigResponseView {
        host_url: state.config.host_url,
        max_url_length: state.config.max_url_length,
        allow_registration: state.config.allow_registration,
    }
}

/// Tells the pages the settings that they may know.
pub fn get_config(data: &AppState) -> (res: ConfigResponse)
    ensures
        res@ == public_config(data@),
{
    ConfigResponse {
        host_url: data.config.host_url.clone(),
        max_url_length: data.config.max_url_length,
        allow_registration: data.config.allow_registration,
    }
}

/// Says whether the first account has yet to be made.
pub fn check_setup_required(data: &AppState) -> (res: SetupCheckResponse)
    ensures
        res.setup_required == (data@.db.users.len() == 0),
{
    SetupCheckResponse { setup_required: data.db.count_users() == 0 }
}

} // verus!
