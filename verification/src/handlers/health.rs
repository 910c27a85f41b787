//! The health probe.

use crate::config::AppConfig;
use crate::models::HealthResponse;
use crate::utils::text::owned;
use vstd::prelude::*;

verus! {

/// What the health probe answers: that the service is healthy, its version
/// and uptime, and where and how it runs.
pub fn health_check(config: &AppConfig, version: &str, uptime: u64) -> (reply: HealthResponse)
    ensures
        reply.status@ == "healthy"@,
        reply.version@ == version@,
        reply.uptime == uptime,
        reply.upload_dir@ == config.server.upload_dir@,
        reply.auth_mode@ == config.auth.mode@,
{
    HealthResponse {
        status: owned("healthy"),
        version: owned(version),
        uptime,
        upload_dir: config.server.upload_dir.clone(),
        auth_mode: config.auth.mode.clone(),
    }
}

} // verus!
