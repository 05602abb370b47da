//! Service health reporting: the shape of the health answer and the rule
//! that decides overall health from the dependencies.
use vstd::prelude::*;

use crate::strutil;

verus! {

/// One dependency's health.
#[derive(Debug)]
pub struct ServiceHealth {
    pub status: String,
    pub response_time_ms: u64,
    pub error: Option<String>,
}

/// The two dependencies the service stands on.
#[derive(Debug)]
pub struct DependencyStatus {
    pub database: ServiceHealth,
    pub wallet_api: ServiceHealth,
}

/// The whole health answer.
#[derive(Debug)]
pub struct HealthResponse {
    pub status: String,
    pub timestamp: String,
    pub version: String,
    pub dependencies: DependencyStatus,
}

/// Whether the service counts as healthy: the database must be healthy, and
/// the wallet API healthy or simply not configured.
pub open spec fn overall_healthy(db_status: Seq<char>, wallet_status: Seq<char>) -> bool {
    db_status == "healthy"@ && (wallet_status == "healthy"@ || wallet_status
        == "not_configured"@)
}

/// Decides overall health from the two dependencies' status labels.
pub fn all_healthy(db: &ServiceHealth, wallet: &ServiceHealth) -> (r: bool)
    ensures
        r == overall_healthy(db.status@, wallet.status@),
{
    strutil::chars_eq(db.status.as_str(), "healthy") && (strutil::chars_eq(
        wallet.status.as_str(),
        "healthy",
    ) || strutil::chars_eq(wallet.status.as_str(), "not_configured"))
}

} // verus!
