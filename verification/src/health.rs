//! Health probe decision: the I/O layer runs a trivial round-trip query
//! against the document store and reports here whether it answered.
use vstd::prelude::*;

verus! {

/// Outcome of the store reachability probe.
#[derive(Clone, Copy, PartialEq, Eq, Structural, Debug)]
pub enum HealthStatus {
    Available,
    Unavailable,
}

/// The build identification string reported by the probe.
pub open spec fn spec_version_text() -> Seq<char> {
    "CARGO_PKG_VERSION: 0.1.0"@
}

/// Decides the probe response from whether the store answered the trivial
/// query: reachable exactly when the probe succeeded, and always the same
/// version string.
pub fn health_response(probe_ok: bool) -> (r: (HealthStatus, String))
    ensures
        r.0 == (if probe_ok {
            HealthStatus::Available
        } else {
            HealthStatus::Unavailable
        }),
        r.1@ == spec_version_text(),
{
    let status = if probe_ok {
        HealthStatus::Available
    } else {
        HealthStatus::Unavailable
    };
    let version = String::from_str("CARGO_PKG_VERSION: 0.1.0");
    (status, version)
}

} // verus!
