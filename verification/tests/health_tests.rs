use projects_api::health::{health_response, HealthStatus};

#[test]
fn health_reports_unreachable_when_the_store_does_not_answer() {
    let (status, version) = health_response(false);
    assert_eq!(status, HealthStatus::Unavailable);
    assert_eq!(version, "CARGO_PKG_VERSION: 0.1.0");
}

#[test]
fn health_reports_reachable_when_the_probe_answers() {
    let (status, version) = health_response(true);
    assert_eq!(status, HealthStatus::Available);
    assert!(!version.is_empty());
}
