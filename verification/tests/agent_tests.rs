use port_sentinel::agent_auth::{authorize_agent_request, token_matches};
use port_sentinel::config::AgentConfig;
use port_sentinel::stats::{
    core_level, core_levels, memory_level, percent_basis_points, stats_from_readings, UsageLevel,
};

#[test]
fn gate_admits_only_the_exact_secret() {
    assert!(token_matches("s3cret", "s3cret"));
    assert!(!token_matches("s3cret ", "s3cret"));
    assert!(!token_matches("S3cret", "s3cret"));
    assert!(!token_matches("", "s3cret"));

    let good = "s3cret".to_string();
    let bad = "other".to_string();
    assert!(authorize_agent_request(Some(&good), "s3cret"));
    assert!(!authorize_agent_request(Some(&bad), "s3cret"));
    assert!(!authorize_agent_request(None, "s3cret"));
}

#[test]
fn config_resolves_to_loaded_or_defaults() {
    let loaded = AgentConfig {
        port: 4000,
        hostname: "edge".to_string(),
        auth_token: "tok".to_string(),
    };
    let resolved = AgentConfig::resolve(Some(loaded));
    assert_eq!(resolved.port, 4000);
    assert_eq!(resolved.hostname, "edge");

    let fallback = AgentConfig::resolve(None);
    assert_eq!(fallback.port, 3001);
    assert_eq!(fallback.hostname, "localhost");
    assert_eq!(fallback.auth_token, "change_me_please");
}

#[test]
fn readings_convert_to_reported_units() {
    let stats = stats_from_readings(
        8 * 1024 * 1024 * 1024, // 8 GiB memory
        2 * 1024 * 1024 * 1024,
        1024 * 1024 * 1024,
        0,
        500_000_000_000,
        150_000_000_000,
        375,
        vec![100, 450, 900],
    );
    assert_eq!(stats.total_memory, 8192);
    assert_eq!(stats.used_memory, 2048);
    assert_eq!(stats.total_swap, 1024);
    assert_eq!(stats.used_swap, 0);
    assert_eq!(stats.disk_total_bytes, 500_000_000_000);
    assert_eq!(stats.disk_used_bytes, 350_000_000_000);
    assert_eq!(stats.cpu_usage_permille, 375);
}

#[test]
fn inconsistent_disk_readings_report_zero_use() {
    let stats = stats_from_readings(0, 0, 0, 0, 100, 200, 0, vec![]);
    assert_eq!(stats.disk_used_bytes, 0);
}

#[test]
fn percentages_in_basis_points() {
    assert_eq!(percent_basis_points(1, 4), 2500);
    assert_eq!(percent_basis_points(0, 10), 0);
    assert_eq!(percent_basis_points(10, 10), 10000);
    assert_eq!(percent_basis_points(5, 0), 0);
    assert_eq!(percent_basis_points(20, 10), 10000);
    assert_eq!(percent_basis_points(u64::MAX, u64::MAX), 10000);
}

#[test]
fn display_thresholds() {
    assert_eq!(memory_level(8500), UsageLevel::Low);
    assert_eq!(memory_level(8501), UsageLevel::High);
    assert_eq!(core_level(400), UsageLevel::Low);
    assert_eq!(core_level(401), UsageLevel::Mid);
    assert_eq!(core_level(801), UsageLevel::High);
    assert_eq!(
        core_levels(&vec![100, 450, 900]),
        vec![UsageLevel::Low, UsageLevel::Mid, UsageLevel::High]
    );
}
