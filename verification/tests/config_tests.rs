use delve::capture::{capture_context_from_config, CaptureContext};
use delve::config::{parse_retention, DelveConfig, IpAddress, RttBarConfig, SessionRetention};
use delve::retention::retention_label;

#[test]
fn parses_retention_forms() {
    assert_eq!(parse_retention("180d").expect("days"), SessionRetention::Days(180));
    assert_eq!(parse_retention("6mo").expect("months"), SessionRetention::Months(6));
    assert_eq!(parse_retention("never").expect("never"), SessionRetention::Never);
    assert_eq!(parse_retention("0").expect("zero"), SessionRetention::Never);
    assert_eq!(parse_retention("unlimited").expect("unlimited"), SessionRetention::Never);
}

#[test]
fn default_session_retention_is_unlimited() {
    assert_eq!(DelveConfig::default().session_retention, SessionRetention::Never);
}

#[test]
fn default_max_queries_is_sixty_four() {
    assert_eq!(DelveConfig::default().trace_max_queries_per_action, 64);
}

#[test]
fn default_max_parallel_queries_is_eight() {
    assert_eq!(DelveConfig::default().trace_max_parallel_queries, 8);
}

#[test]
fn default_persist_view_state_is_true() {
    assert!(DelveConfig::default().explore_persist_view_state);
}

#[test]
fn default_rtt_bar_config_matches_expected_thresholds() {
    let config = DelveConfig::default().explore_rtt_bar;
    assert_eq!(config.green_ms, 50);
    assert_eq!(config.yellow_ms, 125);
    assert_eq!(config.orange_ms, 250);
    assert_eq!(config.insane_ms, 1000);
    assert_eq!(config.max_width, 20);
}

#[test]
fn retention_labels_parse_back() {
    for retention in [
        SessionRetention::Never,
        SessionRetention::Days(0),
        SessionRetention::Days(180),
        SessionRetention::Days(u64::MAX),
        SessionRetention::Months(6),
        SessionRetention::Months(u32::MAX),
    ] {
        let label = retention_label(retention);
        assert_eq!(parse_retention(&label).expect("label parses"), retention);
    }
    assert_eq!(retention_label(SessionRetention::Days(30)), "30d");
    assert_eq!(retention_label(SessionRetention::Months(2)), "2mo");
}

#[test]
fn normalized_default_rtt_bar_is_unchanged() {
    let config = RttBarConfig::default();
    assert_eq!(config.normalized(), config);
}

#[test]
fn disabled_capture_returns_none() {
    let config = DelveConfig::default();
    assert!(capture_context_from_config(&config).is_none());
}

#[test]
fn enabled_static_without_address_returns_none() {
    let config = DelveConfig {
        capture_public_ip_enabled: true,
        capture_public_ip_provider: "static".into(),
        ..Default::default()
    };
    assert!(capture_context_from_config(&config).is_none());
}

#[test]
fn static_provider_stores_configured_address_without_network() {
    let config = DelveConfig {
        capture_public_ip_enabled: true,
        capture_public_ip_provider: "static".into(),
        capture_public_ip_static_address: Some(IpAddress::V4(203, 0, 113, 10)),
        ..Default::default()
    };
    let context: CaptureContext = capture_context_from_config(&config).expect("context");
    assert!(context.local_source_ips.is_empty());
    let public_ip = context.public_ip.expect("public ip");
    assert_eq!(public_ip.provider, "static");
    assert_eq!(public_ip.address, IpAddress::V4(203, 0, 113, 10));
    assert!(!public_ip.observed_at.is_empty());
}

#[test]
fn other_provider_captures_nothing() {
    let config = DelveConfig {
        capture_public_ip_enabled: true,
        capture_public_ip_provider: "stun".into(),
        capture_public_ip_static_address: Some(IpAddress::V4(203, 0, 113, 10)),
        ..Default::default()
    };
    assert!(capture_context_from_config(&config).is_none());
}
