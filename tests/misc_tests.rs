use esnode_core::client::AgentClient;
use esnode_core::config::{healthz_status, parse_log_level, LogLevel, OrchestratorConfig};
use esnode_core::console::{format_duration, human_bytes};
use esnode_core::drivers::{sensor_series_labels, Reading, SensorType};
use esnode_core::numtext::{decimal_string, fixed1_string};

#[test]
fn human_bytes_units() {
    assert_eq!(human_bytes(512), "512 B");
    assert_eq!(human_bytes(2048), "2 KiB");
    assert_eq!(human_bytes(1_572_864), "1.5 MiB");
    assert_eq!(human_bytes(1_073_741_824), "1.0 GiB");
    assert_eq!(human_bytes(3 * 1_099_511_627_776), "3.0 TiB");
}

#[test]
fn durations() {
    assert_eq!(format_duration(59), "0m");
    assert_eq!(format_duration(3_660), "1h 1m");
    assert_eq!(format_duration(90_061), "1d 1h 1m");
}

#[test]
fn log_levels() {
    assert_eq!(parse_log_level(None), Ok(None));
    assert_eq!(parse_log_level(Some("INFO")), Ok(Some(LogLevel::Info)));
    assert_eq!(parse_log_level(Some("Warning")), Ok(Some(LogLevel::Warn)));
    assert_eq!(parse_log_level(Some("trace")), Ok(Some(LogLevel::Trace)));
    assert_eq!(parse_log_level(Some("loud")), Err("unknown log level loud".to_string()));
}

#[test]
fn client_base_url() {
    assert_eq!(AgentClient::new("127.0.0.1:9100").base_url(), "http://127.0.0.1:9100");
    assert_eq!(AgentClient::new("https://node:9100//").base_url(), "https://node:9100");
    assert_eq!(AgentClient::new("http://x/").base_url(), "http://x");
}

#[test]
fn sensor_labels() {
    let r = Reading {
        sensor_type: SensorType::Voltage,
        unit: "V".to_string(),
        value_milli: 230_000,
        timestamp_ms: 1,
        metadata: vec![("oid".to_string(), "1.3.6".to_string())],
    };
    assert_eq!(sensor_series_labels("snmp-1", &r), vec!["snmp-1", "Voltage", "V", "1.3.6"]);
    let r2 = Reading { metadata: vec![], ..r };
    assert_eq!(sensor_series_labels("snmp-1", &r2)[3], "unknown");
}

#[test]
fn number_text() {
    assert_eq!(decimal_string(0), "0");
    assert_eq!(decimal_string(1_234_567), "1234567");
    assert_eq!(fixed1_string(85_000), "85.0");
    assert_eq!(fixed1_string(80_049), "80.0");
    assert_eq!(fixed1_string(80_050), "80.1");
    assert_eq!(fixed1_string(-2_500), "-2.5");
    assert_eq!(fixed1_string(-40), "0.0");
}

#[test]
fn orchestrator_access_rules() {
    let open = OrchestratorConfig { enabled: true, token: None, allow_public: false };
    assert!(open.allows_request(true, None));
    assert!(!open.allows_request(false, None));
    let public = OrchestratorConfig { enabled: true, token: None, allow_public: true };
    assert!(public.allows_request(false, None));
    let guarded = OrchestratorConfig { enabled: true, token: Some("s3cret".to_string()), allow_public: false };
    assert!(guarded.allows_request(false, Some("s3cret")));
    assert!(!guarded.allows_request(true, Some("nope")));
    assert!(!guarded.allows_request(true, None));
    assert_eq!(healthz_status(true), 200);
    assert_eq!(healthz_status(false), 503);
}
