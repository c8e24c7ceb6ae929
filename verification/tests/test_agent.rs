use warden::agent_config::{parse_port, AgentConfig};
use warden::commands::{
    ack_shape, ack_status, build_analysis_payload, command_kind, command_target, failure_finding, outcome_event,
    rejection_message, start_notice, CommandKind,
};
use warden::text::decimal;

fn pairs(p: &[(String, String)]) -> Vec<(&str, &str)> {
    p.iter().map(|(k, v)| (k.as_str(), v.as_str())).collect()
}

#[test]
fn parse_port_follows_unsigned_syntax() {
    assert_eq!(parse_port("4003"), Some(4003));
    assert_eq!(parse_port("+80"), Some(80));
    assert_eq!(parse_port("0065535"), Some(65535));
    assert_eq!(parse_port("65536"), None);
    assert_eq!(parse_port("99999999999"), None);
    assert_eq!(parse_port(""), None);
    assert_eq!(parse_port("+"), None);
    assert_eq!(parse_port("-1"), None);
    assert_eq!(parse_port("12a"), None);
    assert_eq!(parse_port(" 12"), None);
    for text in ["0", "1", "443", "+8080", "70000", "x", "٣"] {
        assert_eq!(parse_port(text), text.parse::<u16>().ok(), "{}", text);
    }
}

#[test]
fn config_defaults_and_overrides() {
    let defaults = AgentConfig::from_settings(None, None, None);
    assert_eq!(defaults.cerebro_url, "http://localhost:4000");
    assert_eq!(defaults.port, 4003);
    assert!(defaults.report_enabled);

    let custom = AgentConfig::from_settings(
        Some("http://cerebro:9000".to_string()),
        Some("5000".to_string()),
        Some("0".to_string()),
    );
    assert_eq!(custom.cerebro_url, "http://cerebro:9000");
    assert_eq!(custom.port, 5000);
    assert!(!custom.report_enabled);

    assert_eq!(AgentConfig::from_settings(None, Some("port".to_string()), None).port, 4003);
    assert!(AgentConfig::from_settings(None, None, Some("1".to_string())).report_enabled);
    assert!(!AgentConfig::from_settings(None, None, Some("TRUE".to_string())).report_enabled);
}

#[test]
fn config_endpoints() {
    let config = AgentConfig::from_settings(Some("http://localhost:4000".to_string()), Some("4003".to_string()), None);
    assert_eq!(config.events_endpoint(), "http://localhost:4000/api/events");
    assert_eq!(config.listen_address(), "0.0.0.0:4003");
}

#[test]
fn decimal_renders_numbers() {
    assert_eq!(decimal(0), "0");
    assert_eq!(decimal(7), "7");
    assert_eq!(decimal(1050), "1050");
    assert_eq!(decimal(u64::MAX), u64::MAX.to_string());
}

#[test]
fn command_kinds() {
    assert_eq!(command_kind("scan"), CommandKind::Scan);
    assert_eq!(command_kind("audit-deps"), CommandKind::AuditDeps);
    assert_eq!(command_kind("check-secrets"), CommandKind::CheckSecrets);
    assert_eq!(command_kind("report"), CommandKind::Report);
    assert_eq!(command_kind("status"), CommandKind::Status);
    assert_eq!(command_kind("predict-critical"), CommandKind::PredictCritical);
    assert_eq!(command_kind("risk-assess"), CommandKind::RiskAssess);
    assert_eq!(command_kind("churn-report"), CommandKind::ChurnReport);
    assert_eq!(command_kind("Scan"), CommandKind::Unknown);
    assert_eq!(command_kind(""), CommandKind::Unknown);
}

#[test]
fn command_target_defaults_to_current_directory() {
    assert_eq!(command_target(&None), ".");
    assert_eq!(command_target(&Some("repo".to_string())), "repo");
}

#[test]
fn analysis_payload_fields() {
    let full = build_analysis_payload("found", Some("a.rs"), Some("fix it"));
    assert_eq!(pairs(&full), vec![("finding", "found"), ("file", "a.rs"), ("recommendation", "fix it")]);
    let bare = build_analysis_payload("found", None, None);
    assert_eq!(pairs(&bare), vec![("finding", "found")]);
}

#[test]
fn start_notices() {
    let scan = start_notice(CommandKind::Scan, "repo").unwrap();
    assert_eq!(scan.event_type, "scan_started");
    assert_eq!(scan.severity, "info");
    assert_eq!(pairs(&scan.payload), vec![("finding", "Escaneo iniciado por Cerebro"), ("file", "repo")]);

    let predict = start_notice(CommandKind::PredictCritical, "repo").unwrap();
    assert_eq!(predict.event_type, "predict_critical_started");
    assert_eq!(predict.payload[0].1, "Predicción de críticos iniciada para repo");

    assert!(start_notice(CommandKind::Status, ".").is_none());
    assert!(start_notice(CommandKind::Unknown, ".").is_none());
}

#[test]
fn acknowledgements() {
    assert_eq!(ack_status(CommandKind::Scan, false), "accepted");
    assert_eq!(ack_status(CommandKind::Report, false), "completed");
    assert_eq!(ack_status(CommandKind::RiskAssess, true), "error");
    assert_eq!(ack_status(CommandKind::RiskAssess, false), "completed");
    assert_eq!(ack_status(CommandKind::Unknown, false), "rejected");
    assert_eq!(rejection_message("dance"), "Acción 'dance' no reconocida");
    assert_eq!(outcome_event(CommandKind::ChurnReport, false).unwrap(), "churn_report_completed");
    assert_eq!(outcome_event(CommandKind::PredictCritical, true).unwrap(), "predict_critical_error");
    assert!(outcome_event(CommandKind::Scan, false).is_none());
    assert_eq!(failure_finding(CommandKind::RiskAssess, "boom").unwrap(), "Error en evaluación de riesgos: boom");
    assert!(failure_finding(CommandKind::Status, "boom").is_none());
}

#[test]
fn acknowledgements_carry_a_result_or_an_error() {
    assert_eq!(ack_shape(CommandKind::Unknown, false), (false, true));
    assert_eq!(ack_shape(CommandKind::Status, false), (true, false));
    assert_eq!(ack_shape(CommandKind::Scan, true), (true, false));
    assert_eq!(ack_shape(CommandKind::Report, false), (true, false));
    assert_eq!(ack_shape(CommandKind::RiskAssess, false), (true, false));
    assert_eq!(ack_shape(CommandKind::RiskAssess, true), (false, true));
    assert_eq!(ack_shape(CommandKind::ChurnReport, true), (false, true));
}
