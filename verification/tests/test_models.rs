use warden::models::{
    latest_loc, total_authors, AlertSeverity, AuthorFrequency, ChurnTrend, LOCMetric, PredictionWarning,
    RiskLevel, Trend,
};

#[test]
fn test_loc_metric_display() {
    let metric = LOCMetric {
        file: "src/main.rs".to_string(),
        timestamp: chrono::Utc::now().timestamp(),
        lines: 150,
    };
    let display = metric.describe().unwrap();
    assert!(display.contains("src/main.rs"));
    assert!(display.contains("150 LOC"));
}

#[test]
fn test_file_metrics_latest_loc() {
    let loc_history = vec![
        LOCMetric { file: "test.rs".to_string(), timestamp: 1000, lines: 100 },
        LOCMetric { file: "test.rs".to_string(), timestamp: 2000, lines: 150 },
    ];
    assert_eq!(latest_loc(&loc_history), Some(150));
}

#[test]
fn test_alert_severity_ordering() {
    assert!(AlertSeverity::Info < AlertSeverity::Warning);
    assert!(AlertSeverity::Warning < AlertSeverity::Critical);
}

#[test]
fn test_trend_display() {
    let improving = Trend::Improving;
    let stable = Trend::Stable;
    let degrading = Trend::Degrading;

    assert!(improving.label().contains("✅"));
    assert!(stable.label().contains("→"));
    assert!(degrading.label().contains("⚠️"));
}

#[test]
fn test_risk_level_display() {
    assert_eq!(RiskLevel::Safe.label(), "✅ Safe");
    assert_eq!(RiskLevel::Monitor.label(), "⚠️ Monitor");
    assert_eq!(RiskLevel::Alert.label(), "🔴 Alert");
    assert_eq!(RiskLevel::Critical.label(), "🔴🔴 Critical");
}

#[test]
fn test_churn_trend_display() {
    assert_eq!(ChurnTrend::Improving.label(), "↑ Improving");
    assert_eq!(ChurnTrend::Degrading.label(), "↓ Degrading");
    assert_eq!(ChurnTrend::Stable.label(), "→ Stable");
}

#[test]
fn test_prediction_warning_levels() {
    assert_eq!(PredictionWarning::Clear.label(), "None");
    assert_eq!(PredictionWarning::Watch.label(), "Watch");
    assert_eq!(PredictionWarning::Degrade.label(), "Degrade");
    assert_eq!(PredictionWarning::Critical.label(), "Critical");
}

#[test]
fn test_prediction_warning_display_with_emojis() {
    assert_eq!(PredictionWarning::Clear.alert_label(), "None");
    assert_eq!(PredictionWarning::Watch.alert_label(), "⚠️ Watch");
    assert_eq!(PredictionWarning::Degrade.alert_label(), "⚠️ Degrade");
    assert_eq!(PredictionWarning::Critical.alert_label(), "🔴 Critical");
}

#[test]
fn test_render_functions() {
    assert!(true);
}

#[test]
fn author_frequency_describes_commits_and_lines() {
    let record = AuthorFrequency {
        file: "src/lib.rs".to_string(),
        author: "alice".to_string(),
        commits: 12,
        lines_changed: 340,
    };
    assert_eq!(record.describe(), "alice modified src/lib.rs (12 commits, 340 lines)");
}

#[test]
fn loc_metric_out_of_calendar_range_has_no_description() {
    let metric = LOCMetric { file: "a.rs".to_string(), timestamp: i64::MAX, lines: 1 };
    assert_eq!(metric.describe(), None);
}

#[test]
fn loc_metric_description_names_the_day() {
    let metric = LOCMetric { file: "a.rs".to_string(), timestamp: 86_400 * 365, lines: 7 };
    assert_eq!(metric.describe().unwrap(), "a.rs: 7 LOC on 1971-01-01");
}

#[test]
fn total_authors_counts_each_author_once() {
    let record = |author: &str| AuthorFrequency {
        file: "f.rs".to_string(),
        author: author.to_string(),
        commits: 1,
        lines_changed: 0,
    };
    let authors = vec![record("alice"), record("bob"), record("alice"), record("carol")];
    assert_eq!(total_authors(&authors), 3);
    assert_eq!(total_authors(&vec![]), 0);
}

#[test]
fn latest_loc_of_empty_history_is_none() {
    assert_eq!(latest_loc(&vec![]), None);
}
