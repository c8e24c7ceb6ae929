use warden::analytics::{compare_branches, AnalyticsEngine};
use warden::cache::{is_cache_valid, CACHE_FILENAME, CACHE_MAX_AGE_SECS};
use warden::churn_reporter::{most_changed_file, week_groups, week_index, week_start_label, Pattern};
use warden::git_parser::{unique_authors, Commit};
use warden::models::{AuthorFrequency, ChurnTrend, LOCMetric};
use warden::risk_scorer::{detect_refactoring, refactoring_percent, days_since_modified, generate_recommendation, is_isolated_recent_change, recent_commit_count, refactoring_candidate, RiskBand};
use warden::ui::{churn_context, ownership_label, size_label};

fn loc(lines: usize) -> LOCMetric {
    LOCMetric { file: "test.rs".to_string(), timestamp: 0, lines }
}

fn record(file: &str, author: &str, commits: usize) -> AuthorFrequency {
    AuthorFrequency { file: file.to_string(), author: author.to_string(), commits, lines_changed: 0 }
}

#[test]
fn test_recommendation_generation() {
    // Test: Large, unstable file (risk 9.0)
    let rec1 = generate_recommendation(RiskBand::VeryHigh, 300, 2, &ChurnTrend::Stable, &[], None);
    assert!(rec1.contains("Refactor immediately"));

    // Test: Safe, stable file (risk 1.0)
    let rec3 = generate_recommendation(RiskBand::Low, 50, 1, &ChurnTrend::Stable, &[], None);
    assert!(rec3.contains("Safe"));

    // Test: Refactoring detected (risk 5.0, 50% reduction)
    let loc_history = vec![loc(200), loc(100)];
    let rec_refactor =
        generate_recommendation(RiskBand::Low, 100, 2, &ChurnTrend::Stable, &loc_history, Some(50));
    assert!(rec_refactor.contains("Refactoring detected"));
}

#[test]
fn recommendation_texts_follow_priority() {
    let growing = vec![loc(120), loc(300)];
    assert_eq!(
        generate_recommendation(RiskBand::High, 300, 5, &ChurnTrend::Degrading, &growing, None),
        "Growing with high churn - refactor needed"
    );
    assert_eq!(
        generate_recommendation(RiskBand::High, 60, 5, &ChurnTrend::Degrading, &growing, None),
        "Monitor - code instability, consider refactoring"
    );
    assert_eq!(
        generate_recommendation(RiskBand::Low, 60, 5, &ChurnTrend::Degrading, &[], None),
        "Degrading - churn increasing"
    );
    assert_eq!(
        generate_recommendation(RiskBand::High, 150, 4, &ChurnTrend::Stable, &[], None),
        "Refactor - fragmented ownership + high churn"
    );
    assert_eq!(
        generate_recommendation(RiskBand::High, 150, 2, &ChurnTrend::Stable, &[], None),
        "Monitor - high churn detected"
    );
    assert_eq!(
        generate_recommendation(RiskBand::Low, 150, 2, &ChurnTrend::Improving, &[], Some(56)),
        "Refactoring detected (LOC -56%). Monitor stabilization"
    );
}

#[test]
fn refactoring_candidate_needs_a_shrunk_history() {
    assert_eq!(refactoring_candidate(&[loc(100), loc(70)]), Some((100, 70)));
    assert_eq!(refactoring_candidate(&[loc(321), loc(142)]), Some((321, 142)));
    assert_eq!(refactoring_candidate(&[loc(100), loc(150)]), None);
    assert_eq!(refactoring_candidate(&[loc(100)]), None);
    assert_eq!(refactoring_candidate(&[loc(100), loc(0)]), None);
    assert_eq!(refactoring_candidate(&[loc(10), loc(400), loc(20), loc(30)]), Some((400, 30)));
}

#[test]
fn recent_commit_count_sums_authors() {
    let authors = vec![record("f", "alice", 10), record("f", "bob", 8)];
    assert_eq!(recent_commit_count(&authors), 18);
    assert_eq!(recent_commit_count(&vec![]), 0);
}

#[test]
fn test_author_impact_capping() {
    // Small file: 21 LOC
    let impact_tiny = ((2_f64).min((21_f64) / 20.0)).max(1.0);
    // min(2, 1.05) = 1.05
    assert!(impact_tiny > 1.0);
    assert!(impact_tiny < 1.1);

    // Medium file: 100 LOC
    let impact_medium = ((4_f64).min((100_f64) / 20.0)).max(1.0);
    // min(4, 5) = 4
    assert_eq!(impact_medium, 4.0);

    // Large file: 500 LOC
    let impact_large = ((6_f64).min((500_f64) / 20.0)).max(1.0);
    // min(6, 25) = 6
    assert_eq!(impact_large, 6.0);

    // Single author on any file
    let impact_single = ((1_f64).min((21_f64) / 20.0)).max(1.0);
    // min(1, 1.05) = 1.0
    assert_eq!(impact_single, 1.0);
}

#[test]
fn author_patterns_group_files_per_author() {
    let records = vec![
        record("a.rs", "alice", 1),
        record("b.rs", "bob", 2),
        record("c.rs", "alice", 3),
    ];
    let groups = AnalyticsEngine::analyze_author_patterns(&records);
    assert_eq!(groups.len(), 2);
    assert_eq!(groups[0].author, "alice");
    assert_eq!(groups[0].files, vec!["a.rs".to_string(), "c.rs".to_string()]);
    assert_eq!(groups[1].author, "bob");
    assert_eq!(groups[1].files, vec!["b.rs".to_string()]);
    assert!(AnalyticsEngine::analyze_author_patterns(&vec![]).is_empty());
}

#[test]
fn compare_branches_succeeds() {
    assert!(compare_branches("main", "develop").is_ok());
}

#[test]
fn cache_validity_depends_on_age() {
    assert_eq!(CACHE_FILENAME, ".warden-cache.json");
    assert!(is_cache_valid(Some(10), CACHE_MAX_AGE_SECS));
    assert!(!is_cache_valid(Some(3600), CACHE_MAX_AGE_SECS));
    assert!(!is_cache_valid(None, CACHE_MAX_AGE_SECS));
}

#[test]
fn most_changed_file_prefers_first_of_the_most_frequent() {
    let files: Vec<String> = ["a", "b", "b", "c", "a"].iter().map(|s| s.to_string()).collect();
    assert_eq!(most_changed_file(&files), "a");
    let files: Vec<String> = ["a", "b", "b"].iter().map(|s| s.to_string()).collect();
    assert_eq!(most_changed_file(&files), "b");
    assert_eq!(most_changed_file(&vec![]), "");
}

#[test]
fn patterns_carry_their_severity() {
    assert_eq!(Pattern::rising_churn().severity, "warning");
    let dominant = Pattern::dominant_file("src/x.rs");
    assert!(dominant.description.starts_with("src/x.rs concentra"));
    assert_eq!(Pattern::high_average_churn().severity, "critical");
}

#[test]
fn report_labels() {
    assert_eq!(size_label(501), "large file");
    assert_eq!(size_label(500), "medium file");
    assert_eq!(size_label(51), "small file");
    assert_eq!(size_label(50), "tiny file");
    assert_eq!(ownership_label(5), "fragmented");
    assert_eq!(ownership_label(3), "shared");
    assert_eq!(ownership_label(2), "owned");
}

#[test]
fn churn_context_prefers_trend_then_recency() {
    assert_eq!(churn_context(ChurnTrend::Degrading, 0, 100).unwrap(), "Degrading (churn increasing)");
    assert_eq!(churn_context(ChurnTrend::Improving, 9, 0).unwrap(), "Improving (was unstable, now stable)");
    assert_eq!(churn_context(ChurnTrend::Stable, 9, 15).unwrap(), "Stable (recently refactored)");
    assert_eq!(churn_context(ChurnTrend::Stable, 2, 7).unwrap(), "Stable (single change)");
    assert_eq!(churn_context(ChurnTrend::Stable, 3, 7).unwrap(), "Unstable (multiple recent changes)");
    assert_eq!(churn_context(ChurnTrend::Stable, 3, 10), None);
}

#[test]
fn week_index_counts_whole_weeks_back() {
    assert_eq!(week_index(0, 4), Some(0));
    assert_eq!(week_index(6, 4), Some(0));
    assert_eq!(week_index(13, 4), Some(1));
    assert_eq!(week_index(27, 4), Some(3));
    assert_eq!(week_index(28, 4), None);
    assert_eq!(week_index(-3, 4), Some(0));
    assert_eq!(week_index(84, 12), None);
    assert_eq!(week_index(10, 0), None);
}

fn commit_by(author: &str) -> Commit {
    Commit {
        hash: String::from("h"),
        author: author.to_string(),
        message: String::new(),
        timestamp: 0,
        files: vec![],
    }
}

#[test]
fn unique_authors_counts_each_name_once() {
    assert_eq!(unique_authors(&vec![]), 0);
    let commits = vec![commit_by("ana"), commit_by("luis"), commit_by("ana"), commit_by("Ana")];
    assert_eq!(unique_authors(&commits), 3);
}

#[test]
fn days_since_modified_counts_whole_days() {
    let day: i64 = 86_400;
    assert_eq!(days_since_modified(None, 1_000_000), 999);
    assert_eq!(days_since_modified(Some(1_000_000), 1_000_000), 0);
    assert_eq!(days_since_modified(Some(1_000_000), 1_000_000 + day - 1), 0);
    assert_eq!(days_since_modified(Some(1_000_000), 1_000_000 + 3 * day + 5), 3);
    assert_eq!(days_since_modified(Some(1_000_000 + 10 * day), 1_000_000), 0);
    assert_eq!(days_since_modified(Some(i64::MIN), 0), 106_751_991_167_300);
}

#[test]
fn isolated_recent_changes_are_small_and_fresh() {
    assert!(is_isolated_recent_change(2, 3, 80));
    assert!(is_isolated_recent_change(0, 7, 99));
    assert!(!is_isolated_recent_change(2, 0, 80));
    assert!(!is_isolated_recent_change(2, 8, 80));
    assert!(!is_isolated_recent_change(3, 3, 80));
    assert!(!is_isolated_recent_change(1, 3, 100));
}

#[test]
fn test_cache_path_construction() {
    let repo_path = std::path::Path::new(".");
    let cache_path = repo_path.join(CACHE_FILENAME);
    assert!(cache_path.to_string_lossy().contains(".warden-cache.json"));
}

#[test]
fn test_detect_refactoring() {
    // Test: 30% reduction (threshold) - should detect
    assert_eq!(detect_refactoring(&[loc(100), loc(70)]), Some(30));
    // Test: 56% reduction (like 321→142) - should detect
    let pct = detect_refactoring(&[loc(321), loc(142)]).unwrap();
    assert!(pct > 55 && pct < 57);
    assert_eq!(pct, 56);
    // Test: 20% reduction - should NOT detect
    assert_eq!(detect_refactoring(&[loc(100), loc(80)]), None);
    // Test: LOC growth - should NOT detect
    assert_eq!(detect_refactoring(&[loc(100), loc(150)]), None);
    // Test: Single point history - should NOT detect
    assert_eq!(detect_refactoring(&[loc(100)]), None);
}

#[test]
fn refactoring_percent_rounds_to_nearest() {
    assert_eq!(refactoring_percent(100, 70), Some(30));
    assert_eq!(refactoring_percent(100, 71), None);
    assert_eq!(refactoring_percent(3, 2), Some(33));
    assert_eq!(refactoring_percent(8, 5), Some(38));
    assert_eq!(refactoring_percent(200, 1), Some(100));
    assert_eq!(refactoring_percent(200, 0), Some(100));
    assert_eq!(refactoring_percent(5, 5), None);
    assert_eq!(refactoring_percent(5, 9), None);
    assert_eq!(refactoring_percent(usize::MAX, 0), Some(100));
}

#[test]
fn week_groups_list_filled_weeks_oldest_first() {
    let days_ago = vec![0, 15, 3, 20, 100, -2, 8];
    let groups = week_groups(&days_ago, 4);
    assert_eq!(groups, vec![(2, vec![1, 3]), (1, vec![6]), (0, vec![0, 2, 5])]);
    assert!(week_groups(&days_ago, 0).is_empty());
    assert!(week_groups(&vec![], 12).is_empty());
}

#[test]
fn week_start_labels_count_whole_weeks_back() {
    // 2023-11-14T22:13:20Z
    let now: i64 = 1_700_000_000;
    assert_eq!(week_start_label(now, 0).unwrap(), "2023-11-14");
    assert_eq!(week_start_label(now, 1).unwrap(), "2023-11-07");
    assert_eq!(week_start_label(now, 52).unwrap(), "2022-11-15");
    assert_eq!(week_start_label(0, 0).unwrap(), "1970-01-01");
    assert_eq!(week_start_label(-8_334_601_228_800, 1), None);
    assert_eq!(week_start_label(now, usize::MAX), None);
}
