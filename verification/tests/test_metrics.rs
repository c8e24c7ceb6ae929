use warden::error::WardenError;
use warden::git_parser::{get_file_diffs, parse_git_history, EnrichedCommit, FileChange};
use warden::metrics::{calculate_loc_metrics, process_commits, FileActivity, MetricsCalculator};

fn change(file: &str, additions: usize, deletions: usize) -> FileChange {
    FileChange { file: file.to_string(), additions, deletions }
}

fn commit(hash: &str, author: &str, timestamp: i64, changes: Vec<FileChange>) -> EnrichedCommit {
    EnrichedCommit {
        hash: hash.to_string(),
        author: author.to_string(),
        timestamp,
        files: changes.iter().map(|c| c.file.clone()).collect(),
        file_changes: changes,
    }
}

fn activity<'a>(metrics: &'a [FileActivity], file: &str) -> &'a FileActivity {
    metrics.iter().find(|a| a.file == file).unwrap()
}

/// One commit record of `git log` output as the history parser reads it.
fn record(hash: &str, author: &str, timestamp: i64, message: &str, numstat: &[&str]) -> String {
    let mut r = format!("\u{1e}{}\u{1f}{}\u{1f}{}\u{1f}{}\u{1f}\n", hash, author, timestamp, message);
    for line in numstat {
        r.push('\n');
        r.push_str(line);
    }
    r.push('\n');
    r
}

fn chars(text: &str) -> Vec<char> {
    text.chars().collect()
}

const NOW: i64 = 1_700_000_000;
const DAY: i64 = 86_400;

#[test]
fn test_parse_git_history_empty_repo() {
    let commits = parse_git_history(&vec![], NOW, "6m").unwrap();
    assert!(commits.is_empty());
    assert!(true);
}

#[test]
fn history_of_one_fresh_commit_has_its_file() {
    let log = record("abc123", "Test User", NOW, "initial commit\n", &["1\t0\ttest.ts"]);
    let commits = parse_git_history(&chars(&log), NOW, "6m").unwrap();
    assert_eq!(commits.len(), 1);
    assert_eq!(commits[0].files, vec!["test.ts".to_string()]);
    assert_eq!(commits[0].hash, "abc123");
    assert_eq!(commits[0].author, "Test User");
    assert_eq!(commits[0].message, "initial commit\n");
    assert_eq!(commits[0].timestamp, NOW);
}

#[test]
fn history_stops_at_the_first_commit_before_the_period() {
    let log = [
        record("c3", "ana", NOW - DAY, "third", &["2\t1\ta.rs", "-\t-\tlogo.png"]),
        record("c2", "luis", NOW - 100 * DAY, "second", &["5\t0\tb.rs"]),
        record("c1", "ana", NOW - 200 * DAY, "first", &["1\t0\ta.rs"]),
        record("c0", "ana", NOW - DAY, "out of order", &[]),
    ]
    .concat();
    let log = chars(&log);
    let hashes = |period: &str| -> Vec<String> {
        parse_git_history(&log, NOW, period).unwrap().into_iter().map(|c| c.hash).collect()
    };
    assert_eq!(hashes("3m"), vec!["c3"]);
    assert_eq!(hashes("6m"), vec!["c3", "c2"]);
    assert_eq!(hashes("1y"), vec!["c3", "c2", "c1", "c0"]);
    assert_eq!(hashes("2w"), vec!["c3", "c2"]);

    let diffs = get_file_diffs(&log, NOW, "6m").unwrap();
    assert_eq!(diffs.len(), 2);
    assert_eq!(diffs[0].files, vec!["a.rs".to_string(), "logo.png".to_string()]);
    assert_eq!(diffs[0].file_changes[0].additions, 2);
    assert_eq!(diffs[0].file_changes[0].deletions, 1);
    assert_eq!(diffs[0].file_changes[1].additions, 0);
    assert_eq!(diffs[1].author, "luis");
    assert_eq!(diffs[1].timestamp, NOW - 100 * DAY);
}

#[test]
fn malformed_logs_are_refused() {
    let bad_time = record("c1", "ana", 0, "m", &[]).replace("\u{1f}0\u{1f}", "\u{1f}soon\u{1f}");
    assert_eq!(parse_git_history(&chars(&bad_time), NOW, "6m").unwrap_err(), WardenError::MalformedLog);
    let bad_stat = record("c1", "ana", NOW, "m", &["x\t1\ta.rs"]);
    assert_eq!(get_file_diffs(&chars(&bad_stat), NOW, "6m").unwrap_err(), WardenError::MalformedLog);
    let missing_field = "\u{1e}c1\u{1f}ana\u{1f}10\n";
    assert_eq!(parse_git_history(&chars(missing_field), NOW, "6m").unwrap_err(), WardenError::MalformedLog);
    let negative = record("c1", "ana", -5, "m", &[]);
    assert!(parse_git_history(&chars(&negative), NOW, "1y").unwrap().is_empty());
}

#[test]
fn test_calculate_loc_metrics() {
    assert!(calculate_loc_metrics().unwrap().is_empty());
    assert!(true);
}

#[test]
fn test_process_commits_populates_file_metrics() {
    let commits = vec![commit("abc123", "alice", 1000, vec![change("main.rs", 50, 10)])];

    let metrics = process_commits(&commits).unwrap();

    assert!(metrics.iter().any(|a| a.file == "main.rs"));
    assert!(!activity(&metrics, "main.rs").loc_history.is_empty());
}

#[test]
fn test_process_commits_calculates_churn() {
    let commits = vec![
        commit("abc", "alice", 1000, vec![change("main.rs", 100, 100)]),
        commit("def", "bob", 2000, vec![change("main.rs", 50, 50)]),
    ];

    let metrics = process_commits(&commits).unwrap();
    let churn_history = &activity(&metrics, "main.rs").churn_samples;

    // One churn sample per commit; each rewrites its whole change: 100%.
    assert_eq!(churn_history.len(), 2);
    let percentage = |i: usize| {
        let s = &churn_history[i];
        (s.additions + s.deletions) as f64 / s.total as f64 * 100.0
    };
    assert!(percentage(0) > 50.0);
    assert!(percentage(1) > 50.0);
}

#[test]
fn process_commits_keeps_history_order_and_counts_authors() {
    let commits = vec![
        commit("a", "alice", 100, vec![change("x.rs", 3, 1), change("y.rs", 0, 0)]),
        commit("b", "bob", 200, vec![change("x.rs", 5, 0)]),
        commit("c", "alice", 300, vec![change("x.rs", 1, 1)]),
    ];
    let metrics = process_commits(&commits).unwrap();

    let files: Vec<&str> = metrics.iter().map(|a| a.file.as_str()).collect();
    assert_eq!(files, vec!["x.rs", "y.rs"]);

    let x = activity(&metrics, "x.rs");
    let points: Vec<(i64, usize)> = x.loc_history.iter().map(|m| (m.timestamp, m.lines)).collect();
    assert_eq!(points, vec![(100, 4), (200, 5), (300, 2)]);
    let authors: Vec<(&str, usize)> = x.authors.iter().map(|a| (a.author.as_str(), a.commits)).collect();
    assert_eq!(authors, vec![("alice", 2), ("bob", 1)]);
    assert!(x.authors.iter().all(|a| a.file == "x.rs" && a.lines_changed == 0));

    // A change of no line counts for size history but not for churn.
    let y = activity(&metrics, "y.rs");
    assert_eq!(y.loc_history.len(), 1);
    assert_eq!(y.loc_history[0].lines, 0);
    assert!(y.churn_samples.is_empty());
}

#[test]
fn process_commits_rejects_out_of_range_timestamp() {
    let commits = vec![
        commit("a", "alice", 100, vec![change("x.rs", 3, 1)]),
        commit("b", "bob", i64::MAX, vec![change("x.rs", 5, 0)]),
        commit("c", "carol", i64::MIN, vec![change("x.rs", 5, 0)]),
    ];
    assert_eq!(process_commits(&commits).unwrap_err(), WardenError::InvalidTimestamp(i64::MAX));
}

#[test]
fn process_commits_ignores_timestamp_of_commit_without_changes() {
    let commits = vec![commit("a", "alice", i64::MAX, vec![]), commit("b", "bob", 10, vec![change("z.rs", 1, 0)])];
    let metrics = process_commits(&commits).unwrap();
    assert_eq!(metrics.len(), 1);
    assert_eq!(metrics[0].file, "z.rs");
}

#[test]
fn metrics_calculator_records_changes() {
    let mut calculator = MetricsCalculator::new();
    calculator.record_change("a.rs", "alice", 10, 4, 2);
    calculator.record_change("b.rs", "bob", 20, 1, 0);
    calculator.record_change("a.rs", "alice", 30, 0, 0);
    assert_eq!(calculator.files.len(), 2);
    let a = &calculator.files[0];
    assert_eq!(a.loc_history.len(), 2);
    assert_eq!(a.churn_samples.len(), 1);
    assert_eq!(a.churn_samples[0].total, 6);
    assert_eq!(a.authors[0].commits, 2);
}

#[test]
fn author_interactions_are_counted_without_line_data() {
    let mut calculator = MetricsCalculator::new();
    calculator.record_author_interaction("a.rs", "alice");
    calculator.record_author_interaction("a.rs", "bob");
    calculator.record_author_interaction("a.rs", "alice");
    calculator.record_author_interaction("b.rs", "alice");
    assert_eq!(calculator.files.len(), 2);
    let a = &calculator.files[0];
    assert_eq!(a.file, "a.rs");
    assert!(a.loc_history.is_empty());
    assert!(a.churn_samples.is_empty());
    assert_eq!(a.authors.len(), 2);
    assert_eq!((a.authors[0].author.as_str(), a.authors[0].commits), ("alice", 2));
    assert_eq!((a.authors[1].author.as_str(), a.authors[1].commits), ("bob", 1));
    let merged = calculator.aggregate_file_metrics("b.rs");
    assert_eq!(merged.authors.len(), 1);
    assert_eq!(merged.authors[0].commits, 1);
    let missing = calculator.aggregate_file_metrics("c.rs");
    assert_eq!(missing.file, "c.rs");
    assert!(missing.authors.is_empty());
}

#[test]
fn test_main_populates_real_metrics() {
    let log = record("abc", "alice", NOW - DAY, "change", &["10\t2\tsrc/main.rs"]);
    let commits = get_file_diffs(&chars(&log), NOW, "3m").unwrap();

    if !commits.is_empty() {
        let metrics = process_commits(&commits).unwrap();
        assert_eq!(metrics.len(), 1);
        assert_eq!(metrics[0].loc_history[0].lines, 12);
    }
}

#[test]
fn representable_timestamps_span_chronos_calendar() {
    let at = |t: i64| process_commits(&vec![commit("a", "alice", t, vec![change("x.rs", 1, 0)])]);
    assert!(at(8_210_266_876_799).is_ok());
    assert_eq!(at(8_210_266_876_800).unwrap_err(), WardenError::InvalidTimestamp(8_210_266_876_800));
    assert!(at(-8_334_601_228_800).is_ok());
    assert_eq!(at(-8_334_601_228_801).unwrap_err(), WardenError::InvalidTimestamp(-8_334_601_228_801));
    assert!(at(0).is_ok());
}

#[test]
fn bad_timestamps_fail_with_their_own_error() {
    let commits = vec![commit("a", "alice", i64::MIN, vec![change("x.rs", 1, 0)])];
    assert_eq!(process_commits(&commits).unwrap_err(), WardenError::InvalidTimestamp(i64::MIN));
}
