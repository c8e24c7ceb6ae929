use warden::agent_config::{parse_port, AgentConfig};
use warden::analytics::AnalyticsEngine;
use warden::git_parser::{EnrichedCommit, FileChange};
use warden::metrics::process_commits;
use warden::models::{total_authors, AuthorFrequency};
use warden::risk_scorer::recent_commit_count;
use warden::text::decimal;

fn commit(author: &str, timestamp: i64, changes: &[(&str, usize, usize)]) -> EnrichedCommit {
    EnrichedCommit {
        hash: format!("{}-{}", author, timestamp),
        author: author.to_string(),
        timestamp,
        files: changes.iter().map(|c| c.0.to_string()).collect(),
        file_changes: changes
            .iter()
            .map(|c| FileChange { file: c.0.to_string(), additions: c.1, deletions: c.2 })
            .collect(),
    }
}

#[test]
fn every_change_is_attributed_to_one_author() {
    let commits = vec![
        commit("alice", 10, &[("a.rs", 1, 1), ("b.rs", 0, 0)]),
        commit("bob", 20, &[("a.rs", 2, 0)]),
        commit("alice", 30, &[("a.rs", 0, 3), ("b.rs", 4, 4)]),
        commit("carol", 40, &[("b.rs", 1, 0)]),
    ];
    for activity in process_commits(&commits).unwrap() {
        assert_eq!(recent_commit_count(&activity.authors), activity.loc_history.len());
        assert!(activity.churn_samples.len() <= activity.loc_history.len());
    }
}

#[test]
fn author_count_is_distinct_changers() {
    let commits = vec![
        commit("alice", 10, &[("a.rs", 1, 1)]),
        commit("bob", 20, &[("a.rs", 2, 0)]),
        commit("alice", 30, &[("a.rs", 0, 3)]),
    ];
    let activities = process_commits(&commits).unwrap();
    assert_eq!(total_authors(&activities[0].authors), 2);
    assert_eq!(activities[0].authors.len(), 2);
}

#[test]
fn grouping_keeps_every_record() {
    let record = |file: &str, author: &str| AuthorFrequency {
        file: file.to_string(),
        author: author.to_string(),
        commits: 1,
        lines_changed: 0,
    };
    let records = vec![record("a", "x"), record("b", "y"), record("c", "x"), record("a", "y"), record("d", "z")];
    let groups = AnalyticsEngine::analyze_author_patterns(&records);
    let held: usize = groups.iter().map(|g| g.files.len()).sum();
    assert_eq!(held, records.len());
}

#[test]
fn port_round_trips_through_listen_address() {
    for port in [0u16, 7, 80, 4003, 65535] {
        assert_eq!(parse_port(&decimal(port as u64)), Some(port));
        let config = AgentConfig::from_settings(None, Some(decimal(port as u64)), None);
        assert_eq!(config.port, port);
        assert_eq!(config.listen_address(), format!("0.0.0.0:{}", port));
    }
}
