//! Warden: historical code-quality analysis of a Git repository.
//!
//! The verified core holds the integer, text and decision logic of the
//! analysis: per-file activity gathered from commits, author grouping,
//! refactoring detection, recommendations, report labels, agent settings
//! and the command protocol of the agent mode.

pub mod text;
pub mod split;
pub mod numbers;
pub mod models;
pub mod error;
pub mod time;
pub mod git_parser;
pub mod metrics;
pub mod analytics;
pub mod risk_scorer;
pub mod churn_reporter;
pub mod ui;
pub mod cache;
pub mod predictor;
pub mod agent_config;
pub mod commands;
