# Warden

Historical code-quality analysis of a Git repository: line counts, churn,
author frequency and complexity per file, risk scores and churn forecasts.

## Layout

- `src/` — the verified library. It holds the integer, text and decision
  logic: reading the commit history out of `git log` output (`git_parser`,
  with `split` and `numbers`), per-file activity gathered from commits
  (`metrics`), grouping of
  files by author (`analytics`), refactoring candidates, recommendations and
  commit totals (`risk_scorer`), report wording (`ui`, `models`,
  `churn_reporter`), the agent's settings (`agent_config`) and command
  protocol (`commands`), and cache validity (`cache`). Calendar conversions
  go through `chrono` (`time`).
- `app/` — the command-line program and the agent server: running `git log`,
  file I/O, HTTP, serialization, and every computation on floating-point values
  (churn percentages, regression forecasts, risk scores), which the
  verified library does not hold.
- `tests/` — tests of the library.
