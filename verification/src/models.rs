//! Data model: metric records, severity and trend classifications.

use vstd::prelude::*;
use vstd::string::StringExecFns;
use crate::time::{calendar_day, spec_calendar_day, spec_timestamp_representable};
use crate::text::{decimal, distinct_count, spec_decimal, texts};

verus! {

/// Alert severity levels, from least to most severe.
#[derive(Debug, Clone, Copy, PartialEq, Eq, PartialOrd, Ord, Hash, Structural)]
pub enum AlertSeverity {
    Info,
    Warning,
    Critical,
}

/// Overall trend direction of a repository.
#[derive(Debug, Clone, Copy, PartialEq, Eq, Hash, Structural)]
pub enum Trend {
    Improving,
    Stable,
    Degrading,
}

impl Trend {
    pub open spec fn spec_label(self) -> Seq<char> {
        match self {
            Trend::Improving => "✅ Improving"@,
            Trend::Stable => "→ Stable"@,
            Trend::Degrading => "⚠️ Degrading"@,
        }
    }

    /// The text shown for this trend.
    pub fn label(&self) -> (s: String)
        ensures
            s@ == self.spec_label(),
    {
        match self {
            Trend::Improving => String::from_str("✅ Improving"),
            Trend::Stable => String::from_str("→ Stable"),
            Trend::Degrading => String::from_str("⚠️ Degrading"),
        }
    }
}

/// Risk classification level of a file.
#[derive(Debug, Clone, Copy, PartialEq, Eq, Hash, Structural)]
pub enum RiskLevel {
    Safe,
    Monitor,
    Alert,
    Critical,
}

impl RiskLevel {
    pub open spec fn spec_label(self) -> Seq<char> {
        match self {
            RiskLevel::Safe => "✅ Safe"@,
            RiskLevel::Monitor => "⚠️ Monitor"@,
            RiskLevel::Alert => "🔴 Alert"@,
            RiskLevel::Critical => "🔴🔴 Critical"@,
        }
    }

    /// The text shown for this level.
    pub fn label(&self) -> (s: String)
        ensures
            s@ == self.spec_label(),
    {
        match self {
            RiskLevel::Safe => String::from_str("✅ Safe"),
            RiskLevel::Monitor => String::from_str("⚠️ Monitor"),
            RiskLevel::Alert => String::from_str("🔴 Alert"),
            RiskLevel::Critical => String::from_str("🔴🔴 Critical"),
        }
    }
}

/// Direction in which the churn of one file moves.
#[derive(Debug, Clone, Copy, PartialEq, Eq, Hash, Structural)]
pub enum ChurnTrend {
    Improving,
    Degrading,
    Stable,
}

impl ChurnTrend {
    pub open spec fn spec_label(self) -> Seq<char> {
        match self {
            ChurnTrend::Improving => "↑ Improving"@,
            ChurnTrend::Degrading => "↓ Degrading"@,
            ChurnTrend::Stable => "→ Stable"@,
        }
    }

    /// The text shown for this churn trend.
    pub fn label(&self) -> (s: String)
        ensures
            s@ == self.spec_label(),
    {
        match self {
            ChurnTrend::Improving => String::from_str("↑ Improving"),
            ChurnTrend::Degrading => String::from_str("↓ Degrading"),
            ChurnTrend::Stable => String::from_str("→ Stable"),
        }
    }
}

/// Warning levels of a churn forecast.
#[derive(Debug, Clone, Copy, PartialEq, Eq, Hash, Structural)]
pub enum PredictionWarning {
    Clear,
    Watch,
    Degrade,
    Critical,
}

impl PredictionWarning {
    pub open spec fn spec_label(self) -> Seq<char> {
        match self {
            PredictionWarning::Clear => "None"@,
            PredictionWarning::Watch => "Watch"@,
            PredictionWarning::Degrade => "Degrade"@,
            PredictionWarning::Critical => "Critical"@,
        }
    }

    /// The plain name of this warning level.
    pub fn label(&self) -> (s: String)
        ensures
            s@ == self.spec_label(),
    {
        match self {
            PredictionWarning::Clear => String::from_str("None"),
            PredictionWarning::Watch => String::from_str("Watch"),
            PredictionWarning::Degrade => String::from_str("Degrade"),
            PredictionWarning::Critical => String::from_str("Critical"),
        }
    }

    pub open spec fn spec_alert_label(self) -> Seq<char> {
        match self {
            PredictionWarning::Clear => "None"@,
            PredictionWarning::Watch => "⚠️ Watch"@,
            PredictionWarning::Degrade => "⚠️ Degrade"@,
            PredictionWarning::Critical => "🔴 Critical"@,
        }
    }

    /// The warning level as shown in alert listings, with its marker.
    pub fn alert_label(&self) -> (s: String)
        ensures
            s@ == self.spec_alert_label(),
    {
        match self {
            PredictionWarning::Clear => String::from_str("None"),
            PredictionWarning::Watch => String::from_str("⚠️ Watch"),
            PredictionWarning::Degrade => String::from_str("⚠️ Degrade"),
            PredictionWarning::Critical => String::from_str("🔴 Critical"),
        }
    }
}

/// How often one author touched one file.
#[derive(Debug, Clone)]
pub struct AuthorFrequency {
    pub file: String,
    pub author: String,
    pub commits: usize,
    pub lines_changed: usize,
}

impl AuthorFrequency {
    pub open spec fn spec_describe(self) -> Seq<char> {
        self.author@ + " modified "@ + self.file@ + " ("@ + spec_decimal(self.commits as nat)
            + " commits, "@ + spec_decimal(self.lines_changed as nat) + " lines)"@
    }

    /// One-line description: who modified what, how often.
    pub fn describe(&self) -> (s: String)
        ensures
            s@ == self.spec_describe(),
    {
        let mut s = self.author.clone();
        s.append(" modified ");
        s.append(self.file.as_str());
        s.append(" (");
        let c = decimal(self.commits as u64);
        s.append(c.as_str());
        s.append(" commits, ");
        let l = decimal(self.lines_changed as u64);
        s.append(l.as_str());
        s.append(" lines)");
        s
    }
}

/// Lines of code of a file at one moment (seconds since the Unix epoch).
#[derive(Debug, Clone)]
pub struct LOCMetric {
    pub file: String,
    pub timestamp: i64,
    pub lines: usize,
}

impl LOCMetric {
    pub open spec fn spec_describe(self) -> Option<Seq<char>> {
        if spec_timestamp_representable(self.timestamp) {
            Some(self.file@ + ": "@ + spec_decimal(self.lines as nat) + " LOC on "@ + spec_calendar_day(
                self.timestamp,
            ))
        } else {
            None
        }
    }

    /// One-line description: file, line count and calendar day; `None` when
    /// the timestamp lies outside the calendar range.
    pub fn describe(&self) -> (r: Option<String>)
        ensures
            match r {
                Some(s) => self.spec_describe() == Some(s@),
                None => self.spec_describe() is None,
            },
    {
        match calendar_day(self.timestamp) {
            Some(day) => {
                let mut s = self.file.clone();
                s.append(": ");
                let n = decimal(self.lines as u64);
                s.append(n.as_str());
                s.append(" LOC on ");
                s.append(day.as_str());
                Some(s)
            },
            None => None,
        }
    }
}

/// The author names of a list of author records.
pub open spec fn author_names(authors: Seq<AuthorFrequency>) -> Seq<Seq<char>> {
    authors.map_values(|a: AuthorFrequency| a.author@)
}

/// The most recent line count of a history, if it has any entry.
pub fn latest_loc(loc_history: &Vec<LOCMetric>) -> (r: Option<usize>)
    ensures
        r == (if loc_history@.len() == 0 {
            None
        } else {
            Some(loc_history@.last().lines)
        }),
{
    if loc_history.len() == 0 {
        None
    } else {
        Some(loc_history[loc_history.len() - 1].lines)
    }
}

/// Number of distinct authors among the records.
pub fn total_authors(authors: &Vec<AuthorFrequency>) -> (n: usize)
    ensures
        n == author_names(authors@).to_set().len(),
{
    let mut names: Vec<String> = Vec::new();
    let mut i: usize = 0;
    while i < authors.len()
        invariant
            i <= authors.len(),
            names@.len() == i,
            texts(names@) == author_names(authors@.take(i as int)),
        decreases authors.len() - i,
    {
        let ghost before = names@;
        let name = authors[i].author.clone();
        names.push(name);
        proof {
            assert forall|j: int| 0 <= j <= i implies #[trigger] texts(names@)[j] == author_names(
                authors@.take(i as int + 1),
            )[j] by {
                if j < i {
                    assert(names@[j] == before[j]);
                    assert(texts(before)[j] == author_names(authors@.take(i as int))[j]);
                }
            }
        }
        assert(texts(names@) =~= author_names(authors@.take(i as int + 1)));
        i = i + 1;
    }
    assert(authors@.take(authors.len() as int) =~= authors@);
    distinct_count(&names)
}

/// Sum of the commit counts of a list of author records.
pub open spec fn commit_sum(authors: Seq<AuthorFrequency>) -> nat
    decreases authors.len(),
{
    if authors.len() == 0 {
        0
    } else {
        commit_sum(authors.drop_last()) + authors.last().commits as nat
    }
}

} // verus!
