//! Wording of the terminal report.

use vstd::prelude::*;
use vstd::string::StringExecFns;
use crate::models::ChurnTrend;

verus! {

/// How a file's size is described.
pub open spec fn spec_size_label(loc: usize) -> Seq<char> {
    if loc > 500 {
        "large file"@
    } else if loc > 200 {
        "medium file"@
    } else if loc > 50 {
        "small file"@
    } else {
        "tiny file"@
    }
}

/// Description of a file by its lines of code.
pub fn size_label(loc: usize) -> (s: String)
    ensures
        s@ == spec_size_label(loc),
{
    if loc > 500 {
        String::from_str("large file")
    } else if loc > 200 {
        String::from_str("medium file")
    } else if loc > 50 {
        String::from_str("small file")
    } else {
        String::from_str("tiny file")
    }
}

/// How the ownership of a file is described.
pub open spec fn spec_ownership_label(authors: usize) -> Seq<char> {
    if authors > 4 {
        "fragmented"@
    } else if authors > 2 {
        "shared"@
    } else {
        "owned"@
    }
}

/// Description of a file by its number of authors.
pub fn ownership_label(authors: usize) -> (s: String)
    ensures
        s@ == spec_ownership_label(authors),
{
    if authors > 4 {
        String::from_str("fragmented")
    } else if authors > 2 {
        String::from_str("shared")
    } else {
        String::from_str("owned")
    }
}

/// Churn description from trend, activity and recency; `None` when none of
/// these settles it and the churn percentage alone decides.
pub open spec fn spec_churn_context(
    trend: ChurnTrend,
    recent_commits: usize,
    last_modified_days_ago: usize,
) -> Option<Seq<char>> {
    if trend == ChurnTrend::Degrading {
        Some("Degrading (churn increasing)"@)
    } else if trend == ChurnTrend::Improving {
        Some("Improving (was unstable, now stable)"@)
    } else if last_modified_days_ago > 14 {
        Some("Stable (recently refactored)"@)
    } else if recent_commits <= 2 && last_modified_days_ago <= 7 {
        Some("Stable (single change)"@)
    } else if recent_commits >= 3 && last_modified_days_ago <= 7 {
        Some("Unstable (multiple recent changes)"@)
    } else {
        None
    }
}

/// The churn context puts the trend first: a degrading or improving trend
/// is described as such whatever the activity and recency; only for a
/// stable trend do recency (over two weeks quiet), then a single recent
/// change or several recent changes (within a week) decide; otherwise the
/// percentage alone does.
pub proof fn law_churn_context_trend_first(trend: ChurnTrend, recent_commits: usize, days: usize)
    ensures
        trend == ChurnTrend::Degrading ==> spec_churn_context(trend, recent_commits, days) == Some(
            "Degrading (churn increasing)"@,
        ),
        trend == ChurnTrend::Improving ==> spec_churn_context(trend, recent_commits, days) == Some(
            "Improving (was unstable, now stable)"@,
        ),
        trend == ChurnTrend::Stable && days > 14 ==> spec_churn_context(trend, recent_commits, days) == Some(
            "Stable (recently refactored)"@,
        ),
        trend == ChurnTrend::Stable && days <= 7 && recent_commits <= 2 ==> spec_churn_context(
            trend,
            recent_commits,
            days,
        ) == Some("Stable (single change)"@),
        trend == ChurnTrend::Stable && days <= 7 && recent_commits >= 3 ==> spec_churn_context(
            trend,
            recent_commits,
            days,
        ) == Some("Unstable (multiple recent changes)"@),
        spec_churn_context(trend, recent_commits, days) is None <==> trend == ChurnTrend::Stable && 7 < days
            <= 14,
{
}

/// Describes a file's churn by what matters most: its trend first, then how
/// recently and how often it changed.
pub fn churn_context(trend: ChurnTrend, recent_commits: usize, last_modified_days_ago: usize) -> (r: Option<String>)
    ensures
        match r {
            Some(s) => spec_churn_context(trend, recent_commits, last_modified_days_ago) == Some(s@),
            None => spec_churn_context(trend, recent_commits, last_modified_days_ago) is None,
        },
        trend == ChurnTrend::Improving ==> (r matches Some(s) && s@ == "Improving (was unstable, now stable)"@),
        trend == ChurnTrend::Degrading ==> (r matches Some(s) && s@ == "Degrading (churn increasing)"@),
{
    match trend {
        ChurnTrend::Degrading => {
            return Some(String::from_str("Degrading (churn increasing)"));
        },
        ChurnTrend::Improving => {
            return Some(String::from_str("Improving (was unstable, now stable)"));
        },
        ChurnTrend::Stable => {},
    }
    if last_modified_days_ago > 14 {
        return Some(String::from_str("Stable (recently refactored)"));
    }
    if recent_commits <= 2 && last_modified_days_ago <= 7 {
        return Some(String::from_str("Stable (single change)"));
    }
    if recent_commits >= 3 && last_modified_days_ago <= 7 {
        return Some(String::from_str("Unstable (multiple recent changes)"));
    }
    None
}

} // verus!
