//! The integer and text side of risk scoring: refactoring detection,
//! recommendations and commit totals.

use vstd::prelude::*;
use vstd::string::StringExecFns;
use crate::models::{AuthorFrequency, ChurnTrend, LOCMetric, commit_sum};
use crate::text::{decimal, spec_decimal};

verus! {

/// Where a risk value stands against the thresholds the recommendations
/// use: above 8, above 5 (and at most 8), or at most 5.
#[derive(Debug, Clone, Copy, PartialEq, Eq, Hash, Structural)]
pub enum RiskBand {
    Low,
    High,
    VeryHigh,
}

impl RiskBand {
    /// Risk above 5.
    pub open spec fn above_five(self) -> bool {
        self != RiskBand::Low
    }

    /// Risk above 8.
    pub open spec fn above_eight(self) -> bool {
        self == RiskBand::VeryHigh
    }
}

/// The largest line count of a history (0 when empty).
pub open spec fn max_lines(h: Seq<LOCMetric>) -> nat
    decreases h.len(),
{
    if h.len() == 0 {
        0
    } else {
        let m = max_lines(h.drop_last());
        if h.last().lines > m {
            h.last().lines as nat
        } else {
            m
        }
    }
}

/// A history shrank since its peak: at least two entries, a non-zero
/// current count, and a peak above it. Gives (peak, current).
pub open spec fn spec_refactoring_candidate(h: Seq<LOCMetric>) -> Option<(usize, usize)> {
    if h.len() >= 2 && h.last().lines > 0 && max_lines(h) > h.last().lines {
        Some((max_lines(h) as usize, h.last().lines))
    } else {
        None
    }
}

/// The peak and current line counts of a history that shrank since its peak
/// (the candidates for refactoring detection), or `None`.
pub fn refactoring_candidate(loc_history: &[LOCMetric]) -> (r: Option<(usize, usize)>)
    ensures
        r == spec_refactoring_candidate(loc_history@),
{
    if loc_history.len() < 2 {
        return None;
    }
    let current = loc_history[loc_history.len() - 1].lines;
    let mut peak: usize = 0;
    let mut i: usize = 0;
    while i < loc_history.len()
        invariant
            i <= loc_history.len(),
            peak == max_lines(loc_history@.take(i as int)),
        decreases loc_history.len() - i,
    {
        proof {
            assert(loc_history@.take(i as int + 1).drop_last() =~= loc_history@.take(i as int));
        }
        if loc_history[i].lines > peak {
            peak = loc_history[i].lines;
        }
        i = i + 1;
    }
    proof {
        assert(loc_history@.take(loc_history.len() as int) =~= loc_history@);
    }
    if current == 0 || peak <= current {
        None
    } else {
        Some((peak, current))
    }
}

/// The reduction from `peak` to `current` lines, in percent rounded to the
/// nearest integer (halves up), when the file shrank by at least 30%;
/// otherwise `None`.
pub open spec fn spec_refactoring_percent(peak: usize, current: usize) -> Option<u32> {
    if current < peak && (peak - current) * 100 >= 30 * peak {
        Some((((peak - current) * 200 + peak) / (2 * peak)) as u32)
    } else {
        None
    }
}

/// The percent by which a file shrank from its peak, when that counts as a
/// refactoring (a reduction of 30% or more).
pub fn refactoring_percent(peak: usize, current: usize) -> (r: Option<u32>)
    ensures
        r == spec_refactoring_percent(peak, current),
{
    if current >= peak {
        return None;
    }
    let drop: u128 = (peak - current) as u128;
    let p: u128 = peak as u128;
    if drop * 100 < 30 * p {
        return None;
    }
    let pct: u128 = (drop * 200 + p) / (2 * p);
    proof {
        assert(drop <= p);
        assert(drop * 200 + p <= p * 201) by (nonlinear_arith)
            requires
                drop <= p,
        ;
        assert((drop * 200 + p) / (2 * p) <= 101) by (nonlinear_arith)
            requires
                drop * 200 + p <= p * 201,
                p > 0,
        ;
    }
    Some(pct as u32)
}

/// Refactoring detected in a line-count history: the reduction, in
/// percent, of a history that shrank by at least 30% from its peak.
pub fn detect_refactoring(loc_history: &[LOCMetric]) -> (r: Option<u32>)
    ensures
        r == (match spec_refactoring_candidate(loc_history@) {
            Some(pc) => spec_refactoring_percent(pc.0, pc.1),
            None => None,
        }),
{
    match refactoring_candidate(loc_history) {
        Some((peak, current)) => refactoring_percent(peak, current),
        None => None,
    }
}

/// A history grew: at least two entries and the last count above the first.
pub open spec fn spec_is_growing(h: Seq<LOCMetric>) -> bool {
    h.len() >= 2 && h.last().lines > h[0].lines
}

/// The recommendation for a file, by its risk band, size, authors, churn
/// trend, line history and detected refactoring (percent of reduction).
pub open spec fn spec_recommendation(
    band: RiskBand,
    loc: usize,
    authors: usize,
    trend: ChurnTrend,
    h: Seq<LOCMetric>,
    refactor_pct: Option<u32>,
) -> Seq<char> {
    if refactor_pct is Some {
        "Refactoring detected (LOC -"@ + spec_decimal(refactor_pct->0 as nat)
            + "%). Monitor stabilization"@
    } else if band.above_five() && loc > 100 && spec_is_growing(h) {
        "Growing with high churn - refactor needed"@
    } else if band.above_five() && loc < 100 {
        "Monitor - code instability, consider refactoring"@
    } else if trend == ChurnTrend::Degrading {
        "Degrading - churn increasing"@
    } else if band.above_five() && authors > 3 {
        "Refactor - fragmented ownership + high churn"@
    } else if band.above_eight() && loc > 200 {
        "Refactor immediately - large, unstable file"@
    } else if band.above_five() {
        "Monitor - high churn detected"@
    } else {
        "Safe - stable file"@
    }
}

/// The recommendations follow the priorities of the advice table: a
/// detected refactoring first; then, for risk above 5, a large file that
/// grew, or a small file; then a degrading churn trend, whatever the size
/// and the authors; then, for risk above 5, fragmented ownership; then, for
/// risk above 8, a large file; then any risk above 5; else the file is safe.
pub proof fn law_recommendation_priorities(
    band: RiskBand,
    loc: usize,
    authors: usize,
    trend: ChurnTrend,
    h: Seq<LOCMetric>,
    refactor_pct: Option<u32>,
)
    ensures
        ({
            let r = spec_recommendation(band, loc, authors, trend, h, refactor_pct);
            let high = band == RiskBand::High || band == RiskBand::VeryHigh;
            let growing = h.len() >= 2 && h[h.len() - 1].lines > h[0].lines;
            let grew_large = high && loc > 100 && growing;
            let small_unstable = high && loc < 100;
            let earlier = refactor_pct is Some || grew_large || small_unstable;
            &&& refactor_pct matches Some(p) ==> r == "Refactoring detected (LOC -"@ + spec_decimal(p as nat)
                + "%). Monitor stabilization"@
            &&& refactor_pct is None && grew_large ==> r == "Growing with high churn - refactor needed"@
            &&& refactor_pct is None && !grew_large && small_unstable ==> r
                == "Monitor - code instability, consider refactoring"@
            &&& !earlier && trend == ChurnTrend::Degrading ==> r == "Degrading - churn increasing"@
            &&& !earlier && trend != ChurnTrend::Degrading && high && authors > 3 ==> r
                == "Refactor - fragmented ownership + high churn"@
            &&& !earlier && trend != ChurnTrend::Degrading && band == RiskBand::VeryHigh && authors <= 3 && loc
                > 200 ==> r == "Refactor immediately - large, unstable file"@
            &&& !earlier && trend != ChurnTrend::Degrading && high && authors <= 3 && !(band == RiskBand::VeryHigh
                && loc > 200) ==> r == "Monitor - high churn detected"@
            &&& !earlier && trend != ChurnTrend::Degrading && !high ==> r == "Safe - stable file"@
        }),
{
}

/// Context-aware advice for a file.
pub fn generate_recommendation(
    band: RiskBand,
    loc: usize,
    authors: usize,
    trend: &ChurnTrend,
    loc_history: &[LOCMetric],
    refactor_pct: Option<u32>,
) -> (s: String)
    ensures
        s@ == spec_recommendation(band, loc, authors, *trend, loc_history@, refactor_pct),
        refactor_pct is None && !(band != RiskBand::Low && loc > 100 && loc_history@.len() >= 2
            && loc_history@[loc_history@.len() - 1].lines > loc_history@[0].lines) && !(band != RiskBand::Low
            && loc < 100) && *trend == ChurnTrend::Degrading ==> s@ == "Degrading - churn increasing"@,
{
    if let Some(pct) = refactor_pct {
        let mut s = String::from_str("Refactoring detected (LOC -");
        let digits = decimal(pct as u64);
        s.append(digits.as_str());
        s.append("%). Monitor stabilization");
        return s;
    }
    let high = match band {
        RiskBand::Low => false,
        _ => true,
    };
    let very_high = match band {
        RiskBand::VeryHigh => true,
        _ => false,
    };
    if high && loc > 100 {
        let growing = loc_history.len() >= 2 && loc_history[loc_history.len() - 1].lines
            > loc_history[0].lines;
        if growing {
            return String::from_str("Growing with high churn - refactor needed");
        }
    }
    if high && loc < 100 {
        return String::from_str("Monitor - code instability, consider refactoring");
    }
    if *trend == ChurnTrend::Degrading {
        return String::from_str("Degrading - churn increasing");
    }
    if high && authors > 3 {
        return String::from_str("Refactor - fragmented ownership + high churn");
    }
    if very_high && loc > 200 {
        return String::from_str("Refactor immediately - large, unstable file");
    }
    if high {
        String::from_str("Monitor - high churn detected")
    } else {
        String::from_str("Safe - stable file")
    }
}

/// An isolated recent change: modified in the last week (but not today),
/// by at most two commits, in a file under 100 lines. Such changes are
/// usually bug fixes, and their risk is halved.
pub fn is_isolated_recent_change(recent_commits: usize, days_since_modified: usize, loc: usize) -> (r: bool)
    ensures
        r == (0 < days_since_modified <= 7 && recent_commits <= 2 && loc < 100),
{
    days_since_modified > 0 && days_since_modified <= 7 && recent_commits <= 2 && loc < 100
}

/// Days since a file was last changed: whole days from `last_change` to
/// `now` (both in seconds since the Unix epoch), 0 when the change lies in
/// the future, and 999 when the file has no recorded change.
pub fn days_since_modified(last_change: Option<i64>, now: i64) -> (d: usize)
    ensures
        d == (match last_change {
            Some(t) => if now - t > 0 {
                ((now - t) / 86400) as usize
            } else {
                0usize
            },
            None => 999usize,
        }),
{
    match last_change {
        Some(t) => {
            let elapsed: i128 = now as i128 - t as i128;
            if elapsed > 0 {
                let days: i128 = elapsed / 86400;
                days as usize
            } else {
                0
            }
        },
        None => 999,
    }
}

proof fn lemma_commit_sum_prefix(authors: Seq<AuthorFrequency>, n: int)
    requires
        0 <= n <= authors.len(),
    ensures
        commit_sum(authors.take(n)) <= commit_sum(authors),
    decreases authors.len() - n,
{
    if n < authors.len() {
        assert(authors.take(n + 1).drop_last() =~= authors.take(n));
        lemma_commit_sum_prefix(authors, n + 1);
    } else {
        assert(authors.take(n) =~= authors);
    }
}

/// Number of commits recorded for a file: the sum over its authors.
pub fn recent_commit_count(authors: &Vec<AuthorFrequency>) -> (n: usize)
    requires
        commit_sum(authors@) <= usize::MAX,
    ensures
        n == commit_sum(authors@),
{
    let mut total: usize = 0;
    let mut i: usize = 0;
    while i < authors.len()
        invariant
            i <= authors.len(),
            total == commit_sum(authors@.take(i as int)),
            commit_sum(authors@) <= usize::MAX,
        decreases authors.len() - i,
    {
        proof {
            assert(authors@.take(i as int + 1).drop_last() =~= authors@.take(i as int));
            lemma_commit_sum_prefix(authors@, i as int + 1);
        }
        total = total + authors[i].commits;
        i = i + 1;
    }
    proof {
        assert(authors@.take(authors.len() as int) =~= authors@);
    }
    total
}

} // verus!
