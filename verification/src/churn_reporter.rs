//! Churn reporting: recurring patterns and the most changed file of a week.

use vstd::prelude::*;
use vstd::string::StringExecFns;
use crate::text::texts;
use crate::time::{calendar_day, spec_calendar_day, FIRST_REPRESENTABLE_SECS, LAST_REPRESENTABLE_SECS};

verus! {

broadcast use vstd::seq_lib::group_seq_properties;

/// A pattern noticed in the churn history.
#[derive(Debug, Clone)]
pub struct Pattern {
    pub description: String,
    pub severity: String,
}

impl Pattern {
    /// Churn rose by more than half against the earlier period.
    pub fn rising_churn() -> (p: Pattern)
        ensures
            p.description@ == "La tasa de churn está incrementando (>50% vs período anterior)"@,
            p.severity@ == "warning"@,
    {
        Pattern {
            description: String::from_str("La tasa de churn está incrementando (>50% vs período anterior)"),
            severity: String::from_str("warning"),
        }
    }

    /// One file concentrates far more churn than any other.
    pub fn dominant_file(file: &str) -> (p: Pattern)
        ensures
            p.description@ == file@ + " concentra más cambios que ningún otro archivo (posible hotspot)"@,
            p.severity@ == "warning"@,
    {
        let mut description = String::from_str(file);
        description.append(" concentra más cambios que ningún otro archivo (posible hotspot)");
        Pattern { description, severity: String::from_str("warning") }
    }

    /// The average churn over the weeks is high.
    pub fn high_average_churn() -> (p: Pattern)
        ensures
            p.description@ == "Churn promedio alto (>60%) - posible deuda técnica acumulada"@,
            p.severity@ == "critical"@,
    {
        Pattern {
            description: String::from_str("Churn promedio alto (>60%) - posible deuda técnica acumulada"),
            severity: String::from_str("critical"),
        }
    }
}

/// Integer division rounding toward zero, as Rust's `/` on signed integers.
pub open spec fn trunc_div(d: int, k: int) -> int {
    if d >= 0 {
        d / k
    } else {
        -((-d) / k)
    }
}

/// The week a churn sample `days_ago` days old falls in, counted back from
/// now (week 0 is the last seven days), when it is one of the `weeks`
/// reported: the day count divided by seven, rounded toward zero, taken as
/// a `usize`.
pub open spec fn spec_week_index(days_ago: i64, weeks: usize) -> Option<usize> {
    if (trunc_div(days_ago as int, 7) as usize) < weeks {
        Some(trunc_div(days_ago as int, 7) as usize)
    } else {
        None
    }
}

/// The week a churn sample falls in, if it is one of the weeks reported.
pub fn week_index(days_ago: i64, weeks: usize) -> (r: Option<usize>)
    ensures
        r == spec_week_index(days_ago, weeks),
{
    let week_num = (days_ago / 7) as usize;
    if week_num < weeks {
        Some(week_num)
    } else {
        None
    }
}

/// The positions, among the first `n` samples, of those in week `w`, in
/// order.
pub open spec fn week_members(days_ago: Seq<i64>, weeks: usize, w: usize, n: nat) -> Seq<usize>
    decreases n,
{
    if n == 0 {
        Seq::empty()
    } else {
        let before = week_members(days_ago, weeks, w, (n - 1) as nat);
        if spec_week_index(days_ago[n - 1], weeks) == Some(w) {
            before.push((n - 1) as usize)
        } else {
            before
        }
    }
}

/// The weeks from `lo` up to `weeks`, newest last: each week that holds
/// samples, with the positions of its samples, the oldest week first.
pub open spec fn week_groups_from(days_ago: Seq<i64>, weeks: usize, lo: nat) -> Seq<(usize, Seq<usize>)>
    decreases weeks - lo,
{
    if lo >= weeks {
        Seq::empty()
    } else {
        let members = week_members(days_ago, weeks, lo as usize, days_ago.len());
        week_groups_from(days_ago, weeks, lo + 1) + (if members.len() > 0 {
            seq![(lo as usize, members)]
        } else {
            Seq::empty()
        })
    }
}

/// A sample is among the first `n` positions of week `w` exactly when it
/// is one of those positions and falls in week `w`.
proof fn lemma_week_members(days_ago: Seq<i64>, weeks: usize, w: usize, n: nat)
    requires
        n <= days_ago.len() <= usize::MAX,
    ensures
        forall|i: int| 0 <= i < n ==> (week_members(days_ago, weeks, w, n).contains(i as usize)
            <==> spec_week_index(days_ago[i], weeks) == Some(w)),
        forall|j: int| 0 <= j < week_members(days_ago, weeks, w, n).len() ==> {
            let x = #[trigger] week_members(days_ago, weeks, w, n)[j];
            x < n && spec_week_index(days_ago[x as int], weeks) == Some(w)
        },
        forall|a: int, b: int|
            0 <= a < b < week_members(days_ago, weeks, w, n).len() ==> #[trigger] week_members(days_ago, weeks, w, n)[a]
                < #[trigger] week_members(days_ago, weeks, w, n)[b],
    decreases n,
{
    if n > 0 {
        lemma_week_members(days_ago, weeks, w, (n - 1) as nat);
        let before = week_members(days_ago, weeks, w, (n - 1) as nat);
        let m = week_members(days_ago, weeks, w, n);
        let last: usize = (n - 1) as usize;
        if spec_week_index(days_ago[n - 1], weeks) == Some(w) {
            assert(m == before.push(last));
            assert forall|i: int| 0 <= i < n implies (m.contains(i as usize) <==> spec_week_index(days_ago[i], weeks)
                == Some(w)) by {
                if i == n - 1 {
                    assert(m[m.len() - 1] == last);
                } else {
                    if m.contains(i as usize) {
                        let j = choose|j: int| 0 <= j < m.len() && m[j] == i as usize;
                        if j == m.len() - 1 {
                            assert(m[j] == last);
                        } else {
                            assert(before[j] == i as usize);
                        }
                    }
                    if before.contains(i as usize) {
                        let j = choose|j: int| 0 <= j < before.len() && before[j] == i as usize;
                        assert(m[j] == i as usize);
                    }
                }
            }
            assert forall|a: int, b: int| 0 <= a < b < m.len() implies #[trigger] m[a] < #[trigger] m[b] by {
                if b == m.len() - 1 {
                    assert(before[a] < n - 1);
                } else {
                    assert(before[a] < before[b]);
                }
            }
            assert forall|j: int| 0 <= j < m.len() implies (#[trigger] m[j]) < n && spec_week_index(
                days_ago[m[j] as int],
                weeks,
            ) == Some(w) by {
                if j < m.len() - 1 {
                    assert(m[j] == before[j]);
                }
            }
        } else {
            assert(m == before);
            assert forall|i: int| 0 <= i < n implies (m.contains(i as usize) <==> spec_week_index(days_ago[i], weeks)
                == Some(w)) by {
                if i == n - 1 && m.contains(i as usize) {
                    let j = choose|j: int| 0 <= j < m.len() && m[j] == i as usize;
                    assert(before[j] < n - 1);
                }
            }
        }
    }
}

/// The groups from week `lo` on: each for a reported week at least `lo`,
/// with exactly that week's samples, none empty, older weeks first; and
/// every such week that holds samples has its group.
proof fn lemma_week_groups_from(days_ago: Seq<i64>, weeks: usize, lo: nat)
    ensures
        ({
            let g = week_groups_from(days_ago, weeks, lo);
            &&& forall|k: int| 0 <= k < g.len() ==> lo <= (#[trigger] g[k]).0 < weeks && g[k].1 == week_members(
                days_ago,
                weeks,
                g[k].0,
                days_ago.len(),
            ) && g[k].1.len() > 0
            &&& forall|a: int, b: int| 0 <= a < b < g.len() ==> (#[trigger] g[a]).0 > (#[trigger] g[b]).0
            &&& forall|w: usize|
                lo <= w < weeks && week_members(days_ago, weeks, w, days_ago.len()).len() > 0 ==> exists|k: int|
                    0 <= k < g.len() && (#[trigger] g[k]).0 == w
        }),
    decreases weeks - lo,
{
    if lo < weeks {
        lemma_week_groups_from(days_ago, weeks, lo + 1);
        let rest = week_groups_from(days_ago, weeks, lo + 1);
        let members = week_members(days_ago, weeks, lo as usize, days_ago.len());
        let g = week_groups_from(days_ago, weeks, lo);
        if members.len() > 0 {
            assert(g == rest + seq![(lo as usize, members)]);
            assert forall|w: usize|
                lo <= w < weeks && week_members(days_ago, weeks, w, days_ago.len()).len() > 0 implies exists|k: int|
                0 <= k < g.len() && (#[trigger] g[k]).0 == w by {
                if w == lo {
                    assert(g[g.len() - 1].0 == w);
                } else {
                    let k = choose|k: int| 0 <= k < rest.len() && (#[trigger] rest[k]).0 == w;
                    assert(g[k] == rest[k]);
                }
            }
        } else {
            assert(g =~= rest);
        }
    }
}

/// Every reported sample is in the group of its week: the groups list each
/// week below `weeks` that holds samples once, oldest first, each with
/// exactly the positions (in order) of the samples that fall in that week;
/// a sample is in some group exactly when it falls in a reported week.
pub proof fn law_week_groups_complete(days_ago: Seq<i64>, weeks: usize)
    requires
        days_ago.len() <= usize::MAX,
    ensures
        ({
            let g = week_groups_from(days_ago, weeks, 0);
            &&& forall|k: int| 0 <= k < g.len() ==> (#[trigger] g[k]).0 < weeks && g[k].1.len() > 0
            &&& forall|k: int, j: int| 0 <= k < g.len() && 0 <= j < g[k].1.len() ==> (#[trigger] g[k].1[j]) < days_ago.len()
                && spec_week_index(days_ago[g[k].1[j] as int], weeks) == Some(g[k].0)
            &&& forall|k: int, a: int, b: int| 0 <= k < g.len() && 0 <= a < b < g[k].1.len() ==> #[trigger] g[k].1[a] < #[trigger] g[k].1[b]
            &&& forall|a: int, b: int| 0 <= a < b < g.len() ==> (#[trigger] g[a]).0 > (#[trigger] g[b]).0
            &&& forall|i: int| 0 <= i < days_ago.len() && #[trigger] spec_week_index(days_ago[i], weeks) is Some
                ==> exists|k: int| 0 <= k < g.len() && (#[trigger] g[k]).0 == spec_week_index(days_ago[i], weeks)->0
                && g[k].1.contains(i as usize)
        }),
{
    let g = week_groups_from(days_ago, weeks, 0);
    lemma_week_groups_from(days_ago, weeks, 0);
    assert forall|k: int, j: int| 0 <= k < g.len() && 0 <= j < g[k].1.len() implies (#[trigger] g[k].1[j]) < days_ago.len()
        && spec_week_index(days_ago[g[k].1[j] as int], weeks) == Some(g[k].0) by {
        lemma_week_members(days_ago, weeks, g[k].0, days_ago.len());
    }
    assert forall|k: int, a: int, b: int| 0 <= k < g.len() && 0 <= a < b < g[k].1.len() implies #[trigger] g[k].1[a]
        < #[trigger] g[k].1[b] by {
        lemma_week_members(days_ago, weeks, g[k].0, days_ago.len());
    }
    assert forall|i: int| 0 <= i < days_ago.len() && #[trigger] spec_week_index(days_ago[i], weeks) is Some
        implies exists|k: int| 0 <= k < g.len() && (#[trigger] g[k]).0 == spec_week_index(days_ago[i], weeks)->0
        && g[k].1.contains(i as usize) by {
        let w = spec_week_index(days_ago[i], weeks)->0;
        lemma_week_members(days_ago, weeks, w, days_ago.len());
        let m = week_members(days_ago, weeks, w, days_ago.len());
        assert(m.contains(i as usize));
        assert(w < weeks);
        assert(m.len() > 0);
        let k = choose|k: int| 0 <= k < g.len() && (#[trigger] g[k]).0 == w;
        assert(g[k].1 == m);
    }
}

/// The view of week groups.
pub open spec fn groups_view(g: Seq<(usize, Vec<usize>)>) -> Seq<(usize, Seq<usize>)> {
    g.map_values(|x: (usize, Vec<usize>)| (x.0, x.1@))
}

/// Positions of the samples (given by their age in days) that fall in week
/// `w`, in order.
fn members_of_week(days_ago: &Vec<i64>, weeks: usize, w: usize) -> (r: Vec<usize>)
    ensures
        r@ == week_members(days_ago@, weeks, w, days_ago@.len()),
{
    let mut r: Vec<usize> = Vec::new();
    let mut i: usize = 0;
    while i < days_ago.len()
        invariant
            i <= days_ago@.len(),
            r@ == week_members(days_ago@, weeks, w, i as nat),
        decreases days_ago@.len() - i,
    {
        let k = week_index(days_ago[i], weeks);
        if k == Some(w) {
            r.push(i);
        }
        i = i + 1;
    }
    r
}

/// Groups churn samples, given by their age in days, into the reported
/// weeks: one group per week that holds samples, with the positions of its
/// samples in order, the oldest week first.
pub fn week_groups(days_ago: &Vec<i64>, weeks: usize) -> (g: Vec<(usize, Vec<usize>)>)
    ensures
        groups_view(g@) == week_groups_from(days_ago@, weeks, 0),
        forall|k: int| 0 <= k < g@.len() ==> (#[trigger] g@[k]).0 < weeks && g@[k].1@.len() > 0,
        forall|i: int|
            0 <= i < days_ago@.len() && #[trigger] spec_week_index(days_ago@[i], weeks) is Some ==> exists|k: int|
                0 <= k < g@.len() && (#[trigger] g@[k]).0 == spec_week_index(days_ago@[i], weeks)->0
                    && g@[k].1@.contains(i as usize),
{
    let mut g: Vec<(usize, Vec<usize>)> = Vec::new();
    let mut w: usize = weeks;
    assert(groups_view(g@) =~= week_groups_from(days_ago@, weeks, weeks as nat));
    while w > 0
        invariant
            w <= weeks,
            groups_view(g@) == week_groups_from(days_ago@, weeks, w as nat),
        decreases w,
    {
        w = w - 1;
        let members = members_of_week(days_ago, weeks, w);
        let ghost before = g@;
        if members.len() > 0 {
            g.push((w, members));
            assert(groups_view(g@) =~= groups_view(before).push((w, members@)));
        } else {
            assert(groups_view(g@) =~= groups_view(before) + Seq::<(usize, Seq<usize>)>::empty());
        }
        assert(week_groups_from(days_ago@, weeks, w as nat) == week_groups_from(days_ago@, weeks, (w + 1) as nat) + (
        if members@.len() > 0 {
            seq![(w, members@)]
        } else {
            Seq::empty()
        }));
    }
    let count = days_ago.len();
    proof {
        assert(days_ago@.len() == count);
        law_week_groups_complete(days_ago@, weeks);
        let v = groups_view(g@);
        assert forall|k: int| 0 <= k < g@.len() implies (#[trigger] g@[k]).0 < weeks && g@[k].1@.len() > 0 by {
            assert(v[k] == (g@[k].0, g@[k].1@));
        }
        assert forall|i: int|
            0 <= i < days_ago@.len() && #[trigger] spec_week_index(days_ago@[i], weeks) is Some implies exists|k: int|
                0 <= k < g@.len() && (#[trigger] g@[k]).0 == spec_week_index(days_ago@[i], weeks)->0
                    && g@[k].1@.contains(i as usize) by {
            let k = choose|k: int| 0 <= k < v.len() && (#[trigger] v[k]).0 == spec_week_index(days_ago@[i], weeks)->0
                && v[k].1.contains(i as usize);
            assert(v[k] == (g@[k].0, g@[k].1@));
        }
    }
    g
}

/// The moment `week` weeks before `now` (seconds since the epoch).
pub open spec fn week_start_secs(now: i64, week: usize) -> int {
    now - week * 604800
}

/// The label of a reported week: the calendar day, `YYYY-MM-DD` in UTC, of
/// the moment `week` weeks before `now` (seconds since the epoch); `None`
/// when that moment lies outside the calendar range.
pub fn week_start_label(now: i64, week: usize) -> (r: Option<String>)
    ensures
        r is Some <==> FIRST_REPRESENTABLE_SECS <= week_start_secs(now, week) <= LAST_REPRESENTABLE_SECS,
        r matches Some(day) ==> day@ == spec_calendar_day(week_start_secs(now, week) as i64),
{
    let start: i128 = now as i128 - (week as i128) * 604800;
    if start < FIRST_REPRESENTABLE_SECS as i128 || start > LAST_REPRESENTABLE_SECS as i128 {
        return None;
    }
    calendar_day(start as i64)
}

/// Builds churn reports from an analysis.
pub struct ChurnReporter;

/// Whether a text equals `x`.
pub open spec fn equals(x: Seq<char>) -> spec_fn(Seq<char>) -> bool {
    |y: Seq<char>| y == x
}

/// How many times `x` occurs in `s`.
pub open spec fn occurrences(s: Seq<Seq<char>>, x: Seq<char>) -> nat {
    s.filter(equals(x)).len()
}

/// `r` is the file changed most often in `files`; among equally frequent
/// files, the one that appears first. With no files, the empty text.
pub open spec fn is_most_changed(files: Seq<Seq<char>>, r: Seq<char>) -> bool {
    if files.len() == 0 {
        r == Seq::<char>::empty()
    } else {
        exists|i: int|
            0 <= i < files.len() && files[i] == r && (forall|j: int|
                0 <= j < files.len() ==> occurrences(files, #[trigger] files[j]) <= occurrences(files, r))
                && (forall|j: int| 0 <= j < i ==> occurrences(files, #[trigger] files[j]) < occurrences(files, r))
    }
}

/// Number of entries of `files` equal to `x`.
fn count_occurrences(files: &Vec<String>, x: &str) -> (n: usize)
    ensures
        n == occurrences(texts(files@), x@),
{
    let mut n: usize = 0;
    let mut k: usize = 0;
    while k < files.len()
        invariant
            k <= files.len(),
            n == occurrences(texts(files@).take(k as int), x@),
            n <= k,
        decreases files.len() - k,
    {
        proof {
            let t = texts(files@);
            assert(t.take(k as int + 1) =~= t.take(k as int).push(t[k as int]));
            t.take(k as int).lemma_filter_push(t[k as int], equals(x@));
        }
        if crate::text::text_eq(files[k].as_str(), x) {
            n = n + 1;
        }
        k = k + 1;
    }
    proof {
        assert(texts(files@).take(files.len() as int) =~= texts(files@));
    }
    n
}

/// The file changed most often; the first of the most frequent ones.
pub fn most_changed_file(files: &Vec<String>) -> (r: String)
    ensures
        is_most_changed(texts(files@), r@),
{
    let ghost t = texts(files@);
    if files.len() == 0 {
        return String::new();
    }
    let mut best: usize = 0;
    let mut best_count = count_occurrences(files, files[0].as_str());
    let mut i: usize = 1;
    while i < files.len()
        invariant
            1 <= i <= files.len(),
            t == texts(files@),
            best < i,
            best_count == occurrences(t, t[best as int]),
            forall|j: int| 0 <= j < i ==> occurrences(t, #[trigger] t[j]) <= best_count,
            forall|j: int| 0 <= j < best ==> occurrences(t, #[trigger] t[j]) < best_count,
        decreases files.len() - i,
    {
        let c = count_occurrences(files, files[i].as_str());
        if c > best_count {
            best = i;
            best_count = c;
        }
        i = i + 1;
    }
    let r = files[best].clone();
    assert(t[best as int] == r@);
    r
}

} // verus!
