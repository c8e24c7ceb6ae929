//! Git history: commit records, and reading them out of `git log` output.

use vstd::prelude::*;
use crate::error::WardenError;
use crate::text::{distinct_count, text_eq, texts};
use crate::split::{ranges_view, split, split_ranges};
use crate::numbers::{parse_count, parse_seconds, spec_parse_count, spec_parse_seconds};

verus! {

broadcast use vstd::seq_lib::group_seq_properties;

/// One commit of the history.
#[derive(Debug, Clone)]
pub struct Commit {
    pub hash: String,
    pub author: String,
    pub message: String,
    pub timestamp: i64,
    pub files: Vec<String>,
}

/// Lines added to and deleted from one file by one commit.
#[derive(Debug, Clone)]
pub struct FileChange {
    pub file: String,
    pub additions: usize,
    pub deletions: usize,
}

/// A commit together with its per-file line changes.
#[derive(Debug, Clone)]
pub struct EnrichedCommit {
    pub hash: String,
    pub author: String,
    pub timestamp: i64,
    pub files: Vec<String>,
    pub file_changes: Vec<FileChange>,
}

/// Separates the commits of the log (ASCII record separator).
pub const RECORD_SEP: char = '\u{1e}';

/// Separates the fields of a commit (ASCII unit separator).
pub const FIELD_SEP: char = '\u{1f}';

/// A commit as the log describes it: (hash, author, message, timestamp,
/// changes as (file, lines added, lines deleted)).
pub type LogEntry = (Seq<char>, Seq<char>, Seq<char>, i64, Seq<(Seq<char>, usize, usize)>);

/// One `--numstat` line: lines added, a tab, lines deleted, a tab, the path.
pub open spec fn spec_change(line: Seq<char>) -> Option<(Seq<char>, usize, usize)> {
    let p = split(line, '\t');
    if p.len() == 3 && spec_parse_count(p[0]) is Some && spec_parse_count(p[1]) is Some {
        Some((p[2], spec_parse_count(p[0])->0, spec_parse_count(p[1])->0))
    } else {
        None
    }
}

/// Whether a line is not empty.
pub open spec fn nonempty() -> spec_fn(Seq<char>) -> bool {
    |l: Seq<char>| l.len() > 0
}

/// The changes a commit's `--numstat` block lists, one per non-empty line;
/// `None` when a non-empty line is not a `--numstat` line.
pub open spec fn spec_changes(block: Seq<char>) -> Option<Seq<(Seq<char>, usize, usize)>> {
    let lines = split(block, '\n');
    if forall|i: int| 0 <= i < lines.len() && (#[trigger] lines[i]).len() > 0 ==> spec_change(lines[i]) is Some {
        Some(lines.filter(nonempty()).map_values(|l: Seq<char>| spec_change(l)->0))
    } else {
        None
    }
}

/// One commit of the log: five fields (hash, author, timestamp, message,
/// `--numstat` block) separated by `FIELD_SEP`.
pub open spec fn spec_entry(record: Seq<char>) -> Option<LogEntry> {
    let f = split(record, FIELD_SEP);
    if f.len() == 5 && spec_parse_seconds(f[2]) is Some && spec_changes(f[4]) is Some {
        Some((f[0], f[1], f[3], spec_parse_seconds(f[2])->0, spec_changes(f[4])->0))
    } else {
        None
    }
}

/// The commit records of a log: the texts that follow each `RECORD_SEP`
/// (what comes before the first one is not a record).
pub open spec fn log_records(log: Seq<char>) -> Seq<Seq<char>> {
    split(log, RECORD_SEP).drop_first()
}

/// All commits of a log, newest first as `git log` lists them; `None` when
/// a record is malformed.
pub open spec fn spec_entries(log: Seq<char>) -> Option<Seq<LogEntry>> {
    let recs = log_records(log);
    if forall|i: int| 0 <= i < recs.len() ==> spec_entry(#[trigger] recs[i]) is Some {
        Some(recs.map_values(|r: Seq<char>| spec_entry(r)->0))
    } else {
        None
    }
}

/// Days of history a period covers: `3m` 90, `6m` 180, `1y` 365, and 180
/// for any other.
pub open spec fn spec_period_days(period: Seq<char>) -> int {
    if period == "3m"@ {
        90
    } else if period == "6m"@ {
        180
    } else if period == "1y"@ {
        365
    } else {
        180
    }
}

/// The oldest moment (seconds since the epoch) a period reaches back to
/// from `now`.
pub open spec fn cutoff(now: i64, period: Seq<char>) -> int {
    now - spec_period_days(period) * 86400
}

/// How many of the commits, from the first, are not older than `cut`: the
/// walk stops at the first older one.
pub open spec fn recent_len(es: Seq<LogEntry>, cut: int) -> nat
    decreases es.len(),
{
    if es.len() == 0 || es[0].3 < cut {
        0
    } else {
        1 + recent_len(es.drop_first(), cut)
    }
}

/// The commits of the log within the period: those from the newest up to
/// the first one older than the cutoff. `None` when the log is malformed.
pub open spec fn spec_history(log: Seq<char>, now: i64, period: Seq<char>) -> Option<Seq<LogEntry>> {
    match spec_entries(log) {
        Some(es) => Some(es.take(recent_len(es, cutoff(now, period)) as int)),
        None => None,
    }
}

proof fn lemma_recent_len_monotone(es: Seq<LogEntry>, early: int, late: int)
    requires
        early <= late,
    ensures
        recent_len(es, late) <= recent_len(es, early),
        recent_len(es, early) <= es.len(),
    decreases es.len(),
{
    if es.len() > 0 {
        lemma_recent_len_monotone(es.drop_first(), early, late);
    }
}

/// A longer period reaches further back: the history read for it begins
/// with the whole history of a shorter period, from the same log and at
/// the same moment, and a log is malformed for both or for neither.
pub proof fn law_longer_period_extends_history(log: Seq<char>, now: i64, short: Seq<char>, long: Seq<char>)
    requires
        spec_period_days(short) <= spec_period_days(long),
    ensures
        spec_history(log, now, short) is Some <==> spec_history(log, now, long) is Some,
        spec_history(log, now, short) matches Some(a) ==> spec_history(log, now, long) matches Some(b)
            && a.len() <= b.len() && a == b.take(a.len() as int),
{
    if let Some(es) = spec_entries(log) {
        lemma_recent_len_monotone(es, cutoff(now, long), cutoff(now, short));
        let a = es.take(recent_len(es, cutoff(now, short)) as int);
        let b = es.take(recent_len(es, cutoff(now, long)) as int);
        assert(a =~= b.take(a.len() as int));
    }
}

/// The view of a file change.
pub open spec fn change_view(c: FileChange) -> (Seq<char>, usize, usize) {
    (c.file@, c.additions, c.deletions)
}

/// A commit as (hash, author, message, timestamp, files).
pub open spec fn commit_view(c: Commit) -> (Seq<char>, Seq<char>, Seq<char>, i64, Seq<Seq<char>>) {
    (c.hash@, c.author@, c.message@, c.timestamp, texts(c.files@))
}

/// What a log entry says of a commit.
pub open spec fn entry_commit(e: LogEntry) -> (Seq<char>, Seq<char>, Seq<char>, i64, Seq<Seq<char>>) {
    (e.0, e.1, e.2, e.3, e.4.map_values(|c: (Seq<char>, usize, usize)| c.0))
}

/// A commit with its changes as (hash, author, timestamp, files, changes).
pub open spec fn enriched_view(c: EnrichedCommit) -> (Seq<char>, Seq<char>, i64, Seq<Seq<char>>, Seq<(Seq<char>, usize, usize)>) {
    (c.hash@, c.author@, c.timestamp, texts(c.files@), c.file_changes@.map_values(|f: FileChange| change_view(f)))
}

/// What a log entry says of a commit with its changes.
pub open spec fn entry_enriched(e: LogEntry) -> (Seq<char>, Seq<char>, i64, Seq<Seq<char>>, Seq<(Seq<char>, usize, usize)>) {
    (e.0, e.1, e.3, e.4.map_values(|c: (Seq<char>, usize, usize)| c.0), e.4)
}

/// Calls std's `FromIterator<&char>` for `String` (`collect`) on
/// `s[from..to]`. The contract claims that the string holds exactly those
/// characters, in order, as std documents for collecting characters.
#[verifier::external_body]
fn chars_text(s: &Vec<char>, from: usize, to: usize) -> (r: String)
    requires
        from <= to <= s@.len(),
    ensures
        r@ == s@.subrange(from as int, to as int),
{
    s[from..to].iter().collect()
}

/// Reads one `--numstat` line, `s[from..to]`.
fn read_change(s: &Vec<char>, from: usize, to: usize) -> (r: Option<FileChange>)
    requires
        from <= to <= s@.len(),
    ensures
        match r {
            Some(c) => spec_change(s@.subrange(from as int, to as int)) == Some(change_view(c)),
            None => spec_change(s@.subrange(from as int, to as int)) is None,
        },
{
    let parts = split_ranges(s, from, to, '\t');
    if parts.len() != 3 {
        return None;
    }
    let ghost p = split(s@.subrange(from as int, to as int), '\t');
    assert(p[0] == s@.subrange(parts@[0].0 as int, parts@[0].1 as int));
    assert(p[1] == s@.subrange(parts@[1].0 as int, parts@[1].1 as int));
    assert(p[2] == s@.subrange(parts@[2].0 as int, parts@[2].1 as int));
    let additions = match parse_count(s, parts[0].0, parts[0].1) {
        Some(n) => n,
        None => {
            return None;
        },
    };
    let deletions = match parse_count(s, parts[1].0, parts[1].1) {
        Some(n) => n,
        None => {
            return None;
        },
    };
    let file = chars_text(s, parts[2].0, parts[2].1);
    Some(FileChange { file, additions, deletions })
}

/// Reads the `--numstat` block `s[from..to]` of one commit.
fn read_changes(s: &Vec<char>, from: usize, to: usize) -> (r: Option<Vec<FileChange>>)
    requires
        from <= to <= s@.len(),
    ensures
        match r {
            Some(v) => spec_changes(s@.subrange(from as int, to as int)) == Some(
                v@.map_values(|f: FileChange| change_view(f)),
            ),
            None => spec_changes(s@.subrange(from as int, to as int)) is None,
        },
{
    let lines = split_ranges(s, from, to, '\n');
    let ghost ls = split(s@.subrange(from as int, to as int), '\n');
    let mut out: Vec<FileChange> = Vec::new();
    let mut i: usize = 0;
    while i < lines.len()
        invariant
            i <= lines@.len(),
            from <= to <= s@.len(),
            ls == split(s@.subrange(from as int, to as int), '\n'),
            ranges_view(s@, lines@) == ls,
            forall|k: int| 0 <= k < lines@.len() ==> from <= (#[trigger] lines@[k]).0 <= lines@[k].1 <= to,
            forall|k: int| 0 <= k < i && (#[trigger] ls[k]).len() > 0 ==> spec_change(ls[k]) is Some,
            out@.map_values(|f: FileChange| change_view(f)) == ls.take(i as int).filter(nonempty()).map_values(
                |l: Seq<char>| spec_change(l)->0,
            ),
        decreases lines@.len() - i,
    {
        let (a, b) = lines[i];
        let ghost line = ls[i as int];
        assert(line == s@.subrange(a as int, b as int));
        proof {
            assert(ls.take(i as int + 1) =~= ls.take(i as int).push(line));
            ls.take(i as int).lemma_filter_push(line, nonempty());
        }
        if a < b {
            match read_change(s, a, b) {
                Some(c) => {
                    let ghost before = out@;
                    out.push(c);
                    assert(out@.map_values(|f: FileChange| change_view(f)) =~= before.map_values(
                        |f: FileChange| change_view(f),
                    ).push(spec_change(line)->0));
                },
                None => {
                    return None;
                },
            }
        } else {
            assert(line.len() == 0);
        }
        i = i + 1;
    }
    assert(ls.take(i as int) =~= ls);
    Some(out)
}

/// A commit read from the log, before it is cut to the period.
struct ParsedCommit {
    hash: String,
    author: String,
    message: String,
    timestamp: i64,
    changes: Vec<FileChange>,
}

spec fn parsed_view(c: ParsedCommit) -> LogEntry {
    (c.hash@, c.author@, c.message@, c.timestamp, c.changes@.map_values(|f: FileChange| change_view(f)))
}

/// Reads one commit record, `s[from..to]`.
fn read_entry(s: &Vec<char>, from: usize, to: usize) -> (r: Option<ParsedCommit>)
    requires
        from <= to <= s@.len(),
    ensures
        match r {
            Some(c) => spec_entry(s@.subrange(from as int, to as int)) == Some(parsed_view(c)),
            None => spec_entry(s@.subrange(from as int, to as int)) is None,
        },
{
    let f = split_ranges(s, from, to, FIELD_SEP);
    if f.len() != 5 {
        return None;
    }
    let ghost fs = split(s@.subrange(from as int, to as int), FIELD_SEP);
    assert(fs[0] == s@.subrange(f@[0].0 as int, f@[0].1 as int));
    assert(fs[1] == s@.subrange(f@[1].0 as int, f@[1].1 as int));
    assert(fs[2] == s@.subrange(f@[2].0 as int, f@[2].1 as int));
    assert(fs[3] == s@.subrange(f@[3].0 as int, f@[3].1 as int));
    assert(fs[4] == s@.subrange(f@[4].0 as int, f@[4].1 as int));
    let timestamp = match parse_seconds(s, f[2].0, f[2].1) {
        Some(t) => t,
        None => {
            return None;
        },
    };
    let changes = match read_changes(s, f[4].0, f[4].1) {
        Some(c) => c,
        None => {
            return None;
        },
    };
    let hash = chars_text(s, f[0].0, f[0].1);
    let author = chars_text(s, f[1].0, f[1].1);
    let message = chars_text(s, f[3].0, f[3].1);
    Some(ParsedCommit { hash, author, message, timestamp, changes })
}

/// Reads every commit of the log.
fn read_log(log: &Vec<char>) -> (r: Option<Vec<ParsedCommit>>)
    ensures
        match r {
            Some(v) => spec_entries(log@) == Some(v@.map_values(|c: ParsedCommit| parsed_view(c))),
            None => spec_entries(log@) is None,
        },
{
    let recs = split_ranges(log, 0, log.len(), RECORD_SEP);
    let ghost rs = log_records(log@);
    assert(log@.subrange(0, log@.len() as int) =~= log@);
    assert(rs =~= ranges_view(log@, recs@).drop_first());
    let mut out: Vec<ParsedCommit> = Vec::new();
    let mut k: usize = 1;
    while k < recs.len()
        invariant
            1 <= k <= recs@.len(),
            rs == log_records(log@),
            rs == ranges_view(log@, recs@).drop_first(),
            forall|j: int| 0 <= j < recs@.len() ==> (#[trigger] recs@[j]).0 <= recs@[j].1 <= log@.len(),
            forall|j: int| 0 <= j < k - 1 ==> spec_entry(#[trigger] rs[j]) is Some,
            out@.map_values(|c: ParsedCommit| parsed_view(c)) == rs.take(k - 1).map_values(
                |r: Seq<char>| spec_entry(r)->0,
            ),
        decreases recs@.len() - k,
    {
        let (a, b) = recs[k];
        assert(rs[k - 1] == log@.subrange(a as int, b as int));
        match read_entry(log, a, b) {
            Some(c) => {
                let ghost before = out@;
                out.push(c);
                assert(rs.take(k as int) =~= rs.take(k - 1).push(rs[k - 1]));
                assert(out@.map_values(|c: ParsedCommit| parsed_view(c)) =~= before.map_values(
                    |c: ParsedCommit| parsed_view(c),
                ).push(spec_entry(rs[k - 1])->0));
            },
            None => {
                assert(!(spec_entry(rs[k - 1]) is Some));
                return None;
            },
        }
        k = k + 1;
    }
    assert(rs.take(k - 1) =~= rs);
    Some(out)
}

/// Days of history a period covers.
pub fn period_days(period: &str) -> (d: u32)
    ensures
        d == spec_period_days(period@),
{
    if text_eq(period, "3m") {
        90
    } else if text_eq(period, "6m") {
        180
    } else if text_eq(period, "1y") {
        365
    } else {
        180
    }
}

/// Number of commits, from the newest, within the period.
fn recent_count(v: &Vec<ParsedCommit>, now: i64, period: &str) -> (n: usize)
    ensures
        n <= v@.len(),
        n == recent_len(v@.map_values(|c: ParsedCommit| parsed_view(c)), cutoff(now, period@)),
{
    let ghost es = v@.map_values(|c: ParsedCommit| parsed_view(c));
    let ghost cut = cutoff(now, period@);
    let limit: i128 = now as i128 - (period_days(period) as i128) * 86400;
    let mut n: usize = 0;
    while n < v.len()
        invariant
            n <= v@.len(),
            es == v@.map_values(|c: ParsedCommit| parsed_view(c)),
            cut == cutoff(now, period@),
            limit == cut,
            recent_len(es, cut) == n + recent_len(es.skip(n as int), cut),
        decreases v@.len() - n,
    {
        assert(es.skip(n as int)[0] == es[n as int]);
        if (v[n].timestamp as i128) < limit {
            return n;
        }
        assert(es.skip(n as int).drop_first() =~= es.skip(n as int + 1));
        n = n + 1;
    }
    assert(es.skip(n as int).len() == 0);
    n
}

/// Reads the commit history out of the text of `git log`, run as
/// `git log --no-renames --numstat --format=<RECORD_SEP>%H<FIELD_SEP>%an<FIELD_SEP>%at<FIELD_SEP>%B<FIELD_SEP>`,
/// keeping the commits of the period that ends at `now` (seconds since the
/// epoch): from the newest, up to the first older one. Each commit carries
/// the files its `--numstat` block lists. A malformed log is an error.
pub fn parse_git_history(log: &Vec<char>, now: i64, period: &str) -> (r: Result<Vec<Commit>, WardenError>)
    ensures
        match r {
            Ok(cs) => spec_history(log@, now, period@) matches Some(h) && cs@.map_values(
                |c: Commit| commit_view(c),
            ) == h.map_values(|e: LogEntry| entry_commit(e)),
            Err(e) => spec_history(log@, now, period@) is None && e == WardenError::MalformedLog,
        },
{
    let parsed = match read_log(log) {
        Some(v) => v,
        None => {
            return Err(WardenError::MalformedLog);
        },
    };
    let ghost es = parsed@.map_values(|c: ParsedCommit| parsed_view(c));
    let n = recent_count(&parsed, now, period);
    let mut out: Vec<Commit> = Vec::new();
    let mut i: usize = 0;
    while i < n
        invariant
            i <= n <= parsed@.len(),
            es == parsed@.map_values(|c: ParsedCommit| parsed_view(c)),
            out@.map_values(|c: Commit| commit_view(c)) == es.take(i as int).map_values(
                |e: LogEntry| entry_commit(e),
            ),
        decreases n - i,
    {
        let p = &parsed[i];
        let files = file_names(&p.changes);
        let c = Commit {
            hash: p.hash.clone(),
            author: p.author.clone(),
            message: p.message.clone(),
            timestamp: p.timestamp,
            files,
        };
        let ghost before = out@;
        out.push(c);
        assert(es[i as int] == parsed_view(parsed@[i as int]));
        assert(es.take(i as int + 1) =~= es.take(i as int).push(es[i as int]));
        assert(out@.map_values(|c: Commit| commit_view(c)) =~= before.map_values(|c: Commit| commit_view(c)).push(
            entry_commit(es[i as int]),
        ));
        i = i + 1;
    }
    Ok(out)
}

/// The files of a list of changes.
fn file_names(changes: &Vec<FileChange>) -> (r: Vec<String>)
    ensures
        texts(r@) == changes@.map_values(|f: FileChange| change_view(f)).map_values(
            |c: (Seq<char>, usize, usize)| c.0,
        ),
{
    let mut r: Vec<String> = Vec::new();
    let mut i: usize = 0;
    while i < changes.len()
        invariant
            i <= changes@.len(),
            texts(r@) == changes@.take(i as int).map_values(|f: FileChange| change_view(f)).map_values(
                |c: (Seq<char>, usize, usize)| c.0,
            ),
        decreases changes@.len() - i,
    {
        let ghost before = r@;
        r.push(changes[i].file.clone());
        assert(changes@.take(i as int + 1) =~= changes@.take(i as int).push(changes@[i as int]));
        assert(texts(r@) =~= texts(before).push(changes@[i as int].file@));
        i = i + 1;
    }
    assert(changes@.take(i as int) =~= changes@);
    r
}

fn copy_changes(changes: &Vec<FileChange>) -> (r: Vec<FileChange>)
    ensures
        r@.map_values(|f: FileChange| change_view(f)) == changes@.map_values(|f: FileChange| change_view(f)),
{
    let mut r: Vec<FileChange> = Vec::new();
    let mut i: usize = 0;
    while i < changes.len()
        invariant
            i <= changes@.len(),
            r@.map_values(|f: FileChange| change_view(f)) == changes@.take(i as int).map_values(
                |f: FileChange| change_view(f),
            ),
        decreases changes@.len() - i,
    {
        let ghost before = r@;
        let c = FileChange {
            file: changes[i].file.clone(),
            additions: changes[i].additions,
            deletions: changes[i].deletions,
        };
        r.push(c);
        assert(changes@.take(i as int + 1) =~= changes@.take(i as int).push(changes@[i as int]));
        assert(r@.map_values(|f: FileChange| change_view(f)) =~= before.map_values(|f: FileChange| change_view(f)).push(
            change_view(changes@[i as int]),
        ));
        i = i + 1;
    }
    assert(changes@.take(i as int) =~= changes@);
    r
}

/// Reads the commits of the period from the text of `git log` (in the form
/// `parse_git_history` reads) with their per-file line changes.
pub fn get_file_diffs(log: &Vec<char>, now: i64, period: &str) -> (r: Result<Vec<EnrichedCommit>, WardenError>)
    ensures
        match r {
            Ok(cs) => spec_history(log@, now, period@) matches Some(h) && cs@.map_values(
                |c: EnrichedCommit| enriched_view(c),
            ) == h.map_values(|e: LogEntry| entry_enriched(e)),
            Err(e) => spec_history(log@, now, period@) is None && e == WardenError::MalformedLog,
        },
{
    let parsed = match read_log(log) {
        Some(v) => v,
        None => {
            return Err(WardenError::MalformedLog);
        },
    };
    let ghost es = parsed@.map_values(|c: ParsedCommit| parsed_view(c));
    let n = recent_count(&parsed, now, period);
    let mut out: Vec<EnrichedCommit> = Vec::new();
    let mut i: usize = 0;
    while i < n
        invariant
            i <= n <= parsed@.len(),
            es == parsed@.map_values(|c: ParsedCommit| parsed_view(c)),
            out@.map_values(|c: EnrichedCommit| enriched_view(c)) == es.take(i as int).map_values(
                |e: LogEntry| entry_enriched(e),
            ),
        decreases n - i,
    {
        let p = &parsed[i];
        let c = EnrichedCommit {
            hash: p.hash.clone(),
            author: p.author.clone(),
            timestamp: p.timestamp,
            files: file_names(&p.changes),
            file_changes: copy_changes(&p.changes),
        };
        let ghost before = out@;
        out.push(c);
        assert(es[i as int] == parsed_view(parsed@[i as int]));
        assert(es.take(i as int + 1) =~= es.take(i as int).push(es[i as int]));
        assert(out@.map_values(|c: EnrichedCommit| enriched_view(c)) =~= before.map_values(
            |c: EnrichedCommit| enriched_view(c),
        ).push(entry_enriched(es[i as int])));
        i = i + 1;
    }
    Ok(out)
}

/// The author names of a list of commits.
pub open spec fn commit_authors(commits: Seq<Commit>) -> Seq<Seq<char>> {
    commits.map_values(|c: Commit| c.author@)
}

/// Number of distinct authors of the commits.
pub fn unique_authors(commits: &Vec<Commit>) -> (n: usize)
    ensures
        n == commit_authors(commits@).to_set().len(),
{
    let mut names: Vec<String> = Vec::new();
    let mut i: usize = 0;
    while i < commits.len()
        invariant
            i <= commits.len(),
            names@.len() == i,
            texts(names@) == commit_authors(commits@.take(i as int)),
        decreases commits.len() - i,
    {
        let ghost before = names@;
        let name = commits[i].author.clone();
        names.push(name);
        proof {
            assert forall|j: int| 0 <= j <= i implies #[trigger] texts(names@)[j] == commit_authors(
                commits@.take(i as int + 1),
            )[j] by {
                if j < i {
                    assert(names@[j] == before[j]);
                    assert(texts(before)[j] == commit_authors(commits@.take(i as int))[j]);
                }
            }
        }
        assert(texts(names@) =~= commit_authors(commits@.take(i as int + 1)));
        i = i + 1;
    }
    assert(commits@.take(commits.len() as int) =~= commits@);
    distinct_count(&names)
}

} // verus!
