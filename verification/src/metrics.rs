//! Per-file activity gathered from commits: line counts over time, churn
//! samples, and how often each author touched each file.

use vstd::prelude::*;
use vstd::string::StringExecFns;
use crate::error::WardenError;
use crate::git_parser::{EnrichedCommit, FileChange};
use crate::models::{AuthorFrequency, LOCMetric, author_names, commit_sum};
use crate::text::{first_seen, lemma_first_seen, lemma_first_seen_push};
use crate::time::{spec_timestamp_representable, timestamp_representable};

verus! {

broadcast use vstd::seq_lib::group_seq_properties;

/// One file change as the metrics see it:
/// (file, author, timestamp, lines added, lines deleted).
pub type ChangeEvent = (Seq<char>, Seq<char>, i64, usize, usize);

/// Whether a change touches file `f`.
pub open spec fn touches(f: Seq<char>) -> spec_fn(ChangeEvent) -> bool {
    |e: ChangeEvent| e.0 == f
}

/// Whether a change touches at least one line of file `f`.
pub open spec fn touches_lines(f: Seq<char>) -> spec_fn(ChangeEvent) -> bool {
    |e: ChangeEvent| e.0 == f && e.3 + e.4 > 0
}

/// Whether a change of file `f` was made by author `a`.
pub open spec fn touches_by(f: Seq<char>, a: Seq<char>) -> spec_fn(ChangeEvent) -> bool {
    |e: ChangeEvent| e.0 == f && e.1 == a
}

/// A change as a point of a line-count history: (timestamp, lines changed).
pub open spec fn loc_point() -> spec_fn(ChangeEvent) -> (i64, nat) {
    |e: ChangeEvent| (e.2, (e.3 + e.4) as nat)
}

/// A change as a churn sample: (timestamp, added, deleted).
pub open spec fn churn_point() -> spec_fn(ChangeEvent) -> (i64, usize, usize) {
    |e: ChangeEvent| (e.2, e.3, e.4)
}

/// The author of a change.
pub open spec fn author_of() -> spec_fn(ChangeEvent) -> Seq<char> {
    |e: ChangeEvent| e.1
}

/// The file of a change.
pub open spec fn file_of() -> spec_fn(ChangeEvent) -> Seq<char> {
    |e: ChangeEvent| e.0
}

/// A commit's changes, in order.
pub open spec fn commit_events(c: EnrichedCommit) -> Seq<ChangeEvent> {
    c.file_changes@.map_values(
        |ch: FileChange| (ch.file@, c.author@, c.timestamp, ch.additions, ch.deletions),
    )
}

/// All changes of a history, commit after commit.
pub open spec fn events(cs: Seq<EnrichedCommit>) -> Seq<ChangeEvent>
    decreases cs.len(),
{
    if cs.len() == 0 {
        Seq::empty()
    } else {
        events(cs.drop_last()) + commit_events(cs.last())
    }
}

/// The changes that touch file `f`.
pub open spec fn on_file(evs: Seq<ChangeEvent>, f: Seq<char>) -> Seq<ChangeEvent> {
    evs.filter(touches(f))
}

/// Line-count history of `f`: one (timestamp, added + deleted) per change.
pub open spec fn loc_entries(evs: Seq<ChangeEvent>, f: Seq<char>) -> Seq<(i64, nat)> {
    on_file(evs, f).map_values(loc_point())
}

/// The changes of `f` that touch at least one line.
pub open spec fn churned(evs: Seq<ChangeEvent>, f: Seq<char>) -> Seq<ChangeEvent> {
    evs.filter(touches_lines(f))
}

/// Churn samples of `f`: (timestamp, added, deleted) per change of a line or more.
pub open spec fn churn_entries(evs: Seq<ChangeEvent>, f: Seq<char>) -> Seq<(i64, usize, usize)> {
    churned(evs, f).map_values(churn_point())
}

/// Authors of the changes of `f`, one per change.
pub open spec fn authors_of(evs: Seq<ChangeEvent>, f: Seq<char>) -> Seq<Seq<char>> {
    on_file(evs, f).map_values(author_of())
}

/// The changes of `f` made by `a`.
pub open spec fn by_author(evs: Seq<ChangeEvent>, f: Seq<char>, a: Seq<char>) -> Seq<ChangeEvent> {
    evs.filter(touches_by(f, a))
}

/// Number of changes of `f` made by `a`.
pub open spec fn commit_count(evs: Seq<ChangeEvent>, f: Seq<char>, a: Seq<char>) -> nat {
    by_author(evs, f, a).len()
}

/// The files touched by the changes, each once, in order of first change.
pub open spec fn touched_files(evs: Seq<ChangeEvent>) -> Seq<Seq<char>> {
    first_seen(evs.map_values(file_of()))
}

/// Whether every commit that changes a file has a representable timestamp.
pub open spec fn commit_valid(c: EnrichedCommit) -> bool {
    c.file_changes@.len() == 0 || spec_timestamp_representable(c.timestamp)
}

/// No change of the history makes `additions + deletions` overflow.
pub open spec fn sizes_fit(cs: Seq<EnrichedCommit>) -> bool {
    forall|i: int, j: int|
        0 <= i < cs.len() && 0 <= j < cs[i].file_changes@.len() ==> #[trigger] cs[i].file_changes@[j].additions
            + cs[i].file_changes@[j].deletions <= usize::MAX
}

proof fn lemma_map_push<A, B>(s: Seq<A>, x: A, g: spec_fn(A) -> B)
    ensures
        s.push(x).map_values(g) == s.map_values(g).push(g(x)),
{
    assert(s.push(x).map_values(g) =~= s.map_values(g).push(g(x)));
}

/// How each per-file view moves when one change is appended.
proof fn lemma_push_event(evs: Seq<ChangeEvent>, e: ChangeEvent, f: Seq<char>, a: Seq<char>)
    ensures
        loc_entries(evs.push(e), f) == (if e.0 == f {
            loc_entries(evs, f).push((e.2, (e.3 + e.4) as nat))
        } else {
            loc_entries(evs, f)
        }),
        churn_entries(evs.push(e), f) == (if e.0 == f && e.3 + e.4 > 0 {
            churn_entries(evs, f).push((e.2, e.3, e.4))
        } else {
            churn_entries(evs, f)
        }),
        authors_of(evs.push(e), f) == (if e.0 == f {
            authors_of(evs, f).push(e.1)
        } else {
            authors_of(evs, f)
        }),
        commit_count(evs.push(e), f, a) == commit_count(evs, f, a) + (if e.0 == f && e.1 == a {
            1nat
        } else {
            0nat
        }),
        evs.push(e).map_values(file_of()) == evs.map_values(file_of()).push(e.0),
{
    evs.lemma_filter_push(e, touches(f));
    evs.lemma_filter_push(e, touches_lines(f));
    evs.lemma_filter_push(e, touches_by(f, a));
    lemma_map_push(on_file(evs, f), e, loc_point());
    lemma_map_push(churned(evs, f), e, churn_point());
    lemma_map_push(on_file(evs, f), e, author_of());
    lemma_map_push(evs, e, file_of());
}

/// An author who never changed `f` has no change of `f` counted.
proof fn lemma_count_absent(evs: Seq<ChangeEvent>, f: Seq<char>, a: Seq<char>)
    requires
        !authors_of(evs, f).contains(a),
    ensures
        commit_count(evs, f, a) == 0,
    decreases evs.len(),
{
    if evs.len() > 0 {
        let pre = evs.drop_last();
        let e = evs.last();
        assert(evs =~= pre.push(e));
        pre.lemma_filter_push(e, touches(f));
        pre.lemma_filter_push(e, touches_by(f, a));
        lemma_map_push(on_file(pre, f), e, author_of());
        if e.0 == f {
            assert(authors_of(evs, f).last() == e.1);
        }
        assert forall|y: Seq<char>| authors_of(pre, f).contains(y) implies authors_of(evs, f).contains(y) by {
            if e.0 == f {
                let k = choose|k: int| 0 <= k < authors_of(pre, f).len() && authors_of(pre, f)[k] == y;
                assert(authors_of(evs, f)[k] == y);
            }
        }
        lemma_count_absent(pre, f, a);
    }
}

/// Changes of a line or more of `f` are among the changes of `f`.
proof fn lemma_churned_within(evs: Seq<ChangeEvent>, f: Seq<char>)
    ensures
        churned(evs, f).len() <= on_file(evs, f).len(),
    decreases evs.len(),
{
    if evs.len() > 0 {
        let pre = evs.drop_last();
        let e = evs.last();
        assert(evs =~= pre.push(e));
        pre.lemma_filter_push(e, touches(f));
        pre.lemma_filter_push(e, touches_lines(f));
        lemma_churned_within(pre, f);
    }
}

/// `after` is `before` with one more change counted for `author`: its
/// count goes up by one, or it joins at the end with a count of one.
pub open spec fn tallied(before: Seq<AuthorFrequency>, after: Seq<AuthorFrequency>, author: Seq<char>) -> bool {
    &&& author_names(after) == (if author_names(before).contains(author) {
        author_names(before)
    } else {
        author_names(before).push(author)
    })
    &&& forall|k: int|
        0 <= k < before.len() ==> (#[trigger] after[k]).commits == before[k].commits + (if before[k].author@
            == author {
            1int
        } else {
            0int
        })
    &&& after.len() > before.len() ==> after.last().commits == 1
}

/// A single churn observation: a change of at least one line.
#[derive(Debug, Clone, Copy)]
pub struct ChurnSample {
    pub timestamp: i64,
    pub additions: usize,
    pub deletions: usize,
    pub total: usize,
}

/// Everything recorded about one file.
#[derive(Debug, Clone)]
pub struct FileActivity {
    pub file: String,
    pub loc_history: Vec<LOCMetric>,
    pub churn_samples: Vec<ChurnSample>,
    pub authors: Vec<AuthorFrequency>,
}

impl FileActivity {
    /// Internal consistency: every record names this file, churn samples
    /// carry their total, and each author appears once.
    pub open spec fn wf(self) -> bool {
        &&& forall|i: int| 0 <= i < self.loc_history@.len() ==> #[trigger] self.loc_history@[i].file@ == self.file@
        &&& forall|i: int|
            0 <= i < self.churn_samples@.len() ==> #[trigger] self.churn_samples@[i].total
                == self.churn_samples@[i].additions + self.churn_samples@[i].deletions
        &&& forall|k: int|
            0 <= k < self.authors@.len() ==> (#[trigger] self.authors@[k]).file@ == self.file@
                && self.authors@[k].lines_changed == 0
        &&& author_names(self.authors@).no_duplicates()
    }

    pub open spec fn loc_view(self) -> Seq<(i64, nat)> {
        self.loc_history@.map_values(|m: LOCMetric| (m.timestamp, m.lines as nat))
    }

    pub open spec fn churn_view(self) -> Seq<(i64, usize, usize)> {
        self.churn_samples@.map_values(|c: ChurnSample| (c.timestamp, c.additions, c.deletions))
    }

    /// This activity is exactly what the changes `evs` say about its file.
    pub open spec fn describes(self, evs: Seq<ChangeEvent>) -> bool {
        let f = self.file@;
        &&& self.wf()
        &&& self.loc_view() == loc_entries(evs, f)
        &&& self.churn_view() == churn_entries(evs, f)
        &&& author_names(self.authors@) == first_seen(authors_of(evs, f))
        &&& forall|k: int|
            0 <= k < self.authors@.len() ==> (#[trigger] self.authors@[k]).commits == commit_count(
                evs,
                f,
                self.authors@[k].author@,
            )
    }

    /// An activity with nothing recorded yet.
    pub fn empty(file: &str) -> (r: FileActivity)
        ensures
            r.file@ == file@,
            r.loc_history@.len() == 0,
            r.churn_samples@.len() == 0,
            r.authors@.len() == 0,
            r.wf(),
            forall|evs: Seq<ChangeEvent>| on_file(evs, file@).len() == 0 ==> r.describes(evs),
    {
        let r = FileActivity {
            file: String::from_str(file),
            loc_history: Vec::new(),
            churn_samples: Vec::new(),
            authors: Vec::new(),
        };
        assert(author_names(r.authors@) =~= Seq::<Seq<char>>::empty());
        assert forall|evs: Seq<ChangeEvent>| on_file(evs, file@).len() == 0 implies r.describes(evs) by {
            assert(r.loc_view() =~= loc_entries(evs, file@));
            lemma_churned_within(evs, file@);
            assert(r.churn_view() =~= churn_entries(evs, file@));
            assert(authors_of(evs, file@) =~= Seq::<Seq<char>>::empty());
            assert(first_seen(authors_of(evs, file@)) =~= Seq::<Seq<char>>::empty());
        }
        r
    }
}


impl FileActivity {
    /// Records one more change of this file by `author`.
    pub fn add_interaction(&mut self, author: &str)
        requires
            old(self).wf(),
            forall|k: int|
                0 <= k < old(self).authors@.len() && (#[trigger] old(self).authors@[k]).author@ == author@
                    ==> old(self).authors@[k].commits < usize::MAX,
        ensures
            final(self).wf(),
            final(self).file == old(self).file,
            final(self).loc_history@ == old(self).loc_history@,
            final(self).churn_samples@ == old(self).churn_samples@,
            tallied(old(self).authors@, final(self).authors@, author@),
    {
        let ghost names = author_names(self.authors@);
        let mut k: usize = 0;
        while k < self.authors.len()
            invariant
                k <= self.authors.len(),
                *self == *old(self),
                old(self).wf(),
                forall|j: int|
                    0 <= j < old(self).authors@.len() && (#[trigger] old(self).authors@[j]).author@
                        == author@ ==> old(self).authors@[j].commits < usize::MAX,
                names == author_names(self.authors@),
                forall|j: int| 0 <= j < k ==> self.authors@[j].author@ != author@,
            decreases self.authors.len() - k,
        {
            if crate::text::text_eq(self.authors[k].author.as_str(), author) {
                let updated = AuthorFrequency {
                    file: self.authors[k].file.clone(),
                    author: self.authors[k].author.clone(),
                    commits: self.authors[k].commits + 1,
                    lines_changed: self.authors[k].lines_changed,
                };
                let ghost before = self.authors@;
                self.authors.set(k, updated);
                assert(author_names(self.authors@) =~= names);
                assert(names[k as int] == author@);
                assert forall|j: int| 0 <= j < before.len() && j != k implies before[j].author@ != author@ by {
                    assert(names[j] != names[k as int]);
                }
                return;
            }
            k = k + 1;
        }
        assert(!names.contains(author@)) by {
            if names.contains(author@) {
                let j = choose|j: int| 0 <= j < names.len() && names[j] == author@;
                assert(self.authors@[j].author@ == author@);
            }
        }
        let fresh = AuthorFrequency {
            file: self.file.clone(),
            author: String::from_str(author),
            commits: 1,
            lines_changed: 0,
        };
        self.authors.push(fresh);
        assert(author_names(self.authors@) =~= names.push(author@));
    }

    /// Records one change of this file: its line count, its churn when it
    /// touches a line, and its author.
    pub fn add_change(&mut self, author: &str, timestamp: i64, additions: usize, deletions: usize)
        requires
            old(self).wf(),
            additions + deletions <= usize::MAX,
            forall|k: int|
                0 <= k < old(self).authors@.len() && (#[trigger] old(self).authors@[k]).author@ == author@
                    ==> old(self).authors@[k].commits < usize::MAX,
        ensures
            final(self).wf(),
            final(self).file == old(self).file,
            final(self).loc_view() == old(self).loc_view().push((timestamp, (additions + deletions) as nat)),
            final(self).churn_view() == (if additions + deletions > 0 {
                old(self).churn_view().push((timestamp, additions, deletions))
            } else {
                old(self).churn_view()
            }),
            tallied(old(self).authors@, final(self).authors@, author@),
    {
        let total = additions + deletions;
        let point = LOCMetric { file: self.file.clone(), timestamp: timestamp, lines: total };
        let ghost loc_before = self.loc_history@;
        self.loc_history.push(point);
        assert(self.loc_view() =~= loc_before.map_values(|m: LOCMetric| (m.timestamp, m.lines as nat)).push(
            (timestamp, total as nat),
        ));
        if total > 0 {
            let ghost churn_before = self.churn_samples@;
            self.churn_samples.push(
                ChurnSample { timestamp: timestamp, additions: additions, deletions: deletions, total: total },
            );
            assert(self.churn_view() =~= churn_before.map_values(
                |c: ChurnSample| (c.timestamp, c.additions, c.deletions),
            ).push((timestamp, additions, deletions)));
        }
        self.add_interaction(author);
    }
}

/// After a change of its own file, an activity that described `evs`
/// describes `evs` followed by that change.
proof fn lemma_describes_own(before: FileActivity, after: FileActivity, evs: Seq<ChangeEvent>, e: ChangeEvent)
    requires
        before.describes(evs),
        e.0 == before.file@,
        after.wf(),
        after.file == before.file,
        after.loc_view() == before.loc_view().push((e.2, (e.3 + e.4) as nat)),
        after.churn_view() == (if e.3 + e.4 > 0 {
            before.churn_view().push((e.2, e.3, e.4))
        } else {
            before.churn_view()
        }),
        tallied(before.authors@, after.authors@, e.1),
    ensures
        after.describes(evs.push(e)),
{
    let f = before.file@;
    lemma_push_event(evs, e, f, e.1);
    lemma_first_seen_push(authors_of(evs, f), e.1);
    assert forall|k: int| 0 <= k < after.authors@.len() implies (#[trigger] after.authors@[k]).commits
        == commit_count(evs.push(e), f, after.authors@[k].author@) by {
        let a = after.authors@[k].author@;
        lemma_push_event(evs, e, f, a);
        assert(author_names(after.authors@)[k] == a);
        if k < before.authors@.len() {
            assert(author_names(before.authors@)[k] == a);
        } else {
            assert(!author_names(before.authors@).contains(e.1));
            assert(author_names(after.authors@).len() == author_names(before.authors@).len() + 1);
            assert(a == e.1);
            lemma_first_seen(authors_of(evs, f));
            lemma_count_absent(evs, f, a);
        }
    }
}

/// A change of another file leaves what an activity describes unchanged.
proof fn lemma_describes_other(act: FileActivity, evs: Seq<ChangeEvent>, e: ChangeEvent)
    requires
        act.describes(evs),
        e.0 != act.file@,
    ensures
        act.describes(evs.push(e)),
{
    let f = act.file@;
    lemma_push_event(evs, e, f, e.1);
    assert forall|k: int| 0 <= k < act.authors@.len() implies (#[trigger] act.authors@[k]).commits
        == commit_count(evs.push(e), f, act.authors@[k].author@) by {
        lemma_push_event(evs, e, f, act.authors@[k].author@);
    }
}


/// A file nobody changed has no changes.
proof fn lemma_file_absent(evs: Seq<ChangeEvent>, f: Seq<char>)
    requires
        !evs.map_values(file_of()).contains(f),
    ensures
        on_file(evs, f).len() == 0,
    decreases evs.len(),
{
    if evs.len() > 0 {
        let pre = evs.drop_last();
        let e = evs.last();
        assert(evs =~= pre.push(e));
        lemma_map_push(pre, e, file_of());
        pre.lemma_filter_push(e, touches(f));
        assert(evs.map_values(file_of())[evs.len() - 1] == e.0);
        assert forall|y: Seq<char>| pre.map_values(file_of()).contains(y) implies evs.map_values(
            file_of(),
        ).contains(y) by {
            let k = choose|k: int| 0 <= k < pre.map_values(file_of()).len() && pre.map_values(file_of())[k] == y;
            assert(evs.map_values(file_of())[k] == y);
        }
        lemma_file_absent(pre, f);
    }
}

fn copy_loc_history(v: &Vec<LOCMetric>) -> (r: Vec<LOCMetric>)
    ensures
        r@ == v@,
{
    let mut r: Vec<LOCMetric> = Vec::new();
    let mut i: usize = 0;
    while i < v.len()
        invariant
            i <= v.len(),
            r@ == v@.take(i as int),
        decreases v.len() - i,
    {
        let m = LOCMetric { file: v[i].file.clone(), timestamp: v[i].timestamp, lines: v[i].lines };
        r.push(m);
        assert(r@ =~= v@.take(i as int + 1));
        i = i + 1;
    }
    assert(v@.take(v.len() as int) =~= v@);
    r
}

fn copy_churn_samples(v: &Vec<ChurnSample>) -> (r: Vec<ChurnSample>)
    ensures
        r@ == v@,
{
    let mut r: Vec<ChurnSample> = Vec::new();
    let mut i: usize = 0;
    while i < v.len()
        invariant
            i <= v.len(),
            r@ == v@.take(i as int),
        decreases v.len() - i,
    {
        let c = ChurnSample {
            timestamp: v[i].timestamp,
            additions: v[i].additions,
            deletions: v[i].deletions,
            total: v[i].total,
        };
        r.push(c);
        assert(r@ =~= v@.take(i as int + 1));
        i = i + 1;
    }
    assert(v@.take(v.len() as int) =~= v@);
    r
}

fn copy_authors(v: &Vec<AuthorFrequency>) -> (r: Vec<AuthorFrequency>)
    ensures
        r@ == v@,
{
    let mut r: Vec<AuthorFrequency> = Vec::new();
    let mut i: usize = 0;
    while i < v.len()
        invariant
            i <= v.len(),
            r@ == v@.take(i as int),
        decreases v.len() - i,
    {
        let a = AuthorFrequency {
            file: v[i].file.clone(),
            author: v[i].author.clone(),
            commits: v[i].commits,
            lines_changed: v[i].lines_changed,
        };
        r.push(a);
        assert(r@ =~= v@.take(i as int + 1));
        i = i + 1;
    }
    assert(v@.take(v.len() as int) =~= v@);
    r
}

/// Gathers per-file activity, one change at a time.
pub struct MetricsCalculator {
    pub files: Vec<FileActivity>,
}

impl MetricsCalculator {
    /// The files recorded, in order of first change.
    pub open spec fn file_names(self) -> Seq<Seq<char>> {
        self.files@.map_values(|a: FileActivity| a.file@)
    }

    /// Each file is recorded once, and each activity is consistent.
    pub open spec fn wf(self) -> bool {
        &&& self.file_names().no_duplicates()
        &&& forall|i: int| 0 <= i < self.files@.len() ==> (#[trigger] self.files@[i]).wf()
    }

    /// No author count has reached the largest `usize`.
    pub open spec fn counts_below_max(self) -> bool {
        forall|i: int, k: int|
            0 <= i < self.files@.len() && 0 <= k < self.files@[i].authors@.len()
                ==> #[trigger] self.files@[i].authors@[k].commits < usize::MAX
    }

    /// The calculator holds exactly the metrics of the changes `evs`.
    pub open spec fn records(self, evs: Seq<ChangeEvent>) -> bool {
        &&& self.wf()
        &&& self.file_names() == touched_files(evs)
        &&& forall|i: int| 0 <= i < self.files@.len() ==> (#[trigger] self.files@[i]).describes(evs)
    }

    /// A calculator with nothing recorded.
    pub fn new() -> (r: MetricsCalculator)
        ensures
            r.records(Seq::empty()),
    {
        let r = MetricsCalculator { files: Vec::new() };
        assert(r.file_names() =~= touched_files(Seq::empty()));
        r
    }

    /// Position of the activity of `file`, if recorded.
    fn slot_of(&self, file: &str) -> (r: Option<usize>)
        ensures
            match r {
                Some(k) => k < self.files@.len() && self.files@[k as int].file@ == file@,
                None => !self.file_names().contains(file@),
            },
    {
        let mut k: usize = 0;
        while k < self.files.len()
            invariant
                k <= self.files.len(),
                forall|j: int| 0 <= j < k ==> self.files@[j].file@ != file@,
            decreases self.files.len() - k,
        {
            if crate::text::text_eq(self.files[k].file.as_str(), file) {
                return Some(k);
            }
            k = k + 1;
        }
        assert(!self.file_names().contains(file@)) by {
            if self.file_names().contains(file@) {
                let j = choose|j: int| 0 <= j < self.file_names().len() && self.file_names()[j] == file@;
                assert(self.files@[j].file@ == file@);
            }
        }
        None
    }

    /// Counts one more interaction of `author` with `file`, leaving line
    /// counts and churn as they are.
    pub fn record_author_interaction(&mut self, file: &str, author: &str)
        requires
            old(self).wf(),
            old(self).counts_below_max(),
        ensures
            final(self).wf(),
            final(self).file_names() == (if old(self).file_names().contains(file@) {
                old(self).file_names()
            } else {
                old(self).file_names().push(file@)
            }),
            forall|i: int|
                0 <= i < old(self).files@.len() && old(self).files@[i].file@ != file@
                    ==> final(self).files@[i] == old(self).files@[i],
            forall|i: int|
                0 <= i < old(self).files@.len() && old(self).files@[i].file@ == file@ ==> {
                    &&& final(self).files@[i].loc_history@ == old(self).files@[i].loc_history@
                    &&& final(self).files@[i].churn_samples@ == old(self).files@[i].churn_samples@
                    &&& tallied(old(self).files@[i].authors@, final(self).files@[i].authors@, author@)
                },
            final(self).files@.len() > old(self).files@.len() ==> {
                &&& final(self).files@.last().loc_history@.len() == 0
                &&& final(self).files@.last().churn_samples@.len() == 0
                &&& tallied(Seq::empty(), final(self).files@.last().authors@, author@)
            },
    {
        let ghost before = self.files@;
        let ghost names = self.file_names();
        match self.slot_of(file) {
            Some(k) => {
                let mut act = self.files.remove(k);
                proof {
                    assert(before[k as int] == act);
                    assert forall|j: int| 0 <= j < act.authors@.len() && (#[trigger] act.authors@[j]).author@
                        == author@ implies act.authors@[j].commits < usize::MAX by {
                        assert(before[k as int].authors@[j].commits < usize::MAX);
                    }
                }
                act.add_interaction(author);
                self.files.insert(k, act);
                proof {
                    assert(self.files@ =~= before.update(k as int, act));
                    assert(self.file_names() =~= names);
                    assert(names[k as int] == file@);
                    assert forall|i: int| 0 <= i < self.files@.len() implies (#[trigger] self.files@[i]).wf() by {
                        if i != k {
                            assert(self.files@[i] == before[i]);
                        }
                    }
                    assert forall|i: int| 0 <= i < before.len() && before[i].file@ == file@ implies i == k by {
                        if i != k {
                            assert(names[i] != names[k as int]);
                        }
                    }
                }
            },
            None => {
                let mut act = FileActivity::empty(file);
                act.add_interaction(author);
                self.files.push(act);
                proof {
                    assert(self.file_names() =~= names.push(file@));
                    assert forall|i: int| 0 <= i < self.files@.len() implies (#[trigger] self.files@[i]).wf() by {
                        if i < before.len() {
                            assert(self.files@[i] == before[i]);
                        }
                    }
                    assert forall|i: int| 0 <= i < before.len() implies before[i].file@ != file@ by {
                        assert(names[i] == before[i].file@);
                    }
                }
            },
        }
    }

    /// What is recorded for `file`: a copy of its activity, or an empty
    /// activity when the file was never recorded.
    pub fn aggregate_file_metrics(&self, file: &str) -> (r: FileActivity)
        requires
            self.wf(),
        ensures
            r.wf(),
            r.file@ == file@,
            forall|i: int|
                0 <= i < self.files@.len() && self.files@[i].file@ == file@ ==> {
                    &&& r.loc_history@ == self.files@[i].loc_history@
                    &&& r.churn_samples@ == self.files@[i].churn_samples@
                    &&& r.authors@ == self.files@[i].authors@
                },
            !self.file_names().contains(file@) ==> {
                &&& r.loc_history@.len() == 0
                &&& r.churn_samples@.len() == 0
                &&& r.authors@.len() == 0
            },
            forall|evs: Seq<ChangeEvent>| self.records(evs) ==> r.describes(evs),
    {
        match self.slot_of(file) {
            Some(k) => {
                let act = &self.files[k];
                let r = FileActivity {
                    file: String::from_str(file),
                    loc_history: copy_loc_history(&act.loc_history),
                    churn_samples: copy_churn_samples(&act.churn_samples),
                    authors: copy_authors(&act.authors),
                };
                proof {
                    assert(self.file_names()[k as int] == file@);
                    assert(self.files@[k as int].wf());
                    assert forall|i: int| 0 <= i < self.files@.len() && self.files@[i].file@ == file@ implies i == k by {
                        if i != k {
                            assert(self.file_names()[i] != self.file_names()[k as int]);
                        }
                    }
                    assert(r.loc_view() =~= act.loc_view());
                    assert(r.churn_view() =~= act.churn_view());
                    assert(author_names(r.authors@) =~= author_names(act.authors@));
                    assert forall|evs: Seq<ChangeEvent>| self.records(evs) implies r.describes(evs) by {
                        assert(self.files@[k as int].describes(evs));
                    }
                }
                r
            },
            None => {
                let r = FileActivity::empty(file);
                proof {
                    assert forall|i: int| 0 <= i < self.files@.len() implies self.files@[i].file@ != file@ by {
                        assert(self.file_names()[i] == self.files@[i].file@);
                    }
                    assert forall|evs: Seq<ChangeEvent>| self.records(evs) implies r.describes(evs) by {
                        lemma_first_seen(evs.map_values(file_of()));
                        lemma_file_absent(evs, file@);
                    }
                }
                r
            },
        }
    }

    /// Records one change of `file` by `author`.
    pub fn record_change(&mut self, file: &str, author: &str, timestamp: i64, additions: usize, deletions: usize)
        requires
            old(self).wf(),
            old(self).counts_below_max(),
            additions + deletions <= usize::MAX,
        ensures
            final(self).wf(),
            forall|evs: Seq<ChangeEvent>|
                old(self).records(evs) ==> final(self).records(
                    evs.push((file@, author@, timestamp, additions, deletions)),
                ),
            final(self).file_names() == (if old(self).file_names().contains(file@) {
                old(self).file_names()
            } else {
                old(self).file_names().push(file@)
            }),
            forall|i: int|
                0 <= i < old(self).files@.len() && old(self).files@[i].file@ != file@
                    ==> final(self).files@[i] == old(self).files@[i],
            forall|i: int|
                0 <= i < old(self).files@.len() && old(self).files@[i].file@ == file@ ==> {
                    &&& final(self).files@[i].loc_view() == old(self).files@[i].loc_view().push(
                        (timestamp, (additions + deletions) as nat),
                    )
                    &&& final(self).files@[i].churn_view() == (if additions + deletions > 0 {
                        old(self).files@[i].churn_view().push((timestamp, additions, deletions))
                    } else {
                        old(self).files@[i].churn_view()
                    })
                    &&& tallied(old(self).files@[i].authors@, final(self).files@[i].authors@, author@)
                },
            final(self).files@.len() > old(self).files@.len() ==> {
                &&& final(self).files@.last().loc_view() == seq![(timestamp, (additions + deletions) as nat)]
                &&& final(self).files@.last().churn_view() == (if additions + deletions > 0 {
                    seq![(timestamp, additions, deletions)]
                } else {
                    Seq::<(i64, usize, usize)>::empty()
                })
                &&& tallied(Seq::empty(), final(self).files@.last().authors@, author@)
            },
    {
        let ghost e: ChangeEvent = (file@, author@, timestamp, additions, deletions);
        let ghost before = self.files@;
        let ghost names = self.file_names();
        match self.slot_of(file) {
            Some(k) => {
                let mut act = self.files.remove(k);
                proof {
                    assert(before[k as int] == act);
                    assert forall|j: int| 0 <= j < act.authors@.len() && (#[trigger] act.authors@[j]).author@
                        == author@ implies act.authors@[j].commits < usize::MAX by {
                        assert(before[k as int].authors@[j].commits < usize::MAX);
                    }
                }
                act.add_change(author, timestamp, additions, deletions);
                self.files.insert(k, act);
                proof {
                    assert(self.files@ =~= before.update(k as int, act));
                    assert(self.file_names() =~= names);
                    assert(names[k as int] == file@);
                    assert forall|i: int| 0 <= i < self.files@.len() implies (#[trigger] self.files@[i]).wf() by {
                        if i != k {
                            assert(self.files@[i] == before[i]);
                        }
                    }
                    assert forall|i: int| 0 <= i < before.len() && before[i].file@ == file@ implies i == k by {
                        if i != k {
                            assert(names[i] != names[k as int]);
                        }
                    }
                    assert forall|evs: Seq<ChangeEvent>| old(self).records(evs) implies self.records(evs.push(e)) by {
                        lemma_push_event(evs, e, file@, author@);
                        lemma_first_seen_push(evs.map_values(file_of()), file@);
                        assert(names[k as int] == file@);
                        assert forall|i: int| 0 <= i < self.files@.len() implies (#[trigger] self.files@[i]).describes(
                            evs.push(e),
                        ) by {
                            if i == k {
                                lemma_describes_own(before[k as int], act, evs, e);
                            } else {
                                assert(self.files@[i] == before[i]);
                                assert(names[i] != names[k as int]);
                                lemma_describes_other(before[i], evs, e);
                            }
                        }
                    }
                }
            },
            None => {
                let mut act = FileActivity::empty(file);
                let ghost blank = act;
                act.add_change(author, timestamp, additions, deletions);
                self.files.push(act);
                proof {
                    assert(self.file_names() =~= names.push(file@));
                    assert forall|i: int| 0 <= i < self.files@.len() implies (#[trigger] self.files@[i]).wf() by {
                        if i < before.len() {
                            assert(self.files@[i] == before[i]);
                        }
                    }
                    assert forall|i: int| 0 <= i < before.len() implies before[i].file@ != file@ by {
                        assert(names[i] == before[i].file@);
                    }
                    assert(blank.loc_view() =~= Seq::<(i64, nat)>::empty());
                    assert(blank.churn_view() =~= Seq::<(i64, usize, usize)>::empty());
                    assert(act.loc_view() =~= seq![(timestamp, (additions + deletions) as nat)]);
                    assert forall|evs: Seq<ChangeEvent>| old(self).records(evs) implies self.records(evs.push(e)) by {
                        lemma_push_event(evs, e, file@, author@);
                        lemma_first_seen_push(evs.map_values(file_of()), file@);
                        lemma_first_seen(evs.map_values(file_of()));
                        lemma_file_absent(evs, file@);
                        assert(blank.describes(evs));
                        assert forall|i: int| 0 <= i < self.files@.len() implies (#[trigger] self.files@[i]).describes(
                            evs.push(e),
                        ) by {
                            if i < before.len() {
                                assert(self.files@[i] == before[i]);
                                assert(names[i] != file@) by {
                                    assert(names.contains(names[i]));
                                }
                                lemma_describes_other(before[i], evs, e);
                            } else {
                                lemma_describes_own(blank, act, evs, e);
                            }
                        }
                    }
                }
            },
        }
    }
}


/// The changes of the first `n` commits are at most all the changes.
proof fn lemma_events_prefix(cs: Seq<EnrichedCommit>, n: int)
    requires
        0 <= n <= cs.len(),
    ensures
        events(cs.take(n)).len() <= events(cs).len(),
    decreases cs.len() - n,
{
    if n < cs.len() {
        lemma_events_step(cs, n);
        lemma_events_prefix(cs, n + 1);
    } else {
        assert(cs.take(n) =~= cs);
    }
}

/// The changes of the first `n + 1` commits: those of the first `n`, then
/// those of commit `n`.
proof fn lemma_events_step(cs: Seq<EnrichedCommit>, n: int)
    requires
        0 <= n < cs.len(),
    ensures
        events(cs.take(n + 1)) == events(cs.take(n)) + commit_events(cs[n]),
{
    assert(cs.take(n + 1).drop_last() =~= cs.take(n));
}

/// Whether every commit of the history is valid.
pub open spec fn all_valid(cs: Seq<EnrichedCommit>) -> bool {
    forall|i: int| 0 <= i < cs.len() ==> commit_valid(#[trigger] cs[i])
}

/// Aggregates the changes of all commits into per-file activity, one entry
/// per touched file, in order of first change. Fails on the first commit
/// that changes a file and carries a timestamp outside the calendar range.
pub fn process_commits(enriched_commits: &Vec<EnrichedCommit>) -> (r: Result<Vec<FileActivity>, WardenError>)
    requires
        sizes_fit(enriched_commits@),
        events(enriched_commits@).len() < usize::MAX,
    ensures
        r is Ok <==> all_valid(enriched_commits@),
        r matches Ok(acts) ==> {
            &&& acts@.map_values(|a: FileActivity| a.file@) == touched_files(events(enriched_commits@))
            &&& forall|i: int| 0 <= i < acts@.len() ==> (#[trigger] acts@[i]).describes(events(enriched_commits@))
        },
        r matches Err(e) ==> e is InvalidTimestamp,
        r matches Err(WardenError::InvalidTimestamp(ts)) ==> exists|b: int|
            0 <= b < enriched_commits@.len() && !commit_valid(#[trigger] enriched_commits@[b]) && ts
                == enriched_commits@[b].timestamp && forall|c: int| 0 <= c < b ==> commit_valid(enriched_commits@[c]),
{
    let ghost cs = enriched_commits@;
    let mut calc = MetricsCalculator::new();
    assert(cs.take(0) =~= Seq::<EnrichedCommit>::empty());
    let mut i: usize = 0;
    while i < enriched_commits.len()
        invariant
            i <= enriched_commits.len(),
            cs == enriched_commits@,
            sizes_fit(cs),
            events(cs).len() < usize::MAX,
            calc.records(events(cs.take(i as int))),
            forall|c: int| 0 <= c < i ==> commit_valid(#[trigger] cs[c]),
        decreases enriched_commits.len() - i,
    {
        let commit = &enriched_commits[i];
        let ghost done = events(cs.take(i as int));
        let ghost here = commit_events(cs[i as int]);
        proof {
            lemma_events_step(cs, i as int);
            lemma_events_prefix(cs, i as int + 1);
            assert(here.take(0) =~= Seq::<ChangeEvent>::empty());
            assert(done + here.take(0) =~= done);
        }
        let mut j: usize = 0;
        while j < commit.file_changes.len()
            invariant
                i < enriched_commits.len(),
                j <= commit.file_changes.len(),
                cs == enriched_commits@,
                *commit == cs[i as int],
                here == commit_events(cs[i as int]),
                sizes_fit(cs),
                done.len() + here.len() < usize::MAX,
                calc.records(done + here.take(j as int)),
                j > 0 ==> spec_timestamp_representable(commit.timestamp),
                forall|c: int| 0 <= c < i ==> commit_valid(#[trigger] cs[c]),
            decreases commit.file_changes.len() - j,
        {
            if !timestamp_representable(commit.timestamp) {
                return Err(WardenError::InvalidTimestamp(commit.timestamp));
            }
            let change = &commit.file_changes[j];
            let ghost pre = done + here.take(j as int);
            proof {
                assert(cs[i as int].file_changes@[j as int] == *change);
                assert(change.additions + change.deletions <= usize::MAX);
                assert forall|a: int, k: int|
                    0 <= a < calc.files@.len() && 0 <= k < calc.files@[a].authors@.len() implies #[trigger] calc.files@[a].authors@[k].commits
                        < usize::MAX by {
                    let act = calc.files@[a];
                    assert(act.describes(pre));
                    by_author(pre, act.file@, act.authors@[k].author@).lemma_filter_len(
                        touches_by(act.file@, act.authors@[k].author@),
                    );
                    pre.lemma_filter_len(touches_by(act.file@, act.authors@[k].author@));
                }
            }
            calc.record_change(
                change.file.as_str(),
                commit.author.as_str(),
                commit.timestamp,
                change.additions,
                change.deletions,
            );
            proof {
                assert(here[j as int] == (change.file@, commit.author@, commit.timestamp, change.additions, change.deletions));
                assert(done + here.take(j as int + 1) =~= pre.push(here[j as int]));
            }
            j = j + 1;
        }
        proof {
            assert(here.take(j as int) =~= here);
        }
        i = i + 1;
    }
    proof {
        assert(cs.take(cs.len() as int) =~= cs);
    }
    Ok(calc.files)
}

/// Line-count metrics computed outside commit processing; none yet.
pub fn calculate_loc_metrics() -> (r: Result<Vec<LOCMetric>, WardenError>)
    ensures
        r matches Ok(v) && v@.len() == 0,
{
    Ok(Vec::new())
}

/// Changes of `f` counted over the authors `names`.
pub open spec fn tally_total(evs: Seq<ChangeEvent>, f: Seq<char>, names: Seq<Seq<char>>) -> nat
    decreases names.len(),
{
    if names.len() == 0 {
        0
    } else {
        tally_total(evs, f, names.drop_last()) + commit_count(evs, f, names.last())
    }
}

proof fn lemma_tally_push_event(evs: Seq<ChangeEvent>, e: ChangeEvent, f: Seq<char>, names: Seq<Seq<char>>)
    requires
        names.no_duplicates(),
    ensures
        tally_total(evs.push(e), f, names) == tally_total(evs, f, names) + (if e.0 == f && names.contains(
            e.1,
        ) {
            1nat
        } else {
            0nat
        }),
    decreases names.len(),
{
    if names.len() > 0 {
        let rest = names.drop_last();
        lemma_tally_push_event(evs, e, f, rest);
        lemma_push_event(evs, e, f, names.last());
        assert(names =~= rest.push(names.last()));
        if rest.contains(e.1) {
            let j = choose|j: int| 0 <= j < rest.len() && rest[j] == e.1;
            assert(names[j] == e.1);
            assert(names.last() != e.1);
        }
    }
}

proof fn lemma_tally_all(evs: Seq<ChangeEvent>, f: Seq<char>)
    ensures
        tally_total(evs, f, first_seen(authors_of(evs, f))) == on_file(evs, f).len(),
    decreases evs.len(),
{
    if evs.len() > 0 {
        let pre = evs.drop_last();
        let e = evs.last();
        assert(evs =~= pre.push(e));
        assert(e == evs[evs.len() - 1]);
        lemma_tally_all(pre, f);
        let names = first_seen(authors_of(pre, f));
        lemma_first_seen(authors_of(pre, f));
        lemma_push_event(pre, e, f, e.1);
        pre.lemma_filter_push(e, touches(f));
        lemma_tally_push_event(pre, e, f, names);
        if e.0 == f {
            lemma_first_seen_push(authors_of(pre, f), e.1);
            if !names.contains(e.1) {
                assert(names.push(e.1).drop_last() =~= names);
                lemma_count_absent(pre, f, e.1);
            }
        }
    }
}

proof fn lemma_commit_sum_tally(authors: Seq<AuthorFrequency>, evs: Seq<ChangeEvent>, f: Seq<char>)
    requires
        forall|k: int|
            0 <= k < authors.len() ==> (#[trigger] authors[k]).commits == commit_count(evs, f, authors[k].author@),
    ensures
        commit_sum(authors) == tally_total(evs, f, author_names(authors)),
    decreases authors.len(),
{
    if authors.len() > 0 {
        let rest = authors.drop_last();
        assert(author_names(rest) =~= author_names(authors).drop_last());
        assert(authors.last() == authors[authors.len() - 1]);
        lemma_commit_sum_tally(rest, evs, f);
    }
}

/// Every change of a file is counted once, for its author: in an activity
/// that describes a history, the authors' change counts add up to the
/// number of entries of the line-count history, and churn samples never
/// outnumber those entries.
pub proof fn law_changes_attributed_once(act: FileActivity, evs: Seq<ChangeEvent>)
    requires
        act.describes(evs),
    ensures
        commit_sum(act.authors@) == act.loc_history@.len(),
        act.churn_samples@.len() <= act.loc_history@.len(),
{
    let f = act.file@;
    lemma_commit_sum_tally(act.authors@, evs, f);
    lemma_tally_all(evs, f);
    assert(act.loc_view().len() == act.loc_history@.len());
    assert(act.churn_view().len() == act.churn_samples@.len());
    lemma_churned_within(evs, f);
}

/// The author count of a file is the number of different people who
/// changed it: the distinct author names recorded for an activity that
/// describes a history are those of the file's changes in that history.
pub proof fn law_authors_are_distinct_changers(act: FileActivity, evs: Seq<ChangeEvent>)
    requires
        act.describes(evs),
    ensures
        author_names(act.authors@).to_set() == authors_of(evs, act.file@).to_set(),
        author_names(act.authors@).to_set().len() == author_names(act.authors@).len(),
{
    lemma_first_seen(authors_of(evs, act.file@));
    assert(author_names(act.authors@).to_set() =~= authors_of(evs, act.file@).to_set());
    author_names(act.authors@).unique_seq_to_set();
}

/// Metrics of one file computed outside commit processing: nothing yet.
pub fn aggregate_file_metrics(file: &str) -> (r: Result<FileActivity, WardenError>)
    ensures
        r matches Ok(a) && a.file@ == file@ && a.loc_history@.len() == 0 && a.churn_samples@.len() == 0
            && a.authors@.len() == 0,
{
    Ok(FileActivity::empty(file))
}

} // verus!
