//! Analytics over the gathered metrics: who touches which files.

use vstd::prelude::*;
use crate::error::WardenError;
use crate::models::{AuthorFrequency, author_names};
use crate::text::{first_seen, lemma_first_seen, lemma_first_seen_push, texts};

verus! {

broadcast use vstd::seq_lib::group_seq_properties;

/// The files one author touched, one entry per author record.
#[derive(Debug, Clone)]
pub struct AuthorFiles {
    pub author: String,
    pub files: Vec<String>,
}

/// Whether an author record belongs to author `a`.
pub open spec fn written_by(a: Seq<char>) -> spec_fn(AuthorFrequency) -> bool {
    |r: AuthorFrequency| r.author@ == a
}

/// The file of an author record.
pub open spec fn record_file() -> spec_fn(AuthorFrequency) -> Seq<char> {
    |r: AuthorFrequency| r.file@
}

/// The files of the records of author `a`, in record order.
pub open spec fn files_of(records: Seq<AuthorFrequency>, a: Seq<char>) -> Seq<Seq<char>> {
    records.filter(written_by(a)).map_values(record_file())
}

/// The authors of the groups.
pub open spec fn group_authors(groups: Seq<AuthorFiles>) -> Seq<Seq<char>> {
    groups.map_values(|g: AuthorFiles| g.author@)
}

/// `groups` gathers the records per author: one group per author, in order
/// of first record, holding the files of that author's records in order.
pub open spec fn groups_records(groups: Seq<AuthorFiles>, records: Seq<AuthorFrequency>) -> bool {
    &&& group_authors(groups) == first_seen(author_names(records))
    &&& forall|g: int| 0 <= g < groups.len() ==> texts((#[trigger] groups[g]).files@) == files_of(records, groups[g].author@)
}

proof fn lemma_map_push<A, B>(s: Seq<A>, x: A, f: spec_fn(A) -> B)
    ensures
        s.push(x).map_values(f) == s.map_values(f).push(f(x)),
{
    assert(s.push(x).map_values(f) =~= s.map_values(f).push(f(x)));
}

/// An author without records has no files.
proof fn lemma_files_absent(records: Seq<AuthorFrequency>, a: Seq<char>)
    requires
        !author_names(records).contains(a),
    ensures
        files_of(records, a).len() == 0,
    decreases records.len(),
{
    if records.len() > 0 {
        let pre = records.drop_last();
        let r = records.last();
        assert(records =~= pre.push(r));
        pre.lemma_filter_push(r, written_by(a));
        lemma_map_push(pre, r, |x: AuthorFrequency| x.author@);
        assert(author_names(records)[records.len() - 1] == r.author@);
        assert forall|y: Seq<char>| author_names(pre).contains(y) implies author_names(records).contains(y) by {
            let k = choose|k: int| 0 <= k < author_names(pre).len() && author_names(pre)[k] == y;
            assert(author_names(records)[k] == y);
        }
        lemma_files_absent(pre, a);
    }
}

/// Records held by the groups of the authors `names`.
pub open spec fn held(records: Seq<AuthorFrequency>, names: Seq<Seq<char>>) -> nat
    decreases names.len(),
{
    if names.len() == 0 {
        0
    } else {
        held(records, names.drop_last()) + records.filter(written_by(names.last())).len()
    }
}

proof fn lemma_held_push(records: Seq<AuthorFrequency>, r: AuthorFrequency, names: Seq<Seq<char>>)
    requires
        names.no_duplicates(),
    ensures
        held(records.push(r), names) == held(records, names) + (if names.contains(r.author@) {
            1nat
        } else {
            0nat
        }),
    decreases names.len(),
{
    if names.len() > 0 {
        let rest = names.drop_last();
        lemma_held_push(records, r, rest);
        records.lemma_filter_push(r, written_by(names.last()));
        assert(names =~= rest.push(names.last()));
        if rest.contains(r.author@) {
            let j = choose|j: int| 0 <= j < rest.len() && rest[j] == r.author@;
            assert(names[j] == r.author@);
            assert(names.last() != r.author@);
        }
    }
}

proof fn lemma_held_all(records: Seq<AuthorFrequency>)
    ensures
        held(records, first_seen(author_names(records))) == records.len(),
    decreases records.len(),
{
    if records.len() > 0 {
        let pre = records.drop_last();
        let r = records.last();
        assert(records =~= pre.push(r));
        lemma_held_all(pre);
        let names = first_seen(author_names(pre));
        lemma_first_seen(author_names(pre));
        lemma_map_push(pre, r, |x: AuthorFrequency| x.author@);
        lemma_first_seen_push(author_names(pre), r.author@);
        lemma_held_push(pre, r, names);
        if !names.contains(r.author@) {
            assert(names.push(r.author@).drop_last() =~= names);
            lemma_files_absent(pre, r.author@);
            pre.lemma_filter_push(r, written_by(r.author@));
            assert(files_of(pre, r.author@).len() == pre.filter(written_by(r.author@)).len());
        }
    }
}

/// Files held by the groups.
pub open spec fn grouped_files(groups: Seq<AuthorFiles>) -> nat
    decreases groups.len(),
{
    if groups.len() == 0 {
        0
    } else {
        grouped_files(groups.drop_last()) + groups.last().files@.len()
    }
}

proof fn lemma_grouped_held(groups: Seq<AuthorFiles>, records: Seq<AuthorFrequency>)
    requires
        forall|g: int| 0 <= g < groups.len() ==> texts((#[trigger] groups[g]).files@) == files_of(records, groups[g].author@),
    ensures
        grouped_files(groups) == held(records, group_authors(groups)),
    decreases groups.len(),
{
    if groups.len() > 0 {
        let rest = groups.drop_last();
        assert(group_authors(rest) =~= group_authors(groups).drop_last());
        let last = groups[groups.len() - 1];
        assert(texts(last.files@).len() == last.files@.len());
        lemma_grouped_held(rest, records);
    }
}

/// Grouping loses and duplicates nothing: the groups of a list of author
/// records hold as many files as there are records.
pub proof fn law_grouping_keeps_every_record(groups: Seq<AuthorFiles>, records: Seq<AuthorFrequency>)
    requires
        groups_records(groups, records),
    ensures
        grouped_files(groups) == records.len(),
{
    lemma_grouped_held(groups, records);
    lemma_held_all(records);
}

/// Position of the group of `author`, if there is one.
fn find_group(groups: &Vec<AuthorFiles>, author: &str) -> (r: Option<usize>)
    ensures
        match r {
            Some(k) => k < groups@.len() && groups@[k as int].author@ == author@,
            None => forall|j: int| 0 <= j < groups@.len() ==> groups@[j].author@ != author@,
        },
{
    let mut k: usize = 0;
    while k < groups.len()
        invariant
            k <= groups.len(),
            forall|j: int| 0 <= j < k ==> groups@[j].author@ != author@,
        decreases groups.len() - k,
    {
        if crate::text::text_eq(groups[k].author.as_str(), author) {
            return Some(k);
        }
        k = k + 1;
    }
    None
}

/// Trend detection, hotspot ranking and author analysis.
pub struct AnalyticsEngine;

impl AnalyticsEngine {
    /// Groups author records by author: for each author, in order of first
    /// record, the files of that author's records, in record order.
    pub fn analyze_author_patterns(author_records: &Vec<AuthorFrequency>) -> (groups: Vec<AuthorFiles>)
        ensures
            groups_records(groups@, author_records@),
    {
        let ghost records = author_records@;
        let mut groups: Vec<AuthorFiles> = Vec::new();
        proof {
            assert(records.take(0) =~= Seq::<AuthorFrequency>::empty());
            assert(group_authors(groups@) =~= first_seen(author_names(records.take(0))));
        }
        let mut i: usize = 0;
        while i < author_records.len()
            invariant
                i <= author_records.len(),
                records == author_records@,
                groups_records(groups@, records.take(i as int)),
            decreases author_records.len() - i,
        {
            let record = &author_records[i];
            let ghost pre = records.take(i as int);
            let ghost before = groups@;
            proof {
                assert(records.take(i as int + 1) =~= pre.push(*record));
                lemma_map_push(pre, *record, |x: AuthorFrequency| x.author@);
                lemma_first_seen_push(author_names(pre), record.author@);
            }
            let slot = find_group(&groups, record.author.as_str());
            if let Some(k) = slot {
                let mut group = groups.remove(k);
                let ghost old_group = group;
                group.files.push(record.file.clone());
                groups.insert(k, group);
                proof {
                    assert(groups@ =~= before.update(k as int, group));
                    assert(group_authors(groups@) =~= group_authors(before));
                    assert(group_authors(before)[k as int] == record.author@);
                    lemma_first_seen(author_names(pre));
                    assert forall|g: int| 0 <= g < groups@.len() implies texts((#[trigger] groups@[g]).files@)
                        == files_of(records.take(i as int + 1), groups@[g].author@) by {
                        let a = groups@[g].author@;
                        pre.lemma_filter_push(*record, written_by(a));
                        lemma_map_push(pre.filter(written_by(a)), *record, record_file());
                        if g == k {
                            lemma_map_push(old_group.files@, record.file, |s: String| s@);
                        } else {
                            assert(groups@[g] == before[g]);
                            assert(group_authors(before)[g] != group_authors(before)[k as int]);
                        }
                    }
                }
            } else {
                let mut files: Vec<String> = Vec::new();
                files.push(record.file.clone());
                let group = AuthorFiles { author: record.author.clone(), files: files };
                groups.push(group);
                proof {
                    assert(!group_authors(before).contains(record.author@)) by {
                        if group_authors(before).contains(record.author@) {
                            let j = choose|j: int| 0 <= j < group_authors(before).len() && group_authors(before)[j] == record.author@;
                            assert(before[j].author@ == record.author@);
                        }
                    }
                    assert(group_authors(groups@) =~= group_authors(before).push(record.author@));
                    lemma_first_seen(author_names(pre));
                    lemma_files_absent(pre, record.author@);
                    assert forall|g: int| 0 <= g < groups@.len() implies texts((#[trigger] groups@[g]).files@)
                        == files_of(records.take(i as int + 1), groups@[g].author@) by {
                        let a = groups@[g].author@;
                        pre.lemma_filter_push(*record, written_by(a));
                        lemma_map_push(pre.filter(written_by(a)), *record, record_file());
                        if g < before.len() {
                            assert(groups@[g] == before[g]);
                            assert(group_authors(before)[g] != record.author@) by {
                                assert(group_authors(before).contains(group_authors(before)[g]));
                            }
                        } else {
                            assert(texts(groups@[g].files@) =~= seq![record.file@]);
                            assert(files_of(pre, a) =~= Seq::<Seq<char>>::empty());
                        }
                    }
                }
            }
            i = i + 1;
        }
        proof {
            assert(records.take(author_records.len() as int) =~= records);
        }
        groups
    }
}

/// Compares the analysis of two branches; nothing to compare yet.
pub fn compare_branches(branch1: &str, branch2: &str) -> (r: Result<(), WardenError>)
    ensures
        r is Ok,
{
    Ok(())
}

} // verus!
