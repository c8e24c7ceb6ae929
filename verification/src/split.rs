//! Splitting a character sequence at a separator, by positions.

use vstd::prelude::*;

verus! {

broadcast use vstd::seq_lib::group_seq_properties;

/// The pieces of `s` between occurrences of `sep`, in order: one more
/// piece than there are separators, empty pieces included (the behaviour
/// of `str::split` with a character).
pub open spec fn split(s: Seq<char>, sep: char) -> Seq<Seq<char>>
    decreases s.len(),
{
    if s.len() == 0 {
        seq![Seq::empty()]
    } else {
        let p = split(s.drop_last(), sep);
        if s.last() == sep {
            p.push(Seq::empty())
        } else {
            p.update(p.len() - 1, p.last().push(s.last()))
        }
    }
}

/// A split always has at least one piece.
pub proof fn lemma_split_len(s: Seq<char>, sep: char)
    ensures
        split(s, sep).len() >= 1,
    decreases s.len(),
{
    if s.len() > 0 {
        lemma_split_len(s.drop_last(), sep);
    }
}

/// The text each position range of `s` covers.
pub open spec fn ranges_view(s: Seq<char>, r: Seq<(usize, usize)>) -> Seq<Seq<char>> {
    r.map_values(|p: (usize, usize)| s.subrange(p.0 as int, p.1 as int))
}

/// Position ranges, within `s[from..to]`, of the pieces of that text
/// between occurrences of `sep`.
pub fn split_ranges(s: &Vec<char>, from: usize, to: usize, sep: char) -> (r: Vec<(usize, usize)>)
    requires
        from <= to <= s@.len(),
    ensures
        forall|k: int| 0 <= k < r@.len() ==> from <= (#[trigger] r@[k]).0 <= r@[k].1 <= to,
        ranges_view(s@, r@) == split(s@.subrange(from as int, to as int), sep),
        r@.len() >= 1,
{
    let mut r: Vec<(usize, usize)> = Vec::new();
    let mut start: usize = from;
    let mut i: usize = from;
    proof {
        assert(s@.subrange(from as int, from as int) =~= Seq::<char>::empty());
        assert(ranges_view(s@, r@.push((start, i))) =~= seq![Seq::<char>::empty()]);
    }
    while i < to
        invariant
            from <= start <= i <= to <= s@.len(),
            forall|k: int| 0 <= k < r@.len() ==> from <= (#[trigger] r@[k]).0 <= r@[k].1 <= start,
            ranges_view(s@, r@.push((start, i))) == split(s@.subrange(from as int, i as int), sep),
        decreases to - i,
    {
        let c = s[i];
        let ghost before = ranges_view(s@, r@.push((start, i)));
        proof {
            let sub = s@.subrange(from as int, i as int + 1);
            assert(sub.drop_last() =~= s@.subrange(from as int, i as int));
            assert(sub.last() == c);
            lemma_split_len(s@.subrange(from as int, i as int), sep);
        }
        if c == sep {
            r.push((start, i));
            start = i + 1;
            proof {
                assert(s@.subrange(i as int + 1, i as int + 1) =~= Seq::<char>::empty());
                assert(ranges_view(s@, r@.push((start, (i + 1) as usize))) =~= before.push(Seq::<char>::empty()));
            }
        } else {
            proof {
                assert(s@.subrange(start as int, i as int + 1) =~= s@.subrange(start as int, i as int).push(c));
                assert(before.last() == s@.subrange(start as int, i as int));
                assert(ranges_view(s@, r@.push((start, (i + 1) as usize))) =~= before.update(
                    before.len() - 1,
                    before.last().push(c),
                ));
            }
        }
        i = i + 1;
    }
    r.push((start, to));
    r
}

} // verus!
