//! Small text utilities with exact specifications: decimal rendering and
//! string comparison.

use vstd::prelude::*;
use vstd::string::StringExecFns;

verus! {

/// The ASCII digit that stands for `d` (`d < 10`).
pub open spec fn digit_char(d: nat) -> char {
    if d == 0 { '0' }
    else if d == 1 { '1' }
    else if d == 2 { '2' }
    else if d == 3 { '3' }
    else if d == 4 { '4' }
    else if d == 5 { '5' }
    else if d == 6 { '6' }
    else if d == 7 { '7' }
    else if d == 8 { '8' }
    else { '9' }
}

/// The decimal representation of `n`, without sign or leading zeros.
pub open spec fn spec_decimal(n: nat) -> Seq<char>
    decreases n,
{
    if n < 10 {
        seq![digit_char(n)]
    } else {
        spec_decimal(n / 10).push(digit_char(n % 10))
    }
}

fn digit_str(d: u64) -> (s: &'static str)
    requires
        d < 10,
    ensures
        s@ == seq![digit_char(d as nat)],
{
    proof {
        reveal_strlit("0");
        reveal_strlit("1");
        reveal_strlit("2");
        reveal_strlit("3");
        reveal_strlit("4");
        reveal_strlit("5");
        reveal_strlit("6");
        reveal_strlit("7");
        reveal_strlit("8");
        reveal_strlit("9");
    }
    if d == 0 {
        "0"
    } else if d == 1 {
        "1"
    } else if d == 2 {
        "2"
    } else if d == 3 {
        "3"
    } else if d == 4 {
        "4"
    } else if d == 5 {
        "5"
    } else if d == 6 {
        "6"
    } else if d == 7 {
        "7"
    } else if d == 8 {
        "8"
    } else {
        "9"
    }
}

/// Renders `n` in decimal.
pub fn decimal(n: u64) -> (s: String)
    ensures
        s@ == spec_decimal(n as nat),
    decreases n,
{
    if n < 10 {
        String::from_str(digit_str(n))
    } else {
        let mut s = decimal(n / 10);
        s.append(digit_str(n % 10));
        s
    }
}

/// Whether two strings hold the same characters.
pub fn text_eq(a: &str, b: &str) -> (r: bool)
    ensures
        r == (a@ == b@),
{
    let x = String::from_str(a);
    let y = String::from_str(b);
    x == y
}

/// The views of a sequence of strings.
pub open spec fn texts(v: Seq<String>) -> Seq<Seq<char>> {
    v.map_values(|s: String| s@)
}

/// The distinct elements of `s`, each once, in the order of their first
/// appearance.
pub open spec fn first_seen<A>(s: Seq<A>) -> Seq<A>
    decreases s.len(),
{
    if s.len() == 0 {
        Seq::empty()
    } else {
        let d = first_seen(s.drop_last());
        if d.contains(s.last()) {
            d
        } else {
            d.push(s.last())
        }
    }
}

/// `first_seen` holds each element of `s` exactly once.
pub proof fn lemma_first_seen<A>(s: Seq<A>)
    ensures
        first_seen(s).no_duplicates(),
        forall|x: A| first_seen(s).contains(x) <==> s.contains(x),
        first_seen(s).len() == s.to_set().len(),
    decreases s.len(),
{
    broadcast use vstd::seq_lib::group_seq_properties;
    if s.len() > 0 {
        lemma_first_seen(s.drop_last());
        assert(s =~= s.drop_last().push(s.last()));
    }
    assert(first_seen(s).to_set() =~= s.to_set());
    first_seen(s).unique_seq_to_set();
}

/// One more element extends `first_seen` by it exactly when it is new.
pub proof fn lemma_first_seen_push<A>(s: Seq<A>, x: A)
    ensures
        first_seen(s.push(x)) == (if first_seen(s).contains(x) {
            first_seen(s)
        } else {
            first_seen(s).push(x)
        }),
{
    assert(s.push(x).drop_last() =~= s);
}

/// Index of the first string of `v` equal to `s`, if any.
pub fn find_text(v: &Vec<String>, s: &str) -> (r: Option<usize>)
    ensures
        match r {
            Some(i) => i < v.len() && v@[i as int]@ == s@ && forall|j: int|
                0 <= j < i ==> v@[j]@ != s@,
            None => forall|j: int| 0 <= j < v.len() ==> v@[j]@ != s@,
        },
{
    let mut i: usize = 0;
    while i < v.len()
        invariant
            i <= v.len(),
            forall|j: int| 0 <= j < i ==> v@[j]@ != s@,
        decreases v.len() - i,
    {
        if text_eq(v[i].as_str(), s) {
            return Some(i);
        }
        i = i + 1;
    }
    None
}

/// Number of distinct texts in `v`.
pub fn distinct_count(v: &Vec<String>) -> (n: usize)
    ensures
        n == texts(v@).to_set().len(),
{
    let ghost all = texts(v@);
    let mut seen: Vec<String> = Vec::new();
    let mut i: usize = 0;
    while i < v.len()
        invariant
            i <= v.len(),
            all == texts(v@),
            texts(seen@) == first_seen(all.take(i as int)),
        decreases v.len() - i,
    {
        proof {
            assert(all.take(i + 1) =~= all.take(i as int).push(all[i as int]));
            lemma_first_seen_push(all.take(i as int), all[i as int]);
        }
        match find_text(&seen, v[i].as_str()) {
            Some(k) => {
                assert(texts(seen@)[k as int] == all[i as int]);
            },
            None => {
                assert(!texts(seen@).contains(all[i as int])) by {
                    if texts(seen@).contains(all[i as int]) {
                        let k = choose|k: int| 0 <= k < texts(seen@).len() && texts(seen@)[k] == all[i as int];
                        assert(seen@[k]@ == all[i as int]);
                    }
                }
                seen.push(v[i].clone());
                assert(texts(seen@) =~= first_seen(all.take(i as int)).push(all[i as int]));
            },
        }
        i = i + 1;
    }
    proof {
        assert(all.take(v.len() as int) =~= all);
        lemma_first_seen(all);
    }
    seen.len()
}

} // verus!
