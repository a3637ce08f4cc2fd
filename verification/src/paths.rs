//! Qualified names: `a::b::c`.

use vstd::prelude::*;
use vstd::string::*;

verus! {

/// Whether a separator stands at a position.
pub open spec fn sep_at(s: Seq<char>, i: int) -> bool {
    0 <= i && i + 1 < s.len() && s[i] == ':' && s[i + 1] == ':'
}

/// The position of the last separator at or before `i`, or a negative number.
pub open spec fn last_sep(s: Seq<char>, i: int) -> int
    decreases i + 1,
{
    if i < 0 {
        -1
    } else if sep_at(s, i) {
        i
    } else {
        last_sep(s, i - 1)
    }
}

/// The position of the first separator at or after `i`, or the length.
pub open spec fn first_sep(s: Seq<char>, i: int) -> int
    decreases s.len() - i,
{
    if i < 0 || i >= s.len() {
        s.len() as int
    } else if sep_at(s, i) {
        i
    } else {
        first_sep(s, i + 1)
    }
}

/// The segments between separators, from left to right, starting at `from`.
pub open spec fn segments(s: Seq<char>, from: int) -> Seq<Seq<char>>
    decreases s.len() - from + 2,
{
    let i = first_sep(s, from);
    if from < 0 || i >= s.len() || i < from {
        seq![s.skip(from)]
    } else {
        seq![s.subrange(from, i)] + segments(s, i + 2)
    }
}

/// A qualified name as the segments before its last separator and the name
/// after it.
pub open spec fn split_name(s: Seq<char>) -> Option<(Seq<Seq<char>>, Seq<char>)> {
    let i = last_sep(s, s.len() - 1);
    if i < 0 {
        None
    } else {
        Some((segments(s.take(i), 0), s.skip(i + 2)))
    }
}

pub proof fn lemma_first_sep(s: Seq<char>, i: int)
    requires
        0 <= i <= s.len(),
    ensures
        i <= first_sep(s, i) <= s.len(),
        first_sep(s, i) < s.len() ==> sep_at(s, first_sep(s, i)),
    decreases s.len() - i,
{
    if i < s.len() && !sep_at(s, i) {
        lemma_first_sep(s, i + 1);
    }
}

/// There is at least one segment.
pub proof fn lemma_segments_some(s: Seq<char>, from: int)
    ensures
        segments(s, from).len() > 0,
{
}

fn is_sep(s: &str, i: usize, n: usize) -> (b: bool)
    requires
        i < n,
        n == s@.len(),
    ensures
        b == sep_at(s@, i as int),
{
    n - i > 1 && s.get_char(i) == ':' && s.get_char(i + 1) == ':'
}

/// The segments of a path.
pub fn split_segments(s: &str) -> (r: Vec<String>)
    ensures
        r.deep_view() == segments(s@, 0),
{
    let n: usize = s.unicode_len();
    let mut out: Vec<String> = Vec::new();
    let mut from: usize = 0;
    let mut i: usize = 0;
    let ghost all = segments(s@, 0);
    proof {
        assert(out.deep_view() + segments(s@, 0) =~= all);
    }
    while i < n
        invariant
            from <= i <= n,
            n == s@.len(),
            first_sep(s@, from as int) == first_sep(s@, i as int),
            all == segments(s@, 0),
            out.deep_view() + segments(s@, from as int) == all,
        decreases n - i,
    {
        if is_sep(s, i, n) {
            let ghost prev = out.deep_view();
            out.push(s.substring_char(from, i).to_owned());
            proof {
                lemma_first_sep(s@, from as int);
                let piece = s@.subrange(from as int, i as int);
                assert(segments(s@, from as int) == seq![piece] + segments(s@, i as int + 2));
                assert(out.deep_view() =~= prev.push(piece));
                assert(out.deep_view() + segments(s@, i as int + 2) =~= prev + (seq![piece]
                    + segments(s@, i as int + 2)));
            }
            i = i + 2;
            from = i;
        } else {
            i = i + 1;
        }
    }
    let ghost prev = out.deep_view();
    out.push(s.substring_char(from, n).to_owned());
    proof {
        assert(first_sep(s@, n as int) == n);
        assert(s@.subrange(from as int, n as int) =~= s@.skip(from as int));
        assert(segments(s@, from as int) =~= seq![s@.skip(from as int)]);
        assert(out.deep_view() =~= prev.push(s@.skip(from as int)));
        assert(out.deep_view() =~= all);
    }
    out
}

/// Splits a qualified name at its last separator.
pub fn split_qualified_type_name(name: &str) -> (r: Option<(Vec<String>, String)>)
    ensures
        r.deep_view() == split_name(name@),
        r matches Some(p) ==> p.0@.len() > 0 && p.1@.len() < name@.len(),
{
    let n: usize = name.unicode_len();
    let mut i: usize = n;
    while i > 0
        invariant
            i <= n,
            n == name@.len(),
            last_sep(name@, n - 1) == last_sep(name@, i - 1),
        decreases i,
    {
        let k: usize = i - 1;
        if is_sep(name, k, n) {
            let prefix = name.substring_char(0, k);
            let short = name.substring_char(k + 2, n).to_owned();
            proof {
                assert(name@.subrange(0, k as int) =~= name@.take(k as int));
                assert(name@.subrange(k + 2, n as int) =~= name@.skip(k + 2));
                lemma_segments_some(prefix@, 0);
            }
            return Some((split_segments(prefix), short));
        }
        i = k;
    }
    None
}

} // verus!
