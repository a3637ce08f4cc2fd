//! The citations that a test program may carry, and how each kind is written.

use crate::strings::{chars_of, find_from, is_at, split, string_of};
use vstd::prelude::*;
use vstd::string::*;

verus! {

pub open spec fn digit(c: char) -> bool {
    '0' <= c <= '9'
}

pub open spec fn lower(c: char) -> bool {
    'a' <= c <= 'z'
}

pub open spec fn upper(c: char) -> bool {
    'A' <= c <= 'Z'
}

fn is_digit(c: char) -> (b: bool)
    ensures
        b == digit(c),
{
    '0' <= c && c <= '9'
}

fn is_lower(c: char) -> (b: bool)
    ensures
        b == lower(c),
{
    'a' <= c && c <= 'z'
}

fn is_upper(c: char) -> (b: bool)
    ensures
        b == upper(c),
{
    'A' <= c && c <= 'Z'
}

/// How many characters from position `i` on are digits, up to the first that is
/// none.
pub open spec fn digits_from(s: Seq<char>, i: int) -> nat
    decreases s.len() - i,
{
    if 0 <= i < s.len() && digit(s[i]) {
        1 + digits_from(s, i + 1)
    } else {
        0
    }
}

fn count_digits(s: &Vec<char>, from: usize) -> (n: usize)
    requires
        from <= s@.len(),
    ensures
        n == digits_from(s@, from as int),
        from + n <= s@.len(),
{
    let mut i: usize = from;
    while i < s.len() && is_digit(s[i])
        invariant
            from <= i <= s@.len(),
            digits_from(s@, from as int) == i - from + digits_from(s@, i as int),
        decreases s@.len() - i,
    {
        i += 1;
    }
    i - from
}

/// Digits, at least one, and after them at most one letter.
pub open spec fn numbered(s: Seq<char>) -> bool {
    let n = digits_from(s, 0);
    n > 0 && (s.len() == n || (s.len() == n + 1 && (lower(s[n as int]) || upper(s[n as int]))))
}

fn is_numbered(s: &String) -> (b: bool)
    ensures
        b == numbered(s@),
{
    let cs = chars_of(s.as_str());
    let n: usize = count_digits(&cs, 0);
    n > 0 && (cs.len() == n || (cs.len() - n == 1 && (is_lower(cs[n]) || is_upper(cs[n]))))
}

/// A proposal's name: `rfc-`, in either case, four digits, and at most one letter.
pub open spec fn proposal(s: Seq<char>) -> bool {
    &&& s.len() >= 4
    &&& (s[0] == 'r' || s[0] == 'R')
    &&& (s[1] == 'f' || s[1] == 'F')
    &&& (s[2] == 'c' || s[2] == 'C')
    &&& s[3] == '-'
    &&& digits_from(s, 4) == 4
    &&& (s.len() == 8 || (s.len() == 9 && (lower(s[8]) || upper(s[8]))))
}

fn is_proposal(s: &Vec<char>) -> (b: bool)
    ensures
        b == proposal(s@),
{
    if s.len() < 4 {
        return false;
    }
    let named = (s[0] == 'r' || s[0] == 'R') && (s[1] == 'f' || s[1] == 'F') && (s[2] == 'c'
        || s[2] == 'C') && s[3] == '-';
    named && count_digits(s, 4) == 4 && (s.len() == 8 || (s.len() == 9 && (is_lower(s[8])
        || is_upper(s[8]))))
}

/// Whether every part of a text is numbered.
pub open spec fn all_numbered(parts: Seq<Seq<char>>) -> bool {
    forall|i: int| 0 <= i < parts.len() ==> numbered(#[trigger] parts[i])
}

/// A citation of a proposal, as a whole or of one of its sections.
pub open spec fn proposal_citation(s: Seq<char>) -> bool {
    let at = crate::strings::first_at(s, "§"@, 0);
    if at < 0 {
        proposal(s)
    } else {
        proposal(s.take(at)) && all_numbered(
            crate::strings::split_from(s.skip(at + 1), "."@, 0),
        )
    }
}

fn is_all_numbered(parts: &Vec<String>) -> (b: bool)
    ensures
        b == all_numbered(parts.deep_view()),
{
    let ghost all = parts.deep_view();
    let mut i: usize = 0;
    while i < parts.len()
        invariant
            i <= parts.len(),
            all == parts.deep_view(),
            forall|j: int| 0 <= j < i ==> numbered(#[trigger] all[j]),
        decreases parts.len() - i,
    {
        assert(all[i as int] == parts@[i as int]@);
        if !is_numbered(&parts[i]) {
            return false;
        }
        i += 1;
    }
    true
}

pub fn is_proposal_citation(s: &String) -> (b: bool)
    ensures
        b == proposal_citation(s@),
{
    proof {
        reveal_strlit("§");
        reveal_strlit(".");
    }
    let cs = chars_of(s.as_str());
    match find_from(&cs, &chars_of("§"), 0) {
        None => is_proposal(&cs),
        Some(at) => {
            assert(crate::strings::stands_at(cs@, "§"@, at as int));
            assert("§"@.len() == 1);
            let end: usize = cs.len();
            let id = chars_of(string_of(&cs, 0, at).as_str());
            let section = string_of(&cs, at + 1, end);
            proof {
                assert(id@ =~= s@.take(at as int));
                assert(section@ =~= s@.skip(at + 1));
            }
            is_proposal(&id) && is_all_numbered(&split(&section, &".".to_owned()))
        },
    }
}

/// Lower-case letters, digits and hyphens, at least one of them.
pub open spec fn kebab(s: Seq<char>) -> bool {
    s.len() > 0 && forall|i: int|
        0 <= i < s.len() ==> lower(#[trigger] s[i]) || digit(s[i]) || s[i] == '-'
}

fn is_kebab(s: &String) -> (b: bool)
    ensures
        b == kebab(s@),
{
    let cs = chars_of(s.as_str());
    let mut i: usize = 0;
    while i < cs.len()
        invariant
            i <= cs.len(),
            cs@ == s@,
            forall|j: int| 0 <= j < i ==> lower(#[trigger] s@[j]) || digit(s@[j]) || s@[j] == '-',
        decreases cs.len() - i,
    {
        let c = cs[i];
        if !(is_lower(c) || is_digit(c) || c == '-') {
            return false;
        }
        i += 1;
    }
    cs.len() > 0
}

/// Whether the first `k` parts of a text are written in this way.
pub open spec fn all_kebab(parts: Seq<Seq<char>>, k: int) -> bool {
    forall|i: int| 0 <= i < k ==> kebab(#[trigger] parts[i])
}

fn is_all_kebab(parts: &Vec<String>, k: usize) -> (b: bool)
    requires
        k <= parts.len(),
    ensures
        b == all_kebab(parts.deep_view(), k as int),
{
    let ghost all = parts.deep_view();
    let mut i: usize = 0;
    while i < k
        invariant
            i <= k <= parts.len(),
            all == parts.deep_view(),
            forall|j: int| 0 <= j < i ==> kebab(#[trigger] all[j]),
        decreases k - i,
    {
        assert(all[i as int] == parts@[i as int]@);
        if !is_kebab(&parts[i]) {
            return false;
        }
        i += 1;
    }
    true
}

/// The name of a rule: its kind, a hyphen, and a number that letters may follow.
pub open spec fn rule_name(s: Seq<char>) -> bool {
    let at = crate::strings::first_at(s, "-"@, 0);
    let n = digits_from(s, at + 1);
    &&& at >= 0
    &&& s.take(at) == "legality"@ || s.take(at) == "dynamics"@
    &&& n > 0
    &&& forall|i: int| at + 1 + n <= i < s.len() ==> lower(#[trigger] s[i])
}

fn is_rule_name(s: &String) -> (b: bool)
    ensures
        b == rule_name(s@),
{
    proof {
        reveal_strlit("-");
    }
    let cs = chars_of(s.as_str());
    let at: usize = match find_from(&cs, &chars_of("-"), 0) {
        Some(at) => at,
        None => {
            return false;
        },
    };
    assert(crate::strings::stands_at(cs@, "-"@, at as int));
    assert("-"@.len() == 1);
    let kind = string_of(&cs, 0, at);
    proof {
        assert(kind@ =~= s@.take(at as int));
    }
    if !(crate::resolve::is_text(&kind, "legality") || crate::resolve::is_text(
        &kind,
        "dynamics",
    )) {
        return false;
    }
    let end: usize = cs.len();
    let n: usize = count_digits(&cs, at + 1);
    if n == 0 {
        return false;
    }
    let mut i: usize = at + 1 + n;
    while i < end
        invariant
            at + 1 + n <= i <= end,
            end == cs.len(),
            cs@ == s@,
            at as int == crate::strings::first_at(s@, "-"@, 0),
            n == digits_from(s@, at + 1),
            forall|j: int| at + 1 + n <= j < i ==> lower(#[trigger] s@[j]),
        decreases end - i,
    {
        if !is_lower(cs[i]) {
            return false;
        }
        i += 1;
    }
    true
}

/// A citation of a rule of the language: where it stands, and which one it is.
pub open spec fn rule_citation(s: Seq<char>) -> bool {
    let parts = crate::strings::split_from(s.skip(5), "."@, 0);
    &&& crate::strings::stands_at(s, "spec."@, 0)
    &&& parts.len() >= 3
    &&& all_kebab(parts, parts.len() - 1)
    &&& rule_name(parts.last())
}

pub fn is_rule_citation(s: &String) -> (b: bool)
    ensures
        b == rule_citation(s@),
{
    proof {
        reveal_strlit("spec.");
    }
    let cs = chars_of(s.as_str());
    if !is_at(&cs, &chars_of("spec."), 0) {
        return false;
    }
    let rest = string_of(&cs, 5, cs.len());
    proof {
        assert(rest@ =~= s@.skip(5));
    }
    let parts = split(&rest, &".".to_owned());
    let ghost all = parts.deep_view();
    assert(all.len() == parts.len());
    if parts.len() < 3 {
        return false;
    }
    let last: usize = parts.len() - 1;
    assert(all[last as int] == parts@[last as int]@);
    is_all_kebab(&parts, last) && is_rule_name(&parts[last])
}

/// The last position, up to `i`, at which a text stands, or a negative number.
pub open spec fn last_at(s: Seq<char>, part: Seq<char>, i: int) -> int
    decreases i + 1,
{
    if i < 0 {
        -1
    } else if crate::strings::stands_at(s, part, i) {
        i
    } else {
        last_at(s, part, i - 1)
    }
}

/// A citation of a requirement on the design: where it stands, and its number.
pub open spec fn requirement_citation(s: Seq<char>) -> bool {
    let rest = s.skip(5);
    let at = last_at(rest, ".requirement-"@, rest.len() as int);
    let parts = crate::strings::split_from(rest.take(at), "."@, 0);
    let n = digits_from(rest, at + 13);
    &&& crate::strings::stands_at(s, "arch."@, 0)
    &&& at >= 0
    &&& n > 0
    &&& at + 13 + n == rest.len()
    &&& all_kebab(parts, parts.len() as int)
}

pub fn is_requirement_citation(s: &String) -> (b: bool)
    ensures
        b == requirement_citation(s@),
{
    proof {
        reveal_strlit("arch.");
        reveal_strlit(".requirement-");
    }
    let whole = chars_of(s.as_str());
    if !is_at(&whole, &chars_of("arch."), 0) {
        return false;
    }
    let cs = chars_of(string_of(&whole, 5, whole.len()).as_str());
    let ghost rest = s@.skip(5);
    assert(cs@ =~= rest);
    let marker = chars_of(".requirement-");
    let mut at: usize = cs.len();
    while at > 0 && !is_at(&cs, &marker, at)
        invariant
            at <= cs.len(),
            cs@ == rest,
            marker@ == ".requirement-"@,
            last_at(rest, ".requirement-"@, rest.len() as int) == last_at(
                rest,
                ".requirement-"@,
                at as int,
            ),
        decreases at,
    {
        at -= 1;
    }
    if !is_at(&cs, &marker, at) {
        assert(last_at(rest, ".requirement-"@, -1) < 0);
        return false;
    }
    let n: usize = count_digits(&cs, at + 13);
    let section = string_of(&cs, 0, at);
    assert(section@ =~= rest.take(at as int));
    let parts = split(&section, &".".to_owned());
    let ghost all = parts.deep_view();
    assert(all.len() == parts.len());
    n > 0 && at + 13 + n == cs.len() && is_all_kebab(&parts, parts.len())
}

/// The code of an error: a capital letter and four digits.
pub open spec fn error_code(s: Seq<char>) -> bool {
    s.len() == 5 && upper(s[0]) && digits_from(s, 1) == 4
}

pub fn is_error_code(s: &String) -> (b: bool)
    ensures
        b == error_code(s@),
{
    let cs = chars_of(s.as_str());
    cs.len() == 5 && is_upper(cs[0]) && count_digits(&cs, 1) == 4
}

} // verus!
