//! Strings as sequences of characters.

use vstd::prelude::*;
use vstd::string::*;

verus! {

/// `String::push` puts a character at the end of a string.
pub assume_specification[ String::push ](s: &mut String, c: char)
    ensures
        final(s)@ == old(s)@.push(c),
;

/// What `format!("{s:?}")` makes of a string: the string between double quotes,
/// with escapes for the characters that the standard library does not print as
/// they are.
pub uninterp spec fn quoted(s: Seq<char>) -> Seq<char>;

/// Formats a string with `format!` and its `Debug` form. The text depends on the
/// string alone; which characters are escaped, and how, is left unsaid.
#[verifier::external_body]
pub(crate) fn debug_text(s: &str) -> (r: String)
    ensures
        r@ == quoted(s@),
{
    format!("{s:?}")
}

/// What `format!("{c:?}")` makes of a character: the character between single quotes,
/// with an escape where the standard library does not print it as it is.
pub uninterp spec fn quoted_char(c: char) -> Seq<char>;

/// Formats a character with `format!` and its `Debug` form. The text depends on the
/// character alone; which characters are escaped, and how, is left unsaid.
#[verifier::external_body]
pub(crate) fn debug_char(c: char) -> (r: String)
    ensures
        r@ == quoted_char(c),
{
    format!("{c:?}")
}

/// What `str::to_uppercase` makes of a string.
pub uninterp spec fn uppercased(s: Seq<char>) -> Seq<char>;

/// Calls `str::to_uppercase`. The text depends on the string alone; which
/// characters it replaces is left unsaid, as that is a matter of Unicode's tables.
#[verifier::external_body]
pub(crate) fn upper(s: &str) -> (r: String)
    ensures
        r@ == uppercased(s@),
{
    s.to_uppercase()
}

/// What `str::to_lowercase` makes of a string.
pub uninterp spec fn lowercased(s: Seq<char>) -> Seq<char>;

/// Calls `str::to_lowercase`. The text depends on the string alone; which
/// characters it replaces is left unsaid, as that is a matter of Unicode's tables.
#[verifier::external_body]
pub(crate) fn lower(s: &str) -> (r: String)
    ensures
        r@ == lowercased(s@),
{
    s.to_lowercase()
}

/// Whether a number is that of a character: a Unicode scalar value.
pub open spec fn scalar(n: u32) -> bool {
    n <= 0xd7ff || 0xe000 <= n <= 0x10ffff
}

/// Calls `char::from_u32`, which gives the character with a number, and nothing
/// where the number is that of no character.
#[verifier::external_body]
pub(crate) fn char_from(n: u32) -> (r: Option<char>)
    ensures
        match r {
            Some(c) => scalar(n) && c as u32 == n,
            None => !scalar(n),
        },
{
    char::from_u32(n)
}

/// The characters of a string.
pub fn chars_of(s: &str) -> (r: Vec<char>)
    ensures
        r@ == s@,
{
    let n: usize = s.unicode_len();
    let mut out: Vec<char> = Vec::new();
    let mut i: usize = 0;
    while i < n
        invariant
            i <= n,
            n == s@.len(),
            out@ == s@.take(i as int),
        decreases n - i,
    {
        out.push(s.get_char(i));
        proof {
            assert(s@.take(i + 1) =~= s@.take(i as int).push(s@[i as int]));
        }
        i += 1;
    }
    proof {
        assert(s@.take(n as int) =~= s@);
    }
    out
}

/// The string of some characters, from a position up to another.
pub fn string_of(cs: &Vec<char>, from: usize, to: usize) -> (s: String)
    requires
        from <= to <= cs@.len(),
    ensures
        s@ == cs@.subrange(from as int, to as int),
{
    let mut s = String::new();
    let mut i: usize = from;
    proof {
        assert(s@ =~= cs@.subrange(from as int, from as int));
    }
    while i < to
        invariant
            from <= i <= to <= cs@.len(),
            s@ == cs@.subrange(from as int, i as int),
        decreases to - i,
    {
        s.push(cs[i]);
        proof {
            assert(cs@.subrange(from as int, i + 1) =~= cs@.subrange(from as int, i as int).push(
                cs@[i as int],
            ));
        }
        i += 1;
    }
    s
}

/// Whether a text comes before another one, or is the same, from position `i` on:
/// by the first character that differs, and a beginning before the whole.
pub open spec fn not_after(a: Seq<char>, b: Seq<char>, i: int) -> bool
    decreases a.len() - i,
{
    if i < 0 || i >= a.len() {
        true
    } else if i >= b.len() {
        false
    } else if a[i] != b[i] {
        (a[i] as int) < (b[i] as int)
    } else {
        not_after(a, b, i + 1)
    }
}

/// Of two texts one does not come after the other.
pub proof fn lemma_order_total(a: Seq<char>, b: Seq<char>, i: int)
    requires
        0 <= i,
    ensures
        not_after(a, b, i) || not_after(b, a, i),
    decreases a.len() - i,
{
    if i < a.len() && i < b.len() && a[i] == b[i] {
        lemma_order_total(a, b, i + 1);
    }
}

/// The order of texts is transitive.
pub proof fn lemma_order_transitive(a: Seq<char>, b: Seq<char>, c: Seq<char>, i: int)
    requires
        0 <= i,
        not_after(a, b, i),
        not_after(b, c, i),
    ensures
        not_after(a, c, i),
    decreases a.len() - i,
{
    if i < a.len() && i < b.len() && i < c.len() && a[i] == b[i] && b[i] == c[i] {
        lemma_order_transitive(a, b, c, i + 1);
    }
}

/// Texts that do not come after each other are the same.
pub proof fn lemma_order_antisymmetric(a: Seq<char>, b: Seq<char>, i: int)
    requires
        0 <= i <= a.len(),
        i <= b.len(),
        forall|j: int| 0 <= j < i ==> a[j] == b[j],
        not_after(a, b, i),
        not_after(b, a, i),
    ensures
        a == b,
    decreases a.len() - i,
{
    if i < a.len() && i < b.len() {
        assert(a[i] == b[i]);
        lemma_order_antisymmetric(a, b, i + 1);
    } else {
        assert(a =~= b);
    }
}

/// Whether a text comes before another one, or is the same.
pub fn is_not_after(a: &str, b: &str) -> (r: bool)
    ensures
        r == not_after(a@, b@, 0),
{
    let n: usize = a.unicode_len();
    let m: usize = b.unicode_len();
    let mut i: usize = 0;
    while i < n
        invariant
            i <= n,
            n == a@.len(),
            m == b@.len(),
            not_after(a@, b@, 0) == not_after(a@, b@, i as int),
        decreases n - i,
    {
        if i >= m {
            return false;
        }
        let x = a.get_char(i);
        let y = b.get_char(i);
        if x != y {
            return (x as u32) < (y as u32);
        }
        i += 1;
    }
    true
}

/// Whether a text stands at a position of another one.
pub open spec fn stands_at(s: Seq<char>, part: Seq<char>, i: int) -> bool {
    0 <= i && i + part.len() <= s.len() && s.subrange(i, i + part.len()) == part
}

/// The first position, from `i` on, at which a text stands, or a negative number.
pub open spec fn first_at(s: Seq<char>, part: Seq<char>, i: int) -> int
    decreases s.len() - i + 1,
{
    if i < 0 || i > s.len() {
        -1
    } else if stands_at(s, part, i) {
        i
    } else {
        first_at(s, part, i + 1)
    }
}

/// Whether a text stands at a position of another one.
pub fn is_at(s: &Vec<char>, part: &Vec<char>, i: usize) -> (b: bool)
    requires
        i <= s@.len(),
    ensures
        b == stands_at(s@, part@, i as int),
{
    if s.len() - i < part.len() {
        return false;
    }
    let mut j: usize = 0;
    while j < part.len()
        invariant
            j <= part.len(),
            i + part.len() <= s.len(),
            forall|k: int| 0 <= k < j ==> s@[i + k] == part@[k],
        decreases part.len() - j,
    {
        if s[i + j] != part[j] {
            proof {
                assert(s@.subrange(i as int, i + part@.len())[j as int] == s@[i + j]);
            }
            return false;
        }
        j += 1;
    }
    proof {
        assert(s@.subrange(i as int, i + part@.len()) =~= part@);
    }
    true
}

/// The first position, from `from` on, at which a text stands.
pub fn find_from(s: &Vec<char>, part: &Vec<char>, from: usize) -> (r: Option<usize>)
    requires
        from <= s@.len(),
    ensures
        match r {
            Some(i) => i as int == first_at(s@, part@, from as int) && from <= i && stands_at(
                s@,
                part@,
                i as int,
            ),
            None => first_at(s@, part@, from as int) < 0,
        },
{
    let mut i: usize = from;
    loop
        invariant
            from <= i <= s@.len(),
            first_at(s@, part@, from as int) == first_at(s@, part@, i as int),
        decreases s@.len() - i,
    {
        if is_at(s, part, i) {
            return Some(i);
        }
        if i == s.len() {
            proof {
                assert(first_at(s@, part@, i + 1) < 0);
            }
            return None;
        }
        i += 1;
    }
}

/// The position that is found is where the text stands.
pub proof fn lemma_first_at(s: Seq<char>, part: Seq<char>, i: int)
    ensures
        first_at(s, part, i) < 0 || i <= first_at(s, part, i) && stands_at(
            s,
            part,
            first_at(s, part, i),
        ),
    decreases s.len() - i + 1,
{
    if 0 <= i <= s.len() && !stands_at(s, part, i) {
        lemma_first_at(s, part, i + 1);
    }
}

/// The pieces between the places at which a separator stands, from `from` on.
pub open spec fn split_from(s: Seq<char>, sep: Seq<char>, from: int) -> Seq<Seq<char>>
    decreases s.len() - from + 1,
{
    let i = first_at(s, sep, from);
    if sep.len() == 0 || from < 0 || i < from {
        seq![s.skip(from)]
    } else {
        proof {
            lemma_first_at(s, sep, from);
        }
        seq![s.subrange(from, i)] + split_from(s, sep, i + sep.len())
    }
}

/// Splits a text at each place where a separator stands.
pub fn split(s: &String, sep: &String) -> (r: Vec<String>)
    ensures
        r.deep_view() == split_from(s@, sep@, 0),
{
    let cs = chars_of(s.as_str());
    let sc = chars_of(sep.as_str());
    let mut out: Vec<String> = Vec::new();
    let mut from: usize = 0;
    let ghost all = split_from(s@, sep@, 0);
    proof {
        assert(out.deep_view() + split_from(s@, sep@, 0) =~= all);
        assert(s@.skip(0) =~= s@);
    }
    while sc.len() > 0
        invariant
            cs@ == s@,
            sc@ == sep@,
            from <= cs@.len(),
            all == split_from(s@, sep@, 0),
            out.deep_view() + split_from(s@, sep@, from as int) == all,
        decreases cs@.len() - from,
    {
        let ghost prev = out.deep_view();
        assert(prev.len() == out@.len());
        match find_from(&cs, &sc, from) {
            Some(i) => {
                assert(stands_at(cs@, sc@, i as int));
                assert(i + sc.len() <= cs.len());
                let piece = string_of(&cs, from, i);
                out.push(piece);
                proof {
                    assert(out.deep_view() =~= prev.push(piece@));
                    assert(out.deep_view() + split_from(s@, sep@, i + sep@.len())
                        =~= prev + split_from(s@, sep@, from as int));
                }
                from = i + sc.len();
            },
            None => {
                let piece = string_of(&cs, from, cs.len());
                proof {
                    assert(piece@ =~= s@.skip(from as int));
                }
                out.push(piece);
                proof {
                    assert(out.deep_view() =~= prev.push(piece@));
                    assert(out.deep_view() =~= prev + seq![piece@]);
                }
                return out;
            },
        }
    }
    let ghost prev = out.deep_view();
    let piece = string_of(&cs, from, cs.len());
    proof {
        assert(prev.len() == out@.len());
        assert(piece@ =~= s@.skip(from as int));
    }
    out.push(piece);
    proof {
        assert(out.deep_view() =~= prev.push(piece@));
        assert(out.deep_view() =~= prev + seq![piece@]);
    }
    out
}

/// The characters from `i` on, with a text before each and one at the end.
pub open spec fn interleaved(s: Seq<char>, with: Seq<char>, i: int) -> Seq<char>
    decreases s.len() - i,
{
    if i < 0 || i >= s.len() {
        with
    } else {
        with.push(s[i]) + interleaved(s, with, i + 1)
    }
}

/// A text with another one in place of each place where a third stands. The empty
/// text stands before each character and at the end.
pub open spec fn replaced_text(s: Seq<char>, from: Seq<char>, to: Seq<char>) -> Seq<char> {
    if from.len() == 0 {
        interleaved(s, to, 0)
    } else {
        crate::text::joined(split_from(s, from, 0), to)
    }
}

/// Puts a text in place of each place where another one stands.
pub fn replace(s: &String, from: &String, to: &String) -> (r: String)
    ensures
        r@ == replaced_text(s@, from@, to@),
{
    if from.as_str().unicode_len() == 0 {
        let cs = chars_of(s.as_str());
        let mut out = String::new();
        let mut i: usize = 0;
        let ghost all = interleaved(s@, to@, 0);
        proof {
            assert(out@ + interleaved(s@, to@, 0) =~= all);
        }
        while i < cs.len()
            invariant
                i <= cs.len(),
                cs@ == s@,
                all == interleaved(s@, to@, 0),
                out@ + interleaved(s@, to@, i as int) == all,
            decreases cs.len() - i,
        {
            let ghost prev = out@;
            out.append(to.as_str());
            out.push(cs[i]);
            proof {
                assert(out@ =~= prev + to@.push(s@[i as int]));
                assert(out@ + interleaved(s@, to@, i + 1) =~= prev + interleaved(
                    s@,
                    to@,
                    i as int,
                ));
            }
            i += 1;
        }
        out.append(to.as_str());
        out
    } else {
        let parts = split(s, from);
        crate::text::join(&parts, to.as_str())
    }
}

/// Whether a character is white space.
pub open spec fn white(c: char) -> bool {
    let n = c as u32;
    ||| 0x9 <= n <= 0xd
    ||| n == 0x20
    ||| n == 0x85
    ||| n == 0xa0
    ||| n == 0x1680
    ||| 0x2000 <= n <= 0x200a
    ||| n == 0x2028
    ||| n == 0x2029
    ||| n == 0x202f
    ||| n == 0x205f
    ||| n == 0x3000
}

fn is_white(c: char) -> (b: bool)
    ensures
        b == white(c),
{
    let n: u32 = c as u32;
    (0x9 <= n && n <= 0xd) || n == 0x20 || n == 0x85 || n == 0xa0 || n == 0x1680 || (0x2000 <= n
        && n <= 0x200a) || n == 0x2028 || n == 0x2029 || n == 0x202f || n == 0x205f || n == 0x3000
}

/// A text without the white space at its beginning.
pub open spec fn trimmed_start(s: Seq<char>) -> Seq<char>
    decreases s.len(),
{
    if s.len() > 0 && white(s[0]) {
        trimmed_start(s.skip(1))
    } else {
        s
    }
}

/// A text without the white space at its end.
pub open spec fn trimmed_end(s: Seq<char>) -> Seq<char>
    decreases s.len(),
{
    if s.len() > 0 && white(s.last()) {
        trimmed_end(s.drop_last())
    } else {
        s
    }
}

/// Removes the white space at the beginning.
pub fn trim_start(s: &String) -> (r: String)
    ensures
        r@ == trimmed_start(s@),
{
    let cs = chars_of(s.as_str());
    let mut i: usize = 0;
    proof {
        assert(s@.skip(0) =~= s@);
    }
    while i < cs.len() && is_white(cs[i])
        invariant
            i <= cs.len(),
            cs@ == s@,
            trimmed_start(s@) == trimmed_start(s@.skip(i as int)),
        decreases cs.len() - i,
    {
        proof {
            assert(s@.skip(i as int).skip(1) =~= s@.skip(i + 1));
        }
        i += 1;
    }
    let r = string_of(&cs, i, cs.len());
    proof {
        assert(r@ =~= s@.skip(i as int));
    }
    r
}

/// Removes the white space at the end.
pub fn trim_end(s: &String) -> (r: String)
    ensures
        r@ == trimmed_end(s@),
{
    let cs = chars_of(s.as_str());
    let mut n: usize = cs.len();
    proof {
        assert(s@.take(n as int) =~= s@);
    }
    while n > 0 && is_white(cs[n - 1])
        invariant
            n <= cs.len(),
            cs@ == s@,
            trimmed_end(s@) == trimmed_end(s@.take(n as int)),
        decreases n,
    {
        proof {
            assert(s@.take(n as int).drop_last() =~= s@.take(n - 1));
        }
        n -= 1;
    }
    let r = string_of(&cs, 0, n);
    proof {
        assert(r@ =~= s@.take(n as int));
    }
    r
}

/// A text several times over.
pub open spec fn repeated(s: Seq<char>, n: nat) -> Seq<char>
    decreases n,
{
    if n == 0 {
        Seq::empty()
    } else {
        repeated(s, (n - 1) as nat) + s
    }
}

/// Repeats a text.
pub fn repeat(s: &String, n: u64) -> (r: String)
    ensures
        r@ == repeated(s@, n as nat),
{
    let mut out = String::new();
    let mut i: u64 = 0;
    proof {
        assert(out@ =~= Seq::empty());
    }
    while i < n
        invariant
            i <= n,
            out@ == repeated(s@, i as nat),
        decreases n - i,
    {
        out.append(s.as_str());
        i += 1;
    }
    out
}

} // verus!
