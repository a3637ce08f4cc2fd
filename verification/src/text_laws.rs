//! What the built-in functions on texts promise, of all texts.

use crate::ast::SpanModel;
use crate::native_keys::{NativeFn, NativeKey};
use crate::natives::NativeModel;
use crate::store::StoreModel;
use crate::values::{ArrayId, IntKind, ValueHead, ValueTerm};
use vstd::prelude::*;
use vstd::string::*;

verus! {

/// A call of a built-in function.
pub open spec fn call(
    s: StoreModel,
    key: NativeKey,
    args: Seq<ValueTerm>,
    span: SpanModel,
    n: nat,
) -> NativeModel {
    crate::natives::native_started(s, NativeFn::Key(key), args, span, n)
}

/// A call that is over at once, with a value.
pub open spec fn given(s: StoreModel, v: ValueTerm) -> NativeModel {
    NativeModel::Done(Ok((s, v)))
}

pub open spec fn text(t: Seq<char>) -> ValueTerm {
    ValueTerm { head: ValueHead::Str(t), args: Seq::empty() }
}

pub open spec fn truth(b: bool) -> ValueTerm {
    ValueTerm { head: ValueHead::Boolean(b), args: Seq::empty() }
}

pub open spec fn number(n: int) -> ValueTerm {
    ValueTerm { head: ValueHead::Int(IntKind::I64, n), args: Seq::empty() }
}

pub open spec fn character(c: char) -> ValueTerm {
    ValueTerm { head: ValueHead::Char(c), args: Seq::empty() }
}

pub open spec fn array(a: ArrayId) -> ValueTerm {
    ValueTerm { head: ValueHead::Array(a), args: Seq::empty() }
}

/// Whether a value is the variant of `Perhaps` that holds another one.
pub open spec fn is_some(v: ValueTerm, x: ValueTerm) -> bool {
    &&& v.head is Enum
    &&& v.head->Enum_0 == "Perhaps"@
    &&& v.head->Enum_2 == "Some"@
    &&& v.head->Enum_4 == seq!["value"@]
    &&& v.args == seq![x]
}

/// Whether a value is the variant of `Perhaps` that holds nothing.
pub open spec fn is_none(v: ValueTerm) -> bool {
    &&& v.head is Enum
    &&& v.head->Enum_0 == "Perhaps"@
    &&& v.head->Enum_2 == "None"@
    &&& v.head->Enum_4.len() == 0
    &&& v.args.len() == 0
}

/// The value of a call that is over.
pub open spec fn value(r: NativeModel) -> ValueTerm {
    r->Done_0->Ok_0.1
}

/// The store after a call that is over.
pub open spec fn store(r: NativeModel) -> StoreModel {
    r->Done_0->Ok_0.0
}

/// The text that a call gives.
pub open spec fn told(r: NativeModel) -> Seq<char> {
    value(r).head->Str_0
}

/// The text that a function of one text gives of it.
pub open spec fn changed(
    s: StoreModel,
    key: NativeKey,
    a: Seq<char>,
    span: SpanModel,
    n: nat,
) -> Seq<char> {
    told(call(s, key, seq![text(a)], span, n))
}

/// A text begins with another one exactly if it is that one with something behind it.
#[verifier::rlimit(60)]
pub proof fn texts_start_with_their_beginnings(
    s: StoreModel,
    p: Seq<char>,
    r: Seq<char>,
    a: Seq<char>,
    span: SpanModel,
    n: nat,
)
    ensures
        ({
            let key = NativeKey::StdCoreStringStartsWith;
            &&& call(s, key, seq![text(p + r), text(p)], span, n) == given(s, truth(true))
            &&& call(s, key, seq![text(a), text(p)], span, n) == given(s, truth(true))
                || call(s, key, seq![text(a), text(p)], span, n) == given(s, truth(false))
            &&& call(s, key, seq![text(a), text(p)], span, n) == given(s, truth(true))
                ==> a == p + a.skip(p.len() as int)
        }),
{
    assert((p + r).subrange(0, p.len() as int) =~= p);
    if crate::strings::stands_at(a, p, 0) {
        assert(a =~= a.subrange(0, p.len() as int) + a.skip(p.len() as int));
    }
}

/// A text ends with another one exactly if it is that one with something before it.
pub proof fn texts_end_with_their_ends(
    s: StoreModel,
    p: Seq<char>,
    r: Seq<char>,
    a: Seq<char>,
    span: SpanModel,
    n: nat,
)
    ensures
        ({
            let key = NativeKey::StdCoreStringEndsWith;
            &&& call(s, key, seq![text(r + p), text(p)], span, n) == given(s, truth(true))
            &&& call(s, key, seq![text(a), text(p)], span, n) == given(s, truth(true))
                || call(s, key, seq![text(a), text(p)], span, n) == given(s, truth(false))
            &&& call(s, key, seq![text(a), text(p)], span, n) == given(s, truth(true))
                ==> p.len() <= a.len() && a == a.take(a.len() - p.len()) + p
        }),
{
    assert((r + p).subrange(r.len() as int, (r + p).len() as int) =~= p);
    let i = a.len() - p.len();
    if crate::strings::stands_at(a, p, i) {
        assert(a =~= a.take(i) + a.subrange(i, a.len() as int));
    }
}

proof fn lemma_within(a: Seq<char>, p: Seq<char>, from: int)
    requires
        0 <= from,
    ensures
        ({
            let i = crate::strings::first_at(a, p, from);
            &&& i >= 0 ==> from <= i && crate::strings::stands_at(a, p, i)
            &&& forall|k: int|
                from <= k && (i < 0 || k < i) ==> !#[trigger] crate::strings::stands_at(a, p, k)
        }),
    decreases a.len() - from + 1,
{
    if from <= a.len() && !crate::strings::stands_at(a, p, from) {
        lemma_within(a, p, from + 1);
    }
}

/// A text contains another one exactly if it is that one with something before and
/// something behind it.
pub proof fn texts_contain_what_stands_in_them(
    s: StoreModel,
    l: Seq<char>,
    p: Seq<char>,
    r: Seq<char>,
    a: Seq<char>,
    span: SpanModel,
    n: nat,
)
    ensures
        ({
            let key = NativeKey::StdCoreStringContains;
            &&& call(s, key, seq![text(l + p + r), text(p)], span, n) == given(s, truth(true))
            &&& call(s, key, seq![text(a), text(p)], span, n) == given(s, truth(true))
                || call(s, key, seq![text(a), text(p)], span, n) == given(s, truth(false))
            &&& call(s, key, seq![text(a), text(p)], span, n) == given(s, truth(true))
                ==> exists|x: Seq<char>, y: Seq<char>| a == #[trigger] ((x + p) + y)
        }),
{
    let whole = l + p + r;
    lemma_within(whole, p, 0);
    assert(whole.subrange(l.len() as int, (l.len() + p.len()) as int) =~= p);
    assert(crate::strings::stands_at(whole, p, l.len() as int));
    lemma_within(a, p, 0);
    let i = crate::strings::first_at(a, p, 0);
    if i >= 0 {
        let x = a.take(i);
        let y = a.skip(i + p.len());
        assert(a =~= x + a.subrange(i, i + p.len()) + y);
        assert(a == (x + p) + y);
    }
}

/// The position of a text in another one is the number of characters before it, and
/// none before that one will do. There is one exactly where the text is contained.
#[verifier::rlimit(60)]
pub proof fn positions_are_where_texts_stand(
    s: StoreModel,
    a: Seq<char>,
    p: Seq<char>,
    l: Seq<char>,
    r: Seq<char>,
    span: SpanModel,
    n: nat,
)
    requires
        a.len() < 0x8000_0000_0000_0000,
    ensures
        ({
            let found = call(s, NativeKey::StdCoreStringIndexOf, seq![text(a), text(p)], span, n);
            let contained = call(
                s,
                NativeKey::StdCoreStringContains,
                seq![text(a), text(p)],
                span,
                n,
            );
            &&& found == given(s, value(found))
            &&& contained == given(s, truth(false)) ==> is_none(value(found))
            &&& contained == given(s, truth(true)) ==> {
                let i = value(found).args[0].head->Int_1;
                &&& is_some(value(found), number(i))
                &&& 0 <= i && i + p.len() <= a.len()
                &&& a == a.take(i) + p + a.skip(i + p.len())
                &&& a == l + p + r ==> i <= l.len()
            }
        }),
{
    let i = crate::strings::first_at(a, p, 0);
    lemma_within(a, p, 0);
    if i >= 0 {
        assert(a =~= a.take(i) + a.subrange(i, i + p.len()) + a.skip(i + p.len()));
        if a == l + p + r {
            assert(a.subrange(l.len() as int, (l.len() + p.len()) as int) =~= p);
            assert(crate::strings::stands_at(a, p, l.len() as int));
        }
        assert(seq![crate::natives::count_term(i)][0] == crate::natives::count_term(i));
    }
}

/// The length of a text counts its characters, those of two texts together are those
/// of both, and the empty text is the one without any.
pub proof fn lengths_count_characters(
    s: StoreModel,
    a: Seq<char>,
    b: Seq<char>,
    c: char,
    span: SpanModel,
    n: nat,
)
    requires
        a.len() + b.len() < 0x8000_0000_0000_0000,
    ensures
        ({
            let len = |t: Seq<char>|
                value(call(s, NativeKey::StdCoreStringLen, seq![text(t)], span, n)).head->Int_1;
            let empty = |t: Seq<char>|
                call(s, NativeKey::StdCoreStringIsEmpty, seq![text(t)], span, n);
            &&& call(s, NativeKey::StdCoreStringLen, seq![text(a)], span, n) == given(
                s,
                number(len(a)),
            )
            &&& len(a + b) == len(a) + len(b)
            &&& len(Seq::empty()) == 0
            &&& len(seq![c]) == 1
            &&& empty(a) == given(s, truth(len(a) == 0))
            &&& empty(a + seq![c]) == given(s, truth(false))
        }),
{
}

/// The white space of the language: that of Unicode.
pub open spec fn blank(c: char) -> bool {
    ||| c == '\t'
    ||| c == '\n'
    ||| c == '\u{b}'
    ||| c == '\u{c}'
    ||| c == '\r'
    ||| c == ' '
    ||| c == '\u{85}'
    ||| c == '\u{a0}'
    ||| c == '\u{1680}'
    ||| '\u{2000}' <= c <= '\u{200a}'
    ||| c == '\u{2028}'
    ||| c == '\u{2029}'
    ||| c == '\u{202f}'
    ||| c == '\u{205f}'
    ||| c == '\u{3000}'
}

pub open spec fn all_blank(t: Seq<char>) -> bool {
    forall|i: int| 0 <= i < t.len() ==> blank(#[trigger] t[i])
}

proof fn lemma_blank(c: char)
    ensures
        crate::strings::white(c) == blank(c),
{
}

proof fn lemma_start(a: Seq<char>) -> (k: int)
    ensures
        0 <= k <= a.len(),
        all_blank(a.take(k)),
        crate::strings::trimmed_start(a) == a.skip(k),
        k < a.len() ==> !blank(a[k]),
    decreases a.len(),
{
    if a.len() > 0 && crate::strings::white(a[0]) {
        lemma_blank(a[0]);
        let j = lemma_start(a.skip(1));
        assert(a.skip(1).skip(j) =~= a.skip(j + 1));
        assert forall|i: int| 0 <= i < j + 1 implies blank(#[trigger] a.take(j + 1)[i]) by {
            if i > 0 {
                assert(a.skip(1).take(j)[i - 1] == a[i]);
            }
        }
        j + 1
    } else {
        if a.len() > 0 {
            lemma_blank(a[0]);
        }
        assert(a.skip(0) =~= a);
        0
    }
}

proof fn lemma_end(a: Seq<char>) -> (k: int)
    ensures
        0 <= k <= a.len(),
        all_blank(a.skip(k)),
        crate::strings::trimmed_end(a) == a.take(k),
        0 < k ==> !blank(a[k - 1]),
    decreases a.len(),
{
    if a.len() > 0 && crate::strings::white(a.last()) {
        lemma_blank(a.last());
        let j = lemma_end(a.drop_last());
        assert(a.drop_last().take(j) =~= a.take(j));
        assert forall|i: int| 0 <= i < a.len() - j implies blank(#[trigger] a.skip(j)[i]) by {
            if i < a.len() - j - 1 {
                assert(a.drop_last().skip(j)[i] == a[i + j]);
            }
        }
        j
    } else {
        if a.len() > 0 {
            lemma_blank(a.last());
        }
        assert(a.take(a.len() as int) =~= a);
        a.len() as int
    }
}

/// Trimming takes white space off an end of a text, all of it and nothing else; a text
/// that has none there stays as it is.
pub proof fn trimming_takes_off_white_space(
    s: StoreModel,
    a: Seq<char>,
    span: SpanModel,
    n: nat,
)
    ensures
        ({
            let start = changed(s, NativeKey::StdCoreStringTrimStart, a, span, n);
            let end = changed(s, NativeKey::StdCoreStringTrimEnd, a, span, n);
            let both = changed(s, NativeKey::StdCoreStringTrim, a, span, n);
            &&& call(s, NativeKey::StdCoreStringTrimStart, seq![text(a)], span, n) == given(
                s,
                text(start),
            )
            &&& call(s, NativeKey::StdCoreStringTrimEnd, seq![text(a)], span, n) == given(
                s,
                text(end),
            )
            &&& call(s, NativeKey::StdCoreStringTrim, seq![text(a)], span, n) == given(
                s,
                text(both),
            )
            &&& exists|l: Seq<char>| all_blank(l) && a == #[trigger] (l + start)
            &&& exists|r: Seq<char>| all_blank(r) && a == #[trigger] (end + r)
            &&& exists|l: Seq<char>, r: Seq<char>|
                all_blank(l) && all_blank(r) && a == #[trigger] (l + both + r)
            &&& start.len() > 0 ==> !blank(start[0])
            &&& end.len() > 0 ==> !blank(end.last())
            &&& both.len() > 0 ==> !blank(both[0]) && !blank(both.last())
        }),
{
    let i = lemma_start(a);
    let start = a.skip(i);
    assert(a =~= a.take(i) + start);
    let j = lemma_end(a);
    let end = a.take(j);
    assert(a =~= end + a.skip(j));
    let k = lemma_end(start);
    let both = start.take(k);
    assert(a =~= a.take(i) + both + start.skip(k));
    if k > 0 {
        assert(both[0] == start[0]);
    }
}

/// A text repeated no times is empty, and each further time puts the text behind it.
pub proof fn texts_are_repeated_one_after_the_other(
    s: StoreModel,
    a: Seq<char>,
    k: int,
    span: SpanModel,
    n: nat,
)
    ensures
        ({
            let repeat = |i: int|
                call(s, NativeKey::StdCoreStringRepeat, seq![text(a), number(i)], span, n);
            &&& k <= 0 ==> repeat(k) == given(s, text(Seq::empty()))
            &&& repeat(k) == given(s, text(told(repeat(k))))
            &&& k > 0 ==> told(repeat(k)) == told(repeat(k - 1)) + a
        }),
{
}

/// Whether a text stands nowhere in another one.
pub open spec fn free_of(a: Seq<char>, p: Seq<char>) -> bool {
    forall|l: Seq<char>, r: Seq<char>| a != #[trigger] ((l + p) + r)
}

/// The texts in an array of them.
pub open spec fn texts_in(s: StoreModel, v: ValueTerm) -> Seq<Seq<char>> {
    let items = s.arrays[v.head->Array_0.0 as int];
    Seq::new(items.len(), |i: int| items[i].head->Str_0)
}

/// Whether a value is a new array of texts.
pub open spec fn new_texts(s: StoreModel, t: StoreModel, v: ValueTerm) -> bool {
    &&& t.arrays.len() == s.arrays.len() + 1
    &&& t.arrays.drop_last() == s.arrays
    &&& t.cells == s.cells
    &&& t.closures == s.closures
    &&& v == array(ArrayId(s.arrays.len() as usize))
    &&& forall|i: int|
        0 <= i < t.arrays.last().len() ==> #[trigger] t.arrays.last()[i] == text(
            texts_in(t, v)[i],
        )
}

proof fn lemma_joined_front(first: Seq<char>, rest: Seq<Seq<char>>, sep: Seq<char>)
    requires
        rest.len() > 0,
    ensures
        crate::text::joined(seq![first] + rest, sep) == first + sep + crate::text::joined(
            rest,
            sep,
        ),
    decreases rest.len(),
{
    let all = seq![first] + rest;
    assert(all.len() >= 2);
    assert(all.last() == rest.last());
    assert(all.drop_last() =~= seq![first] + rest.drop_last());
    assert(crate::text::joined(all, sep) == crate::text::joined(all.drop_last(), sep) + sep
        + all.last());
    if rest.len() == 1 {
        assert(all.drop_last() =~= seq![first]);
        assert(seq![first][0] == first);
        assert(crate::text::joined(seq![first], sep) == first);
        assert(crate::text::joined(rest, sep) == rest.last());
    } else {
        lemma_joined_front(first, rest.drop_last(), sep);
        assert(crate::text::joined(rest, sep) == crate::text::joined(rest.drop_last(), sep) + sep
            + rest.last());
    }
    assert(crate::text::joined(all, sep) =~= first + sep + crate::text::joined(rest, sep));
}

proof fn lemma_free(a: Seq<char>, p: Seq<char>, from: int, to: int)
    requires
        0 <= from <= to <= a.len(),
        forall|k: int|
            from <= k && k + p.len() <= to ==> !#[trigger] crate::strings::stands_at(a, p, k),
    ensures
        free_of(a.subrange(from, to), p),
{
    let part = a.subrange(from, to);
    assert forall|l: Seq<char>, r: Seq<char>| part != #[trigger] ((l + p) + r) by {
        if part == (l + p) + r {
            let k = from + l.len();
            let whole = (l + p) + r;
            assert(whole.len() == l.len() + p.len() + r.len());
            assert(part.len() == to - from);
            assert(a.subrange(k, k + p.len()) =~= p) by {
                assert forall|i: int| 0 <= i < p.len() implies a[k + i] == p[i] by {
                    assert(part[l.len() + i] == a[k + i]);
                    assert(whole[l.len() + i] == p[i]);
                }
            }
            assert(crate::strings::stands_at(a, p, k));
        }
    }
}

proof fn lemma_split(a: Seq<char>, sep: Seq<char>, from: int)
    requires
        sep.len() > 0,
        0 <= from <= a.len(),
    ensures
        crate::strings::split_from(a, sep, from).len() > 0,
        crate::text::joined(crate::strings::split_from(a, sep, from), sep) == a.skip(from),
        forall|i: int|
            0 <= i < crate::strings::split_from(a, sep, from).len() ==> free_of(
                #[trigger] crate::strings::split_from(a, sep, from)[i],
                sep,
            ),
    decreases a.len() - from,
{
    let i = crate::strings::first_at(a, sep, from);
    lemma_within(a, sep, from);
    if i < from {
        lemma_free(a, sep, from, a.len() as int);
        assert(a.subrange(from, a.len() as int) =~= a.skip(from));
    } else {
        let rest = crate::strings::split_from(a, sep, i + sep.len());
        lemma_split(a, sep, i + sep.len());
        lemma_joined_front(a.subrange(from, i), rest, sep);
        assert(a.skip(from) =~= a.subrange(from, i) + sep + a.skip(i + sep.len())) by {
            assert(a.subrange(i, i + sep.len()) == sep);
            assert forall|k: int| 0 <= k < sep.len() implies a[i + k] == sep[k] by {
                assert(a.subrange(i, i + sep.len())[k] == a[i + k]);
            }
        }
        lemma_free(a, sep, from, i);
        let all = crate::strings::split_from(a, sep, from);
        assert(all == seq![a.subrange(from, i)] + rest);
        assert forall|j: int| 0 <= j < all.len() implies free_of(#[trigger] all[j], sep) by {
            if j > 0 {
                assert(all[j] == rest[j - 1]);
            }
        }
    }
}

proof fn lemma_texts(ts: Seq<Seq<char>>, k: int)
    requires
        0 <= k <= ts.len(),
    ensures
        crate::natives::texts_of(crate::natives::strs(ts), k) == Some(ts.take(k)),
    decreases k,
{
    if k > 0 {
        lemma_texts(ts, k - 1);
        assert(ts.take(k) =~= ts.take(k - 1).push(ts[k - 1]));
    } else {
        assert(ts.take(0) =~= Seq::<Seq<char>>::empty());
    }
}

/// Splitting makes an array of the pieces.
proof fn lemma_split_call(s: StoreModel, a: Seq<char>, sep: Seq<char>, span: SpanModel, n: nat)
    ensures
        call(s, NativeKey::StdCoreStringSplit, seq![text(a), text(sep)], span, n) == given(
            StoreModel {
                arrays: s.arrays.push(
                    crate::natives::strs(crate::strings::split_from(a, sep, 0)),
                ),
                ..s
            },
            array(ArrayId(s.arrays.len() as usize)),
        ),
{
}

/// Joining gives the texts of an array with a separator between them.
proof fn lemma_join_call(
    s: StoreModel,
    a: ArrayId,
    ts: Seq<Seq<char>>,
    sep: Seq<char>,
    span: SpanModel,
    n: nat,
)
    requires
        a.0 < s.arrays.len(),
        s.arrays[a.0 as int] == crate::natives::strs(ts),
    ensures
        call(s, NativeKey::StdCoreStringJoin, seq![array(a), text(sep)], span, n) == given(
            s,
            text(crate::text::joined(ts, sep)),
        ),
{
    lemma_texts(ts, ts.len() as int);
    assert(ts.take(ts.len() as int) =~= ts);
}

/// A text is split into the pieces between a separator: a new array of texts, in none of
/// which it stands, the first of which ends where the separator first stands, and which
/// give the text back when they are joined with it. Without a separator the text stays whole.
#[verifier::rlimit(60)]
pub proof fn texts_are_split_at_the_separator(
    s: StoreModel,
    a: Seq<char>,
    sep: Seq<char>,
    span: SpanModel,
    n: nat,
)
    requires
        s.arrays.len() < usize::MAX,
        a.len() < 0x8000_0000_0000_0000,
    ensures
        ({
            let r = call(s, NativeKey::StdCoreStringSplit, seq![text(a), text(sep)], span, n);
            let pieces = texts_in(store(r), value(r));
            let found = call(s, NativeKey::StdCoreStringIndexOf, seq![text(a), text(sep)], span, n);
            &&& r == given(store(r), value(r))
            &&& new_texts(s, store(r), value(r))
            &&& sep.len() == 0 ==> pieces == seq![a]
            &&& sep.len() > 0 ==> {
                &&& call(
                    store(r),
                    NativeKey::StdCoreStringJoin,
                    seq![value(r), text(sep)],
                    span,
                    n,
                ) == given(store(r), text(a))
                &&& forall|i: int| 0 <= i < pieces.len() ==> free_of(#[trigger] pieces[i], sep)
                &&& pieces.len() > 0
                &&& is_none(value(found)) ==> pieces[0] == a
                &&& !is_none(value(found)) ==> pieces[0] == a.take(value(found).args[0].head->Int_1)
            }
        }),
{
    let ts = crate::strings::split_from(a, sep, 0);
    lemma_split_call(s, a, sep, span, n);
    let r = call(s, NativeKey::StdCoreStringSplit, seq![text(a), text(sep)], span, n);
    assert(store(r).arrays.drop_last() =~= s.arrays);
    assert(texts_in(store(r), value(r)) =~= ts);
    lemma_first_piece(s, a, sep, span, n);
    if sep.len() > 0 {
        lemma_split(a, sep, 0);
        assert(a.skip(0) =~= a);
        lemma_join_call(store(r), ArrayId(s.arrays.len() as usize), ts, sep, span, n);
    }
}

/// The position of a text is a number, or missing.
proof fn lemma_index_call(s: StoreModel, a: Seq<char>, p: Seq<char>, span: SpanModel, n: nat)
    ensures
        call(s, NativeKey::StdCoreStringIndexOf, seq![text(a), text(p)], span, n) == given(
            s,
            crate::natives::index_term(a, p),
        ),
{
}

/// Replacing gives the text with the others in place.
proof fn lemma_replace_call(
    s: StoreModel,
    a: Seq<char>,
    p: Seq<char>,
    to: Seq<char>,
    span: SpanModel,
    n: nat,
)
    ensures
        call(s, NativeKey::StdCoreStringReplace, seq![text(a), text(p), text(to)], span, n)
            == given(s, text(crate::strings::replaced_text(a, p, to))),
{
}

/// The first piece of a text ends where the separator first stands.
proof fn lemma_first_piece(s: StoreModel, a: Seq<char>, sep: Seq<char>, span: SpanModel, n: nat)
    requires
        a.len() < 0x8000_0000_0000_0000,
    ensures
        ({
            let found = call(s, NativeKey::StdCoreStringIndexOf, seq![text(a), text(sep)], span, n);
            let pieces = crate::strings::split_from(a, sep, 0);
            &&& sep.len() == 0 ==> pieces == seq![a]
            &&& sep.len() > 0 ==> {
                &&& is_none(value(found)) ==> pieces[0] == a
                &&& !is_none(value(found)) ==> pieces[0] == a.take(value(found).args[0].head->Int_1)
            }
        }),
{
    reveal_strlit("Some");
    reveal_strlit("None");
    assert("Some"@[0] != "None"@[0]);
    assert(a.skip(0) =~= a);
    let i = crate::strings::first_at(a, sep, 0);
    lemma_within(a, sep, 0);
    lemma_index_call(s, a, sep, span, n);
    let v = crate::natives::index_term(a, sep);
    if i >= 0 {
        assert(v.head->Enum_2 == "Some"@);
        assert(!is_none(v));
        assert(a.subrange(0, i) =~= a.take(i));
        crate::operator_laws::cut_numbers_differ_by_whole_ranges(IntKind::I64, i);
        assert(v.args[0] == number(i));
        if sep.len() > 0 {
            let rest = crate::strings::split_from(a, sep, i + sep.len());
            assert(crate::strings::split_from(a, sep, 0) == seq![a.subrange(0, i)] + rest);
        }
    } else {
        assert(is_none(v));
        assert(crate::strings::split_from(a, sep, 0) == seq![a]);
    }
}

/// Texts are joined in order, with the separator between each two of them and nothing else.
#[verifier::rlimit(60)]
pub proof fn texts_are_joined_with_the_separator(
    s: StoreModel,
    a: ArrayId,
    first: Seq<char>,
    rest: Seq<Seq<char>>,
    sep: Seq<char>,
    span: SpanModel,
    n: nat,
)
    requires
        a.0 < s.arrays.len(),
    ensures
        ({
            let join = |ts: Seq<Seq<char>>|
                call(
                    StoreModel {
                        arrays: s.arrays.update(
                            a.0 as int,
                            Seq::new(ts.len(), |i: int| text(ts[i])),
                        ),
                        ..s
                    },
                    NativeKey::StdCoreStringJoin,
                    seq![array(a), text(sep)],
                    span,
                    n,
                );
            &&& told(join(Seq::empty())) == Seq::<char>::empty()
            &&& told(join(seq![first])) == first
            &&& rest.len() > 0 ==> told(join(seq![first] + rest)) == first + sep + told(join(rest))
            &&& join(rest) is Done
            &&& join(rest)->Done_0 is Ok
            &&& value(join(rest)) == text(told(join(rest)))
        }),
{
    let none = Seq::<Seq<char>>::empty();
    let one = seq![first];
    let all = one + rest;
    let with = |ts: Seq<Seq<char>>|
        StoreModel {
            arrays: s.arrays.update(a.0 as int, Seq::new(ts.len(), |i: int| text(ts[i]))),
            ..s
        };
    assert(crate::natives::strs(none) =~= Seq::new(0, |i: int| text(none[i])));
    assert(crate::natives::strs(one) =~= Seq::new(1, |i: int| text(one[i])));
    assert(crate::natives::strs(rest) =~= Seq::new(rest.len(), |i: int| text(rest[i])));
    assert(crate::natives::strs(all) =~= Seq::new(all.len(), |i: int| text(all[i])));
    lemma_join_call(with(none), a, none, sep, span, n);
    lemma_join_call(with(one), a, one, sep, span, n);
    lemma_join_call(with(rest), a, rest, sep, span, n);
    lemma_join_call(with(all), a, all, sep, span, n);
    if rest.len() > 0 {
        lemma_joined_front(first, rest, sep);
    }
}

/// To replace a text by another one is to split at it and join with the other one. The
/// empty text stands before every character and at the end.
#[verifier::rlimit(60)]
pub proof fn replacing_is_splitting_and_joining(
    s: StoreModel,
    a: Seq<char>,
    from: Seq<char>,
    to: Seq<char>,
    c: char,
    span: SpanModel,
    n: nat,
)
    requires
        s.arrays.len() < usize::MAX,
    ensures
        ({
            let replace = |t: Seq<char>, p: Seq<char>|
                call(s, NativeKey::StdCoreStringReplace, seq![text(t), text(p), text(to)], span, n);
            let pieces = call(s, NativeKey::StdCoreStringSplit, seq![text(a), text(from)], span, n);
            let joined = call(
                store(pieces),
                NativeKey::StdCoreStringJoin,
                seq![value(pieces), text(to)],
                span,
                n,
            );
            &&& replace(a, from) == given(s, text(told(replace(a, from))))
            &&& from.len() > 0 ==> told(replace(a, from)) == told(joined)
            &&& told(replace(Seq::empty(), Seq::empty())) == to
            &&& told(replace(seq![c] + a, Seq::empty())) == to + seq![c] + told(
                replace(a, Seq::empty()),
            )
        }),
{
    let none = Seq::<char>::empty();
    let pieces = call(s, NativeKey::StdCoreStringSplit, seq![text(a), text(from)], span, n);
    lemma_split_call(s, a, from, span, n);
    let ts = crate::strings::split_from(a, from, 0);
    lemma_join_call(store(pieces), ArrayId(s.arrays.len() as usize), ts, to, span, n);
    lemma_replace_call(s, a, from, to, span, n);
    lemma_replace_call(s, none, none, to, span, n);
    lemma_replace_call(s, a, none, to, span, n);
    lemma_replace_call(s, seq![c] + a, none, to, span, n);
    lemma_interleaved(a, to, c, 0);
    assert((seq![c] + a)[0] == c);
    assert(crate::strings::interleaved(seq![c] + a, to, 0) == to.push(c)
        + crate::strings::interleaved(seq![c] + a, to, 1));
    assert(to.push(c) + crate::strings::interleaved(a, to, 0) =~= to + seq![c]
        + crate::strings::interleaved(a, to, 0));
}

proof fn lemma_interleaved(a: Seq<char>, to: Seq<char>, c: char, i: int)
    requires
        0 <= i <= a.len(),
    ensures
        crate::strings::interleaved(seq![c] + a, to, i + 1) == crate::strings::interleaved(
            a,
            to,
            i,
        ),
    decreases a.len() - i,
{
    if i < a.len() {
        lemma_interleaved(a, to, c, i + 1);
        assert((seq![c] + a)[i + 1] == a[i]);
    }
}

/// What is cut out of a text are the characters from the first position up to the second,
/// as far as there are any.
pub proof fn cut_texts_hold_the_characters_between(
    s: StoreModel,
    a: Seq<char>,
    i: int,
    j: int,
    span: SpanModel,
    n: nat,
)
    ensures
        ({
            let r = call(
                s,
                NativeKey::StdCoreStringSubstring,
                seq![text(a), number(i), number(j)],
                span,
                n,
            );
            let from = if i < 0 {
                0
            } else {
                i
            };
            let to = if j < a.len() {
                j
            } else {
                a.len() as int
            };
            &&& r == given(s, text(told(r)))
            &&& told(r).len() == if from < to {
                to - from
            } else {
                0
            }
            &&& forall|k: int| from <= k < to ==> told(r)[k - from] == #[trigger] a[k]
        }),
{
    let r = call(
        s,
        NativeKey::StdCoreStringSubstring,
        seq![text(a), number(i), number(j)],
        span,
        n,
    );
}

/// The character at a position is the one that is cut out there, and there is one at
/// exactly the positions below the length.
pub proof fn characters_are_where_they_are_cut_out(
    s: StoreModel,
    a: Seq<char>,
    i: int,
    span: SpanModel,
    n: nat,
)
    ensures
        ({
            let r = call(s, NativeKey::StdCoreStringCharAt, seq![text(a), number(i)], span, n);
            let cut = call(
                s,
                NativeKey::StdCoreStringSubstring,
                seq![text(a), number(i), number(i + 1)],
                span,
                n,
            );
            &&& r == given(s, value(r))
            &&& 0 <= i < a.len() ==> is_some(value(r), character(told(cut)[0])) && told(cut).len()
                == 1
            &&& !(0 <= i < a.len()) ==> is_none(value(r))
        }),
{
}

proof fn lemma_chars(a: Seq<char>, k: int)
    requires
        0 <= k <= a.len(),
    ensures
        crate::natives::char_terms(a.take(k)) == Seq::new(k as nat, |i: int| character(a[i])),
    decreases k,
{
    let front = a.take(k);
    if k > 0 {
        lemma_chars(a, k - 1);
        assert(front.drop_last() =~= a.take(k - 1));
        assert(front.last() == a[k - 1]);
        let c = ValueTerm { head: ValueHead::Char(front.last()), args: Seq::empty() };
        assert(crate::values::plain(ValueHead::Char(front.last())) == c);
        let before = crate::natives::char_terms(front.drop_last());
        assert(crate::natives::char_terms(front) == before.push(
            crate::values::plain(ValueHead::Char(front.last())),
        ));
        assert(character(a[k - 1]) == c);
        assert(before.len() == k - 1);
        assert(crate::natives::char_terms(front).len() == k);
    } else {
        assert(crate::natives::char_terms(front).len() == 0);
    }
    assert(crate::natives::char_terms(front) =~= Seq::new(k as nat, |i: int| character(a[i])));
}

/// The characters of a text are a new array that holds each of them in its place.
pub proof fn characters_are_listed_in_order(
    s: StoreModel,
    a: Seq<char>,
    span: SpanModel,
    n: nat,
)
    ensures
        ({
            let r = call(s, NativeKey::StdCoreStringChars, seq![text(a)], span, n);
            &&& r == given(
                StoreModel {
                    arrays: s.arrays.push(Seq::new(a.len(), |i: int| character(a[i]))),
                    ..s
                },
                array(ArrayId(s.arrays.len() as usize)),
            )
        }),
{
    lemma_chars(a, a.len() as int);
    assert(a.take(a.len() as int) =~= a);
}

/// The value of a decimal numeral.
pub open spec fn numeral_value(t: Seq<char>) -> int
    decreases t.len(),
{
    if t.len() == 0 {
        0
    } else {
        10 * numeral_value(t.drop_last()) + (t.last() as int - '0' as int)
    }
}

/// Whether a text is a decimal numeral without needless zeros.
pub open spec fn numeral(t: Seq<char>) -> bool {
    &&& t.len() > 0
    &&& forall|i: int| 0 <= i < t.len() ==> '0' <= #[trigger] t[i] <= '9'
    &&& t.len() > 1 ==> t[0] != '0'
}

/// The decimal numeral of a number is a numeral that has the number for its value.
pub proof fn decimals_have_their_value(n: nat)
    ensures
        numeral(crate::text::decimal(n)),
        numeral_value(crate::text::decimal(n)) == n,
        n > 0 ==> crate::text::decimal(n)[0] != '0',
    decreases n,
{
    let t = crate::text::decimal(n);
    if n < 10 {
        assert(t.drop_last() =~= Seq::<char>::empty());
        reveal_with_fuel(numeral_value, 2);
    } else {
        decimals_have_their_value(n / 10);
        let front = crate::text::decimal(n / 10);
        assert(t.drop_last() =~= front);
        assert forall|i: int| 0 <= i < t.len() implies '0' <= #[trigger] t[i] <= '9' by {
            if i < front.len() {
                assert(t[i] == front[i]);
            }
        }
    }
}

proof fn lemma_shifted(x: char, a: Seq<char>, p: Seq<char>, i: int)
    requires
        0 <= i,
    ensures
        ({
            let j = crate::strings::first_at(a, p, i);
            let k = crate::strings::first_at(seq![x] + a, p, i + 1);
            if j < 0 {
                k < 0
            } else {
                k == j + 1
            }
        }),
    decreases a.len() - i + 1,
{
    let xa = seq![x] + a;
    if i <= a.len() {
        if i + p.len() <= a.len() {
            assert(xa.subrange(i + 1, i + 1 + p.len()) =~= a.subrange(i, i + p.len()));
        }
        assert(crate::strings::stands_at(xa, p, i + 1) == crate::strings::stands_at(a, p, i));
        if !crate::strings::stands_at(a, p, i) {
            lemma_shifted(x, a, p, i + 1);
        }
    }
}

proof fn lemma_split_shifted(x: char, a: Seq<char>, sep: Seq<char>, from: int)
    requires
        sep.len() > 0,
        0 <= from <= a.len(),
    ensures
        crate::strings::split_from(seq![x] + a, sep, from + 1) == crate::strings::split_from(
            a,
            sep,
            from,
        ),
    decreases a.len() - from,
{
    let xa = seq![x] + a;
    let j = crate::strings::first_at(a, sep, from);
    lemma_shifted(x, a, sep, from);
    lemma_within(a, sep, from);
    if j < from {
        assert(xa.skip(from + 1) =~= a.skip(from));
    } else {
        lemma_split_shifted(x, a, sep, j + sep.len());
        assert(xa.subrange(from + 1, j + 1) =~= a.subrange(from, j));
    }
}

/// Where one character is replaced, each character of a text is taken by itself: it becomes the other
/// text where it is that one, and stays otherwise.
pub proof fn characters_are_replaced_one_by_one(x: char, a: Seq<char>, c: char, to: Seq<char>)
    ensures
        ({
            let replaced = |t: Seq<char>| crate::strings::replaced_text(t, seq![c], to);
            &&& replaced(Seq::empty()) == Seq::<char>::empty()
            &&& replaced(seq![x] + a) == (if x == c {
                to
            } else {
                seq![x]
            }) + replaced(a)
        }),
{
    let sep = seq![c];
    let none = Seq::<char>::empty();
    let xa = seq![x] + a;
    assert(crate::strings::first_at(none, sep, 0) < 0) by {
        reveal_with_fuel(crate::strings::first_at, 3);
    }
    assert(none.skip(0) =~= none);
    assert(seq![none][0] == none);
    assert(crate::strings::split_from(none, sep, 0) == seq![none]);
    let i = crate::strings::first_at(xa, sep, 0);
    let j = crate::strings::first_at(a, sep, 0);
    lemma_within(xa, sep, 0);
    lemma_within(a, sep, 0);
    lemma_shifted(x, a, sep, 0);
    let rest = crate::strings::split_from(a, sep, 0);
    lemma_split(a, sep, 0);
    if x == c {
        assert(xa.subrange(0, 1) =~= sep);
        assert(crate::strings::stands_at(xa, sep, 0));
        assert(i == 0);
        lemma_split_shifted(x, a, sep, 0);
        assert(xa.subrange(0, 0) =~= none);
        assert(crate::strings::split_from(xa, sep, 0) == seq![none] + rest);
        lemma_joined_front(none, rest, to);
        assert(none + to + crate::text::joined(rest, to) =~= to + crate::text::joined(rest, to));
    } else {
        assert(!crate::strings::stands_at(xa, sep, 0)) by {
            if crate::strings::stands_at(xa, sep, 0) {
                assert(xa.subrange(0, 1)[0] == x);
            }
        }
        assert(i == crate::strings::first_at(xa, sep, 1));
        if j < 0 {
            assert(xa.skip(0) =~= xa && a.skip(0) =~= a);
            assert(seq![xa][0] == xa && seq![a][0] == a);
        } else {
            let front = a.subrange(0, j);
            let behind = crate::strings::split_from(a, sep, j + 1);
            lemma_split(a, sep, j + 1);
            lemma_split_shifted(x, a, sep, j + 1);
            assert(xa.subrange(0, j + 1) =~= seq![x] + front);
            assert(crate::strings::split_from(xa, sep, 0) == seq![seq![x] + front] + behind);
            assert(rest == seq![front] + behind);
            lemma_joined_front(front, behind, to);
            lemma_joined_front(seq![x] + front, behind, to);
            let end = crate::text::joined(behind, to);
            assert((seq![x] + front) + to + end =~= seq![x] + (front + to + end));
        }
    }
}

proof fn lemma_split_prepended(h: char, z: Seq<char>, c: char)
    requires
        h != c,
    ensures
        ({
            let rest = crate::strings::split_from(z, seq![c], 0);
            crate::strings::split_from(seq![h] + z, seq![c], 0) == seq![seq![h] + rest[0]]
                + rest.skip(1)
        }),
{
    let sep = seq![c];
    let hz = seq![h] + z;
    let rest = crate::strings::split_from(z, sep, 0);
    let j = crate::strings::first_at(z, sep, 0);
    lemma_within(z, sep, 0);
    lemma_within(hz, sep, 0);
    lemma_shifted(h, z, sep, 0);
    assert(!crate::strings::stands_at(hz, sep, 0)) by {
        if crate::strings::stands_at(hz, sep, 0) {
            assert(hz.subrange(0, 1)[0] == h);
        }
    }
    assert(crate::strings::first_at(hz, sep, 0) == crate::strings::first_at(hz, sep, 1));
    if j < 0 {
        assert(z.skip(0) =~= z && hz.skip(0) =~= hz);
        assert(rest =~= seq![z]);
        assert(seq![seq![h] + rest[0]] + rest.skip(1) =~= seq![hz]);
    } else {
        let front = z.subrange(0, j);
        let behind = crate::strings::split_from(z, sep, j + 1);
        lemma_split_shifted(h, z, sep, j + 1);
        assert(hz.subrange(0, j + 1) =~= seq![h] + front);
        assert(rest == seq![front] + behind);
        assert(rest.skip(1) =~= behind);
        assert(rest[0] == front);
    }
}

proof fn lemma_split_piece(x: Seq<char>, y: Seq<char>, c: char)
    requires
        !x.contains(c),
    ensures
        crate::strings::split_from(x + seq![c] + y, seq![c], 0) == seq![x]
            + crate::strings::split_from(y, seq![c], 0),
    decreases x.len(),
{
    let sep = seq![c];
    let whole = x + sep + y;
    let rest = crate::strings::split_from(y, sep, 0);
    if x.len() == 0 {
        assert(whole =~= sep + y);
        assert(whole.subrange(0, 1) =~= sep);
        assert(crate::strings::stands_at(whole, sep, 0));
        lemma_split_shifted(c, y, sep, 0);
        assert(whole.subrange(0, 0) =~= x);
    } else {
        let h = x[0];
        let t = x.skip(1);
        assert(x.contains(x[0]));
        assert(!t.contains(c)) by {
            if t.contains(c) {
                let i = choose|i: int| 0 <= i < t.len() && t[i] == c;
                assert(x[i + 1] == c);
            }
        }
        lemma_split_piece(t, y, c);
        lemma_split_prepended(h, t + sep + y, c);
        assert(whole =~= seq![h] + (t + sep + y));
        let all = seq![t] + rest;
        assert(all[0] == t);
        assert(all.skip(1) =~= rest);
        assert(seq![h] + t =~= x);
    }
}

/// Texts that are joined with a character that none of them holds are got back by splitting at it.
pub proof fn splitting_undoes_joining(parts: Seq<Seq<char>>, c: char)
    requires
        parts.len() > 0,
        forall|i: int| 0 <= i < parts.len() ==> !(#[trigger] parts[i]).contains(c),
    ensures
        crate::strings::split_from(crate::text::joined(parts, seq![c]), seq![c], 0) == parts,
    decreases parts.len(),
{
    let sep = seq![c];
    let first = parts[0];
    let rest = parts.skip(1);
    if parts.len() == 1 {
        assert(crate::text::joined(parts, sep) == first);
        assert(!first.contains(c));
        lemma_nowhere(first, c, 0);
        assert(first.skip(0) =~= first);
        assert(parts =~= seq![first]);
    } else {
        assert forall|i: int| 0 <= i < rest.len() implies !(#[trigger] rest[i]).contains(c) by {
            assert(rest[i] == parts[i + 1]);
        }
        splitting_undoes_joining(rest, c);
        assert(parts =~= seq![first] + rest);
        lemma_joined_front(first, rest, sep);
        lemma_split_piece(first, crate::text::joined(rest, sep), c);
    }
}

proof fn lemma_nowhere(s: Seq<char>, c: char, i: int)
    requires
        0 <= i,
        !s.contains(c),
    ensures
        crate::strings::first_at(s, seq![c], i) < 0,
    decreases s.len() - i + 1,
{
    if i <= s.len() {
        if crate::strings::stands_at(s, seq![c], i) {
            assert(s.subrange(i, i + 1)[0] == s[i]);
            assert(s.contains(s[i]));
        }
        lemma_nowhere(s, c, i + 1);
    }
}

} // verus!
