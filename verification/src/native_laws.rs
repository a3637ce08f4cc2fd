//! What the built-in functions on texts and lists promise together.

use crate::ast::SpanModel;
use crate::native_keys::NativeKey;
use crate::natives::NativeModel;
use crate::store::StoreModel;
use crate::values::{ArrayId, IntKind, ValueHead, ValueTerm};
use vstd::prelude::*;

verus! {

/// The arguments of a function on a text and two numbers.
pub open spec fn text_and_numbers(text: Seq<char>, i: int, j: int) -> Seq<ValueTerm> {
    seq![
        crate::values::str_term(text),
        crate::values::int_term(IntKind::I64, i),
        crate::values::int_term(IntKind::I64, j),
    ]
}

/// Positions in a text count its characters, as its length does: there is a
/// character at exactly the positions below the length, and no position at all
/// makes a function fail.
pub proof fn positions_agree_with_the_length(
    s: StoreModel,
    text: Seq<char>,
    i: int,
    j: int,
    span: SpanModel,
    n: nat,
)
    ensures
        ({
            let args = text_and_numbers(text, i, j);
            let char_at = NativeKey::StdCoreStringCharAt;
            let substring = NativeKey::StdCoreStringSubstring;
            &&& crate::natives::text_native(s, char_at, args, span, n)
                == crate::natives::value_step(
                s,
                crate::natives::perhaps_term(
                    if 0 <= i < text.len() {
                        Some(crate::values::plain(ValueHead::Char(text[i])))
                    } else {
                        None
                    },
                ),
            )
            &&& 0 <= i <= j <= text.len() ==> crate::natives::text_native(
                s,
                substring,
                args,
                span,
                n,
            ) == crate::natives::value_step(s, crate::values::str_term(text.subrange(i, j)))
            &&& i <= 0 && text.len() <= j ==> crate::natives::text_native(
                s,
                substring,
                args,
                span,
                n,
            ) == crate::natives::value_step(s, crate::values::str_term(text))
            &&& (j <= i || j <= 0 || text.len() <= i) ==> crate::natives::text_native(
                s,
                substring,
                args,
                span,
                n,
            ) == crate::natives::value_step(s, crate::values::str_term(Seq::empty()))
        }),
{
    let args = text_and_numbers(text, i, j);
    assert(args[0] == crate::values::str_term(text));
    assert(args[1] == crate::values::int_term(IntKind::I64, i));
    assert(args[2] == crate::values::int_term(IntKind::I64, j));
    assert(text.subrange(0, text.len() as int) =~= text);
    if i == j && 0 <= i <= text.len() {
        assert(text.subrange(i, j) =~= Seq::empty());
    }
    if text.len() == 0 {
        assert(text =~= Seq::empty());
    }
}

proof fn lemma_first_at(s: Seq<char>, part: Seq<char>, from: int)
    requires
        0 <= from,
    ensures
        ({
            let i = crate::strings::first_at(s, part, from);
            &&& i >= 0 ==> i >= from && crate::strings::stands_at(s, part, i)
            &&& forall|k: int|
                from <= k && (i < 0 || k < i) ==> !#[trigger] crate::strings::stands_at(s, part, k)
        }),
    decreases s.len() - from + 1,
{
    if from <= s.len() && !crate::strings::stands_at(s, part, from) {
        lemma_first_at(s, part, from + 1);
    }
}

/// A text is found at the first position where it stands, and only where it
/// stands somewhere; what is cut out there is the text.
pub proof fn texts_are_found_where_they_stand(text: Seq<char>, part: Seq<char>)
    ensures
        ({
            let i = crate::strings::first_at(text, part, 0);
            &&& i >= 0 <==> exists|k: int| #[trigger] crate::strings::stands_at(text, part, k)
            &&& forall|k: int| #[trigger] crate::strings::stands_at(text, part, k) ==> i <= k
            &&& i >= 0 ==> crate::natives::cut_out(text, i, i + part.len()) == part
        }),
{
    lemma_first_at(text, part, 0);
    let i = crate::strings::first_at(text, part, 0);
    if i >= 0 {
        assert(crate::strings::stands_at(text, part, i));
        if part.len() == 0 {
            assert(part =~= Seq::empty());
        }
    }
}

/// The store that a call leaves, if it gives a value.
pub open spec fn left(r: NativeModel) -> StoreModel {
    r->Done_0->Ok_0.0
}

/// What is pushed onto a list is popped from it, and the list is then as it was.
pub proof fn popping_undoes_pushing(
    s: StoreModel,
    a: ArrayId,
    v: ValueTerm,
    span: SpanModel,
    n: nat,
)
    requires
        a.0 < s.arrays.len(),
    ensures
        ({
            let list = crate::natives::list_term(a);
            let pushed = crate::natives::list_native(
                s,
                NativeKey::StdCoreListPush,
                seq![list, v],
                span,
                n,
            );
            let popped = crate::natives::list_native(
                left(pushed),
                NativeKey::StdCoreListPop,
                seq![list],
                span,
                n,
            );
            &&& pushed == crate::natives::value_step(left(pushed), crate::values::unit_term())
            &&& popped == crate::natives::value_step(s, crate::natives::perhaps_term(Some(v)))
        }),
{
    let list = crate::natives::list_term(a);
    lemma_list(a);
    assert(seq![list, v][0] == list);
    assert(seq![list, v][1] == v);
    assert(seq![list][0] == list);
    let items = crate::store::array_at(s, a);
    assert(items.push(v).drop_last() =~= items);
    let t = crate::store::array_set(s, a, items.push(v));
    assert(crate::store::array_set(t, a, items).arrays =~= s.arrays);
}

/// What is set at a position of a list is got there, everything else in it stays,
/// and the length too. Outside the list there is nothing to get, and setting does
/// nothing.
pub proof fn set_items_are_got(
    s: StoreModel,
    a: ArrayId,
    i: int,
    j: int,
    v: ValueTerm,
    span: SpanModel,
    n: nat,
)
    requires
        a.0 < s.arrays.len(),
    ensures
        ({
            let list = crate::natives::list_term(a);
            let at = crate::values::int_term(IntKind::I64, i);
            let items = crate::store::array_at(s, a);
            let set = crate::natives::list_native(
                s,
                NativeKey::StdCoreListSet,
                seq![list, at, v],
                span,
                n,
            );
            let got = crate::natives::list_native(
                left(set),
                NativeKey::StdCoreListGet,
                seq![list, crate::values::int_term(IntKind::I64, j)],
                span,
                n,
            );
            &&& set == crate::natives::value_step(
                left(set),
                crate::natives::perhaps_term(crate::natives::arg(items, i)),
            )
            &&& got == crate::natives::value_step(
                left(set),
                crate::natives::perhaps_term(
                    if i == j && 0 <= i < items.len() {
                        Some(v)
                    } else {
                        crate::natives::arg(items, j)
                    },
                ),
            )
            &&& crate::store::array_at(left(set), a).len() == items.len()
            &&& !(0 <= i < items.len()) ==> left(set) == s
        }),
{
    let list = crate::natives::list_term(a);
    let at = crate::values::int_term(IntKind::I64, i);
    let other = crate::values::int_term(IntKind::I64, j);
    lemma_list(a);
    assert(seq![list, at, v][0] == list);
    assert(seq![list, at, v][1] == at);
    assert(seq![list, at, v][2] == v);
    assert(seq![list, other][0] == list);
    assert(seq![list, other][1] == other);
}

proof fn lemma_list(a: ArrayId)
    ensures
        crate::values::field_of(crate::natives::list_term(a), "inner"@) == Some(
            crate::values::plain(ValueHead::Array(a)),
        ),
{
    let labels = seq!["inner"@];
    assert(labels[0] == "inner"@);
    assert(crate::values::label_at(labels, "inner"@, 0) == 0);
}

} // verus!
