//! Short tables that keep the order in which their entries came.

use crate::data::Same;
use vstd::prelude::*;

verus! {

/// The value of the first entry, from `i` on, with a key.
pub open spec fn entry_from<A, B>(list: Seq<(A, B)>, key: A, i: int) -> Option<B>
    decreases list.len() - i,
{
    if i < 0 || i >= list.len() {
        None
    } else if list[i].0 == key {
        Some(list[i].1)
    } else {
        entry_from(list, key, i + 1)
    }
}

/// The value of a key.
pub open spec fn entry<A, B>(list: Seq<(A, B)>, key: A) -> Option<B> {
    entry_from(list, key, 0)
}

/// The entries after a key, from `i` on, has been given a value: it replaces the
/// key's earlier one.
pub open spec fn put_from<A, B>(list: Seq<(A, B)>, key: A, value: B, i: int) -> Seq<(A, B)>
    decreases list.len() - i,
{
    if i < 0 || i >= list.len() {
        list.push((key, value))
    } else if list[i].0 == key {
        list.update(i, (key, value))
    } else {
        put_from(list, key, value, i + 1)
    }
}

/// The entries after a key has been given a value.
pub open spec fn put<A, B>(list: Seq<(A, B)>, key: A, value: B) -> Seq<(A, B)> {
    put_from(list, key, value, 0)
}

/// The entries without the first one, from `i` on, with a key.
pub open spec fn dropped_from<A, B>(list: Seq<(A, B)>, key: A, i: int) -> Seq<(A, B)>
    decreases list.len() - i,
{
    if i < 0 || i >= list.len() {
        list
    } else if list[i].0 == key {
        list.remove(i)
    } else {
        dropped_from(list, key, i + 1)
    }
}

/// What a key has been given is found under it, and other keys keep what they
/// have.
pub proof fn lemma_put_entry<A, B>(list: Seq<(A, B)>, key: A, value: B, other: A, i: int)
    requires
        0 <= i <= list.len(),
    ensures
        entry_from(put_from(list, key, value, i), key, i) == Some(value),
        other != key ==> entry_from(put_from(list, key, value, i), other, i) == entry_from(
            list,
            other,
            i,
        ),
        forall|j: int| 0 <= j < i ==> (#[trigger] put_from(list, key, value, i)[j]) == list[j],
        put_from(list, key, value, i).len() >= list.len(),
    decreases list.len() - i,
{
    let next = put_from(list, key, value, i);
    if i < list.len() {
        if list[i].0 == key {
            if other != key {
                lemma_entry_same_after(next, list, other, i + 1);
            }
        } else {
            lemma_put_entry(list, key, value, other, i + 1);
            assert(next[i] == list[i]);
        }
    } else {
        assert(next[i] == (key, value));
        assert(entry_from(next, other, i + 1) is None);
    }
}

proof fn lemma_entry_same_after<A, B>(a: Seq<(A, B)>, b: Seq<(A, B)>, key: A, i: int)
    requires
        a.len() == b.len(),
        0 <= i,
        forall|j: int| i <= j < a.len() ==> a[j] == b[j],
    ensures
        entry_from(a, key, i) == entry_from(b, key, i),
    decreases a.len() - i,
{
    if i < a.len() {
        lemma_entry_same_after(a, b, key, i + 1);
    }
}

/// Finds the value of a key.
pub fn find<'a, A: Same, B: DeepView>(list: &'a Vec<(A, B)>, key: &A) -> (r: Option<&'a B>)
    ensures
        r.deep_view() == entry(list.deep_view(), key.deep_view()),
{
    let mut i: usize = 0;
    while i < list.len()
        invariant
            i <= list.len(),
            entry(list.deep_view(), key.deep_view()) == entry_from(
                list.deep_view(),
                key.deep_view(),
                i as int,
            ),
        decreases list.len() - i,
    {
        assert(list.deep_view()[i as int] == list@[i as int].deep_view());
        if list[i].0.same(key) {
            return Some(&list[i].1);
        }
        i += 1;
    }
    None
}

/// Gives a key a value.
pub fn set_entry<A: Same, B: DeepView>(list: &mut Vec<(A, B)>, key: A, value: B)
    ensures
        final(list).deep_view() == put(
            old(list).deep_view(),
            key.deep_view(),
            value.deep_view(),
        ),
{
    let ghost before = list.deep_view();
    let ghost kv = key.deep_view();
    let ghost vv = value.deep_view();
    assert(before.len() == list@.len());
    let mut i: usize = 0;
    while i < list.len()
        invariant
            i <= list.len(),
            before == list.deep_view(),
            before == old(list).deep_view(),
            before.len() == list@.len(),
            kv == key.deep_view(),
            vv == value.deep_view(),
            put(before, kv, vv) == put_from(before, kv, vv, i as int),
        decreases list.len() - i,
    {
        assert(before[i as int] == list@[i as int].deep_view());
        if list[i].0.same(&key) {
            list.set(i, (key, value));
            assert(list.deep_view() =~= before.update(i as int, (kv, vv)));
            return ;
        }
        i += 1;
    }
    list.push((key, value));
    assert(list.deep_view() =~= before.push((kv, vv)));
}

/// Removes the entry of a key, and returns its value.
pub fn take_entry<A: Same, B: DeepView>(list: &mut Vec<(A, B)>, key: &A) -> (r: Option<B>)
    ensures
        r.deep_view() == entry(old(list).deep_view(), key.deep_view()),
        final(list).deep_view() == dropped_from(old(list).deep_view(), key.deep_view(), 0),
{
    let ghost before = list.deep_view();
    let ghost kv = key.deep_view();
    assert(before.len() == list@.len());
    let mut i: usize = 0;
    while i < list.len()
        invariant
            i <= list.len(),
            before == list.deep_view(),
            before == old(list).deep_view(),
            before.len() == list@.len(),
            kv == key.deep_view(),
            entry(before, kv) == entry_from(before, kv, i as int),
            dropped_from(before, kv, 0) == dropped_from(before, kv, i as int),
        decreases list.len() - i,
    {
        assert(before[i as int] == list@[i as int].deep_view());
        if list[i].0.same(key) {
            let (_, value) = list.remove(i);
            assert(list.deep_view() =~= before.remove(i as int));
            return Some(value);
        }
        i += 1;
    }
    None
}

} // verus!
