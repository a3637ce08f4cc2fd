//! What it means that a pattern fits a value.

use crate::pattern::MatchModel;
use crate::store::StoreModel;
use crate::typed_ast::TypedPattern;
use crate::values::{ArrayId, LocalId, ValueHead, ValueTerm};
use vstd::prelude::*;
use vstd::string::*;

verus! {

/// A match of a value against a pattern, with nothing bound before.
pub open spec fn matching(s: StoreModel, p: TypedPattern, v: ValueTerm) -> MatchModel {
    crate::pattern::matched(s, p, v, Seq::empty())
}

/// Whether a store is another one with arrays made since.
pub open spec fn grown(s: StoreModel, t: StoreModel) -> bool {
    &&& s.arrays.len() <= t.arrays.len()
    &&& t.arrays.take(s.arrays.len() as int) == s.arrays
    &&& t.cells == s.cells
    &&& t.closures == s.closures
}

/// Whether one list of bindings begins with another one.
pub open spec fn further(
    a: Seq<(Seq<char>, Option<LocalId>, ValueTerm)>,
    b: Seq<(Seq<char>, Option<LocalId>, ValueTerm)>,
) -> bool {
    a.len() <= b.len() && b.take(a.len() as int) == a
}

proof fn lemma_grown(s: StoreModel, t: StoreModel, u: StoreModel)
    requires
        grown(s, t),
        grown(t, u),
    ensures
        grown(s, u),
{
    assert(u.arrays.take(s.arrays.len() as int) =~= t.arrays.take(s.arrays.len() as int));
}

proof fn lemma_further(
    a: Seq<(Seq<char>, Option<LocalId>, ValueTerm)>,
    b: Seq<(Seq<char>, Option<LocalId>, ValueTerm)>,
    c: Seq<(Seq<char>, Option<LocalId>, ValueTerm)>,
)
    requires
        further(a, b),
        further(b, c),
    ensures
        further(a, c),
{
    assert(c.take(a.len() as int) =~= b.take(a.len() as int));
}

proof fn lemma_label(labels: Seq<Seq<char>>, name: Seq<char>, i: int)
    requires
        0 <= i <= labels.len(),
    ensures
        ({
            let k = crate::values::label_at(labels, name, i);
            &&& i <= k <= labels.len()
            &&& k < labels.len() ==> labels[k] == name
            &&& forall|j: int| i <= j < k ==> #[trigger] labels[j] != name
        }),
    decreases labels.len() - i,
{
    if i < labels.len() && labels[i] != name {
        lemma_label(labels, name, i + 1);
    }
}

/// Whether bindings give each variable the component that stands under its name.
pub open spec fn bound_by_name(
    labels: Seq<Seq<char>>,
    args: Seq<ValueTerm>,
    fields: Seq<(Seq<char>, Option<LocalId>)>,
    bindings: Seq<(Seq<char>, Option<LocalId>, ValueTerm)>,
) -> bool {
    &&& bindings.len() == fields.len()
    &&& forall|k: int|
        0 <= k < fields.len() ==> {
            &&& #[trigger] bindings[k].0 == fields[k].0
            &&& bindings[k].1 == fields[k].1
            &&& exists|j: int|
                0 <= j < labels.len() && #[trigger] labels[j] == fields[k].0 && bindings[k].2
                    == args[j]
        }
}

proof fn lemma_fields(
    s: StoreModel,
    fields: Seq<(Seq<char>, Option<LocalId>)>,
    v: ValueTerm,
    labels: Seq<Seq<char>>,
    b: Seq<(Seq<char>, Option<LocalId>, ValueTerm)>,
    i: int,
)
    requires
        0 <= i <= fields.len(),
        crate::values::field_labels(v.head) == Some(labels),
    ensures
        ({
            let r = crate::pattern::fields_bound(s, fields, v, b, i);
            &&& r.store == s
            &&& further(b, r.bindings)
            &&& r.fits <==> (forall|k: int|
                i <= k < fields.len() ==> labels.contains(#[trigger] fields[k].0))
            &&& r.fits ==> bound_by_name(
                labels,
                v.args,
                fields.skip(i),
                r.bindings.skip(b.len() as int),
            )
        }),
    decreases fields.len() - i,
{
    let r = crate::pattern::fields_bound(s, fields, v, b, i);
    if i < fields.len() {
        let name = fields[i].0;
        lemma_label(labels, name, 0);
        let j = crate::values::label_at(labels, name, 0);
        if j < labels.len() {
            assert(labels.contains(name));
            let b2 = b.push((name, fields[i].1, v.args[j]));
            lemma_fields(s, fields, v, labels, b2, i + 1);
            assert(b2.take(b.len() as int) =~= b);
            lemma_further(b, b2, r.bindings);
            if r.fits {
                let mine = r.bindings.skip(b.len() as int);
                let rest = r.bindings.skip(b2.len() as int);
                let fs = fields.skip(i);
                assert(r.bindings[b.len() as int] == b2[b.len() as int]) by {
                    assert(r.bindings.take(b2.len() as int)[b.len() as int]
                        == r.bindings[b.len() as int]);
                }
                assert forall|k: int| 0 <= k < fs.len() implies ({
                    &&& #[trigger] mine[k].0 == fs[k].0
                    &&& mine[k].1 == fs[k].1
                    &&& exists|m: int|
                        0 <= m < labels.len() && #[trigger] labels[m] == fs[k].0 && mine[k].2
                            == v.args[m]
                }) by {
                    if k > 0 {
                        assert(mine[k] == rest[k - 1]);
                        assert(fs[k] == fields.skip(i + 1)[k - 1]);
                    } else {
                        assert(labels[j] == fs[0].0);
                    }
                }
            }
        } else {
            assert(!labels.contains(fields[i].0));
        }
        assert(b.take(b.len() as int) =~= b);
    } else {
        assert(b.take(b.len() as int) =~= b);
    }
}

/// Whether the fields that a pattern names are all among the labels of a value.
pub open spec fn names_within(
    names: Seq<(Seq<char>, Option<LocalId>)>,
    labels: Seq<Seq<char>>,
) -> bool {
    forall|k: int| 0 <= k < names.len() ==> labels.contains(#[trigger] names[k].0)
}

/// A variant pattern fits only values of an enum. Where both identities are known they are
/// the same. Otherwise the names decide: the value's variant is the last segment of the
/// path, and its enum the segment before. The pattern then fits exactly if the value has
/// every field that it names, and binds each to the component of that name.
pub proof fn variant_patterns_ask_for_the_variant(s: StoreModel, p: TypedPattern, v: ValueTerm)
    requires
        p is EnumVariant,
    ensures
        ({
            let path = p->EnumVariant_path@;
            let fields = p->EnumVariant_fields@;
            let names = Seq::new(fields.len(), |i: int| (fields[i].0@, fields[i].2));
            let m = matching(s, p, v);
            let same_ids = p->EnumVariant_variant_id == v.head->Enum_3;
            let known = p->EnumVariant_variant_id is Some && v.head->Enum_3 is Some;
            let same_names = path.len() >= 2 && v.head->Enum_2 == path[path.len() - 1]@
                && v.head->Enum_0 == path[path.len() - 2]@;
            &&& m.store == s
            &&& m.fits ==> v.head is Enum
            &&& m.fits && known ==> same_ids
            &&& m.fits && !known && path.len() >= 2 ==> same_names
            &&& m.fits && !known && path.len() >= 1 ==> v.head->Enum_2 == path[path.len() - 1]@
            &&& v.head is Enum && (if known {
                same_ids
            } else {
                same_names
            }) ==> (m.fits <==> names_within(names, v.head->Enum_4))
            &&& m.fits ==> bound_by_name(v.head->Enum_4, v.args, names, m.bindings)
        }),
{
    let path = p->EnumVariant_path;
    let fields = p->EnumVariant_fields@;
    let names = Seq::new(fields.len(), |i: int| (fields[i].0@, fields[i].2));
    assert(names =~= crate::pattern::pattern_fields(fields));
    let dv = path.deep_view();
    assert(dv.len() == path@.len());
    assert(forall|i: int| 0 <= i < path@.len() ==> #[trigger] dv[i] == path@[i]@);
    if v.head is Enum {
        lemma_fields(s, names, v, v.head->Enum_4, Seq::empty(), 0);
        let b = crate::pattern::fields_bound(s, names, v, Seq::empty(), 0).bindings;
        assert(names.skip(0) =~= names);
        assert(b.skip(0) =~= b);
    }
}

/// A pattern for a present value and one for an absent value never both fit.
pub proof fn perhaps_is_one_or_the_other(
    s: StoreModel,
    some: TypedPattern,
    none: TypedPattern,
    x: Option<ValueTerm>,
)
    requires
        some is EnumVariant,
        none is EnumVariant,
        some->EnumVariant_path@.len() >= 2,
        none->EnumVariant_path@.len() >= 2,
        some->EnumVariant_path@[some->EnumVariant_path@.len() - 2]@ == "Perhaps"@,
        none->EnumVariant_path@[none->EnumVariant_path@.len() - 2]@ == "Perhaps"@,
        some->EnumVariant_path@.last()@ == "Some"@,
        none->EnumVariant_path@.last()@ == "None"@,
        some->EnumVariant_fields@.len() == 1,
        some->EnumVariant_fields@[0].0@ == "value"@,
        none->EnumVariant_fields@.len() == 0,
    ensures
        ({
            let v = crate::natives::perhaps_term(x);
            &&& matching(s, some, v).fits <==> x is Some
            &&& matching(s, none, v).fits <==> x is None
            &&& x matches Some(y) ==> matching(s, some, v).bindings == seq![
                ("value"@, some->EnumVariant_fields@[0].2, y),
            ]
        }),
{
    reveal_strlit("Some");
    reveal_strlit("None");
    assert("Some"@[0] != "None"@[0]);
    let v = crate::natives::perhaps_term(x);
    variant_patterns_ask_for_the_variant(s, some, v);
    variant_patterns_ask_for_the_variant(s, none, v);
    let fields = some->EnumVariant_fields@;
    let names = Seq::new(fields.len(), |i: int| (fields[i].0@, fields[i].2));
    if x is Some {
        assert(v.head->Enum_4[0] == "value"@);
        assert(names_within(names, v.head->Enum_4)) by {
            assert(v.head->Enum_4.contains("value"@));
        }
        let b = matching(s, some, v).bindings;
        assert(b[0].0 == names[0].0);
        assert(b =~= seq![("value"@, fields[0].2, x->Some_0)]);
    }
}

/// A pattern for a success and one for a failure never both fit.
pub proof fn results_are_one_or_the_other(
    s: StoreModel,
    ok: TypedPattern,
    err: TypedPattern,
    x: Result<ValueTerm, ValueTerm>,
)
    requires
        ok is EnumVariant,
        err is EnumVariant,
        ok->EnumVariant_path@.len() >= 2,
        err->EnumVariant_path@.len() >= 2,
        ok->EnumVariant_path@[ok->EnumVariant_path@.len() - 2]@ == "Result"@,
        err->EnumVariant_path@[err->EnumVariant_path@.len() - 2]@ == "Result"@,
        ok->EnumVariant_path@.last()@ == "Ok"@,
        err->EnumVariant_path@.last()@ == "Err"@,
        ok->EnumVariant_fields@.len() == 1,
        ok->EnumVariant_fields@[0].0@ == "value"@,
        err->EnumVariant_fields@.len() == 1,
        err->EnumVariant_fields@[0].0@ == "error"@,
    ensures
        ({
            let v = crate::natives::result_term(x);
            &&& matching(s, ok, v).fits <==> x is Ok
            &&& matching(s, err, v).fits <==> x is Err
            &&& x matches Ok(y) ==> matching(s, ok, v).bindings == seq![
                ("value"@, ok->EnumVariant_fields@[0].2, y),
            ]
            &&& x matches Err(y) ==> matching(s, err, v).bindings == seq![
                ("error"@, err->EnumVariant_fields@[0].2, y),
            ]
        }),
{
    reveal_strlit("Ok");
    reveal_strlit("Err");
    assert("Ok"@[0] != "Err"@[0]);
    let v = crate::natives::result_term(x);
    variant_patterns_ask_for_the_variant(s, ok, v);
    variant_patterns_ask_for_the_variant(s, err, v);
    let p = if x is Ok {
        ok
    } else {
        err
    };
    let name = if x is Ok {
        "value"@
    } else {
        "error"@
    };
    let fields = p->EnumVariant_fields@;
    let names = Seq::new(fields.len(), |i: int| (fields[i].0@, fields[i].2));
    assert(v.head->Enum_4[0] == name);
    assert(names_within(names, v.head->Enum_4)) by {
        assert(v.head->Enum_4.contains(name));
    }
    let b = matching(s, p, v).bindings;
    assert(b[0].0 == names[0].0);
    assert(b =~= seq![(name, fields[0].2, v.args[0])]);
}

/// A struct pattern fits exactly the structs of its name that have the fields that it
/// names, and no others unless it leaves the rest open. Each field is bound to the
/// component of that name.
pub proof fn struct_patterns_ask_for_name_and_fields(s: StoreModel, p: TypedPattern, v: ValueTerm)
    requires
        p is Struct,
    ensures
        ({
            let fields = p->Struct_fields@;
            let names = Seq::new(fields.len(), |i: int| (fields[i].0@, fields[i].2));
            let m = matching(s, p, v);
            &&& m.store == s
            &&& m.fits <==> {
                &&& v.head is Struct
                &&& v.head->Struct_0 == p->Struct_name@
                &&& p->Struct_rest || v.head->Struct_2.len() == fields.len()
                &&& names_within(names, v.head->Struct_2)
            }
            &&& m.fits ==> bound_by_name(v.head->Struct_2, v.args, names, m.bindings)
        }),
{
    let fields = p->Struct_fields@;
    let names = Seq::new(fields.len(), |i: int| (fields[i].0@, fields[i].2));
    assert(names =~= crate::pattern::pattern_fields(fields));
    if v.head is Struct {
        lemma_fields(s, names, v, v.head->Struct_2, Seq::empty(), 0);
        let b = crate::pattern::fields_bound(s, names, v, Seq::empty(), 0).bindings;
        assert(names.skip(0) =~= names);
        assert(b.skip(0) =~= b);
    }
}

/// A record pattern fits exactly the records that have the fields that it names, and no
/// others unless it leaves the rest open. Each field is bound to the component of that name.
pub proof fn record_patterns_ask_for_fields(s: StoreModel, p: TypedPattern, v: ValueTerm)
    requires
        p is Record,
    ensures
        ({
            let fields = p->Record_fields@;
            let names = Seq::new(fields.len(), |i: int| (fields[i].0@, fields[i].1));
            let m = matching(s, p, v);
            &&& m.store == s
            &&& m.fits <==> {
                &&& v.head is Record
                &&& p->Record_rest || v.head->Record_0.len() == fields.len()
                &&& names_within(names, v.head->Record_0)
            }
            &&& m.fits ==> bound_by_name(v.head->Record_0, v.args, names, m.bindings)
        }),
{
    let fields = p->Record_fields@;
    let names = Seq::new(fields.len(), |i: int| (fields[i].0@, fields[i].1));
    assert(names =~= crate::pattern::record_fields(fields));
    if v.head is Record {
        lemma_fields(s, names, v, v.head->Record_0, Seq::empty(), 0);
        let b = crate::pattern::fields_bound(s, names, v, Seq::empty(), 0).bindings;
        assert(names.skip(0) =~= names);
        assert(b.skip(0) =~= b);
    }
}

/// A name and the wildcard fit every value: the name is bound to it, the wildcard binds
/// nothing.
pub proof fn names_and_wildcards_fit_every_value(s: StoreModel, p: TypedPattern, v: ValueTerm)
    ensures
        p is Wildcard ==> matching(s, p, v) == (MatchModel {
            store: s,
            bindings: Seq::empty(),
            fits: true,
        }),
        p matches TypedPattern::Binding(name, id, _) ==> matching(s, p, v) == (MatchModel {
            store: s,
            bindings: seq![(name@, id, v)],
            fits: true,
        }),
{
}

/// A match makes no change but new arrays, and keeps what was bound before.
pub proof fn matches_only_add(
    s: StoreModel,
    p: TypedPattern,
    v: ValueTerm,
    b: Seq<(Seq<char>, Option<LocalId>, ValueTerm)>,
)
    ensures
        grown(s, crate::pattern::matched(s, p, v, b).store),
        further(b, crate::pattern::matched(s, p, v, b).bindings),
    decreases p, 0int,
{
    assert(s.arrays.take(s.arrays.len() as int) =~= s.arrays);
    assert(b.take(b.len() as int) =~= b);
    let m = crate::pattern::matched(s, p, v, b);
    match p {
        TypedPattern::Binding(name, id, _) => {
            assert(m.bindings.take(b.len() as int) =~= b);
        },
        TypedPattern::Tuple(ps, _) => {
            lemma_all_add(s, ps@, v.args, b, 0);
        },
        TypedPattern::EnumVariant { path, variant_id, fields, rest, span } => {
            if v.head is Enum {
                lemma_fields(
                    s,
                    crate::pattern::pattern_fields(fields@),
                    v,
                    v.head->Enum_4,
                    b,
                    0,
                );
            }
        },
        TypedPattern::Struct { name, type_id, fields, rest, span } => {
            if v.head is Struct {
                lemma_fields(
                    s,
                    crate::pattern::pattern_fields(fields@),
                    v,
                    v.head->Struct_2,
                    b,
                    0,
                );
            }
        },
        TypedPattern::Record { fields, rest, span } => {
            if v.head is Record {
                lemma_fields(s, crate::pattern::record_fields(fields@), v, v.head->Record_0, b, 0);
            }
        },
        TypedPattern::Array { elems, rest, span } => {
            if v.head is Array {
                let items = crate::store::array_at(s, v.head->Array_0);
                lemma_all_add(s, elems@, items, b, 0);
                let r = crate::pattern::all_matched(s, elems@, items, b, 0);
                if rest is Some && r.fits && items.len() >= elems@.len() {
                    assert(m.store.arrays.take(r.store.arrays.len() as int) =~= r.store.arrays);
                    lemma_grown(s, r.store, m.store);
                    assert(m.bindings.take(r.bindings.len() as int) =~= r.bindings);
                    lemma_further(b, r.bindings, m.bindings);
                }
            }
        },
        _ => {},
    }
}

proof fn lemma_all_add(
    s: StoreModel,
    ps: Seq<TypedPattern>,
    vs: Seq<ValueTerm>,
    b: Seq<(Seq<char>, Option<LocalId>, ValueTerm)>,
    i: int,
)
    requires
        0 <= i,
    ensures
        grown(s, crate::pattern::all_matched(s, ps, vs, b, i).store),
        further(b, crate::pattern::all_matched(s, ps, vs, b, i).bindings),
        crate::pattern::all_matched(s, ps, vs, b, i).fits ==> forall|k: int|
            i <= k < ps.len() ==> fits_later(s, #[trigger] ps[k], vs[k]),
    decreases ps, ps.len() - i,
{
    assert(s.arrays.take(s.arrays.len() as int) =~= s.arrays);
    assert(b.take(b.len() as int) =~= b);
    if i < ps.len() {
        matches_only_add(s, ps[i], vs[i], b);
        let r = crate::pattern::matched(s, ps[i], vs[i], b);
        if r.fits {
            lemma_all_add(r.store, ps, vs, r.bindings, i + 1);
            let e = crate::pattern::all_matched(r.store, ps, vs, r.bindings, i + 1);
            lemma_grown(s, r.store, e.store);
            lemma_further(b, r.bindings, e.bindings);
            if e.fits {
                assert forall|k: int| i <= k < ps.len() implies fits_later(
                    s,
                    #[trigger] ps[k],
                    vs[k],
                ) by {
                    if k > i {
                        assert(fits_later(r.store, ps[k], vs[k]));
                        let (t, c) = choose|
                            t: StoreModel,
                            c: Seq<(Seq<char>, Option<LocalId>, ValueTerm)>,
                        | grown(r.store, t) && #[trigger] crate::pattern::matched(
                            t,
                            ps[k],
                            vs[k],
                            c,
                        ).fits;
                        lemma_grown(s, r.store, t);
                        assert(crate::pattern::matched(t, ps[k], vs[k], c).fits);
                    }
                }
            }
        }
    }
}

/// Whether a pattern fits a value in a store that may have grown.
pub open spec fn fits_later(s: StoreModel, p: TypedPattern, v: ValueTerm) -> bool {
    exists|t: StoreModel, c: Seq<(Seq<char>, Option<LocalId>, ValueTerm)>|
        grown(s, t) && #[trigger] crate::pattern::matched(t, p, v, c).fits
}

/// A tuple pattern fits only tuples of as many components, each of which fits its pattern.
pub proof fn tuple_patterns_ask_for_every_component(s: StoreModel, p: TypedPattern, v: ValueTerm)
    requires
        p is Tuple,
        matching(s, p, v).fits,
    ensures
        v.head is Tuple,
        v.args.len() == p->Tuple_0@.len(),
        forall|i: int|
            0 <= i < v.args.len() ==> fits_later(s, #[trigger] p->Tuple_0@[i], v.args[i]),
{
    lemma_all_add(s, p->Tuple_0@, v.args, Seq::empty(), 0);
}

/// The elements of an array value.
pub open spec fn elements(s: StoreModel, v: ValueTerm) -> Seq<ValueTerm> {
    s.arrays[v.head->Array_0.0 as int]
}

/// An array pattern fits only arrays of as many elements, or of at least as many where it
/// names the rest, each of which fits its pattern. The rest is bound last, to a new array
/// of the elements behind.
pub proof fn array_patterns_ask_for_every_element(s: StoreModel, p: TypedPattern, v: ValueTerm)
    requires
        p is Array,
        v.head is Array ==> v.head->Array_0.0 < s.arrays.len(),
        matching(s, p, v).fits,
    ensures
        v.head is Array,
        p->Array_rest is None ==> elements(s, v).len() == p->Array_elems@.len(),
        p->Array_rest is Some ==> elements(s, v).len() >= p->Array_elems@.len(),
        forall|i: int|
            0 <= i < p->Array_elems@.len() ==> fits_later(
                s,
                #[trigger] p->Array_elems@[i],
                elements(s, v)[i],
            ),
        p->Array_rest matches Some(rest) ==> {
            let m = matching(s, p, v);
            &&& m.bindings.len() > 0
            &&& m.bindings.last().0 == rest.0@
            &&& m.bindings.last().1 == rest.1
            &&& m.bindings.last().2.head == ValueHead::Array(
                ArrayId((m.store.arrays.len() - 1) as usize),
            )
            &&& m.store.arrays.len() > s.arrays.len()
            &&& m.store.arrays.last() == elements(s, v).skip(p->Array_elems@.len() as int)
        },
{
    let items = crate::store::array_at(s, v.head->Array_0);
    lemma_all_add(s, p->Array_elems@, items, Seq::empty(), 0);
}

proof fn lemma_names(
    s: StoreModel,
    ps: Seq<TypedPattern>,
    vs: Seq<ValueTerm>,
    b: Seq<(Seq<char>, Option<LocalId>, ValueTerm)>,
    i: int,
)
    requires
        0 <= i <= ps.len() <= vs.len(),
        forall|k: int| 0 <= k < ps.len() ==> #[trigger] ps[k] is Binding,
    ensures
        crate::pattern::all_matched(s, ps, vs, b, i) == (MatchModel {
            store: s,
            bindings: b + named_bindings(ps, vs).skip(i),
            fits: true,
        }),
    decreases ps.len() - i,
{
    let all = named_bindings(ps, vs);
    if i < ps.len() {
        let b2 = b.push(all[i]);
        assert(ps[i] is Binding);
        assert(crate::pattern::matched(s, ps[i], vs[i], b).bindings == b2);
        lemma_names(s, ps, vs, b2, i + 1);
        assert(b2 + all.skip(i + 1) =~= b + all.skip(i));
    } else {
        assert(b + all.skip(i) =~= b);
    }
}

/// The bindings of values to the names in their places.
pub open spec fn named_bindings(ps: Seq<TypedPattern>, vs: Seq<ValueTerm>) -> Seq<
    (Seq<char>, Option<LocalId>, ValueTerm),
> {
    Seq::new(ps.len(), |i: int| (ps[i]->Binding_0@, ps[i]->Binding_1, vs[i]))
}

/// A tuple of names fits every tuple of as many components, and an array of names every
/// array of as many elements, or of more where it names the rest. Each name is bound to
/// what stands in its place.
pub proof fn names_fit_every_component(s: StoreModel, p: TypedPattern, v: ValueTerm)
    requires
        p is Tuple || p is Array,
        p is Tuple ==> forall|k: int|
            0 <= k < p->Tuple_0@.len() ==> #[trigger] p->Tuple_0@[k] is Binding,
        p is Array ==> forall|k: int|
            0 <= k < p->Array_elems@.len() ==> #[trigger] p->Array_elems@[k] is Binding,
        v.head is Array ==> v.head->Array_0.0 < s.arrays.len(),
    ensures
        p is Tuple && v.head is Tuple && v.args.len() == p->Tuple_0@.len() ==> matching(s, p, v)
            == (MatchModel { store: s, bindings: named_bindings(p->Tuple_0@, v.args), fits: true }),
        p is Array && p->Array_rest is None && v.head is Array && elements(s, v).len()
            == p->Array_elems@.len() ==> matching(s, p, v) == (MatchModel {
            store: s,
            bindings: named_bindings(p->Array_elems@, elements(s, v)),
            fits: true,
        }),
        p is Array && p->Array_rest is Some && v.head is Array && elements(s, v).len()
            >= p->Array_elems@.len() ==> matching(s, p, v).fits && matching(
            s,
            p,
            v,
        ).bindings.drop_last() == named_bindings(p->Array_elems@, elements(s, v)),
{
    let none = Seq::<(Seq<char>, Option<LocalId>, ValueTerm)>::empty();
    if p is Tuple {
        let ps = p->Tuple_0@;
        if v.head is Tuple && v.args.len() == ps.len() {
            lemma_names(s, ps, v.args, none, 0);
            assert(none + named_bindings(ps, v.args).skip(0) =~= named_bindings(ps, v.args));
        }
    } else {
        let ps = p->Array_elems@;
        if v.head is Array && elements(s, v).len() >= ps.len() {
            let items = elements(s, v);
            lemma_names(s, ps, items, none, 0);
            assert(none + named_bindings(ps, items).skip(0) =~= named_bindings(ps, items));
            if p->Array_rest is Some {
                assert(matching(s, p, v).bindings.drop_last() =~= named_bindings(ps, items));
            }
        }
    }
}

} // verus!
