//! Pattern matching.

use crate::data::Dup;
use crate::literals::match_literal;
use crate::store::{Store, StoreModel};
use crate::symbols::VariantId;
use crate::typed_ast::TypedPattern;
use crate::values::{LocalId, Value, ValueHead, ValueTerm};
use vstd::prelude::*;
use vstd::string::*;

verus! {

/// A variable that a match binds: its name, its identity where it is known, and
/// its value.
pub type PatternBinding = (String, Option<LocalId>, Value);

/// What a match comes to: the store, the variables bound so far, and whether the
/// pattern fits.
pub struct MatchModel {
    pub store: StoreModel,
    pub bindings: Seq<(Seq<char>, Option<LocalId>, ValueTerm)>,
    pub fits: bool,
}

/// The segment before the last one, or nothing.
pub open spec fn owner_segment(path: Seq<Seq<char>>) -> Seq<char> {
    if path.len() >= 2 {
        path[path.len() - 2]
    } else {
        Seq::empty()
    }
}

/// The last segment, or nothing.
pub open spec fn last_segment(path: Seq<Seq<char>>) -> Seq<char> {
    if path.len() >= 1 {
        path.last()
    } else {
        Seq::empty()
    }
}

/// Whether a value is of the variant that a pattern names: the identities decide
/// where both are known, and the names otherwise.
pub open spec fn of_variant(
    path: Seq<Seq<char>>,
    id: Option<VariantId>,
    name: Seq<char>,
    variant: Seq<char>,
    value_id: Option<VariantId>,
) -> bool {
    match (id, value_id) {
        (Some(a), Some(b)) => a == b,
        _ => name == owner_segment(path) && variant == last_segment(path),
    }
}

/// The fields of a value bound to variables of the same names, from `i` on, up
/// to the first that the value does not have.
pub open spec fn fields_bound(
    s: StoreModel,
    fields: Seq<(Seq<char>, Option<LocalId>)>,
    v: ValueTerm,
    bindings: Seq<(Seq<char>, Option<LocalId>, ValueTerm)>,
    i: int,
) -> MatchModel
    decreases fields.len() - i,
{
    if i < 0 || i >= fields.len() {
        MatchModel { store: s, bindings, fits: true }
    } else {
        match crate::values::field_of(v, fields[i].0) {
            Some(x) => fields_bound(
                s,
                fields,
                v,
                bindings.push((fields[i].0, fields[i].1, x)),
                i + 1,
            ),
            None => MatchModel { store: s, bindings, fits: false },
        }
    }
}

/// The names and variables of the fields in a struct or variant pattern.
pub open spec fn pattern_fields<I>(fields: Seq<(String, I, Option<LocalId>)>) -> Seq<
    (Seq<char>, Option<LocalId>),
> {
    Seq::new(fields.len(), |i: int| (fields[i].0@, fields[i].2))
}

/// The names and variables of the fields in a record pattern.
pub open spec fn record_fields(fields: Seq<(String, Option<LocalId>)>) -> Seq<
    (Seq<char>, Option<LocalId>),
> {
    Seq::new(fields.len(), |i: int| (fields[i].0@, fields[i].1))
}

/// What a match of a value against a pattern comes to.
pub open spec fn matched(
    s: StoreModel,
    p: TypedPattern,
    v: ValueTerm,
    bindings: Seq<(Seq<char>, Option<LocalId>, ValueTerm)>,
) -> MatchModel
    decreases p, 0int,
{
    let fails = MatchModel { store: s, bindings, fits: false };
    match p {
        TypedPattern::Wildcard(_) => MatchModel { store: s, bindings, fits: true },
        TypedPattern::Literal(lit, _) => MatchModel {
            store: s,
            bindings,
            fits: crate::literals::literal_matches(lit, v),
        },
        TypedPattern::Binding(name, id, _) => MatchModel {
            store: s,
            bindings: bindings.push((name@, id, v)),
            fits: true,
        },
        TypedPattern::Tuple(ps, _) => if v.head is Tuple && v.args.len() == ps@.len() {
            all_matched(s, ps@, v.args, bindings, 0)
        } else {
            fails
        },
        TypedPattern::EnumVariant { path, variant_id, fields, rest, span } => match v.head {
            ValueHead::Enum(name, _, variant, value_id, _) => if of_variant(
                path.deep_view(),
                variant_id,
                name,
                variant,
                value_id,
            ) {
                fields_bound(s, pattern_fields(fields@), v, bindings, 0)
            } else {
                fails
            },
            _ => fails,
        },
        TypedPattern::Struct { name, type_id, fields, rest, span } => match v.head {
            ValueHead::Struct(value_name, _, labels) => if value_name == name@ && (rest
                || labels.len() == fields@.len()) {
                fields_bound(s, pattern_fields(fields@), v, bindings, 0)
            } else {
                fails
            },
            _ => fails,
        },
        TypedPattern::Record { fields, rest, span } => match v.head {
            ValueHead::Record(labels) => if rest || labels.len() == fields@.len() {
                fields_bound(s, record_fields(fields@), v, bindings, 0)
            } else {
                fails
            },
            _ => fails,
        },
        TypedPattern::Array { elems, rest, span } => match v.head {
            ValueHead::Array(a) => {
                let items = crate::store::array_at(s, a);
                if (rest is None && items.len() == elems@.len()) || (rest is Some && items.len()
                    >= elems@.len()) {
                    let r = all_matched(s, elems@, items, bindings, 0);
                    match rest {
                        Some((name, id)) => if r.fits {
                            let (t, tail) = crate::store::array_made(
                                r.store,
                                items.skip(elems@.len() as int),
                            );
                            MatchModel {
                                store: t,
                                bindings: r.bindings.push(
                                    (name@, id, crate::values::plain(ValueHead::Array(tail))),
                                ),
                                fits: true,
                            }
                        } else {
                            r
                        },
                        None => r,
                    }
                } else {
                    fails
                }
            },
            _ => fails,
        },
    }
}

/// What the matches of values against patterns come to, from `i` on, up to the
/// first that fails.
pub open spec fn all_matched(
    s: StoreModel,
    ps: Seq<TypedPattern>,
    vs: Seq<ValueTerm>,
    bindings: Seq<(Seq<char>, Option<LocalId>, ValueTerm)>,
    i: int,
) -> MatchModel
    decreases ps, ps.len() - i,
{
    if i < 0 || i >= ps.len() {
        MatchModel { store: s, bindings, fits: true }
    } else {
        let r = matched(s, ps[i], vs[i], bindings);
        if r.fits {
            all_matched(r.store, ps, vs, r.bindings, i + 1)
        } else {
            r
        }
    }
}

fn push_binding(out: &mut Vec<PatternBinding>, name: &String, id: Option<LocalId>, v: Value)
    ensures
        final(out).deep_view() == old(out).deep_view().push((name@, id, v@)),
{
    let ghost prev = out.deep_view();
    assert(prev.len() == out@.len());
    out.push((name.clone(), id, v));
    assert(out.deep_view() =~= prev.push((name@, id, v@)));
}

fn bind_fields<I>(
    fields: &Vec<(String, I, Option<LocalId>)>,
    v: &Value,
    out: &mut Vec<PatternBinding>,
    Ghost(s): Ghost<StoreModel>,
) -> (b: bool)
    ensures
        (MatchModel { store: s, bindings: final(out).deep_view(), fits: b }) == fields_bound(
            s,
            pattern_fields(fields@),
            v@,
            old(out).deep_view(),
            0,
        ),
{
    let ghost all = fields_bound(s, pattern_fields(fields@), v@, out.deep_view(), 0);
    let mut i: usize = 0;
    while i < fields.len()
        invariant
            i <= fields.len(),
            all == fields_bound(s, pattern_fields(fields@), v@, out.deep_view(), i as int),
            all == fields_bound(s, pattern_fields(fields@), v@, old(out).deep_view(), 0),
        decreases fields.len() - i,
    {
        match v.field(fields[i].0.as_str()) {
            Some(x) => {
                push_binding(out, &fields[i].0, fields[i].2, x.dup());
            },
            None => {
                return false;
            },
        }
        i += 1;
    }
    true
}

fn bind_record_fields(
    fields: &Vec<(String, Option<LocalId>)>,
    v: &Value,
    out: &mut Vec<PatternBinding>,
    Ghost(s): Ghost<StoreModel>,
) -> (b: bool)
    ensures
        (MatchModel { store: s, bindings: final(out).deep_view(), fits: b }) == fields_bound(
            s,
            record_fields(fields@),
            v@,
            old(out).deep_view(),
            0,
        ),
{
    let ghost all = fields_bound(s, record_fields(fields@), v@, out.deep_view(), 0);
    let mut i: usize = 0;
    while i < fields.len()
        invariant
            i <= fields.len(),
            all == fields_bound(s, record_fields(fields@), v@, out.deep_view(), i as int),
            all == fields_bound(s, record_fields(fields@), v@, old(out).deep_view(), 0),
        decreases fields.len() - i,
    {
        match v.field(fields[i].0.as_str()) {
            Some(x) => {
                push_binding(out, &fields[i].0, fields[i].1, x.dup());
            },
            None => {
                return false;
            },
        }
        i += 1;
    }
    true
}

fn match_patterns(
    store: &mut Store,
    ps: &Vec<TypedPattern>,
    vs: &Vec<Value>,
    out: &mut Vec<PatternBinding>,
) -> (b: bool)
    requires
        ps@.len() <= vs@.len(),
    ensures
        (MatchModel { store: final(store)@, bindings: final(out).deep_view(), fits: b })
            == all_matched(old(store)@, ps@, vs.deep_view(), old(out).deep_view(), 0),
    decreases *ps, 1int,
{
    let ghost all = all_matched(store@, ps@, vs.deep_view(), out.deep_view(), 0);
    let mut i: usize = 0;
    while i < ps.len()
        invariant
            i <= ps.len(),
            ps@.len() <= vs@.len(),
            all == all_matched(store@, ps@, vs.deep_view(), out.deep_view(), i as int),
            all == all_matched(old(store)@, ps@, vs.deep_view(), old(out).deep_view(), 0),
        decreases ps.len() - i,
    {
        proof {
            assert(vs.deep_view()[i as int] == vs@[i as int]@);
            assert(decreases_to!(*ps => ps@));
        }
        if !match_pattern(store, &ps[i], &vs[i], out) {
            return false;
        }
        i += 1;
    }
    true
}

fn segment(path: &Vec<String>, back: usize) -> (s: String)
    requires
        back == 1 || back == 2,
    ensures
        s@ == if back == 1 {
            last_segment(path.deep_view())
        } else {
            owner_segment(path.deep_view())
        },
{
    assert(path.deep_view().len() == path@.len());
    if path.len() >= back {
        path[path.len() - back].clone()
    } else {
        String::new()
    }
}

/// Matches a value against a pattern. The variables that the pattern binds come
/// after those that are there already; after a failure they are incomplete.
pub fn match_pattern(
    store: &mut Store,
    pattern: &TypedPattern,
    value: &Value,
    out: &mut Vec<PatternBinding>,
) -> (b: bool)
    ensures
        (MatchModel { store: final(store)@, bindings: final(out).deep_view(), fits: b })
            == matched(old(store)@, *pattern, value@, old(out).deep_view()),
    decreases *pattern, 0int,
{
    let ghost s = store@;
    match pattern {
        TypedPattern::Wildcard(_) => true,
        TypedPattern::Literal(lit, _) => match_literal(lit, value),
        TypedPattern::Binding(name, id, _) => {
            push_binding(out, name, *id, value.dup());
            true
        },
        TypedPattern::Tuple(ps, _) => match value {
            Value::Tuple(items) => {
                assert(value@.args =~= items.deep_view());
                if items.len() == ps.len() {
                    match_patterns(store, ps, items, out)
                } else {
                    false
                }
            },
            _ => false,
        },
        TypedPattern::EnumVariant { path, variant_id, fields, rest: _, span: _ } => match value {
            Value::Enum { name, type_id: _, variant, variant_id: value_id, fields: _ } => {
                let same = match (variant_id, value_id) {
                    (Some(a), Some(b)) => a.0 == b.0,
                    _ => *name == segment(path, 2) && *variant == segment(path, 1),
                };
                if same {
                    bind_fields(fields, value, out, Ghost(s))
                } else {
                    false
                }
            },
            _ => false,
        },
        TypedPattern::Struct { name, type_id: _, fields, rest, span: _ } => match value {
            Value::Struct { name: value_name, type_id: _, fields: have } => {
                if *value_name == *name && (*rest || have.len() == fields.len()) {
                    bind_fields(fields, value, out, Ghost(s))
                } else {
                    false
                }
            },
            _ => false,
        },
        TypedPattern::Record { fields, rest, span: _ } => match value {
            Value::Record { fields: have } => {
                if *rest || have.len() == fields.len() {
                    bind_record_fields(fields, value, out, Ghost(s))
                } else {
                    false
                }
            },
            _ => false,
        },
        TypedPattern::Array { elems, rest, span: _ } => match value {
            Value::Array(a) => {
                let items = store.array(*a);
                assert(items.deep_view().len() == items@.len());
                let right_length = match rest {
                    None => items.len() == elems.len(),
                    Some(_) => items.len() >= elems.len(),
                };
                if !right_length {
                    return false;
                }
                if !match_patterns(store, elems, &items, out) {
                    return false;
                }
                match rest {
                    Some((name, id)) => {
                        let tail = tail_from(&items, elems.len());
                        let made = store.make_array(tail);
                        push_binding(out, name, *id, Value::Array(made));
                        true
                    },
                    None => true,
                }
            },
            _ => false,
        },
    }
}

/// The values from a position on.
pub fn tail_from(items: &Vec<Value>, from: usize) -> (r: Vec<Value>)
    requires
        from <= items@.len(),
    ensures
        r.deep_view() == items.deep_view().skip(from as int),
{
    let mut out: Vec<Value> = Vec::new();
    let mut i: usize = from;
    while i < items.len()
        invariant
            from <= i <= items.len(),
            out@.len() == i - from,
            forall|j: int|
                0 <= j < out@.len() ==> (#[trigger] out@[j]).deep_view()
                    == items@[j + from].deep_view(),
        decreases items.len() - i,
    {
        out.push(items[i].dup());
        i += 1;
    }
    proof {
        assert(out.deep_view() =~= items.deep_view().skip(from as int));
    }
    out
}

} // verus!
