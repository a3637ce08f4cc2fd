//! Types in diagnostics, with names for the unknown ones.

use crate::infer_type::InferType;
use crate::spelling::{
    applied_string, concat, fields_string, fun_string, list_string, sized_array_string,
};
use crate::table::Table;
use crate::term::{Head, Term, TypeVar};
use crate::text::decimal_string;
use vstd::prelude::*;
use vstd::string::*;

verus! {

/// The variables of a type without a known name, after those of `acc`, in the
/// order in which they are met from left to right.
pub open spec fn seen(acc: Seq<TypeVar>, known: Set<TypeVar>, t: Term) -> Seq<TypeVar>
    decreases t, t.args.len() + 1,
{
    match t.head {
        Head::Var(v) => if known.contains(v) || acc.contains(v) {
            acc
        } else {
            acc.push(v)
        },
        _ => seen_in(acc, known, t, t.args.len()),
    }
}

/// The same for the first `k` components of a type.
pub open spec fn seen_in(acc: Seq<TypeVar>, known: Set<TypeVar>, t: Term, k: nat) -> Seq<TypeVar>
    decreases t, k,
{
    if k == 0 || k > t.args.len() {
        acc
    } else {
        seen(seen_in(acc, known, t, (k - 1) as nat), known, t.args[k - 1])
    }
}

/// The same for a list of types.
pub open spec fn seen_all(known: Set<TypeVar>, ts: Seq<Term>) -> Seq<TypeVar>
    decreases ts.len(),
{
    if ts.len() == 0 {
        Seq::empty()
    } else {
        seen(seen_all(known, ts.drop_last()), known, ts.last())
    }
}

/// The name of a variable: the known one, or a number that counts the unknown
/// variables of the message, or the variable's own.
pub open spec fn name_of(
    known: Map<TypeVar, Seq<char>>,
    order: Seq<TypeVar>,
    v: TypeVar,
) -> Seq<char> {
    if known.contains_key(v) {
        known[v]
    } else if order.contains(v) {
        "?"@ + crate::text::decimal((order.index_of(v) + 1) as nat)
    } else {
        "?t"@ + crate::text::decimal(v.0 as nat)
    }
}

/// How a type is written with named variables.
pub open spec fn named_text(
    t: Term,
    known: Map<TypeVar, Seq<char>>,
    order: Seq<TypeVar>,
) -> Seq<char>
    decreases t, 1int,
{
    match t.head {
        Head::Var(v) => name_of(known, order, v),
        Head::Concrete(_) => crate::term::text(t),
        _ => crate::term::frame(t.head, named_parts(t, known, order)),
    }
}

/// The components of a type as they are written with named variables.
pub open spec fn named_parts(
    t: Term,
    known: Map<TypeVar, Seq<char>>,
    order: Seq<TypeVar>,
) -> Seq<Seq<char>>
    decreases t, 0int,
{
    Seq::new(
        t.args.len(),
        |i: int|
            if 0 <= i < t.args.len() {
                named_text(t.args[i], known, order)
            } else {
                arbitrary()
            },
    )
}

/// How types of one message are written.
pub open spec fn rendered(ts: Seq<Term>, known: Map<TypeVar, Seq<char>>) -> Seq<Seq<char>> {
    Seq::new(ts.len(), |i: int| named_text(ts[i], known, seen_all(known.dom(), ts)))
}

/// The position of a variable in a list without repetitions.
fn place(order: &Vec<TypeVar>, v: TypeVar) -> (r: Option<usize>)
    requires
        order@.no_duplicates(),
    ensures
        match r {
            Some(i) => i < order@.len() && order@.contains(v) && order@.index_of(v) == i,
            None => !order@.contains(v),
        },
{
    let mut i: usize = 0;
    while i < order.len()
        invariant
            i <= order.len(),
            order@.no_duplicates(),
            forall|j: int| 0 <= j < i ==> order@[j] != v,
        decreases order.len() - i,
    {
        if order[i].0 == v.0 {
            proof {
                assert(order@[i as int] == v);
                let c = order@.index_of(v);
                assert(order@[c] == v);
            }
            return Some(i);
        }
        i += 1;
    }
    None
}

proof fn lemma_push_distinct(s: Seq<TypeVar>, v: TypeVar)
    requires
        s.no_duplicates(),
        !s.contains(v),
    ensures
        s.push(v).no_duplicates(),
{
    assert forall|i: int, j: int| 0 <= i < j < s.push(v).len() implies s.push(v)[i] != s.push(
        v,
    )[j] by {
        if j == s.len() {
            assert(s.contains(s[i]));
        }
    }
}

fn collect_free_vars_in_order(
    ty: &InferType,
    known: &Table<TypeVar, String>,
    order: &mut Vec<TypeVar>,
)
    requires
        old(order)@.no_duplicates(),
    ensures
        final(order)@ == seen(old(order)@, known@.dom(), ty.term()),
        final(order)@.no_duplicates(),
    decreases ty.term(),
{
    if let InferType::Var(v) = ty {
        if !known.contains_key(v) && place(order, *v).is_none() {
            proof {
                lemma_push_distinct(order@, *v);
            }
            order.push(*v);
        }
        return;
    }
    let n: u128 = ty.arity();
    let mut i: u128 = 0;
    while i < n
        invariant
            i <= n,
            n == ty.term().args.len(),
            !(ty.term().head is Var),
            order@.no_duplicates(),
            order@ == seen_in(old(order)@, known@.dom(), ty.term(), i as nat),
        decreases n - i,
    {
        let c = ty.child(i);
        collect_free_vars_in_order(c, known, order);
        i += 1;
    }
}

fn render_with_names(
    ty: &InferType,
    known: &Table<TypeVar, String>,
    order: &Vec<TypeVar>,
) -> (s: String)
    requires
        order@.no_duplicates(),
    ensures
        s@ == named_text(ty.term(), known@, order@),
    decreases ty.term(),
{
    match ty {
        InferType::Var(v) => {
            return match known.get(v) {
                Some(name) => name.clone(),
                None => match place(order, *v) {
                    Some(i) => concat("?", decimal_string(i as u128 + 1).as_str()),
                    None => v.to_string(),
                },
            };
        },
        InferType::Concrete(_) => {
            return ty.to_string();
        },
        _ => {},
    }
    let ghost want = named_parts(ty.term(), known@, order@);
    let mut parts: Vec<String> = Vec::new();
    let n: u128 = ty.arity();
    let mut i: u128 = 0;
    while i < n
        invariant
            i <= n,
            n == ty.term().args.len(),
            order@.no_duplicates(),
            parts@.len() == i,
            want == named_parts(ty.term(), known@, order@),
            forall|j: int| 0 <= j < i ==> (#[trigger] parts@[j])@ == want[j],
        decreases n - i,
    {
        let c = ty.child(i);
        parts.push(render_with_names(c, known, order));
        i += 1;
    }
    proof {
        assert(parts.deep_view() =~= want);
    }
    match ty {
        InferType::Tuple(_) => list_string("(", &parts, ")"),
        InferType::Record(fs) => fields_string("{ ", fs, &parts),
        InferType::Array(_) => concat(parts[0].as_str(), "[]"),
        InferType::SizedArray(_, n) => sized_array_string(&parts[0], *n),
        InferType::Reference(_) => concat("&", parts[0].as_str()),
        InferType::MutReference(_) => concat("&var ", parts[0].as_str()),
        InferType::Fun(_, _, call, _, mutation) => {
            let ret = parts.pop().unwrap();
            proof {
                assert(parts.deep_view() =~= want.drop_last());
            }
            fun_string(*call, *mutation, &parts, &ret)
        },
        InferType::Named(name, _) => applied_string(name, &parts),
        InferType::Residual { brand, fields } => fields_string(
            concat(brand.as_str(), ".{ ").as_str(),
            fields,
            &parts,
        ),
        InferType::Dyn { aspect, type_args: _ } => concat(
            "dyn ",
            applied_string(aspect, &parts).as_str(),
        ),
        _ => "!".to_owned(),
    }
}

/// The terms of a list of borrowed types.
pub open spec fn ref_terms(tys: Seq<&InferType>) -> Seq<Term> {
    Seq::new(tys.len(), |i: int| tys[i].term())
}

/// Render one or more `InferType`s together for a single diagnostic message,
/// giving every distinct free `TypeVar` among them a stable, message-local
/// name (`?1`, `?2`, ...), unless `known_names` has a name for it.
///
/// The label depends only on the structure of the types passed to one call,
/// in left-to-right depth-first encounter order. The same `TypeVar` occurring
/// in more than one of `tys` gets the same local label in both.
pub fn render_types(tys: &Vec<&InferType>, known_names: &Table<TypeVar, String>) -> (r: Vec<String>)
    ensures
        r.deep_view() == rendered(ref_terms(tys@), known_names@),
{
    let mut order: Vec<TypeVar> = Vec::new();
    let ghost ts = ref_terms(tys@);
    let mut i: usize = 0;
    while i < tys.len()
        invariant
            i <= tys.len(),
            ts == ref_terms(tys@),
            order@.no_duplicates(),
            order@ == seen_all(known_names@.dom(), ts.take(i as int)),
        decreases tys.len() - i,
    {
        collect_free_vars_in_order(tys[i], known_names, &mut order);
        proof {
            assert(ts.take(i as int + 1).drop_last() =~= ts.take(i as int));
        }
        i += 1;
    }
    proof {
        assert(ts.take(tys.len() as int) =~= ts);
    }
    let mut out: Vec<String> = Vec::new();
    let mut j: usize = 0;
    while j < tys.len()
        invariant
            j <= tys.len(),
            ts == ref_terms(tys@),
            order@.no_duplicates(),
            order@ == seen_all(known_names@.dom(), ts),
            out@.len() == j,
            forall|k: int|
                0 <= k < j ==> (#[trigger] out@[k])@ == named_text(ts[k], known_names@, order@),
        decreases tys.len() - j,
    {
        out.push(render_with_names(tys[j], known_names, &order));
        j += 1;
    }
    proof {
        assert(out.deep_view() =~= rendered(ts, known_names@));
    }
    out
}

/// One type on its own.
pub fn render_type(ty: &InferType, known_names: &Table<TypeVar, String>) -> (s: String)
    ensures
        s@ == rendered(seq![ty.term()], known_names@)[0],
{
    let mut tys: Vec<&InferType> = Vec::new();
    tys.push(ty);
    let mut out = render_types(&tys, known_names);
    proof {
        assert(ref_terms(tys@) =~= seq![ty.term()]);
        assert(out.deep_view().len() == 1);
        assert(out.deep_view()[0] == out@[0]@);
    }
    out.pop().unwrap()
}

/// Two types of one message.
pub fn render_pair(
    a: &InferType,
    b: &InferType,
    known_names: &Table<TypeVar, String>,
) -> (r: (String, String))
    ensures
        r.0@ == rendered(seq![a.term(), b.term()], known_names@)[0],
        r.1@ == rendered(seq![a.term(), b.term()], known_names@)[1],
{
    let mut tys: Vec<&InferType> = Vec::new();
    tys.push(a);
    tys.push(b);
    let mut out = render_types(&tys, known_names);
    proof {
        assert(ref_terms(tys@) =~= seq![a.term(), b.term()]);
        assert(out.deep_view().len() == 2);
        assert(out.deep_view()[0] == out@[0]@);
        assert(out.deep_view()[1] == out@[1]@);
    }
    let second = out.pop().unwrap();
    let first = out.pop().unwrap();
    (first, second)
}

} // verus!
