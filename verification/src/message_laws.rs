//! What is said of types that do not fit, and of names that are not clear.

use crate::ast::SpanModel;
use crate::bounds::BoundModel;
use crate::coercion::Watched;
use crate::constraints::ConstraintModel;
use crate::error::{ErrorModel, TypeErrorCode};
use crate::generic_calls::TypeCtxModel;
use crate::registry::RegistryModel;
use crate::symbols::SymbolId;
use crate::term::{Head, Term, TypeVar};
use vstd::prelude::*;
use vstd::string::*;

verus! {

/// Two types that do not fit are named in the message, the one at hand first; an operator is named
/// too where it is one that does not apply.
pub proof fn messages_name_both_types(
    a: Term,
    b: Term,
    span: SpanModel,
    op: Seq<char>,
    known: Map<TypeVar, Seq<char>>,
)
    requires
        !(a.head is Residual),
        !(b.head is Residual),
    ensures
        ({
            let shown = crate::render::rendered(seq![a, b], known);
            &&& crate::constraints::mismatch(a, b, span, None, known) == ErrorModel::Type(
                TypeErrorCode::T0001,
                "cannot unify "@ + shown[0] + " with "@ + shown[1],
                span,
            )
            &&& crate::constraints::mismatch(a, b, span, Some(op), known) == ErrorModel::Type(
                TypeErrorCode::T0005,
                "operator `"@ + op + "` cannot be applied to `"@ + shown[0] + "` and `"@ + shown[1]
                    + "`"@,
                span,
            )
        }),
{
}

/// Where a literal does not fit, the message says which kind of literal it is and names the other
/// type.
pub proof fn messages_name_the_literal(
    t: Term,
    span: SpanModel,
    op: Seq<char>,
    known: Map<TypeVar, Seq<char>>,
    m: Map<TypeVar, Term>,
    ints: Set<TypeVar>,
    floats: Set<TypeVar>,
    e: ErrorModel,
)
    requires
        crate::constraints::literals_checked(Err(e), m, ints, floats, span, None, known),
    ensures
        ({
            let said = |kind: Seq<char>, v: TypeVar|
                ErrorModel::Type(
                    TypeErrorCode::T0001,
                    "cannot unify "@ + kind + " with `"@ + crate::render::rendered(
                        seq![crate::constraints::value_of(m, v)],
                        known,
                    )[0] + "`"@,
                    span,
                );
            ||| exists|v: TypeVar| #[trigger] ints.contains(v) && e == said("an integer literal"@, v)
            ||| exists|v: TypeVar| #[trigger] floats.contains(v) && e == said("a float literal"@, v)
        }),
        crate::constraints::literal_mismatch("an integer literal"@, t, span, Some(op), known)
            == ErrorModel::Type(
            TypeErrorCode::T0005,
            "operator `"@ + op + "` cannot be applied to "@ + "an integer literal"@ + " and `"@
                + crate::render::rendered(seq![t], known)[0] + "`"@,
            span,
        ),
{
}

/// A value that has been moved in part is reported as such: where the whole is required, with what
/// is left of it, and where another rest is required, with both.
pub proof fn partial_moves_are_reported(
    a: Term,
    b: Term,
    span: SpanModel,
    operator: Option<Seq<char>>,
    known: Map<TypeVar, Seq<char>>,
)
    requires
        a.head is Residual,
    ensures
        ({
            let brand = a.head->Residual_0;
            let left = crate::text::joined(a.head->Residual_1, ", "@);
            let e = crate::constraints::mismatch(a, b, span, operator, known);
            &&& b.head is Named && b.head->Named_0 == brand ==> e == ErrorModel::Type(
                TypeErrorCode::T0001,
                "a partially-moved `"@ + brand + "` (now `"@ + brand + ".{ "@ + left
                    + " }`) cannot be used where the whole `"@ + brand + "` is required"@,
                span,
            )
            &&& b.head is Residual && b.head->Residual_0 == brand && a.args.len() != b.args.len()
                ==> e == ErrorModel::Type(
                TypeErrorCode::T0001,
                "a partially-moved `"@ + brand + "` here has row `{ "@ + left + " }` but `{ "@
                    + crate::text::joined(b.head->Residual_1, ", "@) + " }` is required"@,
                span,
            )
        }),
{
}

/// Solving stops at a variable that must not be found out, and says which type was found. Literals
/// that do not fit are reported before.
pub proof fn opaque_results_are_reported(
    e: ErrorModel,
    m: Map<TypeVar, Term>,
    w: Watched,
    c: ConstraintModel,
    known: Map<TypeVar, Seq<char>>,
)
    requires
        crate::coercion::watched_fault(e, m, w, c, known),
    ensures
        e is Type,
        e->Type_2 == c.span,
        e->Type_0 is T0018 || e->Type_0 is T0001 || e->Type_0 is T0005,
        e->Type_0 is T0018 ==> exists|v: TypeVar|
            #[trigger] w.opaque.contains(v) && !(crate::constraints::value_of(m, v).head is Var),
        !(e->Type_0 is T0018) ==> (e->Type_0 is T0005 <==> c.operator is Some),
{
}

/// A name that two imports provide is reported with both modules, and with the imports that would
/// make it clear.
pub proof fn conflicts_name_both_modules(
    name: Seq<char>,
    a: Seq<char>,
    b: Seq<char>,
    span: SpanModel,
)
    ensures
        crate::context_state::conflict_error(name, seq![seq![a], seq![b]], span) == ErrorModel::Type(
            TypeErrorCode::T0011,
            "import conflict: `"@ + name + "` is exported by both `"@ + a + "` and `"@ + b
                + "`; use an explicit import to disambiguate: `import "@ + a + "::"@ + name
                + "` or `import "@ + b + "::"@ + name + "`"@,
            span,
        ),
{
    let sources = seq![seq![a], seq![b]];
    assert(sources[0] == seq![a] && sources[1] == seq![b]);
    assert(seq![a][0] == a && seq![b][0] == b);
    assert(crate::text::joined(seq![a], "::"@) == a);
    assert(crate::text::joined(seq![b], "::"@) == b);
}

/// A generic body is typed with the scheme of the receiver's method, also behind references, and
/// otherwise with the one that the module has under the name.
pub proof fn methods_are_typed_with_their_scheme(
    ctx: TypeCtxModel,
    owner: Seq<char>,
    args: Seq<Term>,
    name: Seq<char>,
)
    ensures
        ({
            let t = Term { head: Head::Named(owner, None), args };
            let r = Term { head: Head::Reference, args: seq![t] };
            let m = Term { head: Head::MutReference, args: seq![t] };
            let schemes = ctx.registry.method_scheme_env;
            let known = schemes.dom().contains(owner) && schemes[owner].dom().contains(name);
            let own = ctx.schemes.dom().contains(name);
            let typed = |receiver: Option<Term>|
                crate::generic_calls::call_scheme(ctx, receiver, name);
            &&& known ==> typed(Some(t)) == Some(schemes[owner][name].0)
            &&& typed(Some(r)) == typed(Some(t)) && typed(Some(m)) == typed(Some(t))
            &&& !known ==> typed(Some(t)) == typed(None)
            &&& own ==> typed(None) == Some(ctx.schemes[name])
            &&& !own ==> typed(None) is None
        }),
{
    let t = Term { head: Head::Named(owner, None), args };
    let r = Term { head: Head::Reference, args: seq![t] };
    let m = Term { head: Head::MutReference, args: seq![t] };
    assert(r.args[0] == t && m.args[0] == t);
    assert(crate::generic_calls::nominal_name(t) == Some(owner));
    assert(crate::generic_calls::nominal_name(r) == crate::generic_calls::nominal_name(r.args[0]));
    assert(crate::generic_calls::nominal_name(m) == crate::generic_calls::nominal_name(m.args[0]));
}

/// What is said of the variables of a scheme stands beside them: for each variable what is known of
/// it, and nothing where nothing is.
pub proof fn bounds_stand_beside_their_variables(
    vars: Seq<TypeVar>,
    by_var: Map<TypeVar, Seq<BoundModel>>,
    i: int,
)
    requires
        0 <= i < vars.len(),
    ensures
        ({
            let lists = crate::schemes::lists_for(vars, by_var);
            &&& lists.len() == vars.len()
            &&& by_var.dom().contains(vars[i]) ==> lists[i] == by_var[vars[i]]
            &&& !by_var.dom().contains(vars[i]) ==> lists[i].len() == 0
        }),
        crate::schemes::all_lists_empty(by_var) && by_var.dom().contains(vars[i])
            ==> by_var[vars[i]].len() == 0,
{
}

/// A scheme that nothing is said of quantifies over its variables and says nothing else.
pub proof fn plain_schemes_say_nothing(vars: Seq<TypeVar>, ty: Term)
    ensures
        ({
            let s = crate::schemes::plain_scheme(vars, ty);
            &&& s.vars == vars && s.ty == ty
            &&& s.names.len() == 0 && s.bounds.len() == 0 && s.neg_bounds.len() == 0
            &&& s.record_kinds.len() == 0 && s.assoc_projections.len() == 0
            &&& s.assoc_eq_constraints.len() == 0 && s.opaque_returns.len() == 0
        }),
{
}

/// An imported name in an annotation stands for the name under which the type was declared.
pub proof fn imported_names_stand_for_declared_ones(
    reg: RegistryModel,
    module: Seq<Seq<char>>,
    name: Seq<char>,
    id: SymbolId,
)
    requires
        crate::resolving_laws::simple(name),
        reg.scopes.dom().contains(module),
        reg.scopes[module].explicit.len() == 1,
        reg.scopes[module].explicit[0].1.symbol_id == id,
    ensures
        ({
            let import = reg.scopes[module].explicit[0];
            let meant = crate::resolve::canonical(reg, module, name);
            &&& import.0 == name && reg.type_decl_names.dom().contains(id) ==> meant == Some(
                reg.type_decl_names[id],
            )
            &&& import.0 == name && !reg.type_decl_names.dom().contains(id) ==> meant == Some(
                import.1.source_name,
            )
            &&& import.0 != name ==> meant is None
        }),
{
    lemma_no_separator(name, name.len() - 1);
    reveal_with_fuel(crate::resolve::import_named, 2);
}

proof fn lemma_no_separator(s: Seq<char>, i: int)
    requires
        !s.contains(':'),
        i < s.len(),
    ensures
        crate::paths::last_sep(s, i) < 0,
    decreases i + 1,
{
    if i >= 0 {
        assert(s.contains(s[i]));
        lemma_no_separator(s, i - 1);
    }
}

/// A type has an impl of an aspect exactly if one is registered for the declaration that its name
/// means.
pub proof fn impls_belong_to_declarations(
    reg: RegistryModel,
    module: Seq<Seq<char>>,
    name: Seq<char>,
    aspect: Seq<char>,
    id: SymbolId,
)
    ensures
        crate::resolve::resolved(reg, module, name) == Some(id) ==> (crate::registering::has_impl(
            reg,
            module,
            name,
            aspect,
        ) <==> reg.impl_aspect_env.dom().contains((id, aspect))),
        crate::resolve::resolved(reg, module, name) is None ==> !crate::registering::has_impl(
            reg,
            module,
            name,
            aspect,
        ),
{
}

/// A variable is part of what is in scope exactly if it occurs in the type of some name there.
pub proof fn variables_in_scope_occur_in_types(
    mono: Seq<Map<Seq<char>, (Term, bool)>>,
    i: int,
    name: Seq<char>,
    v: TypeVar,
)
    requires
        0 <= i < mono.len(),
    ensures
        mono[i].dom().contains(name) && crate::term::occurs(v, mono[i][name].0)
            ==> crate::context_state::scope_vars(mono).contains(v),
        (forall|k: int, other: Seq<char>|
            0 <= k < mono.len() && #[trigger] mono[k].dom().contains(other) ==> !crate::term::occurs(
                v,
                mono[k][other].0,
            )) ==> !crate::context_state::scope_vars(mono).contains(v),
        mono[i].dom().contains(name) ==> crate::context::bound_in_any(mono, name),
{
    if mono[i].dom().contains(name) && crate::term::occurs(v, mono[i][name].0) {
        assert(mono[i].contains_key(name));
        assert(crate::context_state::occurs_in_scope(mono[i], v));
    }
    if crate::context_state::scope_vars(mono).contains(v) {
        let k = choose|k: int|
            0 <= k < mono.len() && crate::context_state::occurs_in_scope(#[trigger] mono[k], v);
        let other = choose|other: Seq<char>| #[trigger]
            mono[k].contains_key(other) && crate::term::occurs(v, mono[k][other].0);
        assert(mono[k].dom().contains(other));
    }
    if mono[i].dom().contains(name) {
        assert(mono[i].contains_key(name));
    }
}

/// What is known of a variable begins with its own bounds and takes in those of the variable that it
/// stands for.
pub proof fn bounds_of_the_representative_count(
    bounds: Map<TypeVar, Seq<BoundModel>>,
    m: Map<TypeVar, Term>,
    v: TypeVar,
    b: BoundModel,
)
    ensures
        ({
            let root = crate::context_state::representative(m, v);
            let own = crate::context_state::own_bounds(bounds, m, v);
            let direct = crate::table::list_at(bounds, v);
            let more = crate::table::list_at(bounds, root);
            &&& direct.contains(b) ==> own.contains(b)
            &&& more.contains(b) ==> own.contains(b)
            &&& own.contains(b) ==> direct.contains(b) || more.contains(b)
        }),
{
    let root = crate::context_state::representative(m, v);
    let direct = crate::table::list_at(bounds, v);
    let more = crate::table::list_at(bounds, root);
    if root != v {
        lemma_with_bounds(direct, more, more.len(), b);
        assert(more.take(more.len() as int) =~= more);
    }
}

pub proof fn lemma_with_bounds(list: Seq<BoundModel>, more: Seq<BoundModel>, k: nat, b: BoundModel)
    requires
        k <= more.len(),
    ensures
        crate::context_state::with_bounds(list, more, k).contains(b) <==> list.contains(b)
            || more.take(k as int).contains(b),
    decreases k,
{
    if k > 0 {
        lemma_with_bounds(list, more, (k - 1) as nat, b);
        let prev = crate::context_state::with_bounds(list, more, (k - 1) as nat);
        crate::declaration_laws::bounds_are_added_once(prev, more[k - 1], b);
        let front = more.take(k - 1);
        let all = more.take(k as int);
        assert(all =~= front.push(more[k - 1]));
        assert(all.contains(b) <==> front.contains(b) || b == more[k - 1]) by {
            assert(all[k - 1] == more[k - 1]);
            if front.contains(b) {
                let i = choose|i: int| 0 <= i < front.len() && front[i] == b;
                assert(all[i] == b);
            }
            if all.contains(b) && b != more[k - 1] {
                let i = choose|i: int| 0 <= i < all.len() && all[i] == b;
                assert(front[i] == b);
            }
        }
    } else {
        assert(more.take(0) =~= Seq::<BoundModel>::empty());
    }
}

/// A variable of a scheme has the projection that is recorded for it, or else one for its place, where
/// there is one.
pub proof fn projections_stand_beside_their_variables(
    entry: Option<(usize, Seq<char>, Seq<char>, TypeVar)>,
    i: int,
    v: TypeVar,
    map: Map<TypeVar, (usize, Seq<char>, Seq<char>, TypeVar)>,
    w: TypeVar,
)
    requires
        crate::schemes::projection_for(entry, i, v, map),
    ensures
        map.dom().contains(v) ==> entry == Some(map[v]),
        !map.dom().contains(v) && map.dom().contains(w) && map[w].0 == i ==> entry is Some
            && entry->Some_0.0 == i,
        !map.dom().contains(v) && (forall|u: TypeVar| #[trigger]
            map.dom().contains(u) ==> map[u].0 != i) ==> entry is None,
{
    if map.dom().contains(w) {
        assert(map.contains_key(w));
    }
    if entry is Some && !map.dom().contains(v) {
        let p = entry->Some_0;
        let u = choose|u: TypeVar| #[trigger] map.contains_key(u) && map[u] == p;
        assert(map.dom().contains(u));
    }
}

/// A registry begins without knowing any name, type, aspect or impl.
pub proof fn registries_begin_empty(module: Seq<Seq<char>>, name: Seq<char>, id: SymbolId)
    ensures
        ({
            let r = crate::registry::empty_registry();
            &&& crate::resolve::resolved(r, module, name) is None
            &&& crate::resolve::type_key_broad(r, module, name) is None
            &&& crate::aspect_decls::sole_aspect(r, name) is None
            &&& !r.struct_env.dom().contains(id) && !r.enum_env.dom().contains(id)
            &&& !r.impl_aspect_env.dom().contains((id, name))
            &&& crate::table::list_at(r.bare_impl_bounds, name).len() == 0
            &&& crate::table::list_at(r.bare_neg_impl_bounds, name).len() == 0
        }),
{
}

/// What is known of a variable takes in its own bounds, those of the variable that it stands for, and
/// those of every other variable that stands for the same one, and nothing else.
pub proof fn all_bounds_of_the_class_count(
    bounds: Map<TypeVar, Seq<BoundModel>>,
    m: Map<TypeVar, Term>,
    tv: TypeVar,
    r: Seq<BoundModel>,
    v: TypeVar,
    b: BoundModel,
)
    requires
        crate::context_state::class_bounds(bounds, m, tv, r),
    ensures
        crate::table::list_at(bounds, tv).contains(b) ==> r.contains(b),
        bounds.dom().contains(v) && crate::context_state::representative(m, v)
            == crate::context_state::representative(m, tv) && bounds[v].contains(b) ==> r.contains(b),
        r.contains(b) ==> exists|u: TypeVar| #[trigger]
            bounds.dom().contains(u) && bounds[u].contains(b),
{
    let root = crate::context_state::representative(m, tv);
    let order = choose|order: Seq<TypeVar>| #[trigger]
        crate::context_state::lists(order, bounds.dom()) && r == crate::context_state::with_class(
            crate::context_state::own_bounds(bounds, m, tv),
            bounds,
            m,
            order,
            tv,
            root,
            order.len(),
        );
    let own = crate::context_state::own_bounds(bounds, m, tv);
    crate::state_laws::bounds_of_the_class_count(
        own,
        bounds,
        m,
        order,
        tv,
        root,
        order.len(),
        b,
    );
    bounds_of_the_representative_count(bounds, m, tv, b);
    if bounds.dom().contains(v) {
        assert(order.to_set().contains(v));
        let i = choose|i: int| 0 <= i < order.len() && order[i] == v;
        assert(order[i] == v);
    }
    if r.contains(b) {
        if own.contains(b) {
            if crate::table::list_at(bounds, tv).contains(b) {
                assert(bounds.dom().contains(tv) && bounds[tv].contains(b));
            } else {
                assert(bounds.dom().contains(root) && bounds[root].contains(b));
            }
        } else {
            let i = choose|i: int|
                0 <= i < order.len() && #[trigger] order[i] != tv && order[i] != root
                    && crate::context_state::representative(m, order[i]) == root
                    && bounds[order[i]].contains(b);
            assert(order.to_set().contains(order[i]));
            assert(bounds.dom().contains(order[i]));
        }
    }
}

} // verus!
