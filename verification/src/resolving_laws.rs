//! What names mean, how types are written, and what enums stand for.

use crate::constraints::ConstraintModel;
use crate::definitions::{BindingModel, EnumModel, GlobTier};
use crate::registry::RegistryModel;
use crate::symbols::SymbolId;
use crate::term::{Head, Term, TypeVar};
use crate::types::{CallMultiplicity, CallMutation, UseMultiplicity};
use vstd::prelude::*;
use vstd::string::*;

verus! {

/// Whether a module declares or passes on a name as a declaration.
pub open spec fn offers(
    reg: RegistryModel,
    module: Seq<Seq<char>>,
    name: Seq<char>,
    id: SymbolId,
) -> bool {
    if reg.symbols.dom().contains((module, name)) {
        reg.symbols[(module, name)] == id
    } else {
        &&& reg.scopes.dom().contains(module)
        &&& reg.scopes[module].re_exports.dom().contains(name)
        &&& reg.scopes[module].re_exports[name].symbol_id == id
    }
}

/// Whether a name means nothing in a module before its glob imports are asked.
pub open spec fn left_to_globs(
    reg: RegistryModel,
    module: Seq<Seq<char>>,
    name: Seq<char>,
) -> bool {
    &&& !reg.symbols.dom().contains((module, name))
    &&& reg.scopes.dom().contains(module)
    &&& forall|i: int|
        0 <= i < reg.scopes[module].explicit.len() ==> (#[trigger] reg.scopes[module].explicit[i]).0
            != name
}

proof fn lemma_no_import(
    imports: Seq<(Seq<char>, BindingModel)>,
    local: Seq<char>,
    i: int,
)
    requires
        0 <= i,
        forall|k: int| 0 <= k < imports.len() ==> (#[trigger] imports[k]).0 != local,
    ensures
        crate::resolve::import_named(imports, local, i) is None,
    decreases imports.len() - i,
{
    if i < imports.len() {
        lemma_no_import(imports, local, i + 1);
    }
}

proof fn lemma_import(
    imports: Seq<(Seq<char>, BindingModel)>,
    local: Seq<char>,
    at: int,
    i: int,
)
    requires
        0 <= i <= at < imports.len(),
        imports[at].0 == local,
        forall|k: int| 0 <= k < at ==> (#[trigger] imports[k]).0 != local,
    ensures
        crate::resolve::import_named(imports, local, i) == Some(imports[at].1),
    decreases at - i,
{
    if i < at {
        lemma_import(imports, local, at, i + 1);
    }
}

proof fn lemma_glob(
    reg: RegistryModel,
    globs: Seq<(GlobTier, Seq<Seq<char>>)>,
    tier: GlobTier,
    name: Seq<char>,
    at: int,
    id: SymbolId,
    i: int,
)
    requires
        0 <= i <= at < globs.len(),
        globs[at].0 == tier,
        offers(reg, globs[at].1, name, id),
        forall|k: int, other: SymbolId|
            0 <= k < at && globs[k].0 == tier ==> !#[trigger] offers(reg, globs[k].1, name, other),
    ensures
        crate::resolve::glob_provided(reg, globs, tier, name, i) == Some(id),
    decreases at - i,
{
    if i < at {
        if globs[i].0 == tier && crate::resolve::provided(reg, globs[i].1, name) is Some {
            let other = crate::resolve::provided(reg, globs[i].1, name)->Some_0;
            assert(offers(reg, globs[i].1, name, other));
        }
        lemma_glob(reg, globs, tier, name, at, id, i + 1);
    }
}

proof fn lemma_no_glob(
    reg: RegistryModel,
    globs: Seq<(GlobTier, Seq<Seq<char>>)>,
    tier: GlobTier,
    name: Seq<char>,
    i: int,
)
    requires
        0 <= i,
        forall|k: int, other: SymbolId|
            0 <= k < globs.len() && globs[k].0 == tier ==> !#[trigger] offers(
                reg,
                globs[k].1,
                name,
                other,
            ),
    ensures
        crate::resolve::glob_provided(reg, globs, tier, name, i) is None,
    decreases globs.len() - i,
{
    if i < globs.len() {
        if globs[i].0 == tier && crate::resolve::provided(reg, globs[i].1, name) is Some {
            let other = crate::resolve::provided(reg, globs[i].1, name)->Some_0;
            assert(offers(reg, globs[i].1, name, other));
        }
        lemma_no_glob(reg, globs, tier, name, i + 1);
    }
}

/// A name that a module neither declares nor imports by name means what the first glob import
/// of the program offers under it, also where one of the standard library offers it too. Only
/// where none of the program does, those of the standard library are asked, in order.
pub proof fn globs_of_the_program_come_first(
    reg: RegistryModel,
    module: Seq<Seq<char>>,
    name: Seq<char>,
    tier: GlobTier,
    at: int,
    id: SymbolId,
)
    requires
        left_to_globs(reg, module, name),
        0 <= at < reg.scopes[module].globs.len(),
        reg.scopes[module].globs[at].0 == tier,
        offers(reg, reg.scopes[module].globs[at].1, name, id),
        forall|k: int, other: SymbolId|
            0 <= k < at && reg.scopes[module].globs[k].0 == tier ==> !#[trigger] offers(
                reg,
                reg.scopes[module].globs[k].1,
                name,
                other,
            ),
        tier is Std ==> forall|k: int, other: SymbolId|
            0 <= k < reg.scopes[module].globs.len() && reg.scopes[module].globs[k].0 is User
                ==> !#[trigger] offers(reg, reg.scopes[module].globs[k].1, name, other),
    ensures
        crate::resolve::resolved(reg, module, name) == Some(id),
{
    let scope = reg.scopes[module];
    lemma_no_import(scope.explicit, name, 0);
    lemma_glob(reg, scope.globs, tier, name, at, id, 0);
    if tier is Std {
        lemma_no_glob(reg, scope.globs, GlobTier::User, name, 0);
    }
}

/// An import by name means its declaration, whatever it is called where it comes from, unless
/// the module declares the name itself. A module without imports knows only what it declares.
pub proof fn imports_mean_their_declaration(
    reg: RegistryModel,
    module: Seq<Seq<char>>,
    name: Seq<char>,
    at: int,
)
    ensures
        reg.symbols.dom().contains((module, name)) ==> crate::resolve::resolved(reg, module, name)
            == Some(reg.symbols[(module, name)]),
        !reg.symbols.dom().contains((module, name)) && !reg.scopes.dom().contains(module)
            ==> crate::resolve::resolved(reg, module, name) is None,
        ({
            let imports = reg.scopes[module].explicit;
            !reg.symbols.dom().contains((module, name)) && reg.scopes.dom().contains(module) && 0
                <= at < imports.len() && imports[at].0 == name && (forall|k: int|
                0 <= k < at ==> (#[trigger] imports[k]).0 != name) ==> crate::resolve::resolved(
                reg,
                module,
                name,
            ) == Some(imports[at].1.symbol_id)
        }),
{
    let imports = reg.scopes[module].explicit;
    if 0 <= at < imports.len() && imports[at].0 == name && (forall|k: int|
        0 <= k < at ==> (#[trigger] imports[k]).0 != name) {
        lemma_import(imports, name, at, 0);
    }
}

proof fn lemma_last_sep(s: Seq<char>, at: int, i: int)
    requires
        0 <= at <= i,
        crate::paths::sep_at(s, at),
        forall|k: int| at < k <= i ==> !#[trigger] crate::paths::sep_at(s, k),
    ensures
        crate::paths::last_sep(s, i) == at,
    decreases i - at,
{
    if at < i {
        assert(!crate::paths::sep_at(s, i));
        lemma_last_sep(s, at, i - 1);
    }
}

proof fn lemma_first_sep(s: Seq<char>, i: int)
    requires
        0 <= i <= s.len(),
        forall|k: int| i <= k < s.len() ==> !#[trigger] crate::paths::sep_at(s, k),
    ensures
        crate::paths::first_sep(s, i) == s.len(),
    decreases s.len() - i,
{
    if i < s.len() {
        assert(!crate::paths::sep_at(s, i));
        lemma_first_sep(s, i + 1);
    }
}

/// Whether a text holds no separator and no part of one.
pub open spec fn simple(s: Seq<char>) -> bool {
    s.len() > 0 && !s.contains(':')
}

pub proof fn lemma_split(a: Seq<char>, b: Seq<char>)
    requires
        simple(a),
        simple(b),
    ensures
        crate::paths::split_name(a + "::"@ + b) == Some((seq![a], b)),
{
    reveal_strlit("::");
    let s = a + "::"@ + b;
    let at = a.len() as int;
    assert(s.len() == a.len() + 2 + b.len());
    assert(s[at] == ':' && s[at + 1] == ':');
    assert forall|k: int| at < k <= s.len() - 1 implies !#[trigger] crate::paths::sep_at(s, k) by {
        if k > at + 1 {
            assert(s[k] == b[k - at - 2]);
            assert(b.contains(b[k - at - 2]));
        } else {
            assert(s[k + 1] == b[0]);
            assert(b.contains(b[0]));
        }
    }
    lemma_last_sep(s, at, s.len() - 1);
    assert(s.take(at) =~= a);
    assert(s.skip(at + 2) =~= b);
    assert forall|k: int| 0 <= k < a.len() implies !#[trigger] crate::paths::sep_at(a, k) by {
        assert(a.contains(a[k]));
    }
    lemma_first_sep(a, 0);
    assert(a.skip(0) =~= a);
    assert(crate::paths::segments(a, 0) =~= seq![a]);
}

/// A name behind the name of an imported module means what that module offers. Behind any
/// other import it means nothing.
pub proof fn qualified_names_are_looked_up_in_their_module(
    reg: RegistryModel,
    module: Seq<Seq<char>>,
    prefix: Seq<char>,
    short: Seq<char>,
    at: int,
    id: SymbolId,
)
    requires
        simple(prefix),
        simple(short),
        prefix != "root"@ && prefix != "self"@ && prefix != "super"@,
        left_to_globs(reg, module, prefix + "::"@ + short),
        forall|k: int, other: SymbolId|
            0 <= k < reg.scopes[module].globs.len() ==> !#[trigger] offers(
                reg,
                reg.scopes[module].globs[k].1,
                prefix + "::"@ + short,
                other,
            ),
        0 <= at < reg.scopes[module].explicit.len(),
        reg.scopes[module].explicit[at].0 == prefix,
        forall|k: int| 0 <= k < at ==> (#[trigger] reg.scopes[module].explicit[k]).0 != prefix,
    ensures
        ({
            let name = prefix + "::"@ + short;
            let import = reg.scopes[module].explicit[at].1;
            let meant = crate::resolve::resolved(reg, module, name);
            &&& import.kind is Module && offers(reg, import.source_module, short, id) ==> meant
                == Some(id)
            &&& meant is Some ==> import.kind is Module && offers(
                reg,
                import.source_module,
                short,
                meant->Some_0,
            )
        }),
{
    let name = prefix + "::"@ + short;
    let scope = reg.scopes[module];
    lemma_no_import(scope.explicit, name, 0);
    lemma_no_glob(reg, scope.globs, GlobTier::User, name, 0);
    lemma_no_glob(reg, scope.globs, GlobTier::Std, name, 0);
    lemma_split(prefix, short);
    lemma_import(scope.explicit, prefix, at, 0);
    assert(seq![prefix][0] == prefix);
    let from = scope.explicit[at].1.source_module;
    assert(from + seq![prefix].skip(1) =~= from);
}

/// A declaration of a block is found where nothing else has the name, and a name means a struct
/// or an enum by what is registered for its declaration.
pub proof fn local_declarations_are_found_last(
    reg: RegistryModel,
    module: Seq<Seq<char>>,
    name: Seq<char>,
    id: SymbolId,
)
    requires
        reg.local_type_decl_ids.dom().contains(name),
        reg.local_type_decl_ids[name] == id,
    ensures
        ({
            let meant = crate::resolve::resolved(reg, module, name);
            let key = crate::resolve::type_key(reg, module, name);
            let kind = crate::resolve::kind_of(reg, module, name);
            &&& meant is Some ==> key == meant
            &&& meant is None ==> key == Some(id)
            &&& crate::resolve::type_key_broad(reg, module, name) == key
            &&& kind is Some <==> reg.struct_env.dom().contains(key->Some_0)
                || reg.enum_env.dom().contains(key->Some_0)
            &&& reg.struct_env.dom().contains(key->Some_0) ==> kind->Some_0 is Struct
            &&& kind is Some && kind->Some_0 is Enum ==> reg.enum_env.dom().contains(key->Some_0)
        }),
{
}

/// A type of one component or none.
pub open spec fn simple_type(head: Head, parts: Seq<Term>) -> Seq<char> {
    crate::term::text(Term { head, args: parts })
}

proof fn lemma_part(h: Head, t: Term)
    ensures
        crate::term::part_texts(Term { head: h, args: seq![t] }) == seq![crate::term::text(t)],
{
    assert(seq![t][0] == t);
    assert(crate::term::part_texts(Term { head: h, args: seq![t] }) =~= seq![
        crate::term::text(t),
    ]);
}

proof fn lemma_parts(h: Head, t: Term, u: Term)
    ensures
        crate::term::part_texts(Term { head: h, args: seq![t, u] }) == seq![
            crate::term::text(t),
            crate::term::text(u),
        ],
{
    assert(seq![t, u][0] == t);
    assert(seq![t, u][1] == u);
    assert(crate::term::part_texts(Term { head: h, args: seq![t, u] }) =~= seq![
        crate::term::text(t),
        crate::term::text(u),
    ]);
}

/// Types are written as they are in programs: primitive types by their names, arrays, references
/// and tuples around their components.
pub proof fn types_are_written_as_in_programs(t: Term, u: Term, n: u64, name: Seq<char>)
    ensures
        ({
            let of = |h: Head| simple_type(h, Seq::empty());
            &&& of(Head::I8) == "i8"@ && of(Head::I16) == "i16"@
            &&& of(Head::I32) == "i32"@ && of(Head::I64) == "i64"@
            &&& of(Head::U8) == "u8"@ && of(Head::U16) == "u16"@
            &&& of(Head::U32) == "u32"@ && of(Head::U64) == "u64"@
            &&& of(Head::F32) == "f32"@ && of(Head::F64) == "f64"@
            &&& of(Head::Boolean) == "boolean"@ && of(Head::Str) == "String"@
            &&& of(Head::Char) == "Char"@ && of(Head::Unit) == "()"@
            &&& of(Head::Never) == "!"@
        }),
        ({
            let a = crate::term::text(t);
            let b = crate::term::text(u);
            &&& crate::term::text(crate::term::concrete(t)) == a
            &&& simple_type(Head::Array, seq![t]) == a + "[]"@
            &&& simple_type(Head::SizedArray(n), seq![t]) == "["@ + a + "; "@ + crate::text::decimal(
                n as nat,
            ) + "]"@
            &&& simple_type(Head::Reference, seq![t]) == "&"@ + a
            &&& simple_type(Head::MutReference, seq![t]) == "&var "@ + a
            &&& simple_type(Head::Tuple, seq![t, u]) == "("@ + (a + ", "@ + b) + ")"@
            &&& simple_type(Head::Named(name, None), Seq::empty()) == name
            &&& simple_type(Head::Named(name, None), seq![t, u]) == name + "<"@ + (a + ", "@ + b)
                + ">"@
            &&& simple_type(Head::Dyn(name), seq![t]) == "dyn "@ + (name + "<"@ + a + ">"@)
            &&& simple_type(Head::Record(seq![name]), seq![t]) == "{ "@ + (name + ": "@ + a) + " }"@
            &&& simple_type(
                Head::Fun(
                    CallMultiplicity::Once,
                    UseMultiplicity::Move,
                    CallMutation::Mutating,
                ),
                seq![t, u],
            ) == "once "@ + "var "@ + "|"@ + a + "| -> "@ + b
            &&& simple_type(
                Head::Fun(CallMultiplicity::Many, UseMultiplicity::Move, CallMutation::Reading),
                seq![t, u],
            ) == Seq::empty() + Seq::empty() + "|"@ + a + "| -> "@ + b
        }),
{
    let a = crate::term::text(t);
    let b = crate::term::text(u);
    reveal_with_fuel(crate::text::joined, 3);
    let once = Head::Fun(CallMultiplicity::Once, UseMultiplicity::Move, CallMutation::Mutating);
    let many = Head::Fun(CallMultiplicity::Many, UseMultiplicity::Move, CallMutation::Reading);
    lemma_part(Head::Array, t);
    lemma_part(Head::SizedArray(n), t);
    lemma_part(Head::Reference, t);
    lemma_part(Head::MutReference, t);
    lemma_part(Head::Dyn(name), t);
    lemma_part(Head::Record(seq![name]), t);
    lemma_parts(Head::Tuple, t, u);
    lemma_parts(Head::Named(name, None), t, u);
    lemma_parts(once, t, u);
    lemma_parts(many, t, u);
    assert(crate::term::part_texts(
        Term { head: Head::Named(name, None), args: Seq::empty() },
    ).len() == 0);
    assert(seq![a, b].drop_last() =~= seq![a]);
    assert(seq![a, b].last() == b);
    assert(seq![a][0] == a);
    assert(crate::text::joined(seq![a, b], ", "@) == a + ", "@ + b);
    assert(crate::text::joined(seq![a], ", "@) == a);
    let field = name + ": "@ + a;
    assert(crate::term::labelled(seq![name], seq![a]) =~= seq![field]);
    assert(crate::text::joined(seq![field], ", "@) == field) by {
        assert(seq![field][0] == field);
    }
}

/// Whether a variant can be made: none of its fields is of the type without values.
pub open spec fn inhabited(info: EnumModel, m: Map<TypeVar, Term>, i: int) -> bool {
    forall|k: int|
        0 <= k < info.variants[i].fields.len() ==> !(crate::subst_model::apply(
            m,
            (#[trigger] info.variants[i].fields[k]).ty,
        ).head is Never)
}

/// An enum of several variants of which only one can be made stands for what that one holds,
/// where it holds one thing. No other enum, and nothing else, stands for another type.
pub proof fn enums_stand_for_their_only_value(
    reg: RegistryModel,
    t: Term,
    info: EnumModel,
    i: int,
    j: int,
)
    requires
        crate::coercion::enum_named(reg, t) == Some(info),
        0 <= i < info.variants.len(),
        0 <= j < info.variants.len(),
    ensures
        ({
            let m = crate::coercion::params_bound(
                info.type_params,
                crate::coercion::named_parts(t)->Some_0.1,
            );
            let other = crate::coercion::coerced(reg, t);
            &&& info.variants.len() > 1 && info.variants[i].fields.len() == 1 && inhabited(
                info,
                m,
                i,
            ) && (forall|k: int|
                0 <= k < info.variants.len() && k != i ==> !#[trigger] inhabited(info, m, k))
                ==> other == Some(crate::subst_model::apply(m, info.variants[i].fields[0].ty))
            &&& info.variants.len() == 1 ==> other is None
            &&& i != j && inhabited(info, m, i) && inhabited(info, m, j) ==> other is None
            &&& inhabited(info, m, i) && info.variants[i].fields.len() != 1 ==> other is None
            &&& (forall|k: int| 0 <= k < info.variants.len() ==> !#[trigger] inhabited(info, m, k))
                ==> other is None
        }),
{
    let m = crate::coercion::params_bound(
        info.type_params,
        crate::coercion::named_parts(t)->Some_0.1,
    );
    assert forall|k: int| 0 <= k < info.variants.len() implies crate::coercion::uninhabited(
        #[trigger] info.variants[k],
        m,
    ) == !inhabited(info, m, k) by {
        if crate::coercion::uninhabited(info.variants[k], m) {
            let f = choose|f: int|
                0 <= f < info.variants[k].fields.len() && crate::subst_model::apply(
                    m,
                    (#[trigger] info.variants[k].fields[f]).ty,
                ).head is Never;
            assert(info.variants[k].fields[f].ty == info.variants[k].fields[f].ty);
        }
    }
    if exists|k: int| crate::coercion::sole_payload(info, m, k) {
        let k = choose|k: int| crate::coercion::sole_payload(info, m, k);
        assert(inhabited(info, m, k));
        assert(crate::coercion::uninhabited(info.variants[i], m) || i == k);
        assert(crate::coercion::uninhabited(info.variants[j], m) || j == k);
    }
    if info.variants.len() > 1 && info.variants[i].fields.len() == 1 && inhabited(info, m, i) && (
    forall|k: int| 0 <= k < info.variants.len() && k != i ==> !#[trigger] inhabited(info, m, k)) {
        assert forall|k: int|
            0 <= k < info.variants.len() && k != i implies crate::coercion::uninhabited(
            #[trigger] info.variants[k],
            m,
        ) by {
            assert(!inhabited(info, m, k));
        }
        assert(crate::coercion::sole_payload(info, m, i));
    }
}

/// Type parameters stand for the type arguments in their places.
pub proof fn parameters_stand_for_arguments(params: Seq<TypeVar>, args: Seq<Term>, i: int)
    requires
        0 <= i < params.len(),
        i < args.len(),
        forall|j: int, k: int| 0 <= j < k < params.len() ==> params[j] != params[k],
        args[i] != crate::term::var(params[i]),
    ensures
        ({
            let m = crate::coercion::params_bound(params, args);
            m.dom().contains(params[i]) && m[params[i]] == args[i]
        }),
{
    let all = if params.len() <= args.len() {
        params.len()
    } else {
        args.len()
    };
    lemma_args_bound(params, args, i, all);
}

proof fn lemma_args_bound(params: Seq<TypeVar>, args: Seq<Term>, i: int, k: nat)
    requires
        0 <= i < k,
        k <= params.len(),
        k <= args.len(),
        forall|j: int, l: int| 0 <= j < l < params.len() ==> params[j] != params[l],
        args[i] != crate::term::var(params[i]),
    ensures
        ({
            let m = crate::coercion::args_bound(params, args, k);
            m.dom().contains(params[i]) && m[params[i]] == args[i]
        }),
    decreases k,
{
    if i < k - 1 {
        lemma_args_bound(params, args, i, (k - 1) as nat);
        assert(params[i] != params[k - 1]);
    }
}

/// A constraint is solved as it stands where its sides fit. Where they do not, a side that stands
/// for another type is taken for that one; where neither does, it fails.
pub proof fn coercions_come_second(
    reg: RegistryModel,
    m: Map<TypeVar, Term>,
    c: ConstraintModel,
    known: Map<TypeVar, Seq<char>>,
)
    ensures
        ({
            let lhs = crate::subst_model::apply(m, c.lhs);
            let rhs = crate::subst_model::apply(m, c.rhs);
            let l = crate::coercion::coerced(reg, lhs);
            let r = crate::coercion::coerced(reg, rhs);
            let out = crate::coercion::coerced_step(reg, m, c, known);
            &&& crate::fitting_laws::fits(lhs, rhs) ==> out == crate::constraints::constrained(
                m,
                c,
                known,
            )
            &&& !crate::fitting_laws::fits(lhs, rhs) ==> {
                &&& l is None && r is None ==> out is Err
                &&& l is Some && r is None ==> (out is Ok <==> crate::fitting_laws::fits(
                    l->Some_0,
                    rhs,
                ))
                &&& l is None && r is Some ==> (out is Ok <==> crate::fitting_laws::fits(
                    lhs,
                    r->Some_0,
                ))
                &&& l is Some && r is Some ==> (out is Ok <==> crate::fitting_laws::fits(
                    l->Some_0,
                    r->Some_0,
                ))
                &&& out is Err ==> out == crate::constraints::constrained(m, c, known)
            }
        }),
{
}

} // verus!
