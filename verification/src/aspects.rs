//! Which types have which aspects.

use crate::bounds::{BoundModel, GenericBound};
use crate::data::Dup;
use crate::definitions::{ConditionalImplBoundEntry, EntryModel};
use crate::infer_type::InferType;
use crate::registry::{RegistryModel, TypeDefinitionRegistry};
use crate::resolve::{is_text, path_of};
use crate::symbols::SymbolId;
use crate::table::{KeySet, Table};
use crate::term::{Head, Term, TypeVar};
use crate::types::{relabel, CallMutation, Type, UseMultiplicity};
use vstd::prelude::*;

verus! {

/// Aspects assumed to hold for abstract type parameters, keyed by the type
/// variable standing for the parameter.
pub type AspectAssumptions = Table<TypeVar, KeySet<String>>;

/// A resolved type as an inference type. Its structure is kept where inference
/// has the same structure, so that one shape exists for each type.
pub open spec fn embedded(t: Term) -> Term
    decreases t,
{
    let args = Seq::new(
        t.args.len(),
        |i: int|
            if 0 <= i < t.args.len() {
                embedded(t.args[i])
            } else {
                arbitrary()
            },
    );
    match t.head {
        Head::Never => t,
        Head::Array => Term { head: t.head, args },
        Head::SizedArray(_) => Term { head: t.head, args },
        Head::Tuple => Term { head: t.head, args },
        Head::Record(_) => Term { head: t.head, args },
        Head::Reference => Term { head: t.head, args },
        Head::MutReference => Term { head: t.head, args },
        Head::Fun(_, _, _) => Term { head: t.head, args },
        Head::Named(name, _) => Term { head: Head::Named(name, None), args },
        _ => crate::term::concrete(t),
    }
}

/// Embed a concrete `Type` into inference space.
///
/// Structural rather than a blanket `InferType::Concrete` wrap: a named type
/// becomes `InferType::Named` with embedded arguments.
pub fn type_to_infer(ty: &Type) -> (r: InferType)
    ensures
        r.term() == embedded(ty.term()),
    decreases ty.term(),
{
    match ty {
        Type::Never => {
            return InferType::Never;
        },
        Type::Array(_) | Type::SizedArray(_, _) | Type::Tuple(_) | Type::Record(_)
        | Type::Reference(_) | Type::MutReference(_) | Type::Fun(_, _, _, _, _) | Type::Named(
            _,
            _,
            _,
        ) => {},
        _ => {
            return InferType::Concrete(ty.dup());
        },
    }
    let mut items: Vec<InferType> = Vec::new();
    let n: u128 = ty.arity();
    let mut i: u128 = 0;
    while i < n
        invariant
            i <= n,
            n == ty.term().args.len(),
            items@.len() == i,
            forall|j: int|
                0 <= j < i ==> (#[trigger] items@[j]).term() == embedded(ty.term().args[j]),
        decreases n - i,
    {
        let c = ty.child(i);
        items.push(type_to_infer(c));
        i += 1;
    }
    let r = match ty {
        Type::Array(_) => InferType::Array(Box::new(items.pop().unwrap())),
        Type::SizedArray(_, n) => InferType::SizedArray(Box::new(items.pop().unwrap()), *n),
        Type::Tuple(_) => InferType::Tuple(items),
        Type::Record(fields) => InferType::Record(label_items(fields, items)),
        Type::Reference(_) => InferType::Reference(Box::new(items.pop().unwrap())),
        Type::MutReference(_) => InferType::MutReference(Box::new(items.pop().unwrap())),
        Type::Fun(_, _, call, us, mutation) => {
            let ret = items.pop().unwrap();
            InferType::Fun(items, Box::new(ret), *call, *us, *mutation)
        },
        Type::Named(name, _, _) => InferType::Named(name.clone(), items),
        _ => InferType::Never,
    };
    proof {
        assert(r.term().args =~= embedded(ty.term()).args);
    }
    r
}

/// Fields with the labels of others and the given contents.
fn label_items(fields: &Vec<(String, Type)>, items: Vec<InferType>) -> (r: Vec<
    (String, InferType),
>)
    requires
        fields@.len() == items@.len(),
    ensures
        r@.len() == items@.len(),
        crate::types::labels_of(r@) == crate::types::labels_of(fields@),
        forall|i: int| 0 <= i < r@.len() ==> (#[trigger] r@[i]).1 == items@[i],
{
    let mut named: Vec<(String, InferType)> = Vec::new();
    let mut i: usize = 0;
    while i < fields.len()
        invariant
            i <= fields.len(),
            named@.len() == i,
            forall|j: int| 0 <= j < i ==> (#[trigger] named@[j]).0@ == fields@[j].0@,
        decreases fields.len() - i,
    {
        named.push((fields[i].0.clone(), InferType::Never));
        i += 1;
    }
    proof {
        assert(crate::types::labels_of(named@) =~= crate::types::labels_of(fields@));
    }
    relabel(&named, items)
}

/// A question: does a type have an aspect, and is that what is wanted?
pub struct Check {
    pub ty: Term,
    pub aspect: Seq<char>,
    pub wanted: bool,
}

/// A verdict that holds where all questions are answered as wanted.
pub struct Rule {
    pub checks: Seq<Check>,
    pub verdict: bool,
}

/// Rules in order of precedence, and the verdict where none applies.
pub struct Ruling {
    pub rules: Seq<Rule>,
    pub otherwise: bool,
}

/// The questions that bounds on a type ask.
pub open spec fn bound_checks(ty: Term, bounds: Seq<BoundModel>, wanted: bool) -> Seq<Check>
    decreases bounds.len(),
{
    if bounds.len() == 0 {
        Seq::empty()
    } else {
        let prev = bound_checks(ty, bounds.drop_last(), wanted);
        match bounds.last() {
            BoundModel::Aspect(aspect) => prev.push(Check { ty, aspect, wanted }),
            BoundModel::Row(_) => prev,
        }
    }
}

/// The bounds at a position, none where there is no such position.
pub open spec fn bounds_at(bounds: Seq<Seq<BoundModel>>, i: int) -> Seq<BoundModel> {
    if 0 <= i < bounds.len() {
        bounds[i]
    } else {
        Seq::empty()
    }
}

/// The questions that a conditional impl asks of the first `k` type arguments.
pub open spec fn entry_checks(args: Seq<Term>, entry: EntryModel, k: nat) -> Seq<Check>
    decreases k,
{
    if k == 0 {
        Seq::empty()
    } else {
        let i = k - 1;
        entry_checks(args, entry, i as nat) + bound_checks(args[i], bounds_at(entry.0, i), true)
            + bound_checks(args[i], bounds_at(entry.1, i), false)
    }
}

/// The rules that conditional impls make for type arguments.
pub open spec fn entry_rules(entries: Seq<EntryModel>, args: Seq<Term>, verdict: bool) -> Seq<
    Rule,
> {
    Seq::new(
        entries.len(),
        |i: int| Rule { checks: entry_checks(args, entries[i], args.len()), verdict },
    )
}

/// The rule that all components have an aspect.
pub open spec fn all_have(args: Seq<Term>, aspect: Seq<char>) -> Seq<Rule> {
    seq![
        Rule {
            checks: Seq::new(args.len(), |i: int| Check { ty: args[i], aspect, wanted: true }),
            verdict: true,
        },
    ]
}

/// A verdict without conditions.
pub open spec fn always(verdict: bool) -> Ruling {
    Ruling { rules: Seq::empty(), otherwise: verdict }
}

/// Whether a negative impl is written for exactly these type arguments.
pub open spec fn overridden(
    reg: RegistryModel,
    id: SymbolId,
    aspect: Seq<char>,
    args: Seq<Term>,
) -> bool {
    let entries = crate::table::list_at(reg.neg_impl_env, (id, aspect));
    exists|i: int| 0 <= i < entries.len() && same_args(#[trigger] entries[i], args)
}

/// Whether the type arguments of an impl are those of a type.
pub open spec fn same_args(stored: Seq<Term>, args: Seq<Term>) -> bool {
    stored.len() == args.len() && forall|i: int|
        0 <= i < args.len() ==> crate::term::erase(embedded(#[trigger] stored[i]))
            == crate::term::erase(args[i])
}

/// The name under which a primitive type has impls.
pub open spec fn primitive_name(h: Head) -> Option<Seq<char>> {
    match h {
        Head::Str => Some("String"@),
        Head::Boolean => Some("boolean"@),
        Head::Char => Some("Char"@),
        Head::I8 => Some("i8"@),
        Head::I16 => Some("i16"@),
        Head::I32 => Some("i32"@),
        Head::I64 => Some("i64"@),
        Head::U8 => Some("u8"@),
        Head::U16 => Some("u16"@),
        Head::U32 => Some("u32"@),
        Head::U64 => Some("u64"@),
        Head::F32 => Some("f32"@),
        Head::F64 => Some("f64"@),
        _ => None,
    }
}

/// The denials for a named type: negative impls for its head, then one for exactly
/// its type arguments.
pub open spec fn named_denials(
    reg: RegistryModel,
    module: Seq<Seq<char>>,
    name: Seq<char>,
    args: Seq<Term>,
    aspect: Seq<char>,
) -> Seq<Rule> {
    match crate::resolve::resolved(reg, module, name) {
        None => Seq::empty(),
        Some(id) => {
            let neg = entry_rules(
                crate::table::list_at(reg.neg_conditional_impl_bounds, (id, aspect)),
                args,
                false,
            );
            if overridden(reg, id, aspect, args) {
                neg.push(Rule { checks: Seq::empty(), verdict: false })
            } else {
                neg
            }
        },
    }
}

/// The rules for a named type: impls without conditions come before conditional ones.
pub open spec fn named_ruling(
    reg: RegistryModel,
    module: Seq<Seq<char>>,
    name: Seq<char>,
    args: Seq<Term>,
    aspect: Seq<char>,
    conditional: bool,
) -> Ruling {
    match crate::resolve::resolved(reg, module, name) {
        None => always(false),
        Some(id) => {
            let key = (id, aspect);
            if reg.impl_aspect_env.contains_key(key) {
                always(true)
            } else if conditional {
                Ruling {
                    rules: entry_rules(
                        crate::table::list_at(reg.conditional_impl_bounds, key),
                        args,
                        true,
                    ),
                    otherwise: false,
                }
            } else {
                always(false)
            }
        },
    }
}

/// The denials that negative impls for a type's own head make.
pub open spec fn denials(
    reg: RegistryModel,
    module: Seq<Seq<char>>,
    t: Term,
    aspect: Seq<char>,
) -> Seq<Rule> {
    match t.head {
        Head::Array => if aspect == "Copy"@ {
            Seq::empty()
        } else {
            entry_rules(crate::table::list_at(reg.array_neg_impl_bounds, aspect), t.args, false)
        },
        Head::Named(name, _) => named_denials(reg, module, name, t.args, aspect),
        Head::Concrete(c) => match primitive_name(c.head) {
            Some(name) => named_denials(reg, module, name, Seq::empty(), aspect),
            None => Seq::empty(),
        },
        _ => Seq::empty(),
    }
}

/// The rules that a type's own structure makes.
pub open spec fn structural_ruling(
    reg: RegistryModel,
    module: Seq<Seq<char>>,
    t: Term,
    aspect: Seq<char>,
) -> Ruling {
    match t.head {
        Head::Record(_) => if aspect == "Send"@ || aspect == "Sync"@ {
            Ruling { rules: all_have(t.args, aspect), otherwise: false }
        } else {
            always(false)
        },
        Head::Residual(_, _) => if aspect == "Send"@ || aspect == "Sync"@ {
            Ruling { rules: all_have(t.args, aspect), otherwise: false }
        } else {
            always(false)
        },
        Head::SizedArray(_) => if aspect == "Copy"@ {
            Ruling { rules: all_have(t.args, aspect), otherwise: false }
        } else {
            always(false)
        },
        Head::Tuple => if aspect == "Copy"@ {
            Ruling { rules: all_have(t.args, aspect), otherwise: false }
        } else {
            always(false)
        },
        Head::Reference => always(aspect == "Copy"@),
        Head::Array => if aspect == "Copy"@ {
            always(true)
        } else {
            Ruling {
                rules: entry_rules(
                    crate::table::list_at(reg.array_impl_bounds, aspect),
                    t.args,
                    true,
                ),
                otherwise: false,
            }
        },
        Head::Named(name, _) => named_ruling(reg, module, name, t.args, aspect, true),
        Head::Fun(_, us, mutation) => if aspect == "Copy"@ {
            always(us == UseMultiplicity::Copy)
        } else if aspect == "Sync"@ {
            always(mutation != CallMutation::Mutating)
        } else {
            always(false)
        },
        Head::Concrete(c) => match primitive_name(c.head) {
            Some(name) => named_ruling(reg, module, name, Seq::empty(), aspect, false),
            None => always(false),
        },
        Head::Dyn(own) => always(own == aspect),
        _ => always(false),
    }
}

/// The rules for a type. A variable answers only from what is assumed of it.
/// Negative impls come before all positive ones, and blanket impls before those of
/// the type's own head or structure.
pub open spec fn ruling(
    reg: RegistryModel,
    module: Seq<Seq<char>>,
    t: Term,
    aspect: Seq<char>,
    assumed: Map<TypeVar, Set<Seq<char>>>,
) -> Ruling {
    if t.head is Var {
        let v = t.head->Var_0;
        always(assumed.contains_key(v) && assumed[v].contains(aspect))
    } else if t.head is Named && t.args.len() == 0 && reg.symbolic_named_aspects.contains_key(
        t.head->Named_0,
    ) && reg.symbolic_named_aspects[t.head->Named_0].contains(aspect) {
        always(true)
    } else {
        let own = structural_ruling(reg, module, t, aspect);
        Ruling {
            rules: entry_rules(
                crate::table::list_at(reg.bare_neg_impl_bounds, aspect),
                seq![t],
                false,
            ) + denials(reg, module, t, aspect) + entry_rules(
                crate::table::list_at(reg.bare_impl_bounds, aspect),
                seq![t],
                true,
            ) + own.rules,
            otherwise: own.otherwise,
        }
    }
}

/// The answer to a question, if `n` nested questions are enough to reach it.
pub open spec fn satisfied_at(
    n: nat,
    reg: RegistryModel,
    module: Seq<Seq<char>>,
    assumed: Map<TypeVar, Set<Seq<char>>>,
    t: Term,
    aspect: Seq<char>,
) -> Option<bool>
    decreases n, 0int, 0int,
{
    if n == 0 {
        None
    } else {
        first_verdict(
            (n - 1) as nat,
            reg,
            module,
            assumed,
            ruling(reg, module, t, aspect, assumed),
            0,
        )
    }
}

/// The verdict of the first rule, from position `i` on, that applies.
pub open spec fn first_verdict(
    n: nat,
    reg: RegistryModel,
    module: Seq<Seq<char>>,
    assumed: Map<TypeVar, Set<Seq<char>>>,
    r: Ruling,
    i: int,
) -> Option<bool>
    decreases n, 2int, r.rules.len() - i,
{
    if i < 0 || i >= r.rules.len() {
        Some(r.otherwise)
    } else {
        match all_hold(n, reg, module, assumed, r.rules[i].checks, 0) {
            None => None,
            Some(true) => Some(r.rules[i].verdict),
            Some(false) => first_verdict(n, reg, module, assumed, r, i + 1),
        }
    }
}

/// Whether the questions from position `j` on are answered as wanted. The first
/// one that is not settles the matter.
pub open spec fn all_hold(
    n: nat,
    reg: RegistryModel,
    module: Seq<Seq<char>>,
    assumed: Map<TypeVar, Set<Seq<char>>>,
    checks: Seq<Check>,
    j: int,
) -> Option<bool>
    decreases n, 1int, checks.len() - j,
{
    if j < 0 || j >= checks.len() {
        Some(true)
    } else {
        match satisfied_at(n, reg, module, assumed, checks[j].ty, checks[j].aspect) {
            None => None,
            Some(b) => if b == checks[j].wanted {
                all_hold(n, reg, module, assumed, checks, j + 1)
            } else {
                Some(false)
            },
        }
    }
}

/// Whether a question has an answer. Blanket impls that ask the same question
/// again have none.
pub open spec fn decided(
    reg: RegistryModel,
    module: Seq<Seq<char>>,
    assumed: Map<TypeVar, Set<Seq<char>>>,
    t: Term,
    aspect: Seq<char>,
) -> bool {
    exists|n: nat| #[trigger] satisfied_at(n, reg, module, assumed, t, aspect) is Some
}

/// Whether a type has an aspect.
pub open spec fn satisfied(
    reg: RegistryModel,
    module: Seq<Seq<char>>,
    assumed: Map<TypeVar, Set<Seq<char>>>,
    t: Term,
    aspect: Seq<char>,
) -> bool {
    let n = choose|n: nat| #[trigger] satisfied_at(n, reg, module, assumed, t, aspect) is Some;
    satisfied_at(n, reg, module, assumed, t, aspect) == Some(true)
}

/// A question, as code holds it.
struct CheckItem {
    ty: InferType,
    aspect: String,
    wanted: bool,
}

impl DeepView for CheckItem {
    type V = Check;

    closed spec fn deep_view(&self) -> Check {
        Check { ty: self.ty.term(), aspect: self.aspect@, wanted: self.wanted }
    }
}

/// A rule, as code holds it.
struct RuleItem {
    checks: Vec<CheckItem>,
    verdict: bool,
}

impl DeepView for RuleItem {
    type V = Rule;

    closed spec fn deep_view(&self) -> Rule {
        Rule { checks: self.checks.deep_view(), verdict: self.verdict }
    }
}

/// Rules, as code holds them.
struct RulingItem {
    rules: Vec<RuleItem>,
    otherwise: bool,
}

impl DeepView for RulingItem {
    type V = Ruling;

    closed spec fn deep_view(&self) -> Ruling {
        Ruling { rules: self.rules.deep_view(), otherwise: self.otherwise }
    }
}

fn verdict_only(verdict: bool) -> (r: RulingItem)
    ensures
        r.deep_view() == always(verdict),
{
    let r = RulingItem { rules: Vec::new(), otherwise: verdict };
    proof {
        assert(r.rules.deep_view() =~= Seq::<Rule>::empty());
    }
    r
}

fn add_bound_checks(
    checks: &mut Vec<CheckItem>,
    ty: &InferType,
    bounds: &Vec<GenericBound>,
    wanted: bool,
)
    ensures
        final(checks).deep_view() == old(checks).deep_view() + bound_checks(
            ty.term(),
            bounds.deep_view(),
            wanted,
        ),
{
    let ghost start = checks.deep_view();
    proof {
        assert(start + bound_checks(ty.term(), bounds.deep_view().take(0), wanted) =~= start);
    }
    let mut i: usize = 0;
    while i < bounds.len()
        invariant
            i <= bounds.len(),
            checks.deep_view() == start + bound_checks(
                ty.term(),
                bounds.deep_view().take(i as int),
                wanted,
            ),
        decreases bounds.len() - i,
    {
        let ghost prev = checks.deep_view();
        let ghost before = checks@;
        proof {
            assert(prev.len() == before.len());
            assert(bounds.deep_view().take(i as int + 1).drop_last() =~= bounds.deep_view().take(
                i as int,
            ));
        }
        if let Some(aspect) = bounds[i].aspect_name() {
            let item = CheckItem { ty: ty.dup(), aspect: aspect.clone(), wanted };
            let ghost iv = item.deep_view();
            checks.push(item);
            proof {
                assert(checks.deep_view() =~= prev.push(iv));
                assert(checks.deep_view() =~= start + bound_checks(
                    ty.term(),
                    bounds.deep_view().take(i as int + 1),
                    wanted,
                ));
            }
        }
        i += 1;
    }
    proof {
        assert(bounds.deep_view().take(bounds.len() as int) =~= bounds.deep_view());
    }
}

fn entry_check_items(args: &Vec<InferType>, entry: &ConditionalImplBoundEntry) -> (r: Vec<
    CheckItem,
>)
    ensures
        r.deep_view() == entry_checks(
            args.deep_view(),
            entry.deep_view(),
            args.deep_view().len(),
        ),
{
    let mut out: Vec<CheckItem> = Vec::new();
    proof {
        assert(out.deep_view() =~= Seq::<Check>::empty());
    }
    let mut i: usize = 0;
    while i < args.len()
        invariant
            i <= args.len(),
            out.deep_view() == entry_checks(args.deep_view(), entry.deep_view(), i as nat),
        decreases args.len() - i,
    {
        let ghost prev = out.deep_view();
        if i < entry.0.len() {
            add_bound_checks(&mut out, &args[i], &entry.0[i], true);
        } else {
            proof {
                assert(prev + Seq::<Check>::empty() =~= prev);
            }
        }
        let ghost mid = out.deep_view();
        if i < entry.1.len() {
            add_bound_checks(&mut out, &args[i], &entry.1[i], false);
        } else {
            proof {
                assert(mid + Seq::<Check>::empty() =~= mid);
            }
        }
        i += 1;
    }
    out
}

fn add_entry_rules(
    rules: &mut Vec<RuleItem>,
    entries: Option<&Vec<ConditionalImplBoundEntry>>,
    args: &Vec<InferType>,
    verdict: bool,
)
    ensures
        final(rules).deep_view() == old(rules).deep_view() + entry_rules(
            match entries {
                Some(list) => list.deep_view(),
                None => Seq::empty(),
            },
            args.deep_view(),
            verdict,
        ),
{
    let ghost start = rules.deep_view();
    let list = match entries {
        Some(list) => list,
        None => {
            proof {
                assert(start + entry_rules(Seq::empty(), args.deep_view(), verdict) =~= start);
            }
            return ;
        },
    };
    let ghost all = entry_rules(list.deep_view(), args.deep_view(), verdict);
    proof {
        assert(start + all.take(0) =~= start);
    }
    let mut i: usize = 0;
    while i < list.len()
        invariant
            i <= list.len(),
            all == entry_rules(list.deep_view(), args.deep_view(), verdict),
            rules.deep_view() == start + all.take(i as int),
        decreases list.len() - i,
    {
        let ghost prev = rules.deep_view();
        let ghost before = rules@;
        proof {
            assert(prev.len() == before.len());
        }
        let item = RuleItem { checks: entry_check_items(args, &list[i]), verdict };
        let ghost iv = item.deep_view();
        rules.push(item);
        proof {
            assert(iv == all[i as int]);
            assert(rules.deep_view() =~= prev.push(iv));
            assert(rules.deep_view() =~= start + all.take(i as int + 1));
        }
        i += 1;
    }
    proof {
        assert(all.take(list.len() as int) =~= all);
    }
}

/// The rule that all components have an aspect.
fn all_have_rule(ty: &InferType, aspect: &String) -> (r: RulingItem)
    ensures
        r.deep_view() == (Ruling { rules: all_have(ty.term().args, aspect@), otherwise: false }),
{
    let ghost want = Seq::new(
        ty.term().args.len(),
        |i: int| Check { ty: ty.term().args[i], aspect: aspect@, wanted: true },
    );
    let mut checks: Vec<CheckItem> = Vec::new();
    let n: u128 = ty.arity();
    let mut i: u128 = 0;
    while i < n
        invariant
            i <= n,
            n == ty.term().args.len(),
            want == Seq::new(
                ty.term().args.len(),
                |i: int| Check { ty: ty.term().args[i], aspect: aspect@, wanted: true },
            ),
            checks@.len() == i,
            forall|j: int| 0 <= j < i ==> (#[trigger] checks@[j]).deep_view() == want[j],
        decreases n - i,
    {
        let c = ty.child(i);
        checks.push(CheckItem { ty: c.dup(), aspect: aspect.clone(), wanted: true });
        i += 1;
    }
    proof {
        assert(checks.deep_view() =~= want);
    }
    let mut rules: Vec<RuleItem> = Vec::new();
    rules.push(RuleItem { checks, verdict: true });
    let r = RulingItem { rules, otherwise: false };
    proof {
        assert(r.rules.deep_view() =~= all_have(ty.term().args, aspect@));
    }
    r
}

fn primitive_type_name(ty: &Type) -> (r: Option<&'static str>)
    ensures
        r.deep_view() == primitive_name(ty.term().head),
{
    match ty {
        Type::Str => Some("String"),
        Type::Boolean => Some("boolean"),
        Type::Char => Some("Char"),
        Type::I8 => Some("i8"),
        Type::I16 => Some("i16"),
        Type::I32 => Some("i32"),
        Type::I64 => Some("i64"),
        Type::U8 => Some("u8"),
        Type::U16 => Some("u16"),
        Type::U32 => Some("u32"),
        Type::U64 => Some("u64"),
        Type::F32 => Some("f32"),
        Type::F64 => Some("f64"),
        _ => None,
    }
}

fn args_are_same(stored: &Vec<Type>, args: &Vec<InferType>) -> (b: bool)
    ensures
        b == same_args(stored.deep_view(), args.deep_view()),
{
    if stored.len() != args.len() {
        return false;
    }
    let mut i: usize = 0;
    while i < args.len()
        invariant
            i <= args.len(),
            stored.len() == args.len(),
            forall|j: int|
                0 <= j < i ==> crate::term::erase(embedded(#[trigger] stored.deep_view()[j]))
                    == crate::term::erase(args.deep_view()[j]),
        decreases args.len() - i,
    {
        if !type_to_infer(&stored[i]).same_type(&args[i]) {
            proof {
                assert(stored.deep_view()[i as int] == stored@[i as int].term());
            }
            return false;
        }
        i += 1;
    }
    true
}

impl TypeDefinitionRegistry {
    /// Whether an explicit negative impl exists for this exact concrete
    /// instantiation: it overrides a blanket positive impl.
    fn neg_impl_overrides(
        &self,
        target_id: SymbolId,
        aspect_name: &String,
        args: &Vec<InferType>,
    ) -> (b: bool)
        ensures
            b == overridden(self@, target_id, aspect_name@, args.deep_view()),
    {
        let ghost all = crate::table::list_at(self@.neg_impl_env, (target_id, aspect_name@));
        let entries = match self.neg_impl_env.get(&(target_id, aspect_name.clone())) {
            Some(entries) => entries,
            None => {
                return false;
            },
        };
        assert(all == entries.deep_view());
        let mut i: usize = 0;
        while i < entries.len()
            invariant
                i <= entries.len(),
                all == entries.deep_view(),
                all == crate::table::list_at(self@.neg_impl_env, (target_id, aspect_name@)),
                forall|j: int| 0 <= j < i ==> !same_args(#[trigger] all[j], args.deep_view()),
            decreases entries.len() - i,
        {
            assert(all[i as int] == entries@[i as int].deep_view());
            if args_are_same(&entries[i], args) {
                assert(same_args(all[i as int], args.deep_view()));
                return true;
            }
            i += 1;
        }
        false
    }

    fn add_named_denials(
        &self,
        rules: &mut Vec<RuleItem>,
        module: &Vec<String>,
        name: &str,
        args: &Vec<InferType>,
        aspect: &String,
    )
        ensures
            final(rules).deep_view() == old(rules).deep_view() + named_denials(
                self@,
                module.deep_view(),
                name@,
                args.deep_view(),
                aspect@,
            ),
    {
        let ghost before = rules.deep_view();
        let id = match self.resolve_in(module, &name.to_owned()) {
            Some(id) => id,
            None => {
                assert(before + Seq::<Rule>::empty() =~= before);
                return ;
            },
        };
        let key = (id, aspect.clone());
        add_entry_rules(rules, self.neg_conditional_impl_bounds.get(&key), args, false);
        if self.neg_impl_overrides(id, aspect, args) {
            let ghost middle = rules.deep_view();
            let ghost items = rules@;
            let denial = RuleItem { checks: Vec::new(), verdict: false };
            proof {
                assert(denial.checks.deep_view() =~= Seq::<Check>::empty());
                assert(middle.len() == items.len());
            }
            rules.push(denial);
            proof {
                assert(rules@ == items.push(denial));
                assert(rules.deep_view() =~= middle.push(denial.deep_view()));
                assert(rules.deep_view() =~= before + named_denials(
                    self@,
                    module.deep_view(),
                    name@,
                    args.deep_view(),
                    aspect@,
                ));
            }
        }
    }

    fn named_ruling_items(
        &self,
        module: &Vec<String>,
        name: &str,
        args: &Vec<InferType>,
        aspect: &String,
        conditional: bool,
    ) -> (r: RulingItem)
        ensures
            r.deep_view() == named_ruling(
                self@,
                module.deep_view(),
                name@,
                args.deep_view(),
                aspect@,
                conditional,
            ),
    {
        let id = match self.resolve_in(module, &name.to_owned()) {
            Some(id) => id,
            None => {
                return verdict_only(false);
            },
        };
        let key = (id, aspect.clone());
        if self.impl_aspect_env.contains_key(&key) {
            return verdict_only(true);
        }
        if !conditional {
            return verdict_only(false);
        }
        let mut rules: Vec<RuleItem> = Vec::new();
        proof {
            assert(rules.deep_view() =~= Seq::<Rule>::empty());
        }
        add_entry_rules(&mut rules, self.conditional_impl_bounds.get(&key), args, true);
        proof {
            assert(rules.deep_view() =~= entry_rules(
                crate::table::list_at(self@.conditional_impl_bounds, (id, aspect@)),
                args.deep_view(),
                true,
            ));
        }
        RulingItem { rules, otherwise: false }
    }

    fn add_denials(
        &self,
        rules: &mut Vec<RuleItem>,
        module: &Vec<String>,
        ty: &InferType,
        aspect: &String,
    )
        ensures
            final(rules).deep_view() == old(rules).deep_view() + denials(
                self@,
                module.deep_view(),
                ty.term(),
                aspect@,
            ),
    {
        let ghost before = rules.deep_view();
        proof {
            assert(before + Seq::<Rule>::empty() =~= before);
        }
        match ty {
            InferType::Array(elem) => {
                if !is_text(aspect, "Copy") {
                    let mut args: Vec<InferType> = Vec::new();
                    args.push(elem.dup());
                    proof {
                        assert(args.deep_view() =~= ty.term().args);
                    }
                    add_entry_rules(rules, self.array_neg_impl_bounds.get(aspect), &args, false);
                }
            },
            InferType::Named(name, args) => {
                proof {
                    assert(args.deep_view() =~= ty.term().args);
                }
                self.add_named_denials(rules, module, name.as_str(), args, aspect);
            },
            InferType::Concrete(t) => match primitive_type_name(t) {
                Some(name) => {
                    let args: Vec<InferType> = Vec::new();
                    proof {
                        assert(args.deep_view() =~= Seq::<Term>::empty());
                    }
                    self.add_named_denials(rules, module, name, &args, aspect);
                },
                None => {},
            },
            _ => {},
        }
    }

    fn structural_ruling_items(
        &self,
        module: &Vec<String>,
        ty: &InferType,
        aspect: &String,
    ) -> (r: RulingItem)
        ensures
            r.deep_view() == structural_ruling(self@, module.deep_view(), ty.term(), aspect@),
    {
        match ty {
            InferType::Record(_) | InferType::Residual { brand: _, fields: _ } => {
                if is_text(aspect, "Send") || is_text(aspect, "Sync") {
                    all_have_rule(ty, aspect)
                } else {
                    verdict_only(false)
                }
            },
            InferType::SizedArray(_, _) | InferType::Tuple(_) => {
                if is_text(aspect, "Copy") {
                    all_have_rule(ty, aspect)
                } else {
                    verdict_only(false)
                }
            },
            InferType::Reference(_) => verdict_only(is_text(aspect, "Copy")),
            InferType::Array(elem) => {
                if is_text(aspect, "Copy") {
                    return verdict_only(true);
                }
                let mut args: Vec<InferType> = Vec::new();
                args.push(elem.dup());
                proof {
                    assert(args.deep_view() =~= ty.term().args);
                }
                let mut rules: Vec<RuleItem> = Vec::new();
                proof {
                    assert(rules.deep_view() =~= Seq::<Rule>::empty());
                }
                add_entry_rules(&mut rules, self.array_impl_bounds.get(aspect), &args, true);
                proof {
                    assert(rules.deep_view() =~= entry_rules(
                        crate::table::list_at(self@.array_impl_bounds, aspect@),
                        ty.term().args,
                        true,
                    ));
                }
                RulingItem { rules, otherwise: false }
            },
            InferType::Named(name, args) => {
                proof {
                    assert(args.deep_view() =~= ty.term().args);
                }
                self.named_ruling_items(module, name.as_str(), args, aspect, true)
            },
            InferType::Fun(_, _, _, us, mutation) => {
                if is_text(aspect, "Copy") {
                    verdict_only(*us == UseMultiplicity::Copy)
                } else if is_text(aspect, "Sync") {
                    verdict_only(*mutation != CallMutation::Mutating)
                } else {
                    verdict_only(false)
                }
            },
            InferType::Concrete(t) => match primitive_type_name(t) {
                Some(name) => {
                    let args: Vec<InferType> = Vec::new();
                    proof {
                        assert(args.deep_view() =~= Seq::<Term>::empty());
                    }
                    self.named_ruling_items(module, name, &args, aspect, false)
                },
                None => verdict_only(false),
            },
            InferType::Dyn { aspect: own, type_args: _ } => verdict_only(*own == *aspect),
            InferType::MutReference(_) | InferType::Var(_) | InferType::Never => {
                verdict_only(false)
            },
        }
    }

    fn ruling_items(
        &self,
        module: &Vec<String>,
        ty: &InferType,
        aspect: &String,
        assumptions: &AspectAssumptions,
    ) -> (r: RulingItem)
        ensures
            r.deep_view() == ruling(
                self@,
                module.deep_view(),
                ty.term(),
                aspect@,
                assumptions@,
            ),
    {
        if let InferType::Var(v) = ty {
            return verdict_only(
                match assumptions.get(v) {
                    Some(assumed) => assumed.contains(aspect),
                    None => false,
                },
            );
        }
        if let InferType::Named(name, args) = ty {
            if args.len() == 0 {
                let known = match self.symbolic_named_aspects.get(name) {
                    Some(aspects) => aspects.contains(aspect),
                    None => false,
                };
                if known {
                    return verdict_only(true);
                }
            }
        }
        let mut args: Vec<InferType> = Vec::new();
        args.push(ty.dup());
        proof {
            assert(args.deep_view() =~= seq![ty.term()]);
        }
        let mut rules: Vec<RuleItem> = Vec::new();
        add_entry_rules(&mut rules, self.bare_neg_impl_bounds.get(aspect), &args, false);
        proof {
            assert(rules.deep_view() =~= entry_rules(
                crate::table::list_at(self@.bare_neg_impl_bounds, aspect@),
                seq![ty.term()],
                false,
            ));
        }
        self.add_denials(&mut rules, module, ty, aspect);
        add_entry_rules(&mut rules, self.bare_impl_bounds.get(aspect), &args, true);
        let own = self.structural_ruling_items(module, ty, aspect);
        let RulingItem { rules: own_rules, otherwise } = own;
        let ghost a = rules.deep_view();
        let ghost b = own_rules.deep_view();
        let mut own_rules = own_rules;
        proof {
            assert(a.len() == rules@.len());
            assert(b.len() == own_rules@.len());
        }
        let ghost ra = rules@;
        let ghost rb = own_rules@;
        rules.append(&mut own_rules);
        proof {
            assert(rules@ == ra + rb);
            assert(rules.deep_view() =~= a + b);
        }
        RulingItem { rules, otherwise }
    }

    fn satisfies_within(
        &self,
        module: &Vec<String>,
        ty: &InferType,
        aspect: &String,
        assumptions: &AspectAssumptions,
        Ghost(n): Ghost<nat>,
    ) -> (b: bool)
        requires
            satisfied_at(
                n,
                self@,
                module.deep_view(),
                assumptions@,
                ty.term(),
                aspect@,
            ) is Some,
        ensures
            satisfied_at(n, self@, module.deep_view(), assumptions@, ty.term(), aspect@) == Some(
                b,
            ),
        decreases n,
    {
        let items = self.ruling_items(module, ty, aspect, assumptions);
        let ghost r = items.deep_view();
        let ghost k = (n - 1) as nat;
        let ghost answer = first_verdict(k, self@, module.deep_view(), assumptions@, r, 0);
        let mut i: usize = 0;
        while i < items.rules.len()
            invariant
                i <= items.rules.len(),
                r == items.deep_view(),
                n > 0,
                k == n - 1,
                answer is Some,
                answer == satisfied_at(
                    n,
                    self@,
                    module.deep_view(),
                    assumptions@,
                    ty.term(),
                    aspect@,
                ),
                answer == first_verdict(
                    k,
                    self@,
                    module.deep_view(),
                    assumptions@,
                    r,
                    i as int,
                ),
            decreases items.rules.len() - i,
        {
            let rule = &items.rules[i];
            let ghost checks = rule.checks.deep_view();
            assert(r.rules[i as int] == rule.deep_view());
            let ghost verdict = all_hold(
                k,
                self@,
                module.deep_view(),
                assumptions@,
                checks,
                0,
            );
            let mut holds = true;
            let mut j: usize = 0;
            while j < rule.checks.len() && holds
                invariant
                    j <= rule.checks.len(),
                    checks == rule.checks.deep_view(),
                    n > 0,
                    k == n - 1,
                    verdict is Some,
                    holds ==> verdict == all_hold(
                        k,
                        self@,
                        module.deep_view(),
                        assumptions@,
                        checks,
                        j as int,
                    ),
                    !holds ==> verdict == Some(false),
                decreases rule.checks.len() - j,
            {
                let check = &rule.checks[j];
                assert(checks[j as int] == check.deep_view());
                let found = self.satisfies_within(
                    module,
                    &check.ty,
                    &check.aspect,
                    assumptions,
                    Ghost(k),
                );
                if found != check.wanted {
                    holds = false;
                }
                j += 1;
            }
            assert(verdict == Some(holds));
            if holds {
                return rule.verdict;
            }
            i += 1;
        }
        items.otherwise
    }

    /// The aspect-satisfaction query, over `InferType` and under a set of
    /// assumptions about abstract type parameters.
    ///
    /// A variable answers only from `assumptions`, and is never resolved
    /// against a declaration. An unbounded parameter has an empty assumption
    /// set and so satisfies nothing.
    pub fn infer_type_satisfies_aspect(
        &self,
        current_module: &[String],
        ty: &InferType,
        aspect_name: &str,
        assumptions: &AspectAssumptions,
    ) -> (b: bool)
        requires
            decided(
                self@,
                current_module.deep_view(),
                assumptions@,
                ty.term(),
                aspect_name@,
            ),
        ensures
            b == satisfied(
                self@,
                current_module.deep_view(),
                assumptions@,
                ty.term(),
                aspect_name@,
            ),
    {
        let module = path_of(current_module);
        let aspect = aspect_name.to_owned();
        let ghost n = choose|n: nat| #[trigger]
            satisfied_at(
                n,
                self@,
                module.deep_view(),
                assumptions@,
                ty.term(),
                aspect@,
            ) is Some;
        self.satisfies_within(&module, ty, &aspect, assumptions, Ghost(n))
    }

    /// Check whether a concrete `Type` satisfies `aspect_name`, recursing into
    /// nested generic type arguments.
    pub fn type_satisfies_aspect(
        &self,
        current_module: &[String],
        ty: &Type,
        aspect_name: &str,
    ) -> (b: bool)
        requires
            decided(
                self@,
                current_module.deep_view(),
                Map::empty(),
                embedded(ty.term()),
                aspect_name@,
            ),
        ensures
            b == satisfied(
                self@,
                current_module.deep_view(),
                Map::empty(),
                embedded(ty.term()),
                aspect_name@,
            ),
    {
        let assumptions: AspectAssumptions = Table::new();
        self.infer_type_satisfies_aspect(
            current_module,
            &type_to_infer(ty),
            aspect_name,
            &assumptions,
        )
    }
}

} // verus!
