//! What holds of the methods that a program registers and calls.

use crate::runtime::{AspectImplModel, RuntimeModel, TypeEntryModel, WantedModel};
use crate::runtime_types::MethodModel;
use crate::symbols::SymbolId;
use crate::values::{ValueHead, ValueTerm};
use vstd::prelude::*;

verus! {

/// Whether a value knows which struct or enum it is of.
pub open spec fn knows_its_type(v: ValueTerm, id: SymbolId) -> bool {
    match v.head {
        ValueHead::Struct(_, own, _) => own == Some(id),
        ValueHead::Enum(_, own, _, _, _) => own == Some(id),
        ValueHead::Dyn(_, own, _, _, _) => own == id,
        _ => false,
    }
}

/// What is registered for a type leaves the methods of all others alone, even of
/// one with the same name: a value that knows its type has the methods of that type.
pub proof fn types_do_not_share_methods(
    rt: RuntimeModel,
    id: SymbolId,
    name: Seq<char>,
    entry: TypeEntryModel,
    other: SymbolId,
    v: ValueTerm,
    method: Seq<char>,
)
    requires
        id != other,
        knows_its_type(v, other),
    ensures
        ({
            let after = crate::runtime::type_entered(rt, id, name, entry);
            &&& crate::runtime::regular_method(after, other, method)
                == crate::runtime::regular_method(rt, other, method)
            &&& crate::runtime::method_of(after, v, method) == crate::runtime::method_of(
                rt,
                v,
                method,
            )
        }),
{
}

/// A type's own method is called before one of the same name that an aspect gives
/// it.
pub proof fn own_methods_come_first(
    rt: RuntimeModel,
    id: SymbolId,
    name: Seq<char>,
    method: Seq<char>,
    m: MethodModel,
    v: ValueTerm,
)
    requires
        m.receiver is Some,
        knows_its_type(v, id),
    ensures
        ({
            let entry = crate::runtime::type_entry(rt, id);
            let after = crate::runtime::type_entered(
                rt,
                id,
                name,
                (TypeEntryModel { methods: entry.methods.insert(method, m), ..entry }),
            );
            crate::runtime::method_of(after, v, method) == Some(m)
        }),
{
}

/// Whether an aspect is known under one name only, and implemented once for the same
/// type arguments.
pub open spec fn told_apart(impls: Seq<AspectImplModel>, name: Seq<char>, id: SymbolId) -> bool {
    &&& forall|i: int|
        0 <= i < impls.len() && (#[trigger] impls[i]).aspect_name == name ==> (
        impls[i].aspect_id is None || impls[i].aspect_id == Some(id))
    &&& forall|i: int|
        0 <= i < impls.len() && (#[trigger] impls[i]).aspect_id == Some(id)
            ==> impls[i].aspect_name == name
}

proof fn lemma_position(
    impls: Seq<AspectImplModel>,
    name: Seq<char>,
    args: Option<Seq<Seq<char>>>,
    i: int,
)
    requires
        0 <= i <= impls.len(),
    ensures
        ({
            let at = crate::runtime::impl_position(impls, name, args, i);
            &&& i <= at <= impls.len()
            &&& at < impls.len() ==> impls[at].aspect_name == name && (args is Some ==> args->0
                == impls[at].type_args)
        }),
    decreases impls.len() - i,
{
    if i < impls.len() {
        lemma_position(impls, name, args, i + 1);
    }
}

/// What is offered depends only on what each implementation offers.
proof fn lemma_same_offers(
    a: Seq<AspectImplModel>,
    b: Seq<AspectImplModel>,
    wanted: WantedModel,
    name: Seq<char>,
    n: int,
)
    requires
        0 <= n <= a.len(),
        n <= b.len(),
        forall|i: int|
            0 <= i < n ==> crate::runtime::offered(#[trigger] a[i], wanted, name)
                == crate::runtime::offered(b[i], wanted, name),
    ensures
        crate::runtime::latest_offered(a, wanted, name, n) == crate::runtime::latest_offered(
            b,
            wanted,
            name,
            n,
        ),
    decreases n,
{
    if n > 0 {
        assert(crate::runtime::offered(a[n - 1], wanted, name) == crate::runtime::offered(
            b[n - 1],
            wanted,
            name,
        ));
        lemma_same_offers(a, b, wanted, name, n - 1);
    }
}

/// Two aspects may give a type methods of the same name: what is registered for one
/// of them leaves what the other gives alone.
pub proof fn aspects_do_not_share_methods(
    impls: Seq<AspectImplModel>,
    name: Seq<char>,
    id: SymbolId,
    args: Option<Seq<Seq<char>>>,
    method: Seq<char>,
    m: MethodModel,
    other: SymbolId,
    wanted: Seq<char>,
)
    requires
        told_apart(impls, name, id),
        id != other,
    ensures
        crate::runtime::from_impls(
            crate::runtime::impl_extended(impls, name, Some(id), args, method, m),
            WantedModel::OfAspect(other),
            wanted,
        ) == crate::runtime::from_impls(impls, WantedModel::OfAspect(other), wanted),
{
    lemma_position(impls, name, args, 0);
    let after = crate::runtime::impl_extended(impls, name, Some(id), args, method, m);
    let asked = WantedModel::OfAspect(other);
    let n = impls.len() as int;
    assert forall|i: int| 0 <= i < n implies crate::runtime::offered(
        #[trigger] after[i],
        asked,
        wanted,
    ) == crate::runtime::offered(impls[i], asked, wanted) by {}
    lemma_same_offers(after, impls, asked, wanted, n);
    if after.len() > n {
        assert(crate::runtime::offered(after[n], asked, wanted) is None);
    }
}

proof fn lemma_nothing_offered(
    impls: Seq<AspectImplModel>,
    wanted: WantedModel,
    name: Seq<char>,
    at: int,
    n: int,
)
    requires
        0 <= at < n <= impls.len(),
        forall|i: int|
            at < i < n ==> crate::runtime::offered(#[trigger] impls[i], wanted, name) is None,
        crate::runtime::offered(impls[at], wanted, name) is Some,
    ensures
        crate::runtime::latest_offered(impls, wanted, name, n) == crate::runtime::offered(
            impls[at],
            wanted,
            name,
        ),
    decreases n,
{
    if at < n - 1 {
        assert(crate::runtime::offered(impls[n - 1], wanted, name) is None);
        lemma_nothing_offered(impls, wanted, name, at, n - 1);
    }
}

/// What has been registered for an aspect is what is called of it, where the aspect
/// has no other implementation for the type.
pub proof fn aspect_methods_are_found(
    impls: Seq<AspectImplModel>,
    name: Seq<char>,
    id: SymbolId,
    args: Option<Seq<Seq<char>>>,
    method: Seq<char>,
    m: MethodModel,
)
    requires
        told_apart(impls, name, id),
        m.receiver is Some,
        forall|i: int|
            0 <= i < impls.len() && (#[trigger] impls[i]).aspect_name == name ==> i
                == crate::runtime::impl_position(impls, name, args, 0),
    ensures
        crate::runtime::from_impls(
            crate::runtime::impl_extended(impls, name, Some(id), args, method, m),
            WantedModel::OfAspect(id),
            method,
        ) == Some(m),
{
    lemma_position(impls, name, args, 0);
    let at = crate::runtime::impl_position(impls, name, args, 0);
    let after = crate::runtime::impl_extended(impls, name, Some(id), args, method, m);
    let asked = WantedModel::OfAspect(id);
    assert(crate::runtime::offered(after[at], asked, method) == Some(m));
    assert forall|i: int| at < i < after.len() implies crate::runtime::offered(
        #[trigger] after[i],
        asked,
        method,
    ) is None by {
        assert(after[i] == impls[i]);
    }
    lemma_nothing_offered(after, asked, method, at, after.len() as int);
}

} // verus!
