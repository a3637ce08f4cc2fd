//! Which scheme the body of a generic function or method is typed with when it is
//! called.

use crate::registry::{RegistryModel, TypeDefinitionRegistry};
use crate::schemes::{SchemeModel, TypeScheme};
use crate::table::Table;
use crate::term::{Head, Term};
use crate::types::Type;
use vstd::prelude::*;
use vstd::string::*;

verus! {

/// What the generic bodies of a module are typed with when they are called: the
/// schemes of the module, and the types that are visible from it.
pub struct TypeCtx {
    pub scheme_env: Table<String, TypeScheme>,
    pub registry: TypeDefinitionRegistry,
}

/// What generic bodies are typed with.
pub struct TypeCtxModel {
    pub schemes: Map<Seq<char>, SchemeModel>,
    pub registry: RegistryModel,
}

impl View for TypeCtx {
    type V = TypeCtxModel;

    open spec fn view(&self) -> TypeCtxModel {
        TypeCtxModel { schemes: self.scheme_env@, registry: self.registry@ }
    }
}

/// The name of the struct or enum that a type is, or that references lead to.
pub open spec fn nominal_name(t: Term) -> Option<Seq<char>>
    decreases t,
{
    match t.head {
        Head::Named(name, _) => Some(name),
        Head::Reference => if t.args.len() == 1 {
            nominal_name(t.args[0])
        } else {
            None
        },
        Head::MutReference => if t.args.len() == 1 {
            nominal_name(t.args[0])
        } else {
            None
        },
        _ => None,
    }
}

/// The name of the struct or enum that a type is, or that references lead to.
pub fn receiver_type_name(ty: &Type) -> (r: Option<&String>)
    ensures
        r.deep_view() == nominal_name(ty.deep_view()),
    decreases *ty,
{
    match ty {
        Type::Named(name, _, _) => Some(name),
        Type::Reference(inner) => {
            assert(ty.deep_view().args[0] == inner.deep_view());
            receiver_type_name(inner)
        },
        Type::MutReference(inner) => {
            assert(ty.deep_view().args[0] == inner.deep_view());
            receiver_type_name(inner)
        },
        _ => None,
    }
}

/// The scheme of a method of a receiver.
pub open spec fn receiver_scheme(reg: RegistryModel, receiver: Term, name: Seq<char>) -> Option<
    SchemeModel,
> {
    let found = if receiver.head is Array {
        reg.array_method_scheme_env.get(name)
    } else {
        match nominal_name(receiver) {
            Some(owner) => crate::table::map_at(reg.method_scheme_env, owner).get(name),
            None => None,
        }
    };
    match found {
        Some(s) => Some(s.0),
        None => None,
    }
}

/// The scheme that a generic body is typed with: that of the receiver's method
/// where there is one, or else the one of that name in the module.
pub open spec fn call_scheme(ctx: TypeCtxModel, receiver: Option<Term>, name: Seq<char>) -> Option<
    SchemeModel,
> {
    let of_receiver = match receiver {
        Some(t) => receiver_scheme(ctx.registry, t, name),
        None => None,
    };
    if of_receiver is Some {
        of_receiver
    } else {
        ctx.schemes.get(name)
    }
}

impl TypeCtx {
    /// The scheme that a generic body is typed with: that of the receiver's method
    /// where there is one, or else the one of that name in the module.
    pub fn scheme_for_call(&self, receiver: Option<&Type>, name: &str) -> (r: Option<&TypeScheme>)
        ensures
            r.deep_view() == call_scheme(self@, receiver.deep_view(), name@),
    {
        match receiver {
            Some(t) => {
                let found = match t {
                    Type::Array(_) => self.registry.array_method_scheme_for(name),
                    _ => match receiver_type_name(t) {
                        Some(owner) => self.registry.method_scheme_for(owner.as_str(), name),
                        None => None,
                    },
                };
                match found {
                    Some(s) => {
                        return Some(&s.0);
                    },
                    None => {},
                }
            },
            None => {},
        }
        self.scheme_env.get(&name.to_owned())
    }
}

} // verus!
