//! Types as first-order terms.
//!
//! Both resolved types and inference types denote terms: a head, which says
//! what kind of type it is together with everything in it that is not a type,
//! and the component types in order. A function's components are its
//! parameters followed by its result.

use crate::symbols::SymbolId;
use crate::data::{Dup, Same};
use crate::types::{CallMultiplicity, CallMutation, UseMultiplicity};
use vstd::prelude::*;

verus! {

/// A type variable representing an unknown type during inference.
/// Each type variable has a unique ID.
#[derive(Debug, Clone, Copy, PartialEq, Eq, PartialOrd, Ord, Hash, Structural)]
pub struct TypeVar(pub u32);

impl DeepView for TypeVar {
    type V = TypeVar;

    open spec fn deep_view(&self) -> TypeVar {
        *self
    }
}

impl Same for TypeVar {
    fn same(&self, other: &Self) -> (b: bool) {
        self.0 == other.0
    }
}

impl Dup for TypeVar {
    fn dup(&self) -> (r: Self) {
        *self
    }
}

/// What kind of type a term is, with its parts that are not types.
pub enum Head {
    Boolean,
    Str,
    Char,
    Unit,
    Never,
    I8,
    I16,
    I32,
    I64,
    U8,
    U16,
    U32,
    U64,
    F32,
    F64,
    /// An unknown type.
    Var(TypeVar),
    /// A resolved type, which inference treats as one unit.
    Concrete(Box<Term>),
    Tuple,
    /// A record, with its labels.
    Record(Seq<Seq<char>>),
    Array,
    SizedArray(u64),
    Reference,
    MutReference,
    Fun(CallMultiplicity, UseMultiplicity, CallMutation),
    /// A struct or enum, with the identity of its declaration where known.
    Named(Seq<char>, Option<SymbolId>),
    /// What is left of a struct, with the labels of the fields that are left.
    Residual(Seq<char>, Seq<Seq<char>>),
    Dyn(Seq<char>),
}

/// A type: its head and its component types.
pub struct Term {
    pub head: Head,
    pub args: Seq<Term>,
}

/// A term without components.
pub open spec fn leaf(head: Head) -> Term {
    Term { head, args: Seq::empty() }
}

pub open spec fn var(v: TypeVar) -> Term {
    leaf(Head::Var(v))
}

pub open spec fn concrete(t: Term) -> Term {
    leaf(Head::Concrete(Box::new(t)))
}

/// Whether a type variable occurs in a term.
pub open spec fn occurs(v: TypeVar, t: Term) -> bool
    decreases t,
{
    match t.head {
        Head::Var(w) => w == v,
        _ => exists|i: int| 0 <= i < t.args.len() && occurs(v, #[trigger] t.args[i]),
    }
}

/// The type variables that occur in a term.
pub open spec fn vars(t: Term) -> Set<TypeVar> {
    Set::new(|v: TypeVar| occurs(v, t))
}

/// A head without the identity of the declaration that it names.
pub open spec fn erase_head(h: Head) -> Head {
    match h {
        Head::Named(name, _) => Head::Named(name, None),
        _ => h,
    }
}

/// A type without the identities of the declarations that it names. Two types
/// are equal where this is equal.
pub open spec fn erase(t: Term) -> Term
    decreases t,
{
    match t.head {
        Head::Concrete(c) => concrete(erase(*c)),
        _ => Term {
            head: erase_head(t.head),
            args: Seq::new(
                t.args.len(),
                |i: int|
                    if 0 <= i < t.args.len() {
                        erase(t.args[i])
                    } else {
                        arbitrary()
                    },
            ),
        },
    }
}

/// Whether a head is that of an integer type.
pub open spec fn integer_head(h: Head) -> bool {
    h is I8 || h is I16 || h is I32 || h is I64 || h is U8 || h is U16 || h is U32 || h is U64
}

/// Whether a head is that of a float type.
pub open spec fn float_head(h: Head) -> bool {
    h is F32 || h is F64
}

/// `label: text` for each field.
pub open spec fn labelled(labels: Seq<Seq<char>>, parts: Seq<Seq<char>>) -> Seq<Seq<char>> {
    Seq::new(parts.len(), |i: int| labels[i] + ": "@ + parts[i])
}

/// A name with its type arguments, if there are any.
pub open spec fn applied(name: Seq<char>, parts: Seq<Seq<char>>) -> Seq<char> {
    if parts.len() == 0 {
        name
    } else {
        name + "<"@ + crate::text::joined(parts, ", "@) + ">"@
    }
}

/// How a type is written, from its head and its components as they are written.
pub open spec fn frame(head: Head, parts: Seq<Seq<char>>) -> Seq<char> {
    match head {
        Head::Boolean => "boolean"@,
        Head::Str => "String"@,
        Head::Char => "Char"@,
        Head::Unit => "()"@,
        Head::Never => "!"@,
        Head::I8 => "i8"@,
        Head::I16 => "i16"@,
        Head::I32 => "i32"@,
        Head::I64 => "i64"@,
        Head::U8 => "u8"@,
        Head::U16 => "u16"@,
        Head::U32 => "u32"@,
        Head::U64 => "u64"@,
        Head::F32 => "f32"@,
        Head::F64 => "f64"@,
        Head::Var(v) => "?t"@ + crate::text::decimal(v.0 as nat),
        Head::Concrete(_) => Seq::empty(),
        Head::Tuple => "("@ + crate::text::joined(parts, ", "@) + ")"@,
        Head::Record(labels) => "{ "@ + crate::text::joined(labelled(labels, parts), ", "@) + " }"@,
        Head::Array => parts[0] + "[]"@,
        Head::SizedArray(n) => "["@ + parts[0] + "; "@ + crate::text::decimal(n as nat) + "]"@,
        Head::Reference => "&"@ + parts[0],
        Head::MutReference => "&var "@ + parts[0],
        Head::Fun(call, _, mutation) => (if call == CallMultiplicity::Once {
            "once "@
        } else {
            Seq::empty()
        }) + (if mutation == CallMutation::Mutating {
            "var "@
        } else {
            Seq::empty()
        }) + "|"@ + crate::text::joined(parts.drop_last(), ", "@) + "| -> "@ + parts.last(),
        Head::Named(name, _) => applied(name, parts),
        Head::Residual(brand, labels) => brand + ".{ "@ + crate::text::joined(
            labelled(labels, parts),
            ", "@,
        )
            + " }"@,
        Head::Dyn(aspect) => "dyn "@ + applied(aspect, parts),
    }
}

/// How a type is written.
pub open spec fn text(t: Term) -> Seq<char>
    decreases t, 1int,
{
    match t.head {
        Head::Concrete(c) => text(*c),
        _ => frame(t.head, part_texts(t)),
    }
}

/// The components of a term as they are written.
pub open spec fn part_texts(t: Term) -> Seq<Seq<char>>
    decreases t, 0int,
{
    Seq::new(
        t.args.len(),
        |i: int|
            if 0 <= i < t.args.len() {
                text(t.args[i])
            } else {
                arbitrary()
            },
    )
}

} // verus!
