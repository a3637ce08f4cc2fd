//! Types during inference, which may hold type variables.

use crate::data::Dup;
use crate::spelling::{
    applied_string, concat, fields_string, fun_string, list_string, sized_array_string,
};
use crate::term::{Head, Term, TypeVar};
use crate::text::decimal_string;
use crate::types::{relabel, same_labels, CallMultiplicity, CallMutation, Type, UseMultiplicity};
use vstd::prelude::*;
use vstd::string::*;

verus! {

/// A type that may contain unresolved type variables.
/// Used during inference before all types are known.
/// Distinct from `Type`, which is fully resolved and contains no variables.
#[derive(Debug)]
pub enum InferType {
    /// A fully resolved concrete type.
    Concrete(Type),
    /// An unknown type represented by a type variable.
    Var(TypeVar),
    /// The bottom type `!`, the type of diverging expressions. Unifies with any
    /// type.
    Never,
    /// A function type with parameter types, a return type, and closure axes.
    Fun(Vec<InferType>, Box<InferType>, CallMultiplicity, UseMultiplicity, CallMutation),
    /// A tuple type.
    Tuple(Vec<InferType>),
    /// A closed anonymous record type with lexicographically sorted labels.
    Record(Vec<(String, InferType)>),
    /// A homogeneous array type.
    Array(Box<InferType>),
    /// A fixed-size array type `[T; N]`.
    SizedArray(Box<InferType>, u64),
    /// A shared pointer type.
    Reference(Box<InferType>),
    /// A mutable pointer type.
    MutReference(Box<InferType>),
    /// A named type (struct, enum) with type arguments.
    Named(String, Vec<InferType>),
    /// A narrowed residual of a struct's own row; see `Type::Residual`.
    Residual { brand: String, fields: Vec<(String, InferType)> },
    /// `dyn Aspect`; see `Type::Dyn`.
    Dyn { aspect: String, type_args: Vec<InferType> },
}

impl InferType {
    /// The term that an inference type denotes.
    pub open spec fn term(self) -> Term
        decreases self,
    {
        match self {
            InferType::Concrete(t) => crate::term::concrete(t.term()),
            InferType::Var(v) => crate::term::var(v),
            InferType::Never => crate::term::leaf(Head::Never),
            InferType::Tuple(ts) => Term { head: Head::Tuple, args: Seq::new(
                    ts@.len(),
                    |i: int|
                        if 0 <= i < ts@.len() {
                            ts@[i].term()
                        } else {
                            arbitrary()
                        },
                ) },
            InferType::Record(fs) => Term { head: Head::Record(
                crate::types::labels_of(fs@),
            ), args: Seq::new(
                    fs@.len(),
                    |i: int|
                        if 0 <= i < fs@.len() {
                            fs@[i].1.term()
                        } else {
                            arbitrary()
                        },
                ) },
            InferType::Array(t) => Term { head: Head::Array, args: seq![t.term()] },
            InferType::SizedArray(t, n) => Term { head: Head::SizedArray(n), args: seq![t.term()] },
            InferType::Reference(t) => Term { head: Head::Reference, args: seq![t.term()] },
            InferType::MutReference(t) => Term { head: Head::MutReference, args: seq![t.term()] },
            InferType::Fun(ps, r, call, us, mutation) => Term {
                head: Head::Fun(call, us, mutation),
                args: Seq::new(
                    ps@.len(),
                    |i: int|
                        if 0 <= i < ps@.len() {
                            ps@[i].term()
                        } else {
                            arbitrary()
                        },
                ).push(r.term()),
            },
            InferType::Named(name, ts) => Term { head: Head::Named(name@, None), args: Seq::new(
                    ts@.len(),
                    |i: int|
                        if 0 <= i < ts@.len() {
                            ts@[i].term()
                        } else {
                            arbitrary()
                        },
                ) },
            InferType::Residual { brand, fields } => Term {
                head: Head::Residual(brand@, crate::types::labels_of(fields@)),
                args: Seq::new(
                    fields@.len(),
                    |i: int|
                        if 0 <= i < fields@.len() {
                            fields@[i].1.term()
                        } else {
                            arbitrary()
                        },
                ),
            },
            InferType::Dyn { aspect, type_args } => Term {
                head: Head::Dyn(aspect@),
                args: Seq::new(
                    type_args@.len(),
                    |i: int|
                        if 0 <= i < type_args@.len() {
                            type_args@[i].term()
                        } else {
                            arbitrary()
                        },
                ),
            },
        }
    }
}

/// The terms that a list of inference types denotes.
pub open spec fn terms_of(ts: Seq<InferType>) -> Seq<Term> {
    Seq::new(ts.len(), |i: int| ts[i].term())
}

impl DeepView for InferType {
    type V = Term;

    open spec fn deep_view(&self) -> Term {
        self.term()
    }
}

impl TypeVar {
    /// The variable as diagnostics name it.
    pub fn to_string(&self) -> (s: String)
        ensures
            s@ == "?t"@ + crate::text::decimal(self.0 as nat),
    {
        concat("?t", decimal_string(self.0 as u128).as_str())
    }
}

impl InferType {
    /// The number of component types.
    pub fn arity(&self) -> (n: u128)
        ensures
            n == self.term().args.len(),
    {
        match self {
            InferType::Tuple(ts) => ts.len() as u128,
            InferType::Record(fs) => fs.len() as u128,
            InferType::Array(_) | InferType::SizedArray(_, _) | InferType::Reference(_) | InferType::MutReference(
                _,
            ) => 1,
            InferType::Fun(ps, _, _, _, _) => ps.len() as u128 + 1,
            InferType::Named(_, ts) => ts.len() as u128,
            InferType::Residual { brand: _, fields } => fields.len() as u128,
            InferType::Dyn { aspect: _, type_args } => type_args.len() as u128,
            _ => 0,
        }
    }

    /// The component type at a position.
    pub fn child(&self, i: u128) -> (c: &InferType)
        requires
            i < self.term().args.len(),
        ensures
            c.term() == self.term().args[i as int],
    {
        match self {
            InferType::Tuple(ts) => {
                assert(ts.len() <= usize::MAX);
                let c = &ts[i as usize];
                c
            },
            InferType::Record(fs) => {
                assert(fs.len() <= usize::MAX);
                let c = &fs[i as usize].1;
                c
            },
            InferType::Array(t) => &**t,
            InferType::SizedArray(t, _) => &**t,
            InferType::Reference(t) => &**t,
            InferType::MutReference(t) => &**t,
            InferType::Fun(ps, r, _, _, _) => {
                if i < ps.len() as u128 {
                    &ps[i as usize]
                } else {
                    &**r
                }
            },
            InferType::Named(_, ts) => {
                assert(ts.len() <= usize::MAX);
                let c = &ts[i as usize];
                c
            },
            InferType::Residual { brand: _, fields } => {
                assert(fields.len() <= usize::MAX);
                let c = &fields[i as usize].1;
                c
            },
            InferType::Dyn { aspect: _, type_args } => {
                assert(type_args.len() <= usize::MAX);
                let c = &type_args[i as usize];
                c
            },
            _ => self,
        }
    }

    /// Whether two types have the same head, resolved types aside.
    fn same_head(&self, other: &InferType) -> (b: bool)
        requires
            !(self.term().head is Concrete),
        ensures
            b == (crate::term::erase_head(self.term().head) == crate::term::erase_head(
                other.term().head,
            )),
    {
        match (self, other) {
            (InferType::Var(a), InferType::Var(b)) => a.0 == b.0,
            (InferType::Never, InferType::Never) => true,
            (InferType::Tuple(_), InferType::Tuple(_)) => true,
            (InferType::Record(a), InferType::Record(b)) => same_labels(a, b),
            (InferType::Array(_), InferType::Array(_)) => true,
            (InferType::SizedArray(_, m), InferType::SizedArray(_, n)) => *m == *n,
            (InferType::Reference(_), InferType::Reference(_)) => true,
            (InferType::MutReference(_), InferType::MutReference(_)) => true,
            (InferType::Fun(_, _, c1, u1, m1), InferType::Fun(
                _,
                _,
                c2,
                u2,
                m2,
            )) => *c1 == *c2 && *u1 == *u2
                && *m1 == *m2,
            (InferType::Named(a, _), InferType::Named(b, _)) => *a == *b,
            (
                InferType::Residual { brand: a, fields: fa },
                InferType::Residual { brand: b, fields: fb },
            ) => *a == *b && same_labels(fa, fb),
            (
                InferType::Dyn { aspect: a, type_args: _ },
                InferType::Dyn { aspect: b, type_args: _ },
            ) => *a == *b,
            _ => false,
        }
    }

    /// Whether two types are equal. The identities of named declarations do
    /// not count.
    pub fn same_type(&self, other: &InferType) -> (b: bool)
        ensures
            b == (crate::term::erase(self.term()) == crate::term::erase(other.term())),
        decreases self.term(),
    {
        let ghost x = crate::term::erase(self.term());
        let ghost y = crate::term::erase(other.term());
        match (self, other) {
            (InferType::Concrete(a), InferType::Concrete(b)) => {
                return a.same_type(b);
            },
            (InferType::Concrete(_), _) => {
                return false;
            },
            _ => {},
        }
        let n: u128 = self.arity();
        if !self.same_head(other) {
            return false;
        }
        if n != other.arity() {
            proof {
                assert(x.args.len() != y.args.len());
            }
            return false;
        }
        let mut i: u128 = 0;
        while i < n
            invariant
                i <= n,
                n == self.term().args.len(),
                n == other.term().args.len(),
                x == crate::term::erase(self.term()),
                y == crate::term::erase(other.term()),
                forall|j: int| 0 <= j < i ==> x.args[j] == y.args[j],
            decreases n - i,
        {
            let c = self.child(i);
            if !c.same_type(other.child(i)) {
                proof {
                    assert(x.args[i as int] != y.args[i as int]);
                }
                return false;
            }
            i += 1;
        }
        proof {
            assert(x.args =~= y.args);
        }
        true
    }

    /// A type with the head of this one and the given components.
    pub fn rebuild(&self, items: Vec<InferType>) -> (r: InferType)
        requires
            items@.len() == self.term().args.len(),
        ensures
            r.term() == (Term { head: self.term().head, args: terms_of(items@) }),
    {
        let mut items = items;
        let ghost all = items@;
        let r = match self {
            InferType::Concrete(t) => InferType::Concrete(t.dup()),
            InferType::Var(v) => InferType::Var(*v),
            InferType::Never => InferType::Never,
            InferType::Tuple(_) => InferType::Tuple(items),
            InferType::Record(fs) => InferType::Record(relabel(fs, items)),
            InferType::Array(_) => InferType::Array(Box::new(items.pop().unwrap())),
            InferType::SizedArray(_, n) => InferType::SizedArray(
                Box::new(items.pop().unwrap()),
                *n,
            ),
            InferType::Reference(_) => InferType::Reference(Box::new(items.pop().unwrap())),
            InferType::MutReference(_) => InferType::MutReference(Box::new(items.pop().unwrap())),
            InferType::Fun(_, _, call, us, mutation) => {
                let ret = items.pop().unwrap();
                InferType::Fun(items, Box::new(ret), *call, *us, *mutation)
            },
            InferType::Named(name, _) => InferType::Named(name.clone(), items),
            InferType::Residual { brand, fields } => InferType::Residual {
                brand: brand.clone(),
                fields: relabel(fields, items),
            },
            InferType::Dyn { aspect, type_args: _ } => InferType::Dyn {
                aspect: aspect.clone(),
                type_args: items,
            },
        };
        proof {
            assert(r.term().args =~= terms_of(all));
        }
        r
    }

    /// The type as it is written in the language.
    pub fn to_string(&self) -> (s: String)
        ensures
            s@ == crate::term::text(self.term()),
        decreases self.term(),
    {
        if let InferType::Concrete(t) = self {
            return t.to_string();
        }
        let ghost want = crate::term::part_texts(self.term());
        let mut parts: Vec<String> = Vec::new();
        let n: u128 = self.arity();
        let mut i: u128 = 0;
        while i < n
            invariant
                i <= n,
                n == self.term().args.len(),
                parts@.len() == i,
                want == crate::term::part_texts(self.term()),
                forall|j: int| 0 <= j < i ==> (#[trigger] parts@[j])@ == want[j],
            decreases n - i,
        {
            let c = self.child(i);
            parts.push(c.to_string());
            i += 1;
        }
        let ghost all = parts.deep_view();
        proof {
            assert(all =~= want);
        }
        match self {
            InferType::Concrete(t) => t.to_string(),
            InferType::Var(v) => v.to_string(),
            InferType::Never => "!".to_owned(),
            InferType::Tuple(_) => list_string("(", &parts, ")"),
            InferType::Record(fs) => fields_string("{ ", fs, &parts),
            InferType::Array(_) => concat(parts[0].as_str(), "[]"),
            InferType::SizedArray(_, n) => sized_array_string(&parts[0], *n),
            InferType::Reference(_) => concat("&", parts[0].as_str()),
            InferType::MutReference(_) => concat("&var ", parts[0].as_str()),
            InferType::Fun(_, _, call, _, mutation) => {
                let ret = parts.pop().unwrap();
                proof {
                    assert(parts.deep_view() =~= want.drop_last());
                }
                fun_string(*call, *mutation, &parts, &ret)
            },
            InferType::Named(name, _) => applied_string(name, &parts),
            InferType::Residual { brand, fields } => fields_string(
                concat(brand.as_str(), ".{ ").as_str(),
                fields,
                &parts,
            ),
            InferType::Dyn { aspect, type_args: _ } => concat(
                "dyn ",
                applied_string(aspect, &parts).as_str(),
            ),
        }
    }
}

impl Dup for InferType {
    fn dup(&self) -> (r: Self)
        decreases self.term(),
    {
        let mut items: Vec<InferType> = Vec::new();
        let n: u128 = self.arity();
        let mut i: u128 = 0;
        while i < n
            invariant
                i <= n,
                n == self.term().args.len(),
                items@.len() == i,
                forall|j: int| 0 <= j < i ==> (#[trigger] items@[j]).term() == self.term().args[j],
            decreases n - i,
        {
            let c = self.child(i);
            items.push(c.dup());
            i += 1;
        }
        proof {
            assert(terms_of(items@) =~= self.term().args);
        }
        self.rebuild(items)
    }
}

impl InferType {
    /// The type of integers that nothing else is known of.
    pub fn integer() -> (r: Self)
        ensures
            r.term() == crate::term::concrete(crate::term::leaf(Head::I64)),
    {
        InferType::Concrete(Type::I64)
    }

    /// The type of floating-point numbers that nothing else is known of.
    pub fn float() -> (r: Self)
        ensures
            r.term() == crate::term::concrete(crate::term::leaf(Head::F64)),
    {
        InferType::Concrete(Type::F64)
    }

    /// The type of truth values.
    pub fn bool() -> (r: Self)
        ensures
            r.term() == crate::term::concrete(crate::term::leaf(Head::Boolean)),
    {
        InferType::Concrete(Type::Boolean)
    }

    /// The type of strings.
    pub fn str() -> (r: Self)
        ensures
            r.term() == crate::term::concrete(crate::term::leaf(Head::Str)),
    {
        InferType::Concrete(Type::Str)
    }

    /// The type of the unit value.
    pub fn unit() -> (r: Self)
        ensures
            r.term() == crate::term::concrete(crate::term::leaf(Head::Unit)),
    {
        InferType::Concrete(Type::Unit)
    }

    /// The bottom type.
    pub fn never() -> (r: Self)
        ensures
            r.term() == crate::term::leaf(Head::Never),
    {
        InferType::Never
    }

    /// A function type that says nothing about how often or how it is called.
    pub fn fun(params: Vec<InferType>, ret: InferType) -> (r: Self)
        ensures
            r.term() == (Term {
                head: Head::Fun(
                    CallMultiplicity::Many,
                    UseMultiplicity::Copy,
                    CallMutation::Reading,
                ),
                args: params.deep_view().push(ret.term()),
            }),
    {
        let ghost want = params.deep_view().push(ret.term());
        let r = InferType::Fun(
            params,
            Box::new(ret),
            CallMultiplicity::Many,
            UseMultiplicity::Copy,
            CallMutation::Reading,
        );
        assert(r.term().args =~= want);
        r
    }

    /// An unknown type.
    pub fn var(v: TypeVar) -> (r: Self)
        ensures
            r.term() == crate::term::var(v),
    {
        InferType::Var(v)
    }
}

impl From<Box<InferType>> for InferType {
    fn from(value: Box<InferType>) -> (r: Self) {
        *value
    }
}

impl vstd::std_specs::convert::FromSpecImpl<Box<InferType>> for InferType {
    open spec fn obeys_from_spec() -> bool {
        true
    }

    open spec fn from_spec(value: Box<InferType>) -> Self {
        *value
    }
}

impl Clone for InferType {
    fn clone(&self) -> (r: Self)
        ensures
            r.term() == self.term(),
    {
        self.dup()
    }
}

} // verus!
