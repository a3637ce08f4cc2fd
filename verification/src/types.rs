//! Resolved types, as the type checker hands them to the evaluator.

use crate::data::{Dup, Same};
use crate::symbols::SymbolId;
use crate::term::{Head, Term};
use crate::spelling::{
    applied_string, concat, fields_string, fun_string, list_string, sized_array_string,
};
use vstd::prelude::*;
use vstd::string::*;

verus! {

/// A nominal type's resolved declaration identity, carried on `Type::Named`
/// as metadata. Two types that name the same spelling are the same type
/// whatever is known of their identities. `None` says that the identity is
/// not resolved.
#[derive(Debug, Clone, Copy)]
pub struct NominalId(pub Option<SymbolId>);

/// How often a function value may be called.
#[derive(Debug, Clone, Copy, PartialEq, Eq, Hash, Structural)]
pub enum CallMultiplicity {
    Once,
    Many,
}

/// Whether using a function value moves it.
#[derive(Debug, Clone, Copy, PartialEq, Eq, Hash, Structural)]
pub enum UseMultiplicity {
    Move,
    Copy,
}

/// Whether calling a function value may change what it captured.
#[derive(Debug, Clone, Copy, PartialEq, Eq, Hash, Structural)]
pub enum CallMutation {
    Reading,
    Mutating,
}

/// Resolved types. No type variables exist here; generics have been
/// monomorphised.
#[derive(Debug)]
pub enum Type {
    Boolean,
    Str,
    Char,
    Unit,
    /// The bottom type `!`, the type of expressions that never return.
    Never,
    I8,
    I16,
    I32,
    I64,
    U8,
    U16,
    U32,
    U64,
    F32,
    F64,
    Tuple(Vec<Type>),
    Record(Vec<(String, Type)>),
    Array(Box<Type>),
    SizedArray(Box<Type>, u64),
    Reference(Box<Type>),
    MutReference(Box<Type>),
    Fun(Vec<Type>, Box<Type>, CallMultiplicity, UseMultiplicity, CallMutation),
    /// A struct or enum with concrete type arguments.
    Named(String, Vec<Type>, NominalId),
    /// A struct of which only some fields are left, with its brand. The fields
    /// are sorted by label.
    Residual { brand: String, fields: Vec<(String, Type)> },
    /// `dyn Aspect`: a value of some type that implements the aspect. Which type that
    /// is, is erased: this unifies only with `dyn` of the same aspect and arguments,
    /// never with a type that implements it.
    Dyn { aspect: String, type_args: Vec<Type> },
}

/// The labels of a list of fields.
pub open spec fn labels_of<T>(fs: Seq<(String, T)>) -> Seq<Seq<char>> {
    Seq::new(fs.len(), |i: int| fs[i].0@)
}

impl Type {
    /// The term that a type denotes.
    pub open spec fn term(self) -> Term
        decreases self,
    {
        match self {
            Type::Boolean => crate::term::leaf(Head::Boolean),
            Type::Str => crate::term::leaf(Head::Str),
            Type::Char => crate::term::leaf(Head::Char),
            Type::Unit => crate::term::leaf(Head::Unit),
            Type::Never => crate::term::leaf(Head::Never),
            Type::I8 => crate::term::leaf(Head::I8),
            Type::I16 => crate::term::leaf(Head::I16),
            Type::I32 => crate::term::leaf(Head::I32),
            Type::I64 => crate::term::leaf(Head::I64),
            Type::U8 => crate::term::leaf(Head::U8),
            Type::U16 => crate::term::leaf(Head::U16),
            Type::U32 => crate::term::leaf(Head::U32),
            Type::U64 => crate::term::leaf(Head::U64),
            Type::F32 => crate::term::leaf(Head::F32),
            Type::F64 => crate::term::leaf(Head::F64),
            Type::Tuple(ts) => Term { head: Head::Tuple, args: Seq::new(
                    ts@.len(),
                    |i: int|
                        if 0 <= i < ts@.len() {
                            ts@[i].term()
                        } else {
                            arbitrary()
                        },
                ) },
            Type::Record(fs) => Term {
                head: Head::Record(labels_of(fs@)),
                args: Seq::new(
                    fs@.len(),
                    |i: int|
                        if 0 <= i < fs@.len() {
                            fs@[i].1.term()
                        } else {
                            arbitrary()
                        },
                ),
            },
            Type::Array(t) => Term { head: Head::Array, args: seq![t.term()] },
            Type::SizedArray(t, n) => Term { head: Head::SizedArray(n), args: seq![t.term()] },
            Type::Reference(t) => Term { head: Head::Reference, args: seq![t.term()] },
            Type::MutReference(t) => Term { head: Head::MutReference, args: seq![t.term()] },
            Type::Fun(ps, r, call, us, mutation) => Term {
                head: Head::Fun(call, us, mutation),
                args: Seq::new(
                    ps@.len(),
                    |i: int|
                        if 0 <= i < ps@.len() {
                            ps@[i].term()
                        } else {
                            arbitrary()
                        },
                ).push(r.term()),
            },
            Type::Named(name, ts, id) => Term {
                head: Head::Named(name@, id.0),
                args: Seq::new(
                    ts@.len(),
                    |i: int|
                        if 0 <= i < ts@.len() {
                            ts@[i].term()
                        } else {
                            arbitrary()
                        },
                ),
            },
            Type::Residual { brand, fields } => Term {
                head: Head::Residual(brand@, labels_of(fields@)),
                args: Seq::new(
                    fields@.len(),
                    |i: int|
                        if 0 <= i < fields@.len() {
                            fields@[i].1.term()
                        } else {
                            arbitrary()
                        },
                ),
            },
            Type::Dyn { aspect, type_args } => Term {
                head: Head::Dyn(aspect@),
                args: Seq::new(
                    type_args@.len(),
                    |i: int|
                        if 0 <= i < type_args@.len() {
                            type_args@[i].term()
                        } else {
                            arbitrary()
                        },
                ),
            },
        }
    }
}


/// The terms that a list of types denotes.
pub open spec fn terms_of(ts: Seq<Type>) -> Seq<Term> {
    Seq::new(ts.len(), |i: int| ts[i].term())
}

impl DeepView for Type {
    type V = Term;

    open spec fn deep_view(&self) -> Term {
        self.term()
    }
}

/// Whether two lists of fields have the same labels in the same order.
pub fn same_labels<T>(a: &Vec<(String, T)>, b: &Vec<(String, T)>) -> (r: bool)
    ensures
        r == (labels_of(a@) == labels_of(b@)),
{
    if a.len() != b.len() {
        proof {
            assert(labels_of(a@).len() != labels_of(b@).len());
        }
        return false;
    }
    let mut i: usize = 0;
    while i < a.len()
        invariant
            i <= a.len(),
            a.len() == b.len(),
            forall|j: int| 0 <= j < i ==> labels_of(a@)[j] == labels_of(b@)[j],
        decreases a.len() - i,
    {
        if a[i].0 != b[i].0 {
            proof {
                assert(labels_of(a@)[i as int] != labels_of(b@)[i as int]);
            }
            return false;
        }
        i += 1;
    }
    proof {
        assert(labels_of(a@) =~= labels_of(b@));
    }
    true
}

/// New fields with the labels of `fields` and the given contents.
pub fn relabel<T>(fields: &Vec<(String, T)>, items: Vec<T>) -> (r: Vec<(String, T)>)
    requires
        fields@.len() == items@.len(),
    ensures
        r@.len() == items@.len(),
        labels_of(r@) == labels_of(fields@),
        forall|i: int| 0 <= i < r@.len() ==> (#[trigger] r@[i]).1 == items@[i],
{
    let mut out: Vec<(String, T)> = Vec::new();
    let mut rest = items;
    let mut back: Vec<T> = Vec::new();
    let n: usize = rest.len();
    while rest.len() > 0
        invariant
            rest@.len() + back@.len() == n,
            n == items@.len(),
            forall|j: int| 0 <= j < rest@.len() ==> rest@[j] == items@[j],
            forall|j: int| 0 <= j < back@.len() ==> back@[j] == items@[n - 1 - j],
        decreases rest@.len(),
    {
        let x = rest.pop().unwrap();
        back.push(x);
    }
    let mut i: usize = 0;
    while i < n
        invariant
            i <= n,
            n == items@.len(),
            fields@.len() == n,
            out@.len() == i,
            back@.len() == n - i,
            forall|j: int| 0 <= j < back@.len() ==> back@[j] == items@[n - 1 - j],
            forall|j: int|
                0 <= j < i ==> (#[trigger] out@[j]).0@ == fields@[j].0@ && out@[j].1 == items@[j],
        decreases n - i,
    {
        let x = back.pop().unwrap();
        out.push((fields[i].0.clone(), x));
        i += 1;
    }
    proof {
        assert(labels_of(out@) =~= labels_of(fields@));
    }
    out
}

impl Type {
    /// The number of component types.
    pub fn arity(&self) -> (n: u128)
        ensures
            n == self.term().args.len(),
    {
        match self {
            Type::Tuple(ts) => ts.len() as u128,
            Type::Record(fs) => fs.len() as u128,
            Type::Array(_) | Type::SizedArray(_, _) | Type::Reference(_) | Type::MutReference(
                _,
            ) => 1,
            Type::Fun(ps, _, _, _, _) => ps.len() as u128 + 1,
            Type::Named(_, ts, _) => ts.len() as u128,
            Type::Residual { brand: _, fields } => fields.len() as u128,
            Type::Dyn { aspect: _, type_args } => type_args.len() as u128,
            _ => 0,
        }
    }

    /// The component type at a position.
    pub fn child(&self, i: u128) -> (c: &Type)
        requires
            i < self.term().args.len(),
        ensures
            c.term() == self.term().args[i as int],
    {
        match self {
            Type::Tuple(ts) => {
                assert(ts.len() <= usize::MAX);
                let c = &ts[i as usize];
                c
            },
            Type::Record(fs) => {
                assert(fs.len() <= usize::MAX);
                let c = &fs[i as usize].1;
                c
            },
            Type::Array(t) => &**t,
            Type::SizedArray(t, _) => &**t,
            Type::Reference(t) => &**t,
            Type::MutReference(t) => &**t,
            Type::Fun(ps, r, _, _, _) => {
                if i < ps.len() as u128 {
                    &ps[i as usize]
                } else {
                    &**r
                }
            },
            Type::Named(_, ts, _) => {
                assert(ts.len() <= usize::MAX);
                let c = &ts[i as usize];
                c
            },
            Type::Residual { brand: _, fields } => {
                assert(fields.len() <= usize::MAX);
                let c = &fields[i as usize].1;
                c
            },
            Type::Dyn { aspect: _, type_args } => {
                assert(type_args.len() <= usize::MAX);
                let c = &type_args[i as usize];
                c
            },
            _ => self,
        }
    }

    /// Whether two types have the same head, whatever is known of identities.
    fn same_head(&self, other: &Type) -> (b: bool)
        ensures
            b == (crate::term::erase_head(self.term().head) == crate::term::erase_head(
                other.term().head,
            )),
    {
        match (self, other) {
            (Type::Boolean, Type::Boolean) => true,
            (Type::Str, Type::Str) => true,
            (Type::Char, Type::Char) => true,
            (Type::Unit, Type::Unit) => true,
            (Type::Never, Type::Never) => true,
            (Type::I8, Type::I8) => true,
            (Type::I16, Type::I16) => true,
            (Type::I32, Type::I32) => true,
            (Type::I64, Type::I64) => true,
            (Type::U8, Type::U8) => true,
            (Type::U16, Type::U16) => true,
            (Type::U32, Type::U32) => true,
            (Type::U64, Type::U64) => true,
            (Type::F32, Type::F32) => true,
            (Type::F64, Type::F64) => true,
            (Type::Tuple(_), Type::Tuple(_)) => true,
            (Type::Record(a), Type::Record(b)) => same_labels(a, b),
            (Type::Array(_), Type::Array(_)) => true,
            (Type::SizedArray(_, m), Type::SizedArray(_, n)) => *m == *n,
            (Type::Reference(_), Type::Reference(_)) => true,
            (Type::MutReference(_), Type::MutReference(_)) => true,
            (Type::Fun(_, _, c1, u1, m1), Type::Fun(_, _, c2, u2, m2)) => *c1 == *c2 && *u1 == *u2
                && *m1 == *m2,
            (Type::Named(a, _, _), Type::Named(b, _, _)) => *a == *b,
            (
                Type::Residual { brand: a, fields: fa },
                Type::Residual { brand: b, fields: fb },
            ) => *a == *b && same_labels(fa, fb),
            (
                Type::Dyn { aspect: a, type_args: _ },
                Type::Dyn { aspect: b, type_args: _ },
            ) => *a == *b,
            _ => false,
        }
    }

    /// Whether two types are equal. The identities of named declarations do
    /// not count.
    pub fn same_type(&self, other: &Type) -> (b: bool)
        ensures
            b == (crate::term::erase(self.term()) == crate::term::erase(other.term())),
        decreases self.term(),
    {
        let ghost x = crate::term::erase(self.term());
        let ghost y = crate::term::erase(other.term());
        let n: u128 = self.arity();
        if !self.same_head(other) {
            return false;
        }
        if n != other.arity() {
            proof {
                assert(x.args.len() != y.args.len());
            }
            return false;
        }
        let mut i: u128 = 0;
        while i < n
            invariant
                i <= n,
                n == self.term().args.len(),
                n == other.term().args.len(),
                x == crate::term::erase(self.term()),
                y == crate::term::erase(other.term()),
                forall|j: int| 0 <= j < i ==> x.args[j] == y.args[j],
            decreases n - i,
        {
            let c = self.child(i);
            if !c.same_type(other.child(i)) {
                proof {
                    assert(x.args[i as int] != y.args[i as int]);
                }
                return false;
            }
            i += 1;
        }
        proof {
            assert(x.args =~= y.args);
        }
        true
    }

    /// A type with the head of this one and the given components.
    fn rebuild(&self, items: Vec<Type>) -> (r: Type)
        requires
            items@.len() == self.term().args.len(),
        ensures
            r.term() == (Term { head: self.term().head, args: terms_of(items@) }),
    {
        let mut items = items;
        let ghost all = items@;
        let r = match self {
            Type::Boolean => Type::Boolean,
            Type::Str => Type::Str,
            Type::Char => Type::Char,
            Type::Unit => Type::Unit,
            Type::Never => Type::Never,
            Type::I8 => Type::I8,
            Type::I16 => Type::I16,
            Type::I32 => Type::I32,
            Type::I64 => Type::I64,
            Type::U8 => Type::U8,
            Type::U16 => Type::U16,
            Type::U32 => Type::U32,
            Type::U64 => Type::U64,
            Type::F32 => Type::F32,
            Type::F64 => Type::F64,
            Type::Tuple(_) => Type::Tuple(items),
            Type::Record(fs) => Type::Record(relabel(fs, items)),
            Type::Array(_) => Type::Array(Box::new(items.pop().unwrap())),
            Type::SizedArray(_, n) => Type::SizedArray(Box::new(items.pop().unwrap()), *n),
            Type::Reference(_) => Type::Reference(Box::new(items.pop().unwrap())),
            Type::MutReference(_) => Type::MutReference(Box::new(items.pop().unwrap())),
            Type::Fun(_, _, call, us, mutation) => {
                let ret = items.pop().unwrap();
                Type::Fun(items, Box::new(ret), *call, *us, *mutation)
            },
            Type::Named(name, _, id) => Type::Named(name.clone(), items, *id),
            Type::Residual { brand, fields } => Type::Residual {
                brand: brand.clone(),
                fields: relabel(fields, items),
            },
            Type::Dyn { aspect, type_args: _ } => Type::Dyn {
                aspect: aspect.clone(),
                type_args: items,
            },
        };
        proof {
            assert(r.term().args =~= terms_of(all));
        }
        r
    }

    /// The type as it is written in the language.
    pub fn to_string(&self) -> (s: String)
        ensures
            s@ == crate::term::text(self.term()),
        decreases self.term(),
    {
        let ghost want = crate::term::part_texts(self.term());
        let mut parts: Vec<String> = Vec::new();
        let n: u128 = self.arity();
        let mut i: u128 = 0;
        while i < n
            invariant
                i <= n,
                n == self.term().args.len(),
                parts@.len() == i,
                want == crate::term::part_texts(self.term()),
                forall|j: int| 0 <= j < i ==> (#[trigger] parts@[j])@ == want[j],
            decreases n - i,
        {
            let c = self.child(i);
            parts.push(c.to_string());
            i += 1;
        }
        let ghost all = parts.deep_view();
        proof {
            assert(all =~= want);
        }
        match self {
            Type::Boolean => "boolean".to_owned(),
            Type::Str => "String".to_owned(),
            Type::Char => "Char".to_owned(),
            Type::Unit => "()".to_owned(),
            Type::Never => "!".to_owned(),
            Type::I8 => "i8".to_owned(),
            Type::I16 => "i16".to_owned(),
            Type::I32 => "i32".to_owned(),
            Type::I64 => "i64".to_owned(),
            Type::U8 => "u8".to_owned(),
            Type::U16 => "u16".to_owned(),
            Type::U32 => "u32".to_owned(),
            Type::U64 => "u64".to_owned(),
            Type::F32 => "f32".to_owned(),
            Type::F64 => "f64".to_owned(),
            Type::Tuple(_) => list_string("(", &parts, ")"),
            Type::Record(fs) => fields_string("{ ", fs, &parts),
            Type::Array(_) => concat(parts[0].as_str(), "[]"),
            Type::SizedArray(_, n) => sized_array_string(&parts[0], *n),
            Type::Reference(_) => concat("&", parts[0].as_str()),
            Type::MutReference(_) => concat("&var ", parts[0].as_str()),
            Type::Fun(_, _, call, _, mutation) => {
                let ret = parts.pop().unwrap();
                proof {
                    assert(parts.deep_view() =~= want.drop_last());
                }
                fun_string(*call, *mutation, &parts, &ret)
            },
            Type::Named(name, _, _) => applied_string(name, &parts),
            Type::Residual { brand, fields } => fields_string(
                concat(brand.as_str(), ".{ ").as_str(),
                fields,
                &parts,
            ),
            Type::Dyn { aspect, type_args: _ } => concat(
                "dyn ",
                applied_string(aspect, &parts).as_str(),
            ),
        }
    }
}

impl Dup for Type {
    fn dup(&self) -> (r: Self)
        decreases self.term(),
    {
        let mut items: Vec<Type> = Vec::new();
        let n: u128 = self.arity();
        let mut i: u128 = 0;
        while i < n
            invariant
                i <= n,
                n == self.term().args.len(),
                items@.len() == i,
                forall|j: int| 0 <= j < i ==> (#[trigger] items@[j]).term() == self.term().args[j],
            decreases n - i,
        {
            let c = self.child(i);
            items.push(c.dup());
            i += 1;
        }
        proof {
            assert(terms_of(items@) =~= self.term().args);
        }
        self.rebuild(items)
    }
}


impl Clone for Type {
    fn clone(&self) -> (r: Self)
        ensures
            r.term() == self.term(),
    {
        self.dup()
    }
}

impl NominalId {
    pub fn some(id: SymbolId) -> (r: Self)
        ensures
            r.0 == Some(id),
    {
        NominalId(Some(id))
    }

    pub fn get(&self) -> (r: Option<SymbolId>)
        ensures
            r == self.0,
    {
        self.0
    }
}

impl Default for NominalId {
    fn default() -> (r: Self)
        ensures
            r.0 == None::<SymbolId>,
    {
        NominalId(None)
    }
}

impl PartialEq for NominalId {
    fn eq(&self, _other: &Self) -> (b: bool) {
        true
    }
}

impl vstd::std_specs::cmp::PartialEqSpecImpl for NominalId {
    open spec fn obeys_eq_spec() -> bool {
        true
    }

    open spec fn eq_spec(&self, _other: &Self) -> bool {
        true
    }
}

impl From<Option<SymbolId>> for NominalId {
    fn from(id: Option<SymbolId>) -> (r: Self) {
        NominalId(id)
    }
}

impl vstd::std_specs::convert::FromSpecImpl<Option<SymbolId>> for NominalId {
    open spec fn obeys_from_spec() -> bool {
        true
    }

    open spec fn from_spec(id: Option<SymbolId>) -> Self {
        NominalId(id)
    }
}

impl Default for CallMultiplicity {
    fn default() -> (r: Self)
        ensures
            r == CallMultiplicity::Many,
    {
        CallMultiplicity::Many
    }
}

impl Default for UseMultiplicity {
    fn default() -> (r: Self)
        ensures
            r == UseMultiplicity::Move,
    {
        UseMultiplicity::Move
    }
}

impl Default for CallMutation {
    fn default() -> (r: Self)
        ensures
            r == CallMutation::Reading,
    {
        CallMutation::Reading
    }
}

/// A function that may be called and copied freely.
pub fn default_fun_type(params: Vec<Type>, ret: Type) -> (r: Type)
    ensures
        r.term() == (Term {
            head: Head::Fun(
                CallMultiplicity::Many,
                UseMultiplicity::Copy,
                CallMutation::Reading,
            ),
            args: terms_of(params@).push(ret.term()),
        }),
{
    let r = Type::Fun(
        params,
        Box::new(ret),
        CallMultiplicity::Many,
        UseMultiplicity::Copy,
        CallMutation::Reading,
    );
    proof {
        assert(r.term().args =~= terms_of(params@).push(ret.term()));
    }
    r
}

impl Type {
    /// Returns true if this is any integer type (signed or unsigned, any width).
    pub fn is_integer(&self) -> (b: bool)
        ensures
            b == crate::term::integer_head(self.term().head),
    {
        match self {
            Type::I64 | Type::I8 | Type::I16 | Type::I32 | Type::U8 | Type::U16 | Type::U32
            | Type::U64 => true,
            _ => false,
        }
    }

    /// Returns true if this is any float type.
    pub fn is_float(&self) -> (b: bool)
        ensures
            b == crate::term::float_head(self.term().head),
    {
        match self {
            Type::F64 | Type::F32 => true,
            _ => false,
        }
    }

    /// Returns true if this is any numeric type (integer or float).
    pub fn is_numeric(&self) -> (b: bool)
        ensures
            b == (crate::term::integer_head(self.term().head) || crate::term::float_head(
                self.term().head,
            )),
    {
        self.is_integer() || self.is_float()
    }
}

} // verus!
