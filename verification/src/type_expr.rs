//! Types as they are written in source text.

use crate::data::Dup;
use crate::spelling::{applied_string, concat, fields_string, list_string};
use crate::text::{decimal_string, join};
use crate::types::{relabel, CallMultiplicity, CallMutation};
use vstd::prelude::*;
use vstd::string::*;

verus! {

/// A type annotation.
#[derive(Debug)]
pub enum TypeExpr {
    Named(String, Vec<TypeExpr>),
    Unit,
    Tuple(Vec<TypeExpr>),
    Record(Vec<(String, TypeExpr)>),
    Array(Box<TypeExpr>),
    SizedArray(Box<TypeExpr>, u64),
    Reference(Box<TypeExpr>),
    MutReference(Box<TypeExpr>),
    Fun {
        params: Vec<TypeExpr>,
        return_type: Option<Box<TypeExpr>>,
        call_multiplicity: CallMultiplicity,
        call_mutation: CallMutation,
    },
    ImplAspect { bound: Box<TypeExpr> },
    Projection { base: Box<TypeExpr>, assoc_name: String },
    RecordProjection { path: Vec<String>, fields: Vec<String> },
    DynAspect { bound: Box<TypeExpr> },
}

/// What kind of annotation an expression is, with its parts that are not
/// annotations. A function says whether its result is written.
pub enum ExprHead {
    Named(Seq<char>),
    Unit,
    Tuple,
    Record(Seq<Seq<char>>),
    Array,
    SizedArray(u64),
    Reference,
    MutReference,
    Fun(CallMultiplicity, CallMutation, bool),
    ImplAspect,
    Projection(Seq<char>),
    RecordProjection(Seq<Seq<char>>, Seq<Seq<char>>),
    DynAspect,
}

/// An annotation: its head and its components. A function's components are its
/// parameters followed by its result, where that is written.
pub struct ExprTerm {
    pub head: ExprHead,
    pub args: Seq<ExprTerm>,
}

impl TypeExpr {
    /// The term that an annotation denotes.
    pub open spec fn term(self) -> ExprTerm
        decreases self,
    {
        match self {
            TypeExpr::Named(name, ts) => ExprTerm {
                head: ExprHead::Named(name@),
                args: Seq::new(
                    ts@.len(),
                    |i: int|
                        if 0 <= i < ts@.len() {
                            ts@[i].term()
                        } else {
                            arbitrary()
                        },
                ),
            },
            TypeExpr::Unit => ExprTerm { head: ExprHead::Unit, args: Seq::empty() },
            TypeExpr::Tuple(ts) => ExprTerm {
                head: ExprHead::Tuple,
                args: Seq::new(
                    ts@.len(),
                    |i: int|
                        if 0 <= i < ts@.len() {
                            ts@[i].term()
                        } else {
                            arbitrary()
                        },
                ),
            },
            TypeExpr::Record(fs) => ExprTerm {
                head: ExprHead::Record(crate::types::labels_of(fs@)),
                args: Seq::new(
                    fs@.len(),
                    |i: int|
                        if 0 <= i < fs@.len() {
                            fs@[i].1.term()
                        } else {
                            arbitrary()
                        },
                ),
            },
            TypeExpr::Array(t) => ExprTerm { head: ExprHead::Array, args: seq![t.term()] },
            TypeExpr::SizedArray(t, n) => ExprTerm {
                head: ExprHead::SizedArray(n),
                args: seq![t.term()],
            },
            TypeExpr::Reference(t) => ExprTerm {
                head: ExprHead::Reference,
                args: seq![t.term()],
            },
            TypeExpr::MutReference(t) => ExprTerm {
                head: ExprHead::MutReference,
                args: seq![t.term()],
            },
            TypeExpr::Fun { params, return_type, call_multiplicity, call_mutation } => {
                let ps = Seq::new(
                    params@.len(),
                    |i: int|
                        if 0 <= i < params@.len() {
                            params@[i].term()
                        } else {
                            arbitrary()
                        },
                );
                ExprTerm {
                    head: ExprHead::Fun(call_multiplicity, call_mutation, return_type is Some),
                    args: match return_type {
                        Some(r) => ps.push(r.term()),
                        None => ps,
                    },
                }
            },
            TypeExpr::ImplAspect { bound } => ExprTerm {
                head: ExprHead::ImplAspect,
                args: seq![bound.term()],
            },
            TypeExpr::Projection { base, assoc_name } => ExprTerm {
                head: ExprHead::Projection(assoc_name@),
                args: seq![base.term()],
            },
            TypeExpr::RecordProjection { path, fields } => ExprTerm {
                head: ExprHead::RecordProjection(path.deep_view(), fields.deep_view()),
                args: Seq::empty(),
            },
            TypeExpr::DynAspect { bound } => ExprTerm {
                head: ExprHead::DynAspect,
                args: seq![bound.term()],
            },
        }
    }
}

/// The terms that a list of annotations denotes.
pub open spec fn expr_terms_of(ts: Seq<TypeExpr>) -> Seq<ExprTerm> {
    Seq::new(ts.len(), |i: int| ts[i].term())
}

impl DeepView for TypeExpr {
    type V = ExprTerm;

    open spec fn deep_view(&self) -> ExprTerm {
        self.term()
    }
}

/// How an annotation is written, from its head and its components as they are
/// written.
pub open spec fn expr_frame(head: ExprHead, parts: Seq<Seq<char>>) -> Seq<char> {
    match head {
        ExprHead::Named(name) => crate::term::applied(name, parts),
        ExprHead::Unit => "unit"@,
        ExprHead::Tuple => "("@ + crate::text::joined(parts, ", "@) + ")"@,
        ExprHead::Record(labels) => "{ "@ + crate::text::joined(
            crate::term::labelled(labels, parts),
            ", "@,
        ) + " }"@,
        ExprHead::Array => parts[0] + "[]"@,
        ExprHead::SizedArray(n) => parts[0] + "["@ + crate::text::decimal(n as nat) + "]"@,
        ExprHead::Reference => "&"@ + parts[0],
        ExprHead::MutReference => "&var "@ + parts[0],
        ExprHead::Fun(call, mutation, has_result) => (if call == CallMultiplicity::Once {
            "once "@
        } else {
            ""@
        }) + (if mutation == CallMutation::Mutating {
            "var "@
        } else {
            ""@
        }) + if has_result {
            "("@ + crate::text::joined(parts.drop_last(), ", "@) + ")"@ + " -> "@ + parts.last()
        } else {
            "("@ + crate::text::joined(parts, ", "@) + ")"@
        },
        ExprHead::ImplAspect => "impl "@ + parts[0],
        ExprHead::Projection(name) => parts[0] + "::"@ + name,
        ExprHead::RecordProjection(path, fields) => crate::text::joined(path, "::"@) + ".{ "@
            + crate::text::joined(fields, ", "@) + " }"@,
        ExprHead::DynAspect => "dyn "@ + parts[0],
    }
}

/// How an annotation is written.
pub open spec fn expr_text(t: ExprTerm) -> Seq<char>
    decreases t, 1int,
{
    expr_frame(t.head, expr_part_texts(t))
}

/// The components of an annotation as they are written.
pub open spec fn expr_part_texts(t: ExprTerm) -> Seq<Seq<char>>
    decreases t, 0int,
{
    Seq::new(
        t.args.len(),
        |i: int|
            if 0 <= i < t.args.len() {
                expr_text(t.args[i])
            } else {
                arbitrary()
            },
    )
}

impl TypeExpr {
    /// The number of components.
    pub fn arity(&self) -> (n: u128)
        ensures
            n == self.term().args.len(),
    {
        match self {
            TypeExpr::Named(_, ts) => ts.len() as u128,
            TypeExpr::Unit => 0,
            TypeExpr::Tuple(ts) => ts.len() as u128,
            TypeExpr::Record(fs) => fs.len() as u128,
            TypeExpr::Array(_) | TypeExpr::SizedArray(_, _) | TypeExpr::Reference(_)
            | TypeExpr::MutReference(_) => 1,
            TypeExpr::Fun { params, return_type, call_multiplicity: _, call_mutation: _ } => {
                match return_type {
                    Some(_) => params.len() as u128 + 1,
                    None => params.len() as u128,
                }
            },
            TypeExpr::ImplAspect { bound: _ } => 1,
            TypeExpr::Projection { base: _, assoc_name: _ } => 1,
            TypeExpr::RecordProjection { path: _, fields: _ } => 0,
            TypeExpr::DynAspect { bound: _ } => 1,
        }
    }

    /// The component at a position.
    pub fn child(&self, i: u128) -> (c: &TypeExpr)
        requires
            i < self.term().args.len(),
        ensures
            c.term() == self.term().args[i as int],
    {
        match self {
            TypeExpr::Named(_, ts) => {
                assert(ts.len() <= usize::MAX);
                &ts[i as usize]
            },
            TypeExpr::Tuple(ts) => {
                assert(ts.len() <= usize::MAX);
                &ts[i as usize]
            },
            TypeExpr::Record(fs) => {
                assert(fs.len() <= usize::MAX);
                &fs[i as usize].1
            },
            TypeExpr::Array(t) => &**t,
            TypeExpr::SizedArray(t, _) => &**t,
            TypeExpr::Reference(t) => &**t,
            TypeExpr::MutReference(t) => &**t,
            TypeExpr::Fun { params, return_type, call_multiplicity: _, call_mutation: _ } => {
                if i < params.len() as u128 {
                    &params[i as usize]
                } else {
                    match return_type {
                        Some(r) => &**r,
                        None => self,
                    }
                }
            },
            TypeExpr::ImplAspect { bound } => &**bound,
            TypeExpr::Projection { base, assoc_name: _ } => &**base,
            TypeExpr::DynAspect { bound } => &**bound,
            _ => self,
        }
    }

    /// An annotation with the head of this one and the given components.
    fn rebuild(&self, items: Vec<TypeExpr>) -> (r: TypeExpr)
        requires
            items@.len() == self.term().args.len(),
        ensures
            r.term() == (ExprTerm { head: self.term().head, args: expr_terms_of(items@) }),
    {
        let mut items = items;
        let ghost all = items@;
        let r = match self {
            TypeExpr::Named(name, _) => TypeExpr::Named(name.clone(), items),
            TypeExpr::Unit => TypeExpr::Unit,
            TypeExpr::Tuple(_) => TypeExpr::Tuple(items),
            TypeExpr::Record(fs) => TypeExpr::Record(relabel(fs, items)),
            TypeExpr::Array(_) => TypeExpr::Array(Box::new(items.pop().unwrap())),
            TypeExpr::SizedArray(_, n) => TypeExpr::SizedArray(
                Box::new(items.pop().unwrap()),
                *n,
            ),
            TypeExpr::Reference(_) => TypeExpr::Reference(Box::new(items.pop().unwrap())),
            TypeExpr::MutReference(_) => TypeExpr::MutReference(Box::new(items.pop().unwrap())),
            TypeExpr::Fun { params: _, return_type, call_multiplicity, call_mutation } => {
                let ret = match return_type {
                    Some(_) => Some(Box::new(items.pop().unwrap())),
                    None => None,
                };
                TypeExpr::Fun {
                    params: items,
                    return_type: ret,
                    call_multiplicity: *call_multiplicity,
                    call_mutation: *call_mutation,
                }
            },
            TypeExpr::ImplAspect { bound: _ } => TypeExpr::ImplAspect {
                bound: Box::new(items.pop().unwrap()),
            },
            TypeExpr::Projection { base: _, assoc_name } => TypeExpr::Projection {
                base: Box::new(items.pop().unwrap()),
                assoc_name: assoc_name.clone(),
            },
            TypeExpr::RecordProjection { path, fields } => TypeExpr::RecordProjection {
                path: path.dup(),
                fields: fields.dup(),
            },
            TypeExpr::DynAspect { bound: _ } => TypeExpr::DynAspect {
                bound: Box::new(items.pop().unwrap()),
            },
        };
        proof {
            assert(r.term().args =~= expr_terms_of(all));
        }
        r
    }

    /// The annotation as it is written.
    pub fn to_string(&self) -> (s: String)
        ensures
            s@ == expr_text(self.term()),
        decreases self.term(),
    {
        let ghost want = expr_part_texts(self.term());
        let mut parts: Vec<String> = Vec::new();
        let n: u128 = self.arity();
        let mut i: u128 = 0;
        while i < n
            invariant
                i <= n,
                n == self.term().args.len(),
                parts@.len() == i,
                want == expr_part_texts(self.term()),
                forall|j: int| 0 <= j < i ==> (#[trigger] parts@[j])@ == want[j],
            decreases n - i,
        {
            let c = self.child(i);
            parts.push(c.to_string());
            i += 1;
        }
        proof {
            assert(parts.deep_view() =~= want);
        }
        self.spell(parts)
    }

    /// The annotation as it is written, from its components as they are written.
    pub fn spell(&self, parts: Vec<String>) -> (s: String)
        requires
            parts@.len() == self.term().args.len(),
        ensures
            s@ == expr_frame(self.term().head, parts.deep_view()),
    {
        let mut parts = parts;
        let ghost want = parts.deep_view();
        assert(want.len() == parts@.len());
        match self {
            TypeExpr::Named(name, _) => applied_string(name, &parts),
            TypeExpr::Unit => "unit".to_owned(),
            TypeExpr::Tuple(_) => list_string("(", &parts, ")"),
            TypeExpr::Record(fs) => fields_string("{ ", fs, &parts),
            TypeExpr::Array(_) => concat(parts[0].as_str(), "[]"),
            TypeExpr::SizedArray(_, n) => {
                let mut s = parts[0].clone();
                s.append("[");
                s.append(decimal_string(*n as u128).as_str());
                s.append("]");
                s
            },
            TypeExpr::Reference(_) => concat("&", parts[0].as_str()),
            TypeExpr::MutReference(_) => concat("&var ", parts[0].as_str()),
            TypeExpr::Fun { params: _, return_type, call_multiplicity, call_mutation } => {
                let mut s = concat(
                    if *call_multiplicity == CallMultiplicity::Once {
                        "once "
                    } else {
                        ""
                    },
                    if *call_mutation == CallMutation::Mutating {
                        "var "
                    } else {
                        ""
                    },
                );
                match return_type {
                    Some(_) => {
                        let ret = parts.pop().unwrap();
                        proof {
                            assert(parts.deep_view() =~= want.drop_last());
                        }
                        let mut tail = list_string("(", &parts, ")");
                        tail.append(" -> ");
                        tail.append(ret.as_str());
                        s.append(tail.as_str());
                    },
                    None => {
                        s.append(list_string("(", &parts, ")").as_str());
                    },
                }
                s
            },
            TypeExpr::ImplAspect { bound: _ } => concat("impl ", parts[0].as_str()),
            TypeExpr::Projection { base: _, assoc_name } => {
                let mut s = concat(parts[0].as_str(), "::");
                s.append(assoc_name.as_str());
                s
            },
            TypeExpr::RecordProjection { path, fields } => {
                let mut s = join(path, "::");
                s.append(".{ ");
                s.append(join(fields, ", ").as_str());
                s.append(" }");
                s
            },
            TypeExpr::DynAspect { bound: _ } => concat("dyn ", parts[0].as_str()),
        }
    }
}

impl Dup for TypeExpr {
    fn dup(&self) -> (r: Self)
        decreases self.term(),
    {
        let mut items: Vec<TypeExpr> = Vec::new();
        let n: u128 = self.arity();
        let mut i: u128 = 0;
        while i < n
            invariant
                i <= n,
                n == self.term().args.len(),
                items@.len() == i,
                forall|j: int| 0 <= j < i ==> (#[trigger] items@[j]).term() == self.term().args[j],
            decreases n - i,
        {
            let c = self.child(i);
            items.push(c.dup());
            i += 1;
        }
        proof {
            assert(expr_terms_of(items@) =~= self.term().args);
        }
        self.rebuild(items)
    }
}

impl Clone for TypeExpr {
    fn clone(&self) -> (r: Self)
        ensures
            r.term() == self.term(),
    {
        self.dup()
    }
}

} // verus!
