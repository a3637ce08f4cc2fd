//! Bounds on type parameters, as the type checker keeps them.

use crate::ast::{Bound, BoundHead, BoundHeadModel, RowBound, RowModel};
use crate::data::Dup;
use crate::text::join;
use crate::type_expr::{ExprTerm, TypeExpr};
use vstd::prelude::*;
use vstd::string::*;

verus! {

#[derive(Debug)]
pub enum GenericBound {
    Aspect(String),
    Row(RowConstraint),
}

#[derive(Debug)]
pub struct RowConstraint {
    pub fields: Vec<RowConstraintField>,
    pub open: bool,
}

#[derive(Debug)]
pub struct RowConstraintField {
    pub label: String,
    pub ty: Option<TypeExpr>,
}

/// What a bound demands: an aspect, or a row of fields.
pub enum BoundModel {
    Aspect(Seq<char>),
    Row(RowModel),
}

impl DeepView for RowConstraintField {
    type V = (Seq<char>, Option<ExprTerm>);

    open spec fn deep_view(&self) -> (Seq<char>, Option<ExprTerm>) {
        (self.label@, self.ty.deep_view())
    }
}

impl Dup for RowConstraintField {
    fn dup(&self) -> (r: Self) {
        RowConstraintField { label: self.label.clone(), ty: self.ty.dup() }
    }
}

impl DeepView for RowConstraint {
    type V = RowModel;

    open spec fn deep_view(&self) -> RowModel {
        RowModel { fields: self.fields.deep_view(), open: self.open }
    }
}

impl Dup for RowConstraint {
    fn dup(&self) -> (r: Self) {
        RowConstraint { fields: self.fields.dup(), open: self.open }
    }
}

impl DeepView for GenericBound {
    type V = BoundModel;

    open spec fn deep_view(&self) -> BoundModel {
        match self {
            GenericBound::Aspect(name) => BoundModel::Aspect(name@),
            GenericBound::Row(row) => BoundModel::Row(row.deep_view()),
        }
    }
}

impl Dup for GenericBound {
    fn dup(&self) -> (r: Self) {
        match self {
            GenericBound::Aspect(name) => GenericBound::Aspect(name.clone()),
            GenericBound::Row(row) => GenericBound::Row(row.dup()),
        }
    }
}

impl RowConstraint {
    /// The constraint that a written row bound states.
    pub fn from_bound(value: &RowBound) -> (r: Self)
        ensures
            r.deep_view() == value.deep_view(),
    {
        let mut fields: Vec<RowConstraintField> = Vec::new();
        let mut i: usize = 0;
        while i < value.fields.len()
            invariant
                i <= value.fields.len(),
                fields@.len() == i,
                forall|j: int|
                    0 <= j < i ==> (#[trigger] fields@[j]).deep_view()
                        == value.fields@[j].deep_view(),
            decreases value.fields.len() - i,
        {
            let field = &value.fields[i];
            fields.push(RowConstraintField { label: field.label.clone(), ty: field.ty.dup() });
            i += 1;
        }
        proof {
            assert(fields.deep_view() =~= value.fields.deep_view());
        }
        RowConstraint { fields, open: value.open }
    }
}

/// The bound that a written bound states: a row, or a named aspect.
pub open spec fn bound_of(b: crate::ast::AstBoundModel) -> Option<BoundModel> {
    match b.head {
        BoundHeadModel::Row(row) => Some(BoundModel::Row(row)),
        BoundHeadModel::Aspect(_) => match crate::ast::bound_aspect(b) {
            Some(name) => Some(BoundModel::Aspect(name)),
            None => None,
        },
    }
}

/// A field of a row as it is written.
pub open spec fn row_field_text(f: (Seq<char>, Option<ExprTerm>)) -> Seq<char> {
    match f.1 {
        Some(t) => f.0 + ": "@ + crate::type_expr::expr_text(t),
        None => f.0,
    }
}

/// The fields of a row as they are written.
pub open spec fn row_texts(fields: Seq<(Seq<char>, Option<ExprTerm>)>) -> Seq<Seq<char>> {
    Seq::new(fields.len(), |i: int| row_field_text(fields[i]))
}

/// A bound as it is written.
pub open spec fn bound_text(b: BoundModel) -> Seq<char> {
    match b {
        BoundModel::Aspect(name) => name,
        BoundModel::Row(row) => "{ "@ + crate::text::joined(
            if row.open {
                row_texts(row.fields).push(".."@)
            } else {
                row_texts(row.fields)
            },
            ", "@,
        ) + " }"@,
    }
}

impl GenericBound {
    pub fn from_ast(bound: &Bound) -> (r: Option<Self>)
        ensures
            r.deep_view() == bound_of(bound.deep_view()),
    {
        if let Some(row) = bound.row_bound() {
            return Some(GenericBound::Row(RowConstraint::from_bound(row)));
        }
        match &bound.head {
            BoundHead::Aspect(TypeExpr::Named(name, _)) => Some(
                GenericBound::Aspect(name.clone()),
            ),
            _ => None,
        }
    }

    pub fn aspect_name(&self) -> (r: Option<&String>)
        ensures
            match self.deep_view() {
                BoundModel::Aspect(name) => r matches Some(s) && s@ == name,
                BoundModel::Row(_) => r is None,
            },
    {
        match self {
            GenericBound::Aspect(name) => Some(name),
            GenericBound::Row(_) => None,
        }
    }

    /// The bound as it is written.
    pub fn to_string(&self) -> (s: String)
        ensures
            s@ == bound_text(self.deep_view()),
    {
        match self {
            GenericBound::Aspect(name) => name.clone(),
            GenericBound::Row(row) => {
                let ghost want = row_texts(row.fields.deep_view());
                let mut parts: Vec<String> = Vec::new();
                let mut i: usize = 0;
                while i < row.fields.len()
                    invariant
                        i <= row.fields.len(),
                        parts@.len() == i,
                        want == row_texts(row.fields.deep_view()),
                        forall|j: int| 0 <= j < i ==> (#[trigger] parts@[j])@ == want[j],
                    decreases row.fields.len() - i,
                {
                    let field = &row.fields[i];
                    let mut part = field.label.clone();
                    if let Some(ty) = &field.ty {
                        part.append(": ");
                        part.append(ty.to_string().as_str());
                    }
                    parts.push(part);
                    i += 1;
                }
                proof {
                    assert(parts.deep_view() =~= want);
                }
                if row.open {
                    parts.push("..".to_owned());
                    proof {
                        assert(parts.deep_view() =~= want.push(".."@));
                    }
                }
                let mut s = "{ ".to_owned();
                s.append(join(&parts, ", ").as_str());
                s.append(" }");
                s
            },
        }
    }
}

impl Clone for GenericBound {
    fn clone(&self) -> (r: Self)
        ensures
            r.deep_view() == self.deep_view(),
    {
        self.dup()
    }
}

} // verus!
