//! Following references, and reading and writing parts of values.
//!
//! A reference may lead to itself, so each function says how many references it
//! follows at most.

use crate::ast::{Span, SpanModel};
use crate::data::Dup;
use crate::environment::{Stop, StopModel};
use crate::error::{ErrorModel, MetelError, RuntimeErrorCode};
use crate::store::{Store, StoreModel};
use crate::text::decimal_string;
use crate::values::{field_position, CellId, PathSegment, SegmentModel, Value, ValueHead, ValueTerm};
use vstd::prelude::*;
use vstd::string::*;

verus! {

/// Where a reference leads: to what is in a cell, or to a part of it.
pub open spec fn target(h: ValueHead) -> Option<(CellId, Seq<SegmentModel>)> {
    match h {
        ValueHead::Reference(c) => Some((c, Seq::empty())),
        ValueHead::MutReference(c) => Some((c, Seq::empty())),
        ValueHead::FieldReference(c, path) => Some((c, path)),
        ValueHead::MutFieldReference(c, path) => Some((c, path)),
        ValueHead::Dyn(c, _, _, _, _) => Some((c, Seq::empty())),
        _ => None,
    }
}

/// The error for a part that a value does not have.
pub open spec fn no_part(code: RuntimeErrorCode, message: Seq<char>, span: SpanModel) -> StopModel {
    StopModel::Error(ErrorModel::Runtime(code, message, span, Seq::empty()))
}

/// The part of a value that one step of a path leads to.
pub open spec fn part(s: StoreModel, v: ValueTerm, seg: SegmentModel, span: SpanModel) -> Result<
    ValueTerm,
    StopModel,
> {
    match seg {
        SegmentModel::Field(f) => if crate::values::field_labels(v.head) is Some {
            match crate::values::field_of(v, f) {
                Some(x) => Ok(x),
                None => Err(
                    no_part(RuntimeErrorCode::R0008, "fat pointer: no field `"@ + f + "`"@, span),
                ),
            }
        } else {
            Err(mismatched())
        },
        SegmentModel::TupleIndex(i) => if v.head is Tuple {
            if i < v.args.len() {
                Ok(v.args[i as int])
            } else {
                Err(
                    no_part(
                        RuntimeErrorCode::R0008,
                        "fat pointer: tuple index "@ + crate::text::decimal(i as nat)
                            + " out of bounds"@,
                        span,
                    ),
                )
            }
        } else {
            Err(mismatched())
        },
        SegmentModel::ArrayIndex(i) => match v.head {
            ValueHead::Array(a) => if i < crate::store::array_at(s, a).len() {
                Ok(crate::store::array_at(s, a)[i as int])
            } else {
                Err(
                    no_part(
                        RuntimeErrorCode::R0004,
                        "fat pointer: array index "@ + crate::text::decimal(i as nat)
                            + " out of bounds"@,
                        span,
                    ),
                )
            },
            _ => Err(mismatched()),
        },
    }
}

/// The error for a path that does not fit the value.
pub open spec fn mismatched() -> StopModel {
    StopModel::Error(ErrorModel::Internal("fat pointer path: segment type mismatch"@))
}

/// The value that references lead to, `n` of them at most.
pub open spec fn peeled(s: StoreModel, v: ValueTerm, span: SpanModel, n: nat) -> Result<
    ValueTerm,
    StopModel,
>
    decreases n, 0nat,
{
    match target(v.head) {
        None => Ok(v),
        Some((c, path)) => if n == 0 {
            Err(StopModel::Endless)
        } else {
            match path_read(s, crate::store::cell_at(s, c), path, span, (n - 1) as nat) {
                Ok(x) => peeled(s, x, span, (n - 1) as nat),
                Err(e) => Err(e),
            }
        },
    }
}

/// The part of a value that a path leads to. References on the way are followed.
pub open spec fn path_read(
    s: StoreModel,
    v: ValueTerm,
    path: Seq<SegmentModel>,
    span: SpanModel,
    n: nat,
) -> Result<ValueTerm, StopModel>
    decreases n, path.len() + 1,
{
    if path.len() == 0 {
        Ok(v)
    } else {
        match peeled(s, v, span, n) {
            Err(e) => Err(e),
            Ok(x) => match part(s, x, path[0], span) {
                Err(e) => Err(e),
                Ok(y) => path_read(s, y, path.skip(1), span, n),
            },
        }
    }
}

/// The value after the part that a path leads to has been replaced, and the
/// store: what is behind references is changed where it is.
pub open spec fn path_written(
    s: StoreModel,
    v: ValueTerm,
    path: Seq<SegmentModel>,
    new: ValueTerm,
    span: SpanModel,
    n: nat,
) -> Result<(StoreModel, ValueTerm), StopModel>
    decreases n, path.len(),
{
    if path.len() == 0 {
        Ok((s, new))
    } else {
        match v.head {
            ValueHead::Reference(_) | ValueHead::FieldReference(_, _) => Err(
                no_part(
                    RuntimeErrorCode::R0003,
                    "cannot write through a shared reference"@,
                    span,
                ),
            ),
            ValueHead::MutReference(c) => if n == 0 {
                Err(StopModel::Endless)
            } else {
                match path_written(
                    s,
                    crate::store::cell_at(s, c),
                    path,
                    new,
                    span,
                    (n - 1) as nat,
                ) {
                    Ok((t, x)) => Ok((crate::store::cell_set(t, c, x), v)),
                    Err(e) => Err(e),
                }
            },
            ValueHead::MutFieldReference(c, first) => if n == 0 {
                Err(StopModel::Endless)
            } else {
                match path_written(
                    s,
                    crate::store::cell_at(s, c),
                    first + path,
                    new,
                    span,
                    (n - 1) as nat,
                ) {
                    Ok((t, x)) => Ok((crate::store::cell_set(t, c, x), v)),
                    Err(e) => Err(e),
                }
            },
            _ => match part(s, v, path[0], span) {
                Err(e) => if e == mismatched() {
                    Err(mismatched_in_write())
                } else {
                    Err(e)
                },
                Ok(child) => match path_written(s, child, path.skip(1), new, span, n) {
                    Ok((t, x)) => Ok(part_replaced(s, t, v, path[0], x)),
                    Err(e) => Err(e),
                },
            },
        }
    }
}

/// The error for a path that does not fit the value that is written to.
pub open spec fn mismatched_in_write() -> StopModel {
    StopModel::Error(
        ErrorModel::Internal("fat pointer path: segment type mismatch during write"@),
    )
}

/// The position of the component that one step of a path leads to.
pub open spec fn part_position(v: ValueTerm, seg: SegmentModel) -> int {
    match seg {
        SegmentModel::Field(f) => match crate::values::field_labels(v.head) {
            Some(labels) => crate::values::label_at(labels, f, 0),
            None => 0,
        },
        SegmentModel::TupleIndex(i) => i as int,
        SegmentModel::ArrayIndex(i) => i as int,
    }
}

/// The store and the value after a part has been replaced: an element of an
/// array, which had its elements in `s`, in the store `t`, and any other part in
/// the value.
pub open spec fn part_replaced(
    s: StoreModel,
    t: StoreModel,
    v: ValueTerm,
    seg: SegmentModel,
    x: ValueTerm,
) -> (StoreModel, ValueTerm) {
    match (seg, v.head) {
        (SegmentModel::ArrayIndex(i), ValueHead::Array(a)) => (
            crate::store::array_set(t, a, crate::store::array_at(s, a).update(i as int, x)),
            v,
        ),
        _ => (t, ValueTerm { head: v.head, args: v.args.update(part_position(v, seg), x) }),
    }
}

/// What a result of following references says.
pub open spec fn reach_model(r: Result<Value, Stop>) -> Result<ValueTerm, StopModel> {
    match r {
        Ok(v) => Ok(v@),
        Err(e) => Err(e.deep_view()),
    }
}

fn failure(code: RuntimeErrorCode, message: String, span: &Span) -> (r: Stop)
    ensures
        r.deep_view() == no_part(code, message@, span.deep_view()),
{
    Stop::Error(MetelError::panic(code, message, span))
}

fn numbered(before: &str, i: usize, after: &str) -> (s: String)
    ensures
        s@ == before@ + crate::text::decimal(i as nat) + after@,
{
    let mut s = before.to_owned();
    s.append(decimal_string(i as u128).as_str());
    s.append(after);
    s
}

/// The part of a value that one step of a path leads to.
fn read_part(store: &Store, v: &Value, seg: &PathSegment, span: &Span) -> (r: Result<Value, Stop>)
    ensures
        reach_model(r) == part(store@, v@, seg.deep_view(), span.deep_view()),
{
    match seg {
        PathSegment::Field(f) => match v.fields() {
            Some(_) => match v.field(f.as_str()) {
                Some(x) => Ok(x.dup()),
                None => {
                    let mut s = "fat pointer: no field `".to_owned();
                    s.append(f.as_str());
                    s.append("`");
                    Err(failure(RuntimeErrorCode::R0008, s, span))
                },
            },
            None => Err(
                Stop::Error(
                    MetelError::internal("fat pointer path: segment type mismatch".to_owned()),
                ),
            ),
        },
        PathSegment::TupleIndex(i) => match v {
            Value::Tuple(items) => if *i < items.len() {
                Ok(items[*i].dup())
            } else {
                Err(
                    failure(
                        RuntimeErrorCode::R0008,
                        numbered("fat pointer: tuple index ", *i, " out of bounds"),
                        span,
                    ),
                )
            },
            _ => Err(
                Stop::Error(
                    MetelError::internal("fat pointer path: segment type mismatch".to_owned()),
                ),
            ),
        },
        PathSegment::ArrayIndex(i) => match v {
            Value::Array(a) => if *i < store.array_len(*a) {
                Ok(store.element(*a, *i))
            } else {
                Err(
                    failure(
                        RuntimeErrorCode::R0004,
                        numbered("fat pointer: array index ", *i, " out of bounds"),
                        span,
                    ),
                )
            },
            _ => Err(
                Stop::Error(
                    MetelError::internal("fat pointer path: segment type mismatch".to_owned()),
                ),
            ),
        },
    }
}

/// The part of a value that a path leads to.
pub fn read_path(
    store: &Store,
    root: &Value,
    path: &Vec<PathSegment>,
    span: &Span,
    limit: u64,
) -> (r:
    Result<Value, Stop>)
    ensures
        reach_model(r) == path_read(
            store@,
            root@,
            path.deep_view(),
            span.deep_view(),
            limit as nat,
        ),
    decreases limit, 1int,
{
    let mut cur = root.dup();
    let mut i: usize = 0;
    let ghost whole = path.deep_view();
    let ghost all = path_read(store@, root@, whole, span.deep_view(), limit as nat);
    proof {
        assert(whole.skip(0) =~= whole);
        assert(whole.len() == path@.len());
    }
    while i < path.len()
        invariant
            i <= path.len(),
            whole == path.deep_view(),
            whole.len() == path@.len(),
            all == path_read(store@, root@, whole, span.deep_view(), limit as nat),
            all == path_read(
                store@,
                cur@,
                whole.skip(i as int),
                span.deep_view(),
                limit as nat,
            ),
        decreases path.len() - i,
    {
        proof {
            assert(whole.skip(i as int)[0] == path@[i as int].deep_view());
            assert(whole.skip(i as int).skip(1) =~= whole.skip(i + 1));
        }
        let plain = match peel(store, &cur, span, limit) {
            Ok(v) => v,
            Err(e) => {
                return Err(e);
            },
        };
        cur = match read_part(store, &plain, &path[i], span) {
            Ok(v) => v,
            Err(e) => {
                return Err(e);
            },
        };
        i += 1;
    }
    Ok(cur)
}

/// The value that references lead to; a value that is no reference leads to
/// itself.
pub fn peel(store: &Store, v: &Value, span: &Span, limit: u64) -> (r: Result<Value, Stop>)
    ensures
        reach_model(r) == peeled(store@, v@, span.deep_view(), limit as nat),
    decreases limit, 0int,
{
    let whole: Vec<PathSegment> = Vec::new();
    assert(whole.deep_view() =~= Seq::<SegmentModel>::empty());
    let (c, path): (CellId, &Vec<PathSegment>) = match v {
        Value::Reference(c) | Value::MutReference(c) => (*c, &whole),
        Value::DynAspect { data, type_id: _, aspect_id: _, aspect_name: _, type_args: _ } => (
            *data,
            &whole,
        ),
        Value::FieldReference { root, path } => (*root, path),
        Value::MutFieldReference { root, path } => (*root, path),
        _ => {
            return Ok(v.dup());
        },
    };
    if limit == 0 {
        return Err(Stop::Endless);
    }
    match read_path(store, &store.cell(c), path, span, limit - 1) {
        Ok(x) => peel(store, &x, span, limit - 1),
        Err(e) => Err(e),
    }
}

/// The value that a reference leads to, through every further reference, or
/// nothing for a value that is no reference.
pub fn deref_value(store: &Store, value: &Value, span: &Span, limit: u64) -> (r: Result<
    Option<Value>,
    Stop,
>)
    ensures
        match r {
            Ok(Some(x)) => target(value@.head) is Some && peeled(
                store@,
                value@,
                span.deep_view(),
                limit as nat,
            ) == Ok::<ValueTerm, StopModel>(x@),
            Ok(None) => target(value@.head) is None,
            Err(e) => target(value@.head) is Some && peeled(
                store@,
                value@,
                span.deep_view(),
                limit as nat,
            ) == Err::<ValueTerm, StopModel>(e.deep_view()),
        },
{
    match value {
        Value::Reference(_)
        | Value::MutReference(_)
        | Value::FieldReference { root: _, path: _ }
        | Value::MutFieldReference { root: _, path: _ }
        | Value::DynAspect { data: _, type_id: _, aspect_id: _, aspect_name: _, type_args: _ } => {
            match peel(store, value, span, limit) {
                Ok(x) => Ok(Some(x)),
                Err(e) => Err(e),
            }
        },
        _ => Ok(None),
    }
}

/// What a result of writing to a part of a value says.
pub open spec fn write_model(r: Result<Value, Stop>, before: StoreModel, after: StoreModel) -> (
    Result<(StoreModel, ValueTerm), StopModel>,
    bool,
) {
    match r {
        Ok(v) => (Ok((after, v@)), true),
        Err(e) => (Err(e.deep_view()), after == before),
    }
}

fn write_part(
    store: &mut Store,
    v: Value,
    path: &Vec<PathSegment>,
    from: usize,
    new: Value,
    span: &Span,
    limit: u64,
) -> (r: Result<Value, Stop>)
    requires
        from <= path@.len(),
    ensures
        write_model(r, old(store)@, final(store)@) == (
            path_written(
                old(store)@,
                v@,
                path.deep_view().skip(from as int),
                new@,
                span.deep_view(),
                limit as nat,
            ),
            true,
        ),
    decreases limit, path@.len() - from,
{
    let ghost whole = path.deep_view();
    let ghost rest = whole.skip(from as int);
    assert(whole.len() == path@.len());
    if from == path.len() {
        return Ok(new);
    }
    proof {
        assert(rest[0] == path@[from as int].deep_view());
        assert(rest.skip(1) =~= whole.skip(from + 1));
    }
    match &v {
        Value::Reference(_) | Value::FieldReference { root: _, path: _ } => {
            return Err(
                failure(
                    RuntimeErrorCode::R0003,
                    "cannot write through a shared reference".to_owned(),
                    span,
                ),
            );
        },
        Value::MutReference(c) => {
            if limit == 0 {
                return Err(Stop::Endless);
            }
            let c = *c;
            let inner = store.cell(c);
            return match write_part(store, inner, path, from, new, span, limit - 1) {
                Ok(x) => {
                    store.set_cell(c, x);
                    Ok(v)
                },
                Err(e) => Err(e),
            };
        },
        Value::MutFieldReference { root, path: first } => {
            if limit == 0 {
                return Err(Stop::Endless);
            }
            let c = *root;
            let inner = store.cell(c);
            let full = path_after(first, path, from);
            proof {
                assert(full.deep_view().skip(0) =~= full.deep_view());
            }
            return match write_part(store, inner, &full, 0, new, span, limit - 1) {
                Ok(x) => {
                    store.set_cell(c, x);
                    Ok(v)
                },
                Err(e) => Err(e),
            };
        },
        _ => {},
    }
    let child = match read_part(store, &v, &path[from], span) {
        Ok(x) => x,
        Err(e) => {
            return Err(write_error(e));
        },
    };
    match (&path[from], &v) {
        (PathSegment::ArrayIndex(i), Value::Array(a)) => {
            let mut items = store.array(*a);
            match write_part(store, child, path, from + 1, new, span, limit) {
                Ok(x) => {
                    let ghost before = items.deep_view();
                    assert(before.len() == items@.len());
                    items.set(*i, x);
                    assert(items.deep_view() =~= before.update(*i as int, x@));
                    store.set_array(*a, items);
                    Ok(v)
                },
                Err(e) => Err(e),
            }
        },
        (PathSegment::TupleIndex(i), _) => {
            match write_part(store, child, path, from + 1, new, span, limit) {
                Ok(x) => Ok(replaced(&v, *i, x)),
                Err(e) => Err(e),
            }
        },
        (PathSegment::Field(f), _) => match v.fields() {
            Some(fields) => match field_position(fields, f.as_str()) {
                Some(i) => match write_part(store, child, path, from + 1, new, span, limit) {
                    Ok(x) => Ok(replaced(&v, i, x)),
                    Err(e) => Err(e),
                },
                None => Err(Stop::Undefined),
            },
            None => Err(Stop::Undefined),
        },
        _ => Err(Stop::Undefined),
    }
}

fn write_error(e: Stop) -> (r: Stop)
    ensures
        r.deep_view() == if e.deep_view() == mismatched() {
            mismatched_in_write()
        } else {
            e.deep_view()
        },
{
    match e {
        Stop::Error(MetelError::Internal { message }) => {
            if message == "fat pointer path: segment type mismatch".to_owned() {
                Stop::Error(
                    MetelError::internal(
                        "fat pointer path: segment type mismatch during write".to_owned(),
                    ),
                )
            } else {
                Stop::Error(MetelError::Internal { message })
            }
        },
        other => other,
    }
}

/// A path, followed by another one from a position on.
fn path_after(first: &Vec<PathSegment>, path: &Vec<PathSegment>, from: usize) -> (r: Vec<
    PathSegment,
>)
    requires
        from <= path@.len(),
    ensures
        r.deep_view() == first.deep_view() + path.deep_view().skip(from as int),
{
    let mut out = first.dup();
    let ghost start = first.deep_view();
    let ghost more = path.deep_view();
    let mut i: usize = from;
    proof {
        assert(start.len() == first@.len());
        assert(more.len() == path@.len());
        assert(out.deep_view() =~= start + more.subrange(from as int, from as int));
    }
    while i < path.len()
        invariant
            from <= i <= path.len(),
            more == path.deep_view(),
            more.len() == path@.len(),
            out.deep_view() == start + more.subrange(from as int, i as int),
        decreases path.len() - i,
    {
        let seg = path[i].dup();
        let ghost prev = out.deep_view();
        assert(prev.len() == out@.len());
        assert(more[i as int] == path@[i as int].deep_view());
        out.push(seg);
        proof {
            assert(out.deep_view() =~= prev.push(more[i as int]));
            assert(out.deep_view() =~= start + more.subrange(from as int, i + 1));
        }
        i += 1;
    }
    proof {
        assert(more.subrange(from as int, i as int) =~= more.skip(from as int));
    }
    out
}

/// A value with one of its components replaced.
pub fn replaced(v: &Value, at: usize, x: Value) -> (r: Value)
    requires
        at < v@.args.len(),
    ensures
        r@ == (ValueTerm { head: v@.head, args: v@.args.update(at as int, x@) }),
{
    let n: usize = v.arity();
    let mut items: Vec<Value> = Vec::new();
    let mut i: usize = 0;
    while i < n
        invariant
            i <= n,
            n == v@.args.len(),
            items@.len() == i,
            forall|j: int| 0 <= j < i ==> (#[trigger] items@[j])@ == v@.args[j],
        decreases n - i,
    {
        items.push(v.child(i).dup());
        i += 1;
    }
    items.set(at, x);
    let r = v.rebuild(items);
    proof {
        assert(r@.args =~= v@.args.update(at as int, x@));
    }
    r
}

/// Replaces the part of what is in a cell that a path leads to.
pub fn write_path(
    store: &mut Store,
    root: CellId,
    path: &Vec<PathSegment>,
    new_val: Value,
    span: &Span,
    limit: u64,
) -> (r: Result<(), Stop>)
    ensures
        match path_written(
            old(store)@,
            crate::store::cell_at(old(store)@, root),
            path.deep_view(),
            new_val@,
            span.deep_view(),
            limit as nat,
        ) {
            Ok((t, x)) => r is Ok && final(store)@ == crate::store::cell_set(t, root, x),
            Err(stop) => (r matches Err(e) && e.deep_view() == stop) && final(store)@ == old(
                store,
            )@,
        },
{
    let v = store.cell(root);
    proof {
        assert(path.deep_view().skip(0) =~= path.deep_view());
    }
    match write_part(store, v, path, 0, new_val, span, limit) {
        Ok(x) => {
            store.set_cell(root, x);
            Ok(())
        },
        Err(e) => Err(e),
    }
}

/// The cell that a reference leads to directly.
pub open spec fn direct_cell(h: ValueHead) -> Option<CellId> {
    match h {
        ValueHead::Reference(c) => Some(c),
        ValueHead::MutReference(c) => Some(c),
        ValueHead::Dyn(c, _, _, _, _) => Some(c),
        _ => None,
    }
}

/// The cell that a reference leads to directly.
pub fn receiver_cell_from_value(value: &Value) -> (r: Option<CellId>)
    ensures
        r == direct_cell(value@.head),
{
    match value {
        Value::Reference(c) | Value::MutReference(c) => Some(*c),
        Value::DynAspect { data, type_id: _, aspect_id: _, aspect_name: _, type_args: _ } => Some(
            *data,
        ),
        _ => None,
    }
}

} // verus!
