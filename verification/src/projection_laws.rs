//! What holds of the placeholders for associated types and for fields over many
//! requests.

use crate::context::ContextModel;
use crate::term::TypeVar;
use vstd::prelude::*;

verus! {

/// A projection: the base variable, the aspect and the associated type.
pub type Projection = (TypeVar, Seq<char>, Seq<char>);

/// Whether every projection has a placeholder of its own, which has been given out
/// already.
pub open spec fn placeholders_differ(c: ContextModel) -> bool {
    &&& forall|p: Projection| #[trigger]
        c.projections.contains_key(p) ==> c.projections[p].0 < c.next_var
    &&& forall|p: Projection, q: Projection|
        #![trigger c.projections[p], c.projections[q]]
        c.projections.contains_key(p) && c.projections.contains_key(q) && c.projections[p]
            == c.projections[q] ==> p == q
}

/// Whether, from one moment to another, nothing happened to the projections of a
/// context, and no variable was given back.
pub open spec fn projections_kept(before: ContextModel, after: ContextModel) -> bool {
    &&& after.projections == before.projections
    &&& after.projection_log == before.projection_log
    &&& after.next_var >= before.next_var
}

/// Whether requests are made one after the other: the projection `ps[i]` is asked for
/// in the context `cs[i]`, and between two requests the projections stay.
pub open spec fn requests(cs: Seq<ContextModel>, ps: Seq<Projection>) -> bool {
    &&& cs.len() == ps.len()
    &&& forall|i: int|
        0 <= i < cs.len() ==> (#[trigger] cs[i]).projections.contains_key(ps[i])
            || cs[i].next_var < u32::MAX
    &&& forall|i: int|
        0 < i < cs.len() ==> projections_kept(
            crate::context_state::requested(cs[i - 1], ps[i - 1]),
            #[trigger] cs[i],
        )
}

/// Whether a projection is new with the request at position `i`.
pub open spec fn first_request(cs: Seq<ContextModel>, ps: Seq<Projection>, i: int) -> bool {
    !cs[0].projections.contains_key(ps[i]) && forall|j: int| 0 <= j < i ==> #[trigger] ps[j]
        != ps[i]
}

/// What is recorded after `n` requests: each projection once, where it was first
/// asked for, with its placeholder.
pub open spec fn recorded(cs: Seq<ContextModel>, ps: Seq<Projection>, n: nat) -> Seq<
    (TypeVar, Seq<char>, Seq<char>, TypeVar),
>
    decreases n,
{
    if n == 0 {
        cs[0].projection_log
    } else {
        let i = n - 1;
        let prev = recorded(cs, ps, i as nat);
        if first_request(cs, ps, i) {
            let v = crate::context_state::placeholder(cs[i], ps[i]);
            prev.push((ps[i].0, ps[i].1, ps[i].2, v))
        } else {
            prev
        }
    }
}

/// Asking for a projection gives it the placeholder that it keeps, and every
/// projection still has one of its own.
pub proof fn requests_keep_placeholders_apart(c: ContextModel, p: Projection)
    requires
        placeholders_differ(c),
        c.projections.contains_key(p) || c.next_var < u32::MAX,
    ensures
        ({
            let after = crate::context_state::requested(c, p);
            &&& placeholders_differ(after)
            &&& after.projections.contains_key(p)
            &&& after.projections[p] == crate::context_state::placeholder(c, p)
            &&& crate::context_state::requested(after, p) == after
            &&& crate::context_state::placeholder(after, p)
                == crate::context_state::placeholder(c, p)
        }),
{
}

/// Two contexts with the same projections tell them apart alike, as long as no
/// variable was given back. A context without projections tells them apart.
pub proof fn placeholders_stay_apart(before: ContextModel, after: ContextModel)
    requires
        placeholders_differ(before),
        after.projections == before.projections,
        after.next_var >= before.next_var,
    ensures
        placeholders_differ(after),
{
}

/// What holds before the request at position `n`.
proof fn lemma_before(cs: Seq<ContextModel>, ps: Seq<Projection>, n: int)
    requires
        requests(cs, ps),
        0 <= n < cs.len(),
        placeholders_differ(cs[0]),
    ensures
        placeholders_differ(cs[n]),
        cs[n].projection_log == recorded(cs, ps, n as nat),
        forall|p: Projection| #[trigger]
            cs[n].projections.contains_key(p) <==> cs[0].projections.contains_key(p) || exists|
                j: int,
            |
                0 <= j < n && #[trigger] ps[j] == p,
        forall|j: int|
            0 <= j < n ==> cs[n].projections.contains_key(#[trigger] ps[j])
                && cs[n].projections[ps[j]] == crate::context_state::placeholder(cs[j], ps[j]),
    decreases n,
{
    if n > 0 {
        let i = n - 1;
        lemma_before(cs, ps, i);
        let after = crate::context_state::requested(cs[i], ps[i]);
        requests_keep_placeholders_apart(cs[i], ps[i]);
        assert(projections_kept(after, cs[n]));
        assert forall|j: int| 0 <= j < n implies cs[n].projections.contains_key(#[trigger] ps[j])
            && cs[n].projections[ps[j]] == crate::context_state::placeholder(cs[j], ps[j]) by {
            if j < i {
                assert(cs[i].projections.contains_key(ps[j]));
            }
        }
        assert forall|p: Projection| #[trigger]
            cs[n].projections.contains_key(p) <==> cs[0].projections.contains_key(p) || exists|
                j: int,
            |
                0 <= j < n && #[trigger] ps[j] == p by {
            if cs[n].projections.contains_key(p) {
                if cs[i].projections.contains_key(p) {
                    if !cs[0].projections.contains_key(p) {
                        let j = choose|j: int| 0 <= j < i && #[trigger] ps[j] == p;
                        assert(0 <= j < n && ps[j] == p);
                    }
                } else {
                    assert(ps[i] == p);
                }
            }
            if cs[0].projections.contains_key(p) {
                assert(cs[i].projections.contains_key(p));
            }
            if exists|j: int| 0 <= j < n && #[trigger] ps[j] == p {
                let j = choose|j: int| 0 <= j < n && #[trigger] ps[j] == p;
                assert(cs[n].projections.contains_key(ps[j]));
            }
        }
        assert(cs[i].projections.contains_key(ps[i]) <==> !first_request(cs, ps, i));
    }
}

/// Over any number of requests, two give the same placeholder exactly if they ask for
/// the same projection.
pub proof fn projections_do_not_share_placeholders(
    cs: Seq<ContextModel>,
    ps: Seq<Projection>,
    i: int,
    j: int,
)
    requires
        requests(cs, ps),
        placeholders_differ(cs[0]),
        0 <= i < cs.len(),
        0 <= j < cs.len(),
    ensures
        crate::context_state::placeholder(cs[i], ps[i]) == crate::context_state::placeholder(
            cs[j],
            ps[j],
        ) <==> ps[i] == ps[j],
{
    if i < j {
        lemma_before(cs, ps, j);
        assert(cs[j].projections.contains_key(ps[i]));
    } else if j < i {
        lemma_before(cs, ps, i);
        assert(cs[i].projections.contains_key(ps[j]));
    }
}

/// A request that was made before gives out no variable and changes nothing.
pub proof fn projections_are_remembered(
    cs: Seq<ContextModel>,
    ps: Seq<Projection>,
    i: int,
    j: int,
)
    requires
        requests(cs, ps),
        placeholders_differ(cs[0]),
        0 <= i < j < cs.len(),
        ps[i] == ps[j],
    ensures
        crate::context_state::requested(cs[j], ps[j]) == cs[j],
        crate::context_state::placeholder(cs[j], ps[j]) == crate::context_state::placeholder(
            cs[i],
            ps[i],
        ),
{
    lemma_before(cs, ps, j);
    assert(cs[j].projections.contains_key(ps[i]));
}

/// After the last request, the log has each projection once, in the order in which
/// they were first asked for, with its placeholder.
pub proof fn projections_are_recorded_once(cs: Seq<ContextModel>, ps: Seq<Projection>)
    requires
        requests(cs, ps),
        placeholders_differ(cs[0]),
        cs.len() > 0,
    ensures
        crate::context_state::requested(cs.last(), ps.last()).projection_log == recorded(
            cs,
            ps,
            cs.len(),
        ),
{
    let i = cs.len() - 1;
    lemma_before(cs, ps, i);
    if cs[i].projections.contains_key(ps[i]) {
        if !cs[0].projections.contains_key(ps[i]) {
            let j = choose|j: int| 0 <= j < i && #[trigger] ps[j] == ps[i];
            assert(ps[j] == ps[i]);
        }
    }
    assert(cs[i].projections.contains_key(ps[i]) <==> !first_request(cs, ps, i));
}

/// A field of an unknown type: the variable that stands for the type, and the label.
pub type RowField = (TypeVar, Seq<char>);

/// Whether every field has a placeholder of its own, which has been given out already.
pub open spec fn fields_differ(c: ContextModel) -> bool {
    &&& forall|f: RowField| #[trigger]
        c.row_fields.contains_key(f) ==> c.row_fields[f].0 < c.next_var
    &&& forall|f: RowField, g: RowField|
        #![trigger c.row_fields[f], c.row_fields[g]]
        c.row_fields.contains_key(f) && c.row_fields.contains_key(g) && c.row_fields[f]
            == c.row_fields[g] ==> f == g
}

/// Whether fields are accessed one after the other: `fs[i]` in the context `cs[i]`,
/// and between two accesses the known fields stay and no variable is given back.
pub open spec fn accesses(cs: Seq<ContextModel>, fs: Seq<RowField>) -> bool {
    &&& cs.len() == fs.len()
    &&& forall|i: int|
        0 <= i < cs.len() ==> (#[trigger] cs[i]).row_fields.contains_key(fs[i])
            || cs[i].next_var < u32::MAX
    &&& forall|i: int|
        0 < i < cs.len() ==> {
            let before = crate::context_state::field_requested(cs[i - 1], fs[i - 1]);
            (#[trigger] cs[i]).row_fields == before.row_fields && cs[i].next_var
                >= before.next_var
        }
}

proof fn lemma_before_access(cs: Seq<ContextModel>, fs: Seq<RowField>, n: int)
    requires
        accesses(cs, fs),
        0 <= n < cs.len(),
        fields_differ(cs[0]),
    ensures
        fields_differ(cs[n]),
        forall|j: int|
            0 <= j < n ==> cs[n].row_fields.contains_key(#[trigger] fs[j])
                && cs[n].row_fields[fs[j]] == crate::context_state::field_placeholder(
                cs[j],
                fs[j],
            ),
    decreases n,
{
    if n > 0 {
        let i = n - 1;
        lemma_before_access(cs, fs, i);
        assert forall|j: int| 0 <= j < n implies cs[n].row_fields.contains_key(#[trigger] fs[j])
            && cs[n].row_fields[fs[j]] == crate::context_state::field_placeholder(
            cs[j],
            fs[j],
        ) by {
            if j < i {
                assert(cs[i].row_fields.contains_key(fs[j]));
            }
        }
    }
}

/// Accesses of one field agree on its type, however many there are, and accesses of
/// different fields have nothing to do with each other.
pub proof fn accesses_of_a_field_agree(
    cs: Seq<ContextModel>,
    fs: Seq<RowField>,
    i: int,
    j: int,
)
    requires
        accesses(cs, fs),
        fields_differ(cs[0]),
        0 <= i < cs.len(),
        0 <= j < cs.len(),
    ensures
        crate::context_state::field_placeholder(cs[i], fs[i])
            == crate::context_state::field_placeholder(cs[j], fs[j]) <==> fs[i] == fs[j],
{
    if i < j {
        lemma_before_access(cs, fs, j);
        assert(cs[j].row_fields.contains_key(fs[i]));
    } else if j < i {
        lemma_before_access(cs, fs, i);
        assert(cs[i].row_fields.contains_key(fs[j]));
    }
}

} // verus!
