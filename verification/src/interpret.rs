//! Interpretation-time semantics of the deferred functions the compiler
//! embeds in the expression tree: parent dependencies folded over a node in
//! collection order, then the node's continuation.
use vstd::prelude::*;

use crate::error::InterpreterError;
use crate::expression::{
    spec_env_index, Binding, Continuation, Env, Expression, ExpressionResult, FixedResult,
    IfCondition, PendingFunc,
};
use crate::filter::{rows_view, spec_row_filter};
use crate::graph::{
    Computation, DiffNode, Expectation, Flow, Node, QueryGraphDependency, QueryNode, RowSink,
    RowsField, TransformerFn,
};
use crate::values::{
    pairs_view, pv_view, row_lookup, PrismaValue, PvView, SelectionResult, WriteArgs,
};

verus! {

/// Whether an optional expectation accepts a row count.
pub open spec fn spec_expectation_ok(exp: Option<Expectation>, count: nat) -> bool {
    match exp {
        Some(e) => e.spec_holds(count),
        None => true,
    }
}

/// Whether the row carries every field of the selection.
pub open spec fn spec_row_has_fields(row: Seq<(usize, PvView)>, sel: Seq<usize>) -> bool {
    forall|i: int| 0 <= i < sel.len() ==> row_lookup(row, #[trigger] sel[i]) is Some
}

/// The projection of one row onto a selection, if every field is present.
pub open spec fn spec_project_row(row: Seq<(usize, PvView)>, sel: Seq<usize>) -> Option<
    Seq<(usize, PvView)>,
> {
    if spec_row_has_fields(row, sel) {
        Some(Seq::new(sel.len(), |i: int| (sel[i], row_lookup(row, sel[i]).unwrap())))
    } else {
        None
    }
}

/// The projection of every row onto a selection, if all succeed.
pub open spec fn spec_project_rows(rows: Seq<Seq<(usize, PvView)>>, sel: Seq<usize>) -> Option<
    Seq<Seq<(usize, PvView)>>,
> {
    if forall|k: int| 0 <= k < rows.len() ==> spec_project_row(#[trigger] rows[k], sel) is Some {
        Some(Seq::new(rows.len(), |k: int| spec_project_row(rows[k], sel).unwrap()))
    } else {
        None
    }
}

/// Projects one row onto a selection, in selection order.
pub fn project_row(row: &SelectionResult, sel: &Vec<usize>) -> (r: Result<
    SelectionResult,
    InterpreterError,
>)
    ensures
        match r {
            Ok(out) => spec_project_row(row@, sel@) == Some(out@),
            Err(e) => spec_project_row(row@, sel@) is None && (e matches
                InterpreterError::MissingField { field } && row_lookup(row@, field) is None),
        },
{
    let mut pairs: Vec<(usize, PrismaValue)> = Vec::new();
    let mut i: usize = 0;
    while i < sel.len()
        invariant
            i <= sel@.len(),
            pairs_view(pairs@).len() == i,
            forall|j: int|
                0 <= j < i ==> row_lookup(row@, #[trigger] sel@[j]) is Some && pairs_view(
                    pairs@,
                )[j] == (sel@[j], row_lookup(row@, sel@[j]).unwrap()),
        decreases sel@.len() - i,
    {
        let f = sel[i];
        match row.lookup(f) {
            Some(v) => {
                pairs.push((f, v.clone()));
            },
            None => {
                return Err(InterpreterError::MissingField { field: f });
            },
        }
        i = i + 1;
    }
    let out = SelectionResult { pairs };
    proof {
        assert(spec_row_has_fields(row@, sel@));
        assert(out@ =~= Seq::new(
            sel@.len(),
            |i: int| (sel@[i], row_lookup(row@, sel@[i]).unwrap()),
        ));
    }
    Ok(out)
}

/// Projects every row onto a selection.
pub fn project_rows(rows: &Vec<SelectionResult>, sel: &Vec<usize>) -> (r: Result<
    Vec<SelectionResult>,
    InterpreterError,
>)
    ensures
        match r {
            Ok(out) => spec_project_rows(rows_view(rows@), sel@) == Some(rows_view(out@)),
            Err(e) => spec_project_rows(rows_view(rows@), sel@) is None && e matches
                InterpreterError::MissingField { .. },
        },
{
    let mut out: Vec<SelectionResult> = Vec::new();
    let mut i: usize = 0;
    while i < rows.len()
        invariant
            i <= rows@.len(),
            out@.len() == i,
            forall|k: int|
                0 <= k < i ==> spec_project_row(#[trigger] rows_view(rows@)[k], sel@) is Some,
            forall|k: int|
                0 <= k < i ==> spec_project_row(rows_view(rows@)[k], sel@) == Some(
                    #[trigger] pairs_view(out@[k].pairs@),
                ),
        decreases rows@.len() - i,
    {
        match project_row(&rows[i], sel) {
            Ok(p) => {
                out.push(p);
            },
            Err(e) => {
                proof {
                    assert(spec_project_row(rows_view(rows@)[i as int], sel@) is None);
                }
                return Err(e);
            },
        }
        i = i + 1;
    }
    proof {
        assert(rows_view(out@) =~= Seq::new(
            rows_view(rows@).len(),
            |k: int| spec_project_row(rows_view(rows@)[k], sel@).unwrap(),
        ));
    }
    Ok(out)
}

/// Inserts `(f, v)` into a pair list: replaces the first entry of field `f`,
/// or appends when none exists.
pub open spec fn spec_upsert(s: Seq<(usize, PvView)>, f: usize, v: PvView) -> Seq<(usize, PvView)>
    decreases s.len(),
{
    if s.len() == 0 {
        seq![(f, v)]
    } else if s[0].0 == f {
        seq![(f, v)] + s.drop_first()
    } else {
        seq![s[0]] + spec_upsert(s.drop_first(), f, v)
    }
}

/// When field `f` first occurs at `k`, the upsert is an update at `k`.
proof fn lemma_spec_upsert_found(s: Seq<(usize, PvView)>, f: usize, v: PvView, k: int)
    requires
        0 <= k < s.len(),
        s[k].0 == f,
        forall|j: int| 0 <= j < k ==> (#[trigger] s[j]).0 != f,
    ensures
        spec_upsert(s, f, v) == s.update(k, (f, v)),
    decreases k,
{
    if k == 0 {
        assert(spec_upsert(s, f, v) =~= s.update(0, (f, v)));
    } else {
        lemma_spec_upsert_found(s.drop_first(), f, v, k - 1);
        assert(spec_upsert(s, f, v) =~= s.update(k, (f, v)));
    }
}

/// When field `f` never occurs, the upsert is an append.
proof fn lemma_spec_upsert_absent(s: Seq<(usize, PvView)>, f: usize, v: PvView)
    requires
        forall|j: int| 0 <= j < s.len() ==> (#[trigger] s[j]).0 != f,
    ensures
        spec_upsert(s, f, v) == s.push((f, v)),
    decreases s.len(),
{
    if s.len() == 0 {
        assert(spec_upsert(s, f, v) =~= s.push((f, v)));
    } else {
        lemma_spec_upsert_absent(s.drop_first(), f, v);
        assert(spec_upsert(s, f, v) =~= s.push((f, v)));
    }
}

/// Inserts `(f, v)` into the argument list, replacing the first entry of the
/// field or appending.
pub fn upsert_pair(args: &mut Vec<(usize, PrismaValue)>, f: usize, v: PrismaValue)
    ensures
        pairs_view(final(args)@) == spec_upsert(pairs_view(old(args)@), f, v@),
{
    let ghost s0 = pairs_view(args@);
    let mut i: usize = 0;
    while i < args.len()
        invariant
            i <= args@.len(),
            args@ == old(args)@,
            s0 == pairs_view(args@),
            forall|j: int| 0 <= j < i ==> (#[trigger] s0[j]).0 != f,
        decreases args@.len() - i,
    {
        if args[i].0 == f {
            let ghost vv = pv_view(v);
            let ghost a0 = args@;
            proof {
                lemma_spec_upsert_found(s0, f, vv, i as int);
            }
            args.set(i, (f, v));
            proof {
                assert forall|j: int| 0 <= j < s0.len() implies pairs_view(args@)[j] == s0.update(
                    i as int,
                    (f, vv),
                )[j] by {
                    if j != i {
                        assert(args@[j] == a0[j]);
                        assert(pairs_view(args@)[j] == (a0[j].0, pv_view(a0[j].1)));
                        assert(s0[j] == (a0[j].0, pv_view(a0[j].1)));
                    }
                }
                assert(pairs_view(args@) =~= s0.update(i as int, (f, vv)));
            }
            return ;
        }
        i = i + 1;
    }
    let ghost vv = pv_view(v);
    let ghost a0 = args@;
    args.push((f, v));
    proof {
        lemma_spec_upsert_absent(s0, f, vv);
        assert forall|j: int| 0 <= j < s0.len() implies pairs_view(args@)[j] == s0.push(
            (f, vv),
        )[j] by {
            assert(args@[j] == a0[j]);
            assert(pairs_view(args@)[j] == (a0[j].0, pv_view(a0[j].1)));
            assert(s0[j] == (a0[j].0, pv_view(a0[j].1)));
        }
        assert(pairs_view(args@) =~= s0.push((f, vv)));
    }
}

/// Folds the row's values under the selection into the argument list, field
/// by field; `None` when the row misses a selection field.
pub open spec fn spec_inject(
    args: Seq<(usize, PvView)>,
    row: Seq<(usize, PvView)>,
    sel: Seq<usize>,
) -> Option<Seq<(usize, PvView)>>
    decreases sel.len(),
{
    if sel.len() == 0 {
        Some(args)
    } else {
        match row_lookup(row, sel[0]) {
            Some(v) => spec_inject(spec_upsert(args, sel[0], v), row, sel.drop_first()),
            None => None,
        }
    }
}

/// Assimilates the row under the selection into the arguments.
fn inject_row(args: &mut Vec<(usize, PrismaValue)>, row: &SelectionResult, sel: &Vec<usize>) -> (r:
    Result<(), InterpreterError>)
    ensures
        match r {
            Ok(_) => spec_inject(pairs_view(old(args)@), row@, sel@) == Some(
                pairs_view(final(args)@),
            ),
            Err(e) => spec_inject(pairs_view(old(args)@), row@, sel@) is None && e matches
                InterpreterError::MissingField { .. },
        },
{
    let mut i: usize = 0;
    proof {
        assert(sel@.skip(0) =~= sel@);
    }
    while i < sel.len()
        invariant
            i <= sel@.len(),
            spec_inject(pairs_view(old(args)@), row@, sel@) == spec_inject(
                pairs_view(args@),
                row@,
                sel@.skip(i as int),
            ),
        decreases sel@.len() - i,
    {
        proof {
            assert(sel@.skip(i as int)[0] == sel@[i as int]);
            assert(sel@.skip(i as int).drop_first() =~= sel@.skip(i + 1));
        }
        let f = sel[i];
        match row.lookup(f) {
            Some(v) => {
                upsert_pair(args, f, v.clone());
            },
            None => {
                return Err(InterpreterError::MissingField { field: f });
            },
        }
        i = i + 1;
    }
    proof {
        assert(sel@.skip(i as int).len() == 0);
    }
    Ok(())
}

/// Refreshes each listed field to the given time, field by field.
pub open spec fn spec_refresh(args: Seq<(usize, PvView)>, fields: Seq<usize>, now: int) -> Seq<
    (usize, PvView),
>
    decreases fields.len(),
{
    if fields.len() == 0 {
        args
    } else {
        spec_refresh(spec_upsert(args, fields[0], PvView::DateTime(now)), fields.drop_first(), now)
    }
}

/// Sets each listed field of the arguments to the given time.
fn refresh_datetimes(args: &mut Vec<(usize, PrismaValue)>, fields: &Vec<usize>, now: i64)
    ensures
        pairs_view(final(args)@) == spec_refresh(pairs_view(old(args)@), fields@, now as int),
{
    let mut i: usize = 0;
    proof {
        assert(fields@.skip(0) =~= fields@);
    }
    while i < fields.len()
        invariant
            i <= fields@.len(),
            spec_refresh(pairs_view(old(args)@), fields@, now as int) == spec_refresh(
                pairs_view(args@),
                fields@.skip(i as int),
                now as int,
            ),
        decreases fields@.len() - i,
    {
        proof {
            assert(fields@.skip(i as int)[0] == fields@[i as int]);
            assert(fields@.skip(i as int).drop_first() =~= fields@.skip(i + 1));
        }
        upsert_pair(args, fields[i], PrismaValue::DateTime(now));
        i = i + 1;
    }
    proof {
        assert(fields@.skip(i as int).len() == 0);
    }
}

/// Assimilation of one row into one write-argument record: inject under the
/// selection, then refresh the listed fields to the given time.
pub open spec fn spec_assimilate(
    args: Seq<(usize, PvView)>,
    row: Seq<(usize, PvView)>,
    sel: Seq<usize>,
    upd: Seq<usize>,
    now: int,
) -> Option<Seq<(usize, PvView)>> {
    match spec_inject(args, row, sel) {
        Some(a2) => Some(spec_refresh(a2, upd, now)),
        None => None,
    }
}

/// The model of a write-argument record list.
pub open spec fn was_view(s: Seq<WriteArgs>) -> Seq<Seq<(usize, PvView)>> {
    Seq::new(s.len(), |i: int| pairs_view(s[i].args@))
}

/// A query node equal to `q` everywhere but the field a sink wrote.
pub open spec fn spec_same_but_parent_results(q: QueryNode, q2: QueryNode) -> bool {
    &&& q2.op == q.op
    &&& q2.model == q.model
    &&& q2.parent_result == q.parent_result
    &&& q2.filter == q.filter
    &&& q2.write_args == q.write_args
    &&& q2.updated_at_fields == q.updated_at_fields
}

/// Writing `rows_v` into the designated multi-row slot of `node`.
pub open spec fn spec_set_rows_field(
    node: Node,
    field: RowsField,
    rows_v: Seq<Seq<(usize, PvView)>>,
    out: Result<Node, InterpreterError>,
) -> bool {
    match field {
        RowsField::ParentResults => match node {
            Node::Query(q) => out matches Ok(n2) && n2 matches Node::Query(q2)
                && spec_same_but_parent_results(q, q2) && rows_view(q2.parent_results@) == rows_v,
            _ => out == Err::<Node, InterpreterError>(InterpreterError::WrongResultShape),
        },
        RowsField::DiffLeft => match node {
            Node::Computation(Computation::DiffLeftToRight(d)) => out matches Ok(n2) && n2 matches
                Node::Computation(c2) && c2 matches Computation::DiffLeftToRight(d2) && rows_view(
                d2.left@,
            ) == rows_v && d2.right == d.right,
            Node::Computation(Computation::DiffRightToLeft(d)) => out matches Ok(n2) && n2 matches
                Node::Computation(c2) && c2 matches Computation::DiffRightToLeft(d2) && rows_view(
                d2.left@,
            ) == rows_v && d2.right == d.right,
            _ => out == Err::<Node, InterpreterError>(InterpreterError::WrongResultShape),
        },
        RowsField::DiffRight => match node {
            Node::Computation(Computation::DiffLeftToRight(d)) => out matches Ok(n2) && n2 matches
                Node::Computation(c2) && c2 matches Computation::DiffLeftToRight(d2) && rows_view(
                d2.right@,
            ) == rows_v && d2.left == d.left,
            Node::Computation(Computation::DiffRightToLeft(d)) => out matches Ok(n2) && n2 matches
                Node::Computation(c2) && c2 matches Computation::DiffRightToLeft(d2) && rows_view(
                d2.right@,
            ) == rows_v && d2.left == d.left,
            _ => out == Err::<Node, InterpreterError>(InterpreterError::WrongResultShape),
        },
    }
}

/// Writes the rows into the designated multi-row slot of the node.
fn set_rows_field(node: Node, field: RowsField, rows: Vec<SelectionResult>) -> (out: Result<
    Node,
    InterpreterError,
>)
    ensures
        spec_set_rows_field(node, field, rows_view(rows@), out),
{
    match field {
        RowsField::ParentResults => match node {
            Node::Query(q) => Ok(
                Node::Query(
                    QueryNode {
                        op: q.op,
                        model: q.model,
                        parent_result: q.parent_result,
                        parent_results: rows,
                        filter: q.filter,
                        write_args: q.write_args,
                        updated_at_fields: q.updated_at_fields,
                    },
                ),
            ),
            _ => Err(InterpreterError::WrongResultShape),
        },
        RowsField::DiffLeft => match node {
            Node::Computation(Computation::DiffLeftToRight(d)) => Ok(
                Node::Computation(
                    Computation::DiffLeftToRight(DiffNode { left: rows, right: d.right }),
                ),
            ),
            Node::Computation(Computation::DiffRightToLeft(d)) => Ok(
                Node::Computation(
                    Computation::DiffRightToLeft(DiffNode { left: rows, right: d.right }),
                ),
            ),
            _ => Err(InterpreterError::WrongResultShape),
        },
        RowsField::DiffRight => match node {
            Node::Computation(Computation::DiffLeftToRight(d)) => Ok(
                Node::Computation(
                    Computation::DiffLeftToRight(DiffNode { left: d.left, right: rows }),
                ),
            ),
            Node::Computation(Computation::DiffRightToLeft(d)) => Ok(
                Node::Computation(
                    Computation::DiffRightToLeft(DiffNode { left: d.left, right: rows }),
                ),
            ),
            _ => Err(InterpreterError::WrongResultShape),
        },
    }
}

impl SelectionResult {
    /// Deep equality of two rows: decides equality of the models.
    pub fn eq_row(&self, other: &SelectionResult) -> (r: bool)
        ensures
            r == (self@ == other@),
    {
        if self.pairs.len() != other.pairs.len() {
            proof {
                assert(self@.len() != other@.len());
            }
            return false;
        }
        let mut i: usize = 0;
        while i < self.pairs.len()
            invariant
                i <= self.pairs@.len(),
                self.pairs@.len() == other.pairs@.len(),
                forall|j: int| 0 <= j < i ==> #[trigger] self@[j] == other@[j],
            decreases self.pairs@.len() - i,
        {
            let ok = self.pairs[i].0 == other.pairs[i].0 && self.pairs[i].1.eq_value(
                &other.pairs[i].1,
            );
            if !ok {
                proof {
                    assert(self@[i as int] != other@[i as int]);
                }
                return false;
            }
            i = i + 1;
        }
        proof {
            assert(self@ =~= other@);
        }
        true
    }
}

/// Whether the modelled row list contains the modelled row.
pub fn contains_row(rows: &Vec<SelectionResult>, row: &SelectionResult) -> (r: bool)
    ensures
        r == rows_view(rows@).contains(row@),
{
    let mut i: usize = 0;
    while i < rows.len()
        invariant
            i <= rows@.len(),
            forall|j: int| 0 <= j < i ==> #[trigger] rows_view(rows@)[j] != row@,
        decreases rows@.len() - i,
    {
        if rows[i].eq_row(row) {
            proof {
                assert(rows_view(rows@)[i as int] == row@);
            }
            return true;
        }
        i = i + 1;
    }
    proof {
        if rows_view(rows@).contains(row@) {
            let k = choose|k: int| 0 <= k < rows_view(rows@).len() && rows_view(rows@)[k] == row@;
            assert(rows_view(rows@)[k] != row@);
        }
    }
    false
}

/// The source and excluded lists of a difference computation: left minus
/// right, or right minus left.
pub open spec fn spec_diff_operands(c: Computation) -> (Seq<Seq<(usize, PvView)>>, Seq<
    Seq<(usize, PvView)>,
>) {
    match c {
        Computation::DiffLeftToRight(d) => (rows_view(d.left@), rows_view(d.right@)),
        Computation::DiffRightToLeft(d) => (rows_view(d.right@), rows_view(d.left@)),
    }
}

/// The set-difference contract: the output holds exactly the source rows
/// absent from the excluded list, without duplicates.
pub open spec fn spec_diff_ok(c: Computation, out: Seq<Seq<(usize, PvView)>>) -> bool {
    let (src, excl) = spec_diff_operands(c);
    &&& forall|k: int|
        0 <= k < out.len() ==> src.contains(#[trigger] out[k]) && !excl.contains(out[k])
    &&& forall|k: int|
        0 <= k < src.len() && !excl.contains(#[trigger] src[k]) ==> out.contains(src[k])
    &&& forall|k1: int, k2: int| 0 <= k1 < k2 < out.len() ==> out[k1] != out[k2]
}

/// Computes the set difference of a computation node: the source rows not in
/// the excluded list, first occurrences kept, in source order.
pub fn compute_diff(c: Computation) -> (out: Vec<SelectionResult>)
    ensures
        spec_diff_ok(c, rows_view(out@)),
{
    let (src, excl) = match c {
        Computation::DiffLeftToRight(d) => (d.left, d.right),
        Computation::DiffRightToLeft(d) => (d.right, d.left),
    };
    let mut out: Vec<SelectionResult> = Vec::new();
    let mut i: usize = 0;
    while i < src.len()
        invariant
            i <= src@.len(),
            forall|k: int|
                0 <= k < rows_view(out@).len() ==> rows_view(src@).contains(
                    #[trigger] rows_view(out@)[k],
                ) && !rows_view(excl@).contains(rows_view(out@)[k]),
            forall|k: int|
                0 <= k < i && !rows_view(excl@).contains(#[trigger] rows_view(src@)[k])
                    ==> rows_view(out@).contains(rows_view(src@)[k]),
            forall|k1: int, k2: int|
                0 <= k1 < k2 < rows_view(out@).len() ==> rows_view(out@)[k1] != rows_view(
                    out@,
                )[k2],
        decreases src@.len() - i,
    {
        let candidate = &src[i];
        if !contains_row(&excl, candidate) && !contains_row(&out, candidate) {
            let ghost out0 = out@;
            out.push(candidate.clone());
            proof {
                assert(rows_view(out@).len() == out0.len() + 1);
                assert forall|k: int| 0 <= k < rows_view(out@).len() implies rows_view(out@)[k]
                    == if k < out0.len() {
                    rows_view(out0)[k]
                } else {
                    rows_view(src@)[i as int]
                } by {
                    assert(rows_view(out@)[k] == pairs_view(out@[k].pairs@));
                }
                assert(rows_view(src@)[i as int] == pairs_view(src@[i as int].pairs@));
                assert(rows_view(src@).contains(rows_view(src@)[i as int]));
                assert(rows_view(out@)[out0.len() as int] == rows_view(src@)[i as int]);
                assert forall|k: int|
                    0 <= k < i + 1 && !rows_view(excl@).contains(
                        #[trigger] rows_view(src@)[k],
                    ) implies rows_view(out@).contains(rows_view(src@)[k]) by {
                    if k < i {
                        let k0 = choose|k0: int|
                            0 <= k0 < rows_view(out0).len() && rows_view(out0)[k0] == rows_view(
                                src@,
                            )[k];
                        assert(rows_view(out@)[k0] == rows_view(out0)[k0]);
                    } else {
                        assert(rows_view(out@)[out0.len() as int] == rows_view(src@)[k]);
                    }
                }
            }
        } else {
            proof {
                if !rows_view(excl@).contains(rows_view(src@)[i as int]) {
                    assert(rows_view(out@).contains(rows_view(src@)[i as int]));
                }
            }
        }
        i = i + 1;
    }
    out
}

/// Applying a projected-data transformer to the node with the projected rows.
pub open spec fn spec_transformer_rel(
    t: TransformerFn,
    node: Node,
    proj: Seq<Seq<(usize, PvView)>>,
    out: Result<Node, InterpreterError>,
) -> bool {
    match t {
        TransformerFn::SetParentResults => spec_set_rows_field(
            node,
            RowsField::ParentResults,
            proj,
            out,
        ),
        TransformerFn::AppendParentResults => match node {
            Node::Query(q) => out matches Ok(n2) && n2 matches Node::Query(q2)
                && spec_same_but_parent_results(q, q2) && rows_view(q2.parent_results@)
                == rows_view(q.parent_results@) + proj,
            _ => out == Err::<Node, InterpreterError>(InterpreterError::WrongResultShape),
        },
    }
}

/// Applying a row sink to the node with the projected rows.
pub open spec fn spec_sink_rel(
    sink: RowSink,
    node: Node,
    proj: Seq<Seq<(usize, PvView)>>,
    now: int,
    out: Result<Node, InterpreterError>,
) -> bool {
    match sink {
        RowSink::Single => {
            if proj.len() == 0 {
                out == Err::<Node, InterpreterError>(InterpreterError::EmptyRows)
            } else {
                match node {
                    Node::Query(q) => out matches Ok(n2) && n2 matches Node::Query(q2)
                        && q2.op == q.op && q2.model == q.model && q2.parent_results
                        == q.parent_results && q2.filter == q.filter && q2.write_args
                        == q.write_args && q2.updated_at_fields == q.updated_at_fields && (
                    q2.parent_result matches Some(r) && pairs_view(r.pairs@) == proj.last()),
                    _ => out == Err::<Node, InterpreterError>(InterpreterError::WrongResultShape),
                }
            }
        },
        RowSink::All(field) => spec_set_rows_field(node, field, proj, out),
        RowSink::AtMostOne(field) => spec_set_rows_field(
            node,
            field,
            proj.take(if proj.len() > 0 {
                1
            } else {
                0
            }),
            out,
        ),
        RowSink::ExactlyOne(field) => {
            if proj.len() == 0 {
                out == Err::<Node, InterpreterError>(InterpreterError::EmptyRows)
            } else {
                spec_set_rows_field(node, field, seq![proj.last()], out)
            }
        },
        RowSink::ExactlyOneFilter => {
            if proj.len() == 0 {
                out == Err::<Node, InterpreterError>(InterpreterError::EmptyRows)
            } else {
                match node {
                    Node::Query(q) => out matches Ok(n2) && n2 matches Node::Query(q2)
                        && q2.op == q.op && q2.model == q.model && q2.parent_result
                        == q.parent_result && q2.parent_results == q.parent_results
                        && q2.write_args == q.write_args && q2.updated_at_fields
                        == q.updated_at_fields && (q2.filter matches Some(f) && f@
                        == spec_row_filter(proj.last())),
                    _ => out == Err::<Node, InterpreterError>(InterpreterError::WrongResultShape),
                }
            }
        },
        RowSink::ExactlyOneWriteArgs(sel) => {
            if proj.len() == 0 {
                out == Err::<Node, InterpreterError>(InterpreterError::EmptyRows)
            } else {
                match node {
                    Node::Query(q) => {
                        let row = proj.last();
                        let upd = if q.model is Some {
                            q.updated_at_fields@
                        } else {
                            Seq::empty()
                        };
                        if forall|k: int|
                            0 <= k < q.write_args@.len() ==> spec_inject(
                                #[trigger] was_view(q.write_args@)[k],
                                row,
                                sel@,
                            ) is Some {
                            out matches Ok(n2) && n2 matches Node::Query(q2) && q2.op == q.op
                                && q2.model == q.model && q2.parent_result == q.parent_result
                                && q2.parent_results == q.parent_results && q2.filter == q.filter
                                && q2.updated_at_fields == q.updated_at_fields && was_view(
                                q2.write_args@,
                            ) == Seq::new(
                                q.write_args@.len(),
                                |k: int|
                                    spec_assimilate(
                                        was_view(q.write_args@)[k],
                                        row,
                                        sel@,
                                        upd,
                                        now,
                                    ).unwrap(),
                            )
                        } else {
                            out matches Err(e) && e matches InterpreterError::MissingField { .. }
                        }
                    },
                    _ => out == Err::<Node, InterpreterError>(InterpreterError::WrongResultShape),
                }
            }
        },
        RowSink::Discard => out == Ok::<Node, InterpreterError>(node),
    }
}

/// One dependency applied to the node with the parent's result: expectation
/// first, then projection, then the transformer or sink.
pub open spec fn spec_step_rel(
    dep: QueryGraphDependency,
    node: Node,
    res: ExpressionResult,
    now: int,
    out: Result<Node, InterpreterError>,
) -> bool {
    match dep {
        QueryGraphDependency::ProjectedData { selection, transformer, expectation } => {
            if !spec_expectation_ok(expectation, res.spec_count()) {
                out matches Err(e) && (e matches InterpreterError::ExpectationViolated {
                    expected,
                    actual,
                } && Some(expected) == expectation && actual == res.spec_count())
            } else {
                match res {
                    ExpressionResult::FixedResult(rows) => match spec_project_rows(
                        rows_view(rows@),
                        selection@,
                    ) {
                        Some(proj) => spec_transformer_rel(transformer, node, proj, out),
                        None => out matches Err(e) && e matches InterpreterError::MissingField {
                            ..
                        },
                    },
                    ExpressionResult::Count(_) => out == Err::<Node, InterpreterError>(
                        InterpreterError::WrongResultShape,
                    ),
                }
            }
        },
        QueryGraphDependency::ProjectedDataSink { selection, sink, expectation } => {
            if !spec_expectation_ok(expectation, res.spec_count()) {
                out matches Err(e) && (e matches InterpreterError::ExpectationViolated {
                    expected,
                    actual,
                } && Some(expected) == expectation && actual == res.spec_count())
            } else {
                match res {
                    ExpressionResult::FixedResult(rows) => match spec_project_rows(
                        rows_view(rows@),
                        selection@,
                    ) {
                        Some(proj) => spec_sink_rel(sink, node, proj, now, out),
                        None => out matches Err(e) && e matches InterpreterError::MissingField {
                            ..
                        },
                    },
                    ExpressionResult::Count(_) => out == Err::<Node, InterpreterError>(
                        InterpreterError::WrongResultShape,
                    ),
                }
            }
        },
        QueryGraphDependency::Data { sink, expectation } => {
            if !spec_expectation_ok(expectation, res.spec_count()) {
                out matches Err(e) && (e matches InterpreterError::ExpectationViolated {
                    expected,
                    actual,
                } && Some(expected) == expectation && actual == res.spec_count())
            } else {
                out == Ok::<Node, InterpreterError>(node)
            }
        },
        _ => out == Err::<Node, InterpreterError>(InterpreterError::WrongResultShape),
    }
}

/// Checks the dependency expectation, if any, against the parent's result.
fn check_expectation(expectation: &Option<Expectation>, res: &ExpressionResult) -> (r: Result<
    (),
    InterpreterError,
>)
    ensures
        match r {
            Ok(_) => spec_expectation_ok(*expectation, res.spec_count()),
            Err(e) => !spec_expectation_ok(*expectation, res.spec_count()) && (e matches
                InterpreterError::ExpectationViolated { expected, actual } && Some(expected)
                == *expectation && actual == res.spec_count()),
        },
{
    match expectation {
        Some(exp) => {
            let count = res.count();
            if exp.check(count) {
                Ok(())
            } else {
                Err(InterpreterError::ExpectationViolated { expected: *exp, actual: count })
            }
        },
        None => Ok(()),
    }
}

/// Applies a projected-data transformer.
fn apply_transformer(t: TransformerFn, node: Node, proj: Vec<SelectionResult>) -> (out: Result<
    Node,
    InterpreterError,
>)
    ensures
        spec_transformer_rel(t, node, rows_view(proj@), out),
{
    match t {
        TransformerFn::SetParentResults => set_rows_field(node, RowsField::ParentResults, proj),
        TransformerFn::AppendParentResults => match node {
            Node::Query(q) => {
                let mut combined = q.parent_results;
                let ghost before = combined@;
                let mut rest = proj;
                let ghost rest0 = rest@;
                let n0 = rest.len();
                let mut taken: usize = 0;
                while rest.len() > 0
                    invariant
                        rest0.len() == n0,
                        taken + rest@.len() == rest0.len(),
                        combined@ == before + rest0.take(taken as int),
                        rest@ =~= rest0.skip(taken as int),
                    decreases rest@.len(),
                {
                    let row = rest.remove(0);
                    proof {
                        assert(rest0.skip(taken as int)[0] == rest0[taken as int]);
                    }
                    combined.push(row);
                    taken = taken + 1;
                    proof {
                        assert(combined@ =~= before + rest0.take(taken as int));
                        assert(rest@ =~= rest0.skip(taken as int));
                    }
                }
                proof {
                    assert(rest0.take(taken as int) =~= rest0);
                    assert(rows_view(combined@) =~= rows_view(before) + rows_view(rest0));
                }
                Ok(
                    Node::Query(
                        QueryNode {
                            op: q.op,
                            model: q.model,
                            parent_result: q.parent_result,
                            parent_results: combined,
                            filter: q.filter,
                            write_args: q.write_args,
                            updated_at_fields: q.updated_at_fields,
                        },
                    ),
                )
            },
            _ => Err(InterpreterError::WrongResultShape),
        },
    }
}

/// Applies a row sink to the node with the projected rows.
fn apply_sink(sink: RowSink, node: Node, proj: Vec<SelectionResult>, now: i64) -> (out: Result<
    Node,
    InterpreterError,
>)
    ensures
        spec_sink_rel(sink, node, rows_view(proj@), now as int, out),
{
    let ghost proj0 = rows_view(proj@);
    match sink {
        RowSink::Single => {
            let mut rows = proj;
            match rows.pop() {
                Some(row) => {
                    proof {
                        assert(pairs_view(row.pairs@) == proj0.last());
                    }
                    match node {
                        Node::Query(q) => Ok(
                            Node::Query(
                                QueryNode {
                                    op: q.op,
                                    model: q.model,
                                    parent_result: Some(row),
                                    parent_results: q.parent_results,
                                    filter: q.filter,
                                    write_args: q.write_args,
                                    updated_at_fields: q.updated_at_fields,
                                },
                            ),
                        ),
                        _ => Err(InterpreterError::WrongResultShape),
                    }
                },
                None => Err(InterpreterError::EmptyRows),
            }
        },
        RowSink::All(field) => set_rows_field(node, field, proj),
        RowSink::AtMostOne(field) => {
            let mut rows = proj;
            rows.truncate(1);
            proof {
                if proj0.len() > 0 {
                    assert(rows_view(rows@) =~= proj0.take(1));
                } else {
                    assert(rows_view(rows@) =~= proj0.take(0));
                }
            }
            set_rows_field(node, field, rows)
        },
        RowSink::ExactlyOne(field) => {
            let mut rows = proj;
            match rows.pop() {
                Some(row) => {
                    let mut single: Vec<SelectionResult> = Vec::new();
                    single.push(row);
                    proof {
                        assert(rows_view(single@) =~= seq![proj0.last()]);
                    }
                    set_rows_field(node, field, single)
                },
                None => Err(InterpreterError::EmptyRows),
            }
        },
        RowSink::ExactlyOneFilter => {
            let mut rows = proj;
            match rows.pop() {
                Some(row) => {
                    proof {
                        assert(pairs_view(row.pairs@) == proj0.last());
                    }
                    match node {
                        Node::Query(q) => {
                            let f = row.to_filter();
                            Ok(
                                Node::Query(
                                    QueryNode {
                                        op: q.op,
                                        model: q.model,
                                        parent_result: q.parent_result,
                                        parent_results: q.parent_results,
                                        filter: Some(f),
                                        write_args: q.write_args,
                                        updated_at_fields: q.updated_at_fields,
                                    },
                                ),
                            )
                        },
                        _ => Err(InterpreterError::WrongResultShape),
                    }
                },
                None => Err(InterpreterError::EmptyRows),
            }
        },
        RowSink::ExactlyOneWriteArgs(sel) => {
            let mut rows = proj;
            match rows.pop() {
                Some(row) => {
                    proof {
                        assert(pairs_view(row.pairs@) == proj0.last());
                    }
                    match node {
                        Node::Query(q) => {
                            let empty_upd: Vec<usize> = Vec::new();
                            let has_model = q.model.is_some();
                            let mut was = q.write_args;
                            let ghost w0 = was@;
                            let ghost upd: Seq<usize> = if q.model is Some {
                                q.updated_at_fields@
                            } else {
                                Seq::empty()
                            };
                            let mut i: usize = 0;
                            while i < was.len()
                                invariant
                                    i <= was@.len(),
                                    was@.len() == w0.len(),
                                    proj0.len() > 0,
                                    proj0 == rows_view(proj@),
                                    pairs_view(row.pairs@) == proj0.last(),
                                    w0 == q.write_args@,
                                    node matches Node::Query(qq) && qq == q,
                                    sink matches RowSink::ExactlyOneWriteArgs(s2) && s2 == sel,
                                    upd == if q.model is Some {
                                        q.updated_at_fields@
                                    } else {
                                        Seq::<usize>::empty()
                                    },
                                    has_model == (q.model is Some),
                                    empty_upd@ == Seq::<usize>::empty(),
                                    forall|j: int| i <= j < w0.len() ==> was@[j] == w0[j],
                                    forall|j: int|
                                        0 <= j < i ==> spec_inject(
                                            #[trigger] was_view(w0)[j],
                                            pairs_view(row.pairs@),
                                            sel@,
                                        ) is Some,
                                    forall|j: int|
                                        0 <= j < i ==> #[trigger] pairs_view(was@[j].args@)
                                            == spec_assimilate(
                                            was_view(w0)[j],
                                            pairs_view(row.pairs@),
                                            sel@,
                                            upd,
                                            now as int,
                                        ).unwrap(),
                                decreases was@.len() - i,
                            {
                                let mut argsv = crate::values::clone_pairs(&was[i].args);
                                proof {
                                    assert(pairs_view(argsv@) == was_view(w0)[i as int]);
                                }
                                match inject_row(&mut argsv, &row, &sel) {
                                    Ok(_) => {},
                                    Err(e) => {
                                        proof {
                                            assert(spec_inject(
                                                was_view(w0)[i as int],
                                                pairs_view(row.pairs@),
                                                sel@,
                                            ) is None);
                                        }
                                        return Err(e);
                                    },
                                }
                                if has_model {
                                    refresh_datetimes(&mut argsv, &q.updated_at_fields, now);
                                } else {
                                    refresh_datetimes(&mut argsv, &empty_upd, now);
                                }
                                was.set(i, WriteArgs { args: argsv });
                                i = i + 1;
                            }
                            proof {
                                assert(was_view(was@) =~= Seq::new(
                                    w0.len(),
                                    |k: int|
                                        spec_assimilate(
                                            was_view(w0)[k],
                                            pairs_view(row.pairs@),
                                            sel@,
                                            upd,
                                            now as int,
                                        ).unwrap(),
                                ));
                            }
                            Ok(
                                Node::Query(
                                    QueryNode {
                                        op: q.op,
                                        model: q.model,
                                        parent_result: q.parent_result,
                                        parent_results: q.parent_results,
                                        filter: q.filter,
                                        write_args: was,
                                        updated_at_fields: q.updated_at_fields,
                                    },
                                ),
                            )
                        },
                        _ => Err(InterpreterError::WrongResultShape),
                    }
                },
                None => Err(InterpreterError::EmptyRows),
            }
        },
        RowSink::Discard => Ok(node),
    }
}

/// Applies one dependency to the node with the parent's result: expectation
/// first, then projection, then the transformer or sink.
pub fn apply_dependency(
    dep: QueryGraphDependency,
    node: Node,
    res: &ExpressionResult,
    now: i64,
) -> (out: Result<Node, InterpreterError>)
    ensures
        spec_step_rel(dep, node, *res, now as int, out),
{
    match dep {
        QueryGraphDependency::ProjectedData { selection, transformer, expectation } => {
            match check_expectation(&expectation, res) {
                Ok(_) => match res {
                    ExpressionResult::FixedResult(rows) => match project_rows(rows, &selection) {
                        Ok(proj) => apply_transformer(transformer, node, proj),
                        Err(e) => Err(e),
                    },
                    ExpressionResult::Count(_) => Err(InterpreterError::WrongResultShape),
                },
                Err(e) => Err(e),
            }
        },
        QueryGraphDependency::ProjectedDataSink { selection, sink, expectation } => {
            match check_expectation(&expectation, res) {
                Ok(_) => match res {
                    ExpressionResult::FixedResult(rows) => match project_rows(rows, &selection) {
                        Ok(proj) => apply_sink(sink, node, proj, now),
                        Err(e) => Err(e),
                    },
                    ExpressionResult::Count(_) => Err(InterpreterError::WrongResultShape),
                },
                Err(e) => Err(e),
            }
        },
        QueryGraphDependency::Data { sink, expectation } => {
            match check_expectation(&expectation, res) {
                Ok(_) => match sink {
                    crate::graph::RowCountSink::Discard => Ok(node),
                },
                Err(e) => Err(e),
            }
        },
        _ => Err(InterpreterError::WrongResultShape),
    }
}

/// The fold of the dependencies over the node against the environment, in
/// collection order: a missing binding fails with `EnvVarNotFound`; a failing
/// step is wrapped with the parent binding name; otherwise the rewritten node
/// threads through.
pub open spec fn spec_fold_rel(
    deps: Seq<(usize, QueryGraphDependency)>,
    node: Node,
    env: Seq<(usize, ExpressionResult)>,
    now: int,
    out: Result<Node, InterpreterError>,
) -> bool
    decreases deps.len(),
{
    if deps.len() == 0 {
        out == Ok::<Node, InterpreterError>(node)
    } else {
        let name = deps[0].0;
        let dep = deps[0].1;
        match spec_env_index(env, name) {
            None => out matches Err(e) && (e matches InterpreterError::EnvVarNotFound {
                binding_name,
            } && binding_name == name),
            Some(k) => {
                let res = env[k].1;
                (exists|mid: Node|
                    #[trigger] spec_step_rel(dep, node, res, now, Ok(mid)) && spec_fold_rel(
                        deps.drop_first(),
                        mid,
                        env,
                        now,
                        out,
                    )) || (exists|e: InterpreterError|
                    #[trigger] spec_step_rel(dep, node, res, now, Err(e)) && (out matches Err(
                        we,
                    ) && we matches InterpreterError::InterpretationError { binding_name, cause }
                        && binding_name == name && *cause == e))
            },
        }
    }
}

/// What the continuation emits once the node is final.
pub open spec fn spec_continue_rel(
    node: Node,
    cont: Continuation,
    out: Result<Expression, InterpreterError>,
) -> bool {
    match cont {
        Continuation::IntoQuery => match node {
            Node::Query(q) => out matches Ok(e) && (e matches Expression::Query { query } && *query
                == q),
            _ => out == Err::<Expression, InterpreterError>(
                InterpreterError::UnexpectedNodeVariant,
            ),
        },
        Continuation::IntoReturn => match node {
            Node::Flow(Flow::Return(rows)) => out matches Ok(e) && (e matches Expression::Return {
                result,
            } && result.rows == rows),
            _ => out == Err::<Expression, InterpreterError>(
                InterpreterError::UnexpectedNodeVariant,
            ),
        },
        Continuation::ComputeDiff => match node {
            Node::Computation(c) => out matches Ok(e) && (e matches Expression::Return { result }
                && spec_diff_ok(c, rows_view(result.rows@))),
            _ => out == Err::<Expression, InterpreterError>(
                InterpreterError::UnexpectedNodeVariant,
            ),
        },
        Continuation::IntoSequence { seq } => out matches Ok(e) && (e matches Expression::Sequence {
            seq: s2,
        } && s2 == seq),
        Continuation::IntoIf { node_id, then_branch, else_branch, children } => match node {
            Node::Flow(Flow::If { rule, data }) => {
                if children@.len() == 0 {
                    out matches Ok(e) && (e matches Expression::If {
                        func,
                        then_branch: t2,
                        else_branch: e2,
                    } && func.rule == rule && func.data == data && t2 == then_branch && e2
                        == else_branch)
                } else {
                    out matches Ok(e) && (e matches Expression::Let { bindings, expressions }
                        && bindings@.len() == 1 && bindings@[0].name == node_id && (
                    bindings@[0].expr matches Expression::If {
                        func,
                        then_branch: t2,
                        else_branch: e2,
                    } && func.rule == rule && func.data == data && t2 == then_branch && e2
                        == else_branch) && expressions == children)
                }
            },
            _ => out == Err::<Expression, InterpreterError>(
                InterpreterError::UnexpectedNodeVariant,
            ),
        },
    }
}

/// Emits the expression the continuation stands for.
pub fn build_from_continuation(node: Node, cont: Continuation) -> (out: Result<
    Expression,
    InterpreterError,
>)
    ensures
        spec_continue_rel(node, cont, out),
{
    match cont {
        Continuation::IntoQuery => match node {
            Node::Query(q) => Ok(Expression::Query { query: Box::new(q) }),
            _ => Err(InterpreterError::UnexpectedNodeVariant),
        },
        Continuation::IntoReturn => match node {
            Node::Flow(f) => match f {
                Flow::Return(rows) => Ok(
                    Expression::Return { result: FixedResult { rows } },
                ),
                _ => Err(InterpreterError::UnexpectedNodeVariant),
            },
            _ => Err(InterpreterError::UnexpectedNodeVariant),
        },
        Continuation::ComputeDiff => match node {
            Node::Computation(c) => {
                let rows = compute_diff(c);
                Ok(Expression::Return { result: FixedResult { rows } })
            },
            _ => Err(InterpreterError::UnexpectedNodeVariant),
        },
        Continuation::IntoSequence { seq } => Ok(Expression::Sequence { seq }),
        Continuation::IntoIf { node_id, then_branch, else_branch, children } => match node {
            Node::Flow(f) => match f {
                Flow::If { rule, data } => {
                    let if_expr = Expression::If {
                        func: IfCondition { rule, data },
                        then_branch,
                        else_branch,
                    };
                    if children.len() == 0 {
                        Ok(if_expr)
                    } else {
                        let mut bindings: Vec<Binding> = Vec::new();
                        bindings.push(Binding { name: node_id, expr: if_expr });
                        Ok(Expression::Let { bindings, expressions: children })
                    }
                },
                _ => Err(InterpreterError::UnexpectedNodeVariant),
            },
            _ => Err(InterpreterError::UnexpectedNodeVariant),
        },
    }
}

/// The full resolution of a deferred function against an environment: fold
/// the dependencies over the node, then run the continuation; a fold failure
/// is the function's failure.
pub open spec fn spec_resolve_rel(
    func: PendingFunc,
    env: Seq<(usize, ExpressionResult)>,
    now: int,
    out: Result<Expression, InterpreterError>,
) -> bool {
    (exists|n2: Node|
        #[trigger] spec_fold_rel(func.deps@, *func.node, env, now, Ok(n2)) && spec_continue_rel(
            n2,
            func.cont,
            out,
        )) || (exists|e: InterpreterError|
        #[trigger] spec_fold_rel(func.deps@, *func.node, env, now, Err(e)) && out == Err::<
            Expression,
            InterpreterError,
        >(e))
}

/// Resolves a deferred function against the environment: applies the parent
/// dependencies to the node in collection order, then emits the
/// continuation's expression.
pub fn resolve_func(func: PendingFunc, env: &Env, now: i64) -> (out: Result<
    Expression,
    InterpreterError,
>)
    ensures
        spec_resolve_rel(func, env.entries@, now as int, out),
{
    let ghost deps0 = func.deps@;
    let ghost node0 = *func.node;
    let cont = func.cont;
    let mut deps = func.deps;
    let mut node = *func.node;
    while deps.len() > 0
        invariant
            cont == func.cont,
            deps0 == func.deps@,
            node0 == *func.node,
            forall|o: Result<Node, InterpreterError>|
                #[trigger] spec_fold_rel(deps@, node, env.entries@, now as int, o)
                    ==> spec_fold_rel(deps0, node0, env.entries@, now as int, o),
        decreases deps@.len(),
    {
        let ghost deps_pre = deps@;
        let ghost node_pre = node;
        let (name, dep) = deps.remove(0);
        proof {
            assert(deps_pre[0] == (name, dep));
            assert(deps@ =~= deps_pre.drop_first());
        }
        match env.get(name) {
            Some(res) => {
                match apply_dependency(dep, node, res, now) {
                    Ok(n2) => {
                        proof {
                            let k = spec_env_index(env.entries@, name).unwrap();
                            assert(env.entries@[k].1 == *res);
                            assert(spec_step_rel(dep, node_pre, *res, now as int, Ok(n2)));
                            assert forall|o: Result<Node, InterpreterError>|
                                #[trigger] spec_fold_rel(
                                    deps@,
                                    n2,
                                    env.entries@,
                                    now as int,
                                    o,
                                ) implies spec_fold_rel(
                                deps0,
                                node0,
                                env.entries@,
                                now as int,
                                o,
                            ) by {
                                assert(spec_fold_rel(deps_pre, node_pre, env.entries@, now as int, o));
                            }
                        }
                        node = n2;
                    },
                    Err(e) => {
                        let wrapped = InterpreterError::InterpretationError {
                            binding_name: name,
                            cause: Box::new(e),
                        };
                        proof {
                            assert(spec_step_rel(dep, node_pre, *res, now as int, Err(e)));
                            assert(spec_fold_rel(
                                deps_pre,
                                node_pre,
                                env.entries@,
                                now as int,
                                Err::<Node, InterpreterError>(wrapped),
                            ));
                        }
                        return Err(wrapped);
                    },
                }
            },
            None => {
                let missing = InterpreterError::EnvVarNotFound { binding_name: name };
                proof {
                    assert(spec_fold_rel(
                        deps_pre,
                        node_pre,
                        env.entries@,
                        now as int,
                        Err::<Node, InterpreterError>(missing),
                    ));
                }
                return Err(missing);
            },
        }
    }
    proof {
        assert(spec_fold_rel(
            deps@,
            node,
            env.entries@,
            now as int,
            Ok::<Node, InterpreterError>(node),
        ));
    }
    build_from_continuation(node, cont)
}

/// The first of the named bindings whose bound value is non-empty, skipping
/// names that are unbound.
pub open spec fn spec_first_non_empty(
    env: Seq<(usize, ExpressionResult)>,
    names: Seq<usize>,
) -> Option<ExpressionResult>
    decreases names.len(),
{
    if names.len() == 0 {
        None
    } else {
        match spec_env_index(env, names[0]) {
            Some(k) => {
                if env[k].1.spec_count() > 0 {
                    Some(env[k].1)
                } else {
                    spec_first_non_empty(env, names.drop_first())
                }
            },
            None => spec_first_non_empty(env, names.drop_first()),
        }
    }
}

/// Returns the first named binding that is non-empty, if any: the semantics
/// of a `GetFirstNonEmpty` expression.
pub fn first_non_empty<'a>(env: &'a Env, names: &Vec<usize>) -> (r: Option<&'a ExpressionResult>)
    ensures
        match r {
            Some(v) => spec_first_non_empty(env.entries@, names@) == Some(*v),
            None => spec_first_non_empty(env.entries@, names@) is None,
        },
{
    let mut i: usize = 0;
    proof {
        assert(names@.skip(0) =~= names@);
    }
    while i < names.len()
        invariant
            i <= names@.len(),
            spec_first_non_empty(env.entries@, names@) == spec_first_non_empty(
                env.entries@,
                names@.skip(i as int),
            ),
        decreases names@.len() - i,
    {
        proof {
            assert(names@.skip(i as int)[0] == names@[i as int]);
            assert(names@.skip(i as int).drop_first() =~= names@.skip(i + 1));
        }
        match env.get(names[i]) {
            Some(v) => {
                if v.count() > 0 {
                    return Some(v);
                }
            },
            None => {},
        }
        i = i + 1;
    }
    proof {
        assert(names@.skip(i as int).len() == 0);
    }
    None
}

} // verus!
