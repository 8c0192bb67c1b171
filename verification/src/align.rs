//! Alignment of subquery inputs.
//!
//! An empty relation of one row emits a placeholder column even when it declares no columns. A
//! subquery operator copies the columns of its input before it appends the results of scalar
//! subqueries, so its batches would not match its schema. Alignment supplies the row that the
//! schema declares, one without columns, where a subquery operator reads such a relation.
//!
//! Operators are rebuilt by a function that the caller passes. What alignment does next rests on
//! what that function returned, whatever it is.
use crate::align_laws::{
    law_failure_comes_from_rebuilding, law_settled_plan_does_not_fail,
    law_settled_plan_is_unchanged, never_fails, settled,
};
use crate::plan::{
    batch_shape, source_shape, unchanged, BatchShape, EmptyInput, Outcome, Plan, SourceShape,
};
use crate::source::{batch_without_columns, memory_partitions, schema_fields};
use datafusion::arrow::datatypes::Schema;
use datafusion::arrow::error::ArrowError;
use datafusion::arrow::record_batch::RecordBatch;
use datafusion::error::DataFusionError;
use datafusion::physical_plan::memory::MemoryExec;
use std::sync::Arc;
use vstd::prelude::*;

verus! {

/// Why there is no source.
#[derive(Debug)]
pub enum SourceError {
    /// Arrow made no batch.
    Batch(ArrowError),
    /// DataFusion made no in-memory source.
    Memory(DataFusionError),
}

/// Why a plan could not be aligned.
#[derive(Debug)]
pub enum AlignError<E> {
    /// There is no source for an input.
    Source(SourceError),
    /// An operator could not be rebuilt.
    Rebuild(E),
}

/// A source of the given schema: `count` partitions, each of one batch with one row and no
/// columns, and no projection.
pub open spec fn one_row_source(schema: Schema, count: nat) -> SourceShape {
    SourceShape {
        schema,
        partitions: Seq::new(
            count,
            |i: int| seq![BatchShape { schema, columns: 0, rows: 1 }],
        ),
        projection: None,
    }
}

/// A bare one-row input: an empty relation that produces a row and declares no columns.
pub open spec fn is_bare(input: EmptyInput) -> bool {
    input.produce_one_row && schema_fields(*input.schema).len() == 0
}

/// The source that takes the place of a bare one-row input.
pub open spec fn source_for(input: EmptyInput) -> SourceShape {
    one_row_source(*input.schema, input.partition_count as nat)
}

/// `op` is an operator that `source` makes of a source of the given shape.
pub open spec fn carries<P, S: Fn(MemoryExec) -> P>(source: S, shape: SourceShape, op: P) -> bool {
    exists|memory: MemoryExec|
        source_shape(memory) == shape && #[trigger] call_ensures(source, (memory,), op)
}

/// An operator came out as a bare one-row input.
pub open spec fn came_out_bare<P>(outcome: Outcome<P>) -> bool {
    outcome.empty is Some && is_bare(outcome.empty->0)
}

/// `supplied` are the children `below` of an operator. Where the operator is a subquery operator
/// and its first child came out as a bare one-row input, a new source stands in that child's
/// place; all other children are as they were.
pub open spec fn input_supplied<P, S: Fn(MemoryExec) -> P>(
    is_subquery: bool,
    source: S,
    below: Seq<Outcome<P>>,
    supplied: Seq<Outcome<P>>,
) -> bool {
    if is_subquery && below.len() > 0 && came_out_bare(below[0]) {
        &&& supplied == below.update(0, supplied[0])
        &&& !supplied[0].same
        &&& supplied[0].empty is None
        &&& carries(source, source_for(below[0].empty->0), supplied[0].op)
    } else {
        supplied == below
    }
}

/// Every child came out as itself.
pub open spec fn all_same<P>(children: Seq<Outcome<P>>) -> bool {
    forall|i: int| 0 <= i < children.len() ==> (#[trigger] children[i]).same
}

/// The operators that a list of children came out as.
pub open spec fn operators<P>(children: Seq<Outcome<P>>) -> Seq<P> {
    children.map_values(|child: Outcome<P>| child.op)
}

/// `rebuild` answers `result` when it is handed the operator and what its children came out as.
pub open spec fn answers<P, E, B: Fn(P, Vec<P>) -> Result<Outcome<P>, E>>(
    rebuild: B,
    op: P,
    children: Seq<Outcome<P>>,
    result: Result<Outcome<P>, E>,
) -> bool {
    exists|ops: Vec<P>|
        ops@ == operators(children) && #[trigger] call_ensures(rebuild, (op, ops), result)
}

/// `outcome` is what a plan comes out as: first each child on its own, then the input of a
/// subquery operator. An operator none of whose children changed comes out as itself, and is not
/// rebuilt. Any other operator comes out as `rebuild` answers for it and its new children.
pub open spec fn aligns<P, E, B, S>(
    plan: Plan<P>,
    rebuild: B,
    source: S,
    outcome: Outcome<P>,
) -> bool where B: Fn(P, Vec<P>) -> Result<Outcome<P>, E>, S: Fn(MemoryExec) -> P
    decreases plan,
{
    match plan {
        Plan::Empty { .. } => outcome == unchanged(plan),
        Plan::Node { op, is_subquery, children } => exists|
            below: Seq<Outcome<P>>,
            supplied: Seq<Outcome<P>>,
        |
            {
                &&& below.len() == children@.len()
                &&& forall|i: int|
                    0 <= i < children@.len() ==> aligns::<P, E, B, S>(
                        #[trigger] children@[i],
                        rebuild,
                        source,
                        below[i],
                    )
                &&& #[trigger] input_supplied(is_subquery, source, below, supplied)
                &&& if all_same(supplied) {
                    outcome == unchanged(plan)
                } else {
                    answers(rebuild, op, supplied, Ok::<Outcome<P>, E>(outcome))
                }
            },
    }
}

/// There is something that a plan comes out as.
pub open spec fn can_align<P, E, B, S>(plan: Plan<P>, rebuild: B, source: S) -> bool where
    B: Fn(P, Vec<P>) -> Result<Outcome<P>, E>,
    S: Fn(MemoryExec) -> P,
 {
    exists|outcome: Outcome<P>| aligns::<P, E, B, S>(plan, rebuild, source, outcome)
}

/// `error` is what `rebuild` answers for an operator of the plan: for one under a child, where all
/// children before that one come out as something, or for the root, where all children do and one
/// of them changed.
pub open spec fn fails_with<P, E, B, S>(
    plan: Plan<P>,
    rebuild: B,
    source: S,
    error: E,
) -> bool where B: Fn(P, Vec<P>) -> Result<Outcome<P>, E>, S: Fn(MemoryExec) -> P
    decreases plan,
{
    match plan {
        Plan::Empty { .. } => false,
        Plan::Node { op, is_subquery, children } => {
            ||| exists|k: int|
                {
                    &&& 0 <= k < children@.len()
                    &&& forall|i: int|
                        0 <= i < k ==> can_align::<P, E, B, S>(
                            #[trigger] children@[i],
                            rebuild,
                            source,
                        )
                    &&& fails_with::<P, E, B, S>(#[trigger] children@[k], rebuild, source, error)
                }
            ||| exists|below: Seq<Outcome<P>>, supplied: Seq<Outcome<P>>|
                {
                    &&& below.len() == children@.len()
                    &&& forall|i: int|
                        0 <= i < children@.len() ==> aligns::<P, E, B, S>(
                            #[trigger] children@[i],
                            rebuild,
                            source,
                            below[i],
                        )
                    &&& #[trigger] input_supplied(is_subquery, source, below, supplied)
                    &&& !all_same(supplied)
                    &&& answers(rebuild, op, supplied, Err::<Outcome<P>, E>(error))
                }
        },
    }
}

/// A source of the given schema with one row in each of `partition_count` partitions. There is
/// one exactly when the schema declares no columns.
pub fn row_source(schema: Arc<Schema>, partition_count: usize) -> (r: Result<
    MemoryExec,
    SourceError,
>)
    ensures
        r is Ok <==> schema_fields(*schema).len() == 0,
        r is Err ==> r->Err_0 is Batch,
        r is Ok ==> source_shape(r->Ok_0) == one_row_source(*schema, partition_count as nat),
{
    let batch = match batch_without_columns(schema.clone(), Some(1)) {
        Ok(batch) => batch,
        Err(error) => return Err(SourceError::Batch(error)),
    };
    let mut partitions: Vec<Vec<RecordBatch>> = Vec::new();
    while partitions.len() < partition_count
        invariant
            partitions@.len() <= partition_count,
            batch_shape(batch) == (BatchShape { schema: *schema, columns: 0, rows: 1 }),
            forall|i: int|
                0 <= i < partitions@.len() ==> (#[trigger] partitions@[i])@ == seq![batch],
        decreases partition_count - partitions@.len(),
    {
        let mut partition: Vec<RecordBatch> = Vec::new();
        partition.push(batch.clone());
        assert(partition@ =~= seq![batch]);
        partitions.push(partition);
    }
    match MemoryExec::try_new(partitions.as_slice(), schema, None) {
        Ok(memory) => {
            assert(source_shape(memory).partitions =~= one_row_source(
                *schema,
                partition_count as nat,
            ).partitions) by {
                assert forall|i: int| 0 <= i < partition_count implies source_shape(
                    memory,
                ).partitions[i] =~= seq![BatchShape { schema: *schema, columns: 0, rows: 1 }] by {
                    assert(memory_partitions(memory)[i] == seq![batch]);
                }
            }
            Ok(memory)
        },
        Err(error) => Err(SourceError::Memory(error)),
    }
}

/// Supplies the input of an operator, given what its children came out as.
fn supply_input<P, S: Fn(MemoryExec) -> P>(
    is_subquery: bool,
    source: &S,
    children: &mut Vec<Outcome<P>>,
) -> (r: Result<(), SourceError>)
    requires
        forall|memory: MemoryExec| call_requires(*source, (memory,)),
    ensures
        r is Ok,
        input_supplied(is_subquery, *source, old(children)@, final(children)@),
{
    if !is_subquery || children.len() == 0 {
        return Ok(());
    }
    let memory = match &children[0].empty {
        Some(input) => {
            if input.produce_one_row && input.schema.fields().is_empty() {
                match row_source(input.schema.clone(), input.partition_count) {
                    Ok(memory) => memory,
                    Err(error) => return Err(error),
                }
            } else {
                return Ok(());
            }
        },
        None => return Ok(()),
    };
    let op = source(memory);
    children.set(0, Outcome { op, same: false, empty: None });
    assert(children@ =~= old(children)@.update(0, children@[0]));
    Ok(())
}

/// The operators that a list of children came out as, and whether each child came out as itself.
fn split_outcomes<P>(children: Vec<Outcome<P>>) -> (r: (Vec<P>, bool))
    ensures
        r.0@ == operators(children@),
        r.1 == all_same(children@),
{
    let ghost listed = children@;
    let mut ops: Vec<P> = Vec::new();
    let mut same = true;
    for child in iter: children
        invariant
            iter.seq() == listed,
            ops@ == operators(listed.take(iter.index() as int)),
            same == all_same(listed.take(iter.index() as int)),
    {
        let ghost taken = listed.take(iter.index() as int);
        assert(child == listed[iter.index() as int]);
        assert(listed.take(iter.index() + 1) =~= taken.push(child));
        assert(operators(taken.push(child)) =~= operators(taken).push(child.op));
        proof {
            let next = taken.push(child);
            if all_same(next) {
                assert(next[taken.len() as int].same);
                assert forall|i: int| 0 <= i < taken.len() implies (#[trigger] taken[i]).same by {
                    assert(next[i].same);
                }
            }
        }
        same = same && child.same;
        ops.push(child.op);
    }
    assert(listed.take(listed.len() as int) =~= listed);
    (ops, same)
}

/// Aligns a plan.
fn align<P, E, B, S>(plan: Plan<P>, rebuild: &B, source: &S) -> (r: Result<
    Outcome<P>,
    AlignError<E>,
>) where B: Fn(P, Vec<P>) -> Result<Outcome<P>, E>, S: Fn(MemoryExec) -> P
    requires
        forall|op: P, children: Vec<P>| call_requires(*rebuild, (op, children)),
        forall|memory: MemoryExec| call_requires(*source, (memory,)),
    ensures
        r matches Ok(outcome) ==> aligns::<P, E, B, S>(plan, *rebuild, *source, outcome),
        r matches Err(error) ==> error is Rebuild && fails_with::<P, E, B, S>(
            plan,
            *rebuild,
            *source,
            error->Rebuild_0,
        ),
    decreases plan,
{
    match plan {
        Plan::Empty { op, input } => Ok(Outcome { op, same: true, empty: Some(input) }),
        Plan::Node { op, is_subquery, children } => {
            let ghost listed = children@;
            let mut below: Vec<Outcome<P>> = Vec::new();
            for child in iter: children
                invariant
                    iter.seq() == listed,
                    children@ == listed,
                    plan == (Plan::Node { op, is_subquery, children }),
                    forall|op: P, children: Vec<P>| call_requires(*rebuild, (op, children)),
                    forall|memory: MemoryExec| call_requires(*source, (memory,)),
                    below@.len() == iter.index(),
                    forall|i: int|
                        0 <= i < below@.len() ==> aligns::<P, E, B, S>(
                            #[trigger] listed[i],
                            *rebuild,
                            *source,
                            below@[i],
                        ),
            {
                assert(decreases_to!(plan => plan->Node_children));
                assert(decreases_to!(children@ => child));
                match align(child, rebuild, source) {
                    Ok(outcome) => below.push(outcome),
                    Err(error) => {
                        assert forall|i: int| 0 <= i < iter.index() implies can_align::<P, E, B, S>(
                            #[trigger] children@[i],
                            *rebuild,
                            *source,
                        ) by {
                            assert(aligns::<P, E, B, S>(listed[i], *rebuild, *source, below@[i]));
                        }
                        assert(fails_with::<P, E, B, S>(
                            children@[iter.index() as int],
                            *rebuild,
                            *source,
                            error->Rebuild_0,
                        ));
                        return Err(error);
                    },
                }
            }
            let ghost aligned_below = below@;
            if let Err(error) = supply_input(is_subquery, source, &mut below) {
                return Err(AlignError::Source(error));
            }
            let ghost supplied = below@;
            assert(input_supplied(is_subquery, *source, aligned_below, supplied));
            let (ops, same) = split_outcomes(below);
            if same {
                Ok(Outcome { op, same: true, empty: None })
            } else {
                match rebuild(op, ops) {
                    Ok(outcome) => {
                        assert(answers(*rebuild, op, supplied, Ok::<Outcome<P>, E>(outcome)));
                        Ok(outcome)
                    },
                    Err(error) => {
                        assert(answers(*rebuild, op, supplied, Err::<Outcome<P>, E>(error)));
                        Err(AlignError::Rebuild(error))
                    },
                }
            }
        },
    }
}

/// Aligns a plan: gives each subquery operator that reads a bare one-row input a source of the
/// schema that this input declares. `rebuild` makes an operator over new children, and `source`
/// makes an operator of a source.
///
/// A plan none of whose subquery operators reads such an input comes out as itself, and alignment
/// fails only where `rebuild` does.
pub fn align_subquery_input<P, E, B, S>(plan: Plan<P>, rebuild: &B, source: &S) -> (r: Result<
    Outcome<P>,
    AlignError<E>,
>) where B: Fn(P, Vec<P>) -> Result<Outcome<P>, E>, S: Fn(MemoryExec) -> P
    requires
        forall|op: P, children: Vec<P>| call_requires(*rebuild, (op, children)),
        forall|memory: MemoryExec| call_requires(*source, (memory,)),
    ensures
        r matches Ok(outcome) ==> aligns::<P, E, B, S>(plan, *rebuild, *source, outcome),
        r matches Err(error) ==> error is Rebuild && fails_with::<P, E, B, S>(
            plan,
            *rebuild,
            *source,
            error->Rebuild_0,
        ),
        settled(plan@) ==> r == Ok::<Outcome<P>, AlignError<E>>(unchanged(plan)),
        never_fails::<P, E, B>(*rebuild) ==> r is Ok,
{
    let ghost described = plan;
    let result = align(plan, rebuild, source);
    proof {
        if settled(described@) {
            if result is Ok {
                law_settled_plan_is_unchanged::<P, E, B, S>(
                    described,
                    *rebuild,
                    *source,
                    result->Ok_0,
                );
            } else {
                law_settled_plan_does_not_fail::<P, E, B, S>(
                    described,
                    *rebuild,
                    *source,
                    result->Err_0->Rebuild_0,
                );
            }
        }
        if never_fails::<P, E, B>(*rebuild) && result is Err {
            law_failure_comes_from_rebuilding::<P, E, B, S>(
                described,
                *rebuild,
                *source,
                result->Err_0->Rebuild_0,
            );
        }
    }
    result
}

} // verus!
