//! Physical plans as trees: what alignment reads of a plan, and what it makes of one.
use crate::source::{
    batch_columns, batch_rows, batch_schema, empty_produces_row, empty_schema, memory_partitions,
    memory_projection, memory_schema, partition_count_of_empty, schema_of_empty,
};
use datafusion::arrow::datatypes::Schema;
use datafusion::arrow::record_batch::RecordBatch;
use datafusion::physical_plan::empty::EmptyExec;
use datafusion::physical_plan::memory::MemoryExec;
use std::sync::Arc;
use vstd::prelude::*;

verus! {

/// A relation without data: whether it produces one placeholder row, the schema that it declares,
/// and how many partitions it has.
#[derive(Debug)]
pub struct EmptyInput {
    pub produce_one_row: bool,
    pub schema: Arc<Schema>,
    pub partition_count: usize,
}

/// A physical plan, as far as alignment reads it. Each operator is carried along as a `P`, which
/// stands for that operator together with everything below it.
#[derive(Debug)]
pub enum Plan<P> {
    /// A relation without data. It has no children.
    Empty { op: P, input: EmptyInput },
    /// Any other operator. A subquery operator appends the results of scalar subqueries, its
    /// later children, to the batches of its input, its first child.
    Node { op: P, is_subquery: bool, children: Vec<Plan<P>> },
}

/// What an operator came out as: the operator that takes its place, whether that is the operator
/// itself, and what it declares where it is a relation without data.
#[derive(Debug)]
pub struct Outcome<P> {
    pub op: P,
    pub same: bool,
    pub empty: Option<EmptyInput>,
}

/// What a batch looks like from outside.
pub ghost struct BatchShape {
    pub schema: Schema,
    pub columns: nat,
    pub rows: nat,
}

/// What an in-memory source looks like from outside: its schema, its batches partition by
/// partition, and its projection.
pub ghost struct SourceShape {
    pub schema: Schema,
    pub partitions: Seq<Seq<BatchShape>>,
    pub projection: Option<Seq<usize>>,
}

/// The tree of a plan, with the in-memory sources that alignment put into it.
pub ghost enum PlanTree<P> {
    Empty { op: P, input: EmptyInput },
    Memory(SourceShape),
    Node { op: P, is_subquery: bool, children: Seq<PlanTree<P>> },
}

/// The tree of an aligned plan: kept as it was, an in-memory source in place of a bare one-row
/// input, or an operator over new children.
pub ghost enum AlignedTree<P> {
    Kept(PlanTree<P>),
    Supplied(SourceShape),
    Rebuilt { op: P, is_subquery: bool, children: Seq<AlignedTree<P>> },
}

/// What a batch looks like.
pub open spec fn batch_shape(batch: RecordBatch) -> BatchShape {
    BatchShape {
        schema: batch_schema(batch),
        columns: batch_columns(batch),
        rows: batch_rows(batch),
    }
}

/// What an in-memory source looks like.
pub open spec fn source_shape(memory: MemoryExec) -> SourceShape {
    SourceShape {
        schema: memory_schema(memory),
        partitions: memory_partitions(memory).map_values(
            |partition: Seq<RecordBatch>|
                partition.map_values(|batch: RecordBatch| batch_shape(batch)),
        ),
        projection: memory_projection(memory),
    }
}

/// The trees of a list of plans.
pub open spec fn plan_trees<P>(plans: Seq<Plan<P>>) -> Seq<PlanTree<P>>
    decreases plans,
{
    Seq::new(
        plans.len(),
        |i: int|
            if 0 <= i < plans.len() {
                plan_tree(plans[i])
            } else {
                arbitrary()
            },
    )
}

/// The tree of a plan.
pub open spec fn plan_tree<P>(plan: Plan<P>) -> PlanTree<P>
    decreases plan,
{
    match plan {
        Plan::Empty { op, input } => PlanTree::Empty { op, input },
        Plan::Node { op, is_subquery, children } => PlanTree::Node {
            op,
            is_subquery,
            children: plan_trees(children@),
        },
    }
}

impl<P> View for Plan<P> {
    type V = PlanTree<P>;

    open spec fn view(&self) -> PlanTree<P> {
        plan_tree(*self)
    }
}

/// An operator that came out as itself.
pub open spec fn unchanged<P>(plan: Plan<P>) -> Outcome<P> {
    match plan {
        Plan::Empty { op, input } => Outcome { op, same: true, empty: Some(input) },
        Plan::Node { op, .. } => Outcome { op, same: true, empty: None },
    }
}

impl EmptyInput {
    /// What an empty relation declares.
    pub fn of(empty: &EmptyExec) -> (r: Self)
        ensures
            r.produce_one_row == empty_produces_row(*empty),
            *r.schema == empty_schema(*empty),
            r.partition_count == 1,
    {
        EmptyInput {
            produce_one_row: empty.produce_one_row(),
            schema: schema_of_empty(empty),
            partition_count: partition_count_of_empty(empty),
        }
    }
}

} // verus!
