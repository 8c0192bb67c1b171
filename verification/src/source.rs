//! The parts of Arrow and DataFusion that plans are made of: schemas, batches, empty relations and
//! in-memory sources. Everything here is taken from those crates; nothing of it is proved.
use datafusion::arrow::datatypes::{Field, Schema};
use datafusion::arrow::error::ArrowError;
use datafusion::arrow::record_batch::{RecordBatch, RecordBatchOptions};
use datafusion::error::DataFusionError;
use datafusion::physical_plan::empty::EmptyExec;
use datafusion::physical_plan::memory::MemoryExec;
use datafusion::physical_plan::ExecutionPlan;
use std::sync::Arc;
use vstd::prelude::*;

verus! {

/// Arrow's `Schema`: a list of fields, with metadata.
#[verifier::external_type_specification]
#[verifier::external_body]
pub struct ExSchema(datafusion::arrow::datatypes::Schema);

/// Arrow's `Field`: the name and type of a column.
#[verifier::external_type_specification]
#[verifier::external_body]
pub struct ExField(datafusion::arrow::datatypes::Field);

/// Arrow's `RecordBatch`: columns of equal length under a schema.
#[verifier::external_type_specification]
#[verifier::external_body]
pub struct ExRecordBatch(datafusion::arrow::record_batch::RecordBatch);

/// DataFusion's `EmptyExec`: a relation without data, of no row or one placeholder row.
#[verifier::external_type_specification]
#[verifier::external_body]
pub struct ExEmptyExec(datafusion::physical_plan::empty::EmptyExec);

/// DataFusion's `MemoryExec`: a source that emits the batches it holds.
#[verifier::external_type_specification]
#[verifier::external_body]
pub struct ExMemoryExec(datafusion::physical_plan::memory::MemoryExec);

/// Arrow's error.
#[verifier::external_type_specification]
#[verifier::external_body]
pub struct ExArrowError(datafusion::arrow::error::ArrowError);

/// DataFusion's error.
#[verifier::external_type_specification]
#[verifier::external_body]
pub struct ExDataFusionError(datafusion::error::DataFusionError);

/// The fields that a schema declares, in order.
pub uninterp spec fn schema_fields(schema: Schema) -> Seq<Field>;

/// The schema that a batch carries.
pub uninterp spec fn batch_schema(batch: RecordBatch) -> Schema;

/// The number of columns that a batch holds.
pub uninterp spec fn batch_columns(batch: RecordBatch) -> nat;

/// The number of rows that a batch holds.
pub uninterp spec fn batch_rows(batch: RecordBatch) -> nat;

/// Whether an empty relation produces one placeholder row.
pub uninterp spec fn empty_produces_row(empty: EmptyExec) -> bool;

/// The schema that an empty relation declares.
pub uninterp spec fn empty_schema(empty: EmptyExec) -> Schema;

/// The batches that an in-memory source holds, partition by partition.
pub uninterp spec fn memory_partitions(memory: MemoryExec) -> Seq<Seq<RecordBatch>>;

/// The schema that an in-memory source declares.
pub uninterp spec fn memory_schema(memory: MemoryExec) -> Schema;

/// The columns that an in-memory source picks out of its batches, where it was made to.
pub uninterp spec fn memory_projection(memory: MemoryExec) -> Option<Seq<usize>>;

/// `Schema::fields`: the fields of the schema, in order.
pub assume_specification[ Schema::fields ](schema: &Schema) -> (r: &Vec<Field>)
    ensures
        r@ == schema_fields(*schema),
;

/// `RecordBatch::try_new_with_options` with no columns and the given row count. There is a batch
/// exactly when the schema declares no fields and a row count is given. The batch carries the
/// schema, has no columns, and has as many rows as the count says.
#[verifier::external_body]
pub(crate) fn batch_without_columns(schema: Arc<Schema>, row_count: Option<usize>) -> (r: Result<
    RecordBatch,
    ArrowError,
>)
    ensures
        r is Ok <==> (schema_fields(*schema).len() == 0 && row_count is Some),
        r is Ok ==> batch_schema(r->Ok_0) == *schema,
        r is Ok ==> batch_columns(r->Ok_0) == 0,
        r is Ok ==> batch_rows(r->Ok_0) == row_count->0,
{
    let mut options = RecordBatchOptions::default();
    options.row_count = row_count;
    RecordBatch::try_new_with_options(schema, vec![], &options)
}

/// `RecordBatch::clone`: a batch of the same schema, columns and rows.
pub assume_specification[ RecordBatch::clone ](batch: &RecordBatch) -> (r: RecordBatch)
    ensures
        r == *batch,
;

/// `EmptyExec::produce_one_row`: the flag that the relation was made with.
pub assume_specification[ EmptyExec::produce_one_row ](empty: &EmptyExec) -> (r: bool)
    ensures
        r == empty_produces_row(*empty),
;

/// `ExecutionPlan::schema` of an `EmptyExec`: the schema that the relation was made with.
#[verifier::external_body]
pub(crate) fn schema_of_empty(empty: &EmptyExec) -> (r: Arc<Schema>)
    ensures
        *r == empty_schema(*empty),
{
    empty.schema()
}

/// `ExecutionPlan::output_partitioning` of an `EmptyExec`: a single partition.
#[verifier::external_body]
pub(crate) fn partition_count_of_empty(empty: &EmptyExec) -> (r: usize)
    ensures
        r == 1,
{
    empty.output_partitioning().partition_count()
}

/// `MemoryExec::try_new`: without a projection there is always a source, and it declares the
/// given schema. Any source holds the given batches as they are, and has the given projection.
/// Which projections are refused, and what schema is declared under one, is left open.
pub assume_specification[ MemoryExec::try_new ](
    partitions: &[Vec<RecordBatch>],
    schema: Arc<Schema>,
    projection: Option<Vec<usize>>,
) -> (r: Result<MemoryExec, DataFusionError>)
    ensures
        projection is None ==> r is Ok,
        projection is None ==> memory_schema(r->Ok_0) == *schema,
        r is Ok ==> memory_partitions(r->Ok_0) == Seq::new(
            partitions@.len(),
            |i: int| partitions@[i]@,
        ),
        (r is Ok && projection is None) ==> memory_projection(r->Ok_0) is None,
        (r is Ok && projection is Some) ==> memory_projection(r->Ok_0) == Some(projection->0@),
;

} // verus!
