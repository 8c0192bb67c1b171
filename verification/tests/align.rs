use cubesql::align::{align_subquery_input, row_source, AlignError, SourceError};
use cubesql::plan::{EmptyInput, Outcome, Plan};
use datafusion::arrow::array::{ArrayRef, Int64Array};
use datafusion::arrow::datatypes::{DataType, Field, Schema, SchemaRef};
use datafusion::arrow::record_batch::RecordBatch;
use datafusion::error::{DataFusionError, Result};
use datafusion::execution::context::{SessionContext, TaskContext};
use datafusion::physical_plan::empty::EmptyExec;
use datafusion::physical_plan::expressions::PhysicalSortExpr;
use datafusion::physical_plan::memory::MemoryExec;
use datafusion::physical_plan::union::UnionExec;
use datafusion::physical_plan::{
    collect, ExecutionPlan, Partitioning, SendableRecordBatchStream, Statistics,
};
use std::any::Any;
use std::cell::RefCell;
use std::collections::HashMap;
use std::sync::Arc;

fn bare() -> SchemaRef {
    Arc::new(Schema::empty())
}

fn declared() -> SchemaRef {
    Arc::new(Schema::new(vec![Field::new("a", DataType::Int64, true)]))
}

fn input(produce_one_row: bool, schema: SchemaRef, partition_count: usize) -> EmptyInput {
    EmptyInput {
        produce_one_row,
        schema,
        partition_count,
    }
}

fn empty(op: &str, produce_one_row: bool, schema: SchemaRef, count: usize) -> Plan<String> {
    Plan::Empty {
        op: op.to_string(),
        input: input(produce_one_row, schema, count),
    }
}

fn node(op: &str, is_subquery: bool, children: Vec<Plan<String>>) -> Plan<String> {
    Plan::Node {
        op: op.to_string(),
        is_subquery,
        children,
    }
}

fn source_name(memory: MemoryExec) -> String {
    assert!(format!("{:?}", memory).ends_with("projection: None"));
    format!("memory {}", memory.output_partitioning().partition_count())
}

fn rename(op: String, children: Vec<String>) -> std::result::Result<Outcome<String>, String> {
    Ok(Outcome {
        op: format!("new {}[{}]", op, children.join(", ")),
        same: false,
        empty: None,
    })
}

fn aligned(plan: Plan<String>) -> String {
    match align_subquery_input(plan, &rename, &source_name) {
        Ok(outcome) => {
            assert_eq!(outcome.same, !outcome.op.starts_with("new "));
            outcome.op
        }
        Err(_) => panic!("alignment failed"),
    }
}

#[test]
fn bare_input_of_a_subquery_is_supplied() {
    let plan = node(
        "q",
        true,
        vec![empty("a", true, bare(), 3), empty("b", true, bare(), 1)],
    );
    assert_eq!(aligned(plan), "new q[memory 3, b]");
}

#[test]
fn only_subqueries_are_supplied() {
    let plan = node("n", false, vec![empty("a", true, bare(), 1)]);
    assert_eq!(aligned(plan), "n");
    let plan = empty("a", true, bare(), 1);
    assert_eq!(aligned(plan), "a");
}

#[test]
fn only_bare_one_row_inputs_are_supplied() {
    let plan = node("q", true, vec![empty("a", false, bare(), 1)]);
    assert_eq!(aligned(plan), "q");
    let plan = node("q", true, vec![empty("a", true, declared(), 1)]);
    assert_eq!(aligned(plan), "q");
    let plan = node("q", true, vec![node("n", false, vec![empty("a", true, bare(), 1)])]);
    assert_eq!(aligned(plan), "q");
    let plan = node("q", true, vec![]);
    assert_eq!(aligned(plan), "q");
}

#[test]
fn operators_above_a_change_are_rebuilt() {
    let untouched = node("n", false, vec![empty("a", true, bare(), 1)]);
    let inner = node("r", true, vec![empty("b", true, bare(), 1)]);
    let outer = node("q", true, vec![empty("c", true, bare(), 2), inner]);
    let plan = node("top", false, vec![untouched, outer]);
    assert_eq!(
        aligned(plan),
        "new top[n, new q[memory 2, new r[memory 1]]]"
    );
}

#[test]
fn no_partition_gets_no_row() {
    let plan = node("q", true, vec![empty("a", true, bare(), 0)]);
    assert_eq!(aligned(plan), "new q[memory 0]");
}

#[test]
fn unchanged_outcome_says_what_the_plan_declares() {
    match align_subquery_input(empty("a", true, declared(), 4), &rename, &source_name) {
        Ok(outcome) => {
            assert!(outcome.same);
            let input = outcome.empty.unwrap();
            assert!(input.produce_one_row);
            assert_eq!(input.schema, declared());
            assert_eq!(input.partition_count, 4);
        }
        Err(_) => panic!("alignment failed"),
    }
}

#[test]
fn operator_above_one_that_stays_itself_is_not_rebuilt() {
    let subquery = node("q", true, vec![empty("a", true, bare(), 1)]);
    let plan = node("top", false, vec![subquery, empty("b", true, bare(), 1)]);
    let calls = RefCell::new(vec![]);
    let result = align_subquery_input(
        plan,
        &|op: String, children: Vec<String>| {
            calls.borrow_mut().push((op.clone(), children));
            let outcome = Outcome {
                op,
                same: true,
                empty: None,
            };
            Ok::<Outcome<String>, String>(outcome)
        },
        &source_name,
    );
    let outcome = result.unwrap();
    assert_eq!(outcome.op, "top");
    assert!(outcome.same);
    assert_eq!(
        calls.into_inner(),
        vec![("q".to_string(), vec!["memory 1".to_string()])]
    );
}

#[test]
fn operator_rebuilt_into_a_bare_input_is_supplied() {
    let inner = node("r", true, vec![empty("a", true, bare(), 1)]);
    let plan = node("q", true, vec![inner]);
    let result = align_subquery_input(
        plan,
        &|op: String, children: Vec<String>| {
            let empty = if op == "r" {
                Some(input(true, bare(), 5))
            } else {
                None
            };
            let outcome = Outcome {
                op: format!("new {}[{}]", op, children.join(", ")),
                same: false,
                empty,
            };
            Ok::<Outcome<String>, String>(outcome)
        },
        &source_name,
    );
    assert_eq!(result.unwrap().op, "new q[memory 5]");
}

#[test]
fn operator_rebuilt_into_a_declared_input_is_kept() {
    let inner = node("r", true, vec![empty("a", true, bare(), 1)]);
    let plan = node("q", true, vec![inner]);
    let result = align_subquery_input(
        plan,
        &|op: String, children: Vec<String>| {
            let outcome = Outcome {
                op: format!("new {}[{}]", op, children.join(", ")),
                same: false,
                empty: Some(input(true, declared(), 1)),
            };
            Ok::<Outcome<String>, String>(outcome)
        },
        &source_name,
    );
    assert_eq!(result.unwrap().op, "new q[new r[memory 1]]");
}

fn run(plan: Arc<dyn ExecutionPlan>) -> Vec<RecordBatch> {
    let runtime = tokio::runtime::Builder::new_multi_thread().build().unwrap();
    let context: Arc<TaskContext> = SessionContext::new().task_ctx();
    runtime.block_on(collect(plan, context)).unwrap()
}

#[test]
fn supplied_source_emits_one_row_of_its_schema() {
    let mut metadata = HashMap::new();
    metadata.insert("origin".to_string(), "test".to_string());
    let schema: SchemaRef = Arc::new(Schema::new_with_metadata(vec![], metadata));
    let source = match row_source(schema.clone(), 2) {
        Ok(source) => source,
        Err(_) => panic!("no source"),
    };
    assert_eq!(source.schema(), schema);
    assert_eq!(source.output_partitioning().partition_count(), 2);
    let batches = run(Arc::new(source));
    assert_eq!(batches.len(), 2);
    for batch in batches {
        assert_eq!(batch.num_rows(), 1);
        assert_eq!(batch.num_columns(), 0);
        assert_eq!(batch.schema(), schema);
    }
}

#[test]
fn declared_columns_give_no_source() {
    match row_source(declared(), 1) {
        Err(SourceError::Batch(error)) => assert_eq!(
            error.to_string(),
            "Invalid argument error: number of columns(0) must match number of fields(1) in schema"
        ),
        _ => panic!("expected a batch error"),
    }
}

/// Appends one integer column to each batch of its input.
#[derive(Debug)]
struct AppendScalar {
    children: Vec<Arc<dyn ExecutionPlan>>,
}

impl ExecutionPlan for AppendScalar {
    fn as_any(&self) -> &dyn Any {
        self
    }

    fn schema(&self) -> SchemaRef {
        let mut fields = self.children[0].schema().fields().clone();
        fields.push(Field::new("total", DataType::Int64, true));
        Arc::new(Schema::new(fields))
    }

    fn output_partitioning(&self) -> Partitioning {
        self.children[0].output_partitioning()
    }

    fn output_ordering(&self) -> Option<&[PhysicalSortExpr]> {
        None
    }

    fn children(&self) -> Vec<Arc<dyn ExecutionPlan>> {
        self.children.clone()
    }

    fn with_new_children(
        self: Arc<Self>,
        children: Vec<Arc<dyn ExecutionPlan>>,
    ) -> Result<Arc<dyn ExecutionPlan>> {
        Ok(Arc::new(AppendScalar { children }))
    }

    fn execute(&self, _: usize, _: Arc<TaskContext>) -> Result<SendableRecordBatchStream> {
        Err(DataFusionError::NotImplemented("run by hand".to_string()))
    }

    fn statistics(&self) -> Statistics {
        Statistics::default()
    }
}

fn append_scalar(plan: &Arc<dyn ExecutionPlan>, value: i64) -> Vec<Result<RecordBatch>> {
    run(plan.children()[0].clone())
        .into_iter()
        .map(|batch| {
            let mut columns: Vec<ArrayRef> = batch.columns().to_vec();
            columns.push(Arc::new(Int64Array::from(vec![value])));
            Ok(RecordBatch::try_new(plan.schema(), columns)?)
        })
        .collect()
}

type Operator = Arc<dyn ExecutionPlan>;

fn empty_input(op: &Operator) -> Option<EmptyInput> {
    op.as_any().downcast_ref::<EmptyExec>().map(EmptyInput::of)
}

fn describe(op: Operator) -> Plan<Operator> {
    match empty_input(&op) {
        Some(input) => Plan::Empty { op, input },
        None => Plan::Node {
            is_subquery: op.as_any().is::<AppendScalar>(),
            children: op.children().into_iter().map(describe).collect(),
            op,
        },
    }
}

fn rebuild(op: Operator, children: Vec<Operator>) -> Result<Outcome<Operator>> {
    let rebuilt = op.clone().with_new_children(children)?;
    Ok(Outcome {
        same: Arc::ptr_eq(&op, &rebuilt),
        empty: empty_input(&rebuilt),
        op: rebuilt,
    })
}

fn align(plan: Operator) -> Operator {
    let source = |memory: MemoryExec| -> Operator { Arc::new(memory) };
    match align_subquery_input(describe(plan), &rebuild, &source) {
        Ok(outcome) => outcome.op,
        Err(_) => panic!("alignment failed"),
    }
}

#[test]
fn empty_relations_are_read_off() {
    for flag in [true, false] {
        let input = EmptyInput::of(&EmptyExec::new(flag, declared()));
        assert_eq!(input.produce_one_row, flag);
        assert_eq!(input.schema, declared());
        assert_eq!(input.partition_count, 1);
    }
}

#[test]
fn aligned_subquery_matches_its_schema() {
    let input: Arc<dyn ExecutionPlan> = Arc::new(EmptyExec::new(true, bare()));
    let plan: Arc<dyn ExecutionPlan> = Arc::new(AppendScalar {
        children: vec![input],
    });
    for batch in append_scalar(&plan, 2) {
        assert!(batch.is_err());
    }
    let plan = align(plan);
    assert!(plan.as_any().is::<AppendScalar>());
    assert!(plan.children()[0].as_any().is::<MemoryExec>());
    let batches = append_scalar(&plan, 2);
    assert_eq!(batches.len(), 1);
    for batch in batches {
        let batch = batch.unwrap();
        assert_eq!(batch.num_rows(), 1);
        assert_eq!(batch.num_columns(), 1);
        let column = batch.column(0).as_any().downcast_ref::<Int64Array>();
        assert_eq!(column.unwrap().value(0), 2);
    }
}

#[test]
fn aligning_again_returns_the_same_plan() {
    let bare_input: Arc<dyn ExecutionPlan> = Arc::new(EmptyExec::new(true, bare()));
    let other: Arc<dyn ExecutionPlan> = Arc::new(EmptyExec::new(true, bare()));
    let subquery: Arc<dyn ExecutionPlan> = Arc::new(AppendScalar {
        children: vec![bare_input],
    });
    let plan: Arc<dyn ExecutionPlan> = Arc::new(UnionExec::new(vec![subquery, other.clone()]));
    let first = align(plan.clone());
    assert!(!Arc::ptr_eq(&first, &plan));
    assert!(Arc::ptr_eq(&first.children()[1], &other));
    let second = align(first.clone());
    assert!(Arc::ptr_eq(&first, &second));
}

#[test]
fn operators_are_rebuilt_after_their_children() {
    let plan = node(
        "top",
        false,
        vec![
            node("q", true, vec![empty("a", true, bare(), 1), empty("b", true, bare(), 1)]),
            node("n", false, vec![empty("c", true, bare(), 1)]),
        ],
    );
    let calls = RefCell::new(vec![]);
    let result = align_subquery_input(
        plan,
        &|op: String, children: Vec<String>| {
            calls.borrow_mut().push(format!("{}({})", op, children.join(" ")));
            let outcome = Outcome {
                op: op.to_uppercase(),
                same: false,
                empty: None,
            };
            Ok::<Outcome<String>, String>(outcome)
        },
        &source_name,
    );
    assert_eq!(result.unwrap().op, "TOP");
    assert_eq!(calls.into_inner(), vec!["q(memory 1 b)", "top(Q n)"]);
}

#[test]
fn kept_plans_are_not_rebuilt() {
    let plan = node("q", true, vec![node("n", false, vec![])]);
    let result = align_subquery_input(
        plan,
        &|_: String, _: Vec<String>| Err::<Outcome<String>, String>("rebuilt".to_string()),
        &source_name,
    );
    assert_eq!(result.unwrap().op, "q");
}

#[test]
fn the_first_failure_is_returned() {
    let subquery = |op: &str| node(op, true, vec![empty("a", true, bare(), 1)]);
    let plan = node("top", false, vec![subquery("q"), subquery("r"), subquery("s")]);
    let result = align_subquery_input(
        plan,
        &|op: String, children: Vec<String>| {
            if op == "q" {
                rename(op, children)
            } else {
                Err(format!("no {}", op))
            }
        },
        &source_name,
    );
    match result {
        Err(AlignError::Rebuild(error)) => assert_eq!(error, "no r"),
        _ => panic!("expected a failure"),
    }
}
