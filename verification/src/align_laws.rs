//! What holds of subquery input alignment over whole plans.
use crate::align::{
    aligns, all_same, answers, came_out_bare, can_align, carries, fails_with, input_supplied,
    is_bare, operators, source_for,
};
use crate::plan::{
    plan_trees, source_shape, unchanged, AlignedTree, BatchShape, EmptyInput, Outcome, Plan,
    PlanTree,
};
use crate::source::{
    batch_columns, batch_rows, batch_schema, memory_partitions, memory_projection, memory_schema,
    schema_fields,
};
use datafusion::physical_plan::memory::MemoryExec;
use vstd::prelude::*;

verus! {

/// A plan that is a bare one-row input.
pub open spec fn wants_row<P>(plan: PlanTree<P>) -> bool {
    plan matches PlanTree::Empty { input, .. } && is_bare(input)
}

/// The source that takes the place of a bare one-row input.
pub open spec fn row_supplied<P>(plan: PlanTree<P>) -> AlignedTree<P> {
    AlignedTree::Supplied(source_for(plan->Empty_input))
}

/// The children of a subquery operator, its input supplied where it is a bare one-row input.
pub open spec fn with_input_supplied<P>(children: Seq<AlignedTree<P>>) -> Seq<AlignedTree<P>> {
    if children.len() > 0 && children[0] is Kept && wants_row(children[0]->Kept_0) {
        children.update(0, row_supplied(children[0]->Kept_0))
    } else {
        children
    }
}

/// No child changed.
pub open spec fn all_kept<P>(children: Seq<AlignedTree<P>>) -> bool {
    forall|i: int| 0 <= i < children.len() ==> (#[trigger] children[i]) is Kept
}

/// Each of a list of plans, aligned on its own.
pub open spec fn aligned_all<P>(plans: Seq<PlanTree<P>>) -> Seq<AlignedTree<P>>
    decreases plans,
{
    Seq::new(
        plans.len(),
        |i: int|
            if 0 <= i < plans.len() {
                aligned(plans[i])
            } else {
                arbitrary()
            },
    )
}

/// The tree of a plan, aligned: first each child on its own, then the input of a subquery
/// operator. An operator none of whose children changed is kept with everything below it. This
/// is alignment where rebuilding an operator makes a new one that is no empty relation.
pub open spec fn aligned<P>(plan: PlanTree<P>) -> AlignedTree<P>
    decreases plan,
{
    match plan {
        PlanTree::Node { op, is_subquery, children } => {
            let below = aligned_all(children);
            let supplied = if is_subquery {
                with_input_supplied(below)
            } else {
                below
            };
            if all_kept(supplied) {
                AlignedTree::Kept(plan)
            } else {
                AlignedTree::Rebuilt { op, is_subquery, children: supplied }
            }
        },
        _ => AlignedTree::Kept(plan),
    }
}

/// The plans that a list of alignment results stands for.
pub open spec fn assembled_all<P>(results: Seq<AlignedTree<P>>) -> Seq<PlanTree<P>>
    decreases results,
{
    Seq::new(
        results.len(),
        |i: int|
            if 0 <= i < results.len() {
                assembled(results[i])
            } else {
                arbitrary()
            },
    )
}

/// The plan that an alignment result stands for: kept plans as they are, supplied inputs as
/// in-memory sources, and rebuilt operators over their new children.
pub open spec fn assembled<P>(result: AlignedTree<P>) -> PlanTree<P>
    decreases result,
{
    match result {
        AlignedTree::Kept(plan) => plan,
        AlignedTree::Supplied(shape) => PlanTree::Memory(shape),
        AlignedTree::Rebuilt { op, is_subquery, children } => PlanTree::Node {
            op,
            is_subquery,
            children: assembled_all(children),
        },
    }
}

/// The plan after alignment.
pub open spec fn result_plan<P>(plan: PlanTree<P>) -> PlanTree<P> {
    assembled(aligned(plan))
}

/// No subquery operator of the plan reads a one-row input that declares no columns.
pub open spec fn settled<P>(plan: PlanTree<P>) -> bool
    decreases plan,
{
    match plan {
        PlanTree::Node { is_subquery, children, .. } => {
            &&& is_subquery && children.len() > 0 ==> !wants_row(children[0])
            &&& forall|i: int|
                0 <= i < children.len() ==> settled(#[trigger] children[i])
        },
        _ => true,
    }
}

/// `after` is `before` in which exactly the bare one-row inputs of subquery operators gave way
/// to in-memory sources of the same schema and partition count, with one row in each partition.
/// `feeds_subquery` says whether the plan is the input of a subquery operator.
pub open spec fn inputs_replaced<P>(
    before: PlanTree<P>,
    after: PlanTree<P>,
    feeds_subquery: bool,
) -> bool
    decreases before,
{
    match before {
        PlanTree::Node { op, is_subquery, children } => {
            &&& after is Node
            &&& after->Node_op == op
            &&& after->Node_is_subquery == is_subquery
            &&& after->Node_children.len() == children.len()
            &&& forall|i: int|
                0 <= i < children.len() ==> inputs_replaced(
                    #[trigger] children[i],
                    after->Node_children[i],
                    is_subquery && i == 0,
                )
        },
        _ => if feeds_subquery && wants_row(before) {
            after == PlanTree::<P>::Memory(source_for(before->Empty_input))
        } else {
            after == before
        },
    }
}

/// A plan comes back as it is exactly when none of its subquery operators reads a bare one-row
/// input.
pub proof fn law_kept_exactly_when_settled<P>(plan: PlanTree<P>)
    ensures
        aligned(plan) is Kept <==> settled(plan),
        aligned(plan) is Kept ==> aligned(plan) == AlignedTree::Kept(plan),
    decreases plan,
{
    match plan {
        PlanTree::Node { op, is_subquery, children } => {
            let below = aligned_all(children);
            assert forall|i: int| 0 <= i < children.len() implies {
                &&& below[i] == aligned(children[i])
                &&& below[i] is Kept <==> settled(children[i])
                &&& below[i] is Kept ==> below[i] == AlignedTree::Kept(children[i])
            } by {
                law_kept_exactly_when_settled(children[i]);
            }
            let supplied = if is_subquery {
                with_input_supplied(below)
            } else {
                below
            };
            if all_kept(supplied) {
                assert forall|i: int| 0 <= i < children.len() implies settled(
                    #[trigger] children[i],
                ) by {
                    assert(supplied[i] is Kept);
                }
                if is_subquery && children.len() > 0 {
                    assert(supplied[0] is Kept);
                }
            }
            if settled(plan) {
                assert forall|i: int| 0 <= i < supplied.len() implies (
                #[trigger] supplied[i]) is Kept by {
                    assert(settled(children[i]));
                }
            }
        },
        _ => {},
    }
}

/// Alignment replaces the bare one-row inputs of subquery operators, each by a source of the
/// same schema and partition count, and leaves everything else of the plan where it is.
pub proof fn law_only_bare_inputs_replaced<P>(plan: PlanTree<P>)
    ensures
        inputs_replaced(plan, result_plan(plan), false),
    decreases plan,
{
    match plan {
        PlanTree::Node { op, is_subquery, children } => {
            let below = aligned_all(children);
            let supplied = if is_subquery {
                with_input_supplied(below)
            } else {
                below
            };
            let after = result_plan(plan);
            law_kept_exactly_when_settled(plan);
            assert forall|i: int| 0 <= i < children.len() implies {
                &&& inputs_replaced(
                    #[trigger] children[i],
                    assembled(supplied[i]),
                    is_subquery && i == 0,
                )
                &&& supplied[i] is Kept ==> supplied[i] == AlignedTree::Kept(children[i])
            } by {
                law_only_bare_inputs_replaced(children[i]);
                law_kept_exactly_when_settled(children[i]);
                assert(below[i] == aligned(children[i]));
            }
            if all_kept(supplied) {
                assert forall|i: int| 0 <= i < children.len() implies inputs_replaced(
                    #[trigger] children[i],
                    after->Node_children[i],
                    is_subquery && i == 0,
                ) by {
                    assert(supplied[i] is Kept);
                }
            } else {
                assert(after->Node_children =~= assembled_all(supplied));
                assert forall|i: int| 0 <= i < children.len() implies inputs_replaced(
                    #[trigger] children[i],
                    after->Node_children[i],
                    is_subquery && i == 0,
                ) by {
                    assert(after->Node_children[i] == assembled(supplied[i]));
                }
            }
        },
        _ => {},
    }
}

/// After alignment no subquery operator reads a bare one-row input.
pub proof fn law_result_is_settled<P>(plan: PlanTree<P>)
    ensures
        settled(result_plan(plan)),
{
    law_only_bare_inputs_replaced(plan);
    lemma_replaced_is_settled(plan, result_plan(plan), false);
}

proof fn lemma_replaced_is_settled<P>(
    before: PlanTree<P>,
    after: PlanTree<P>,
    feeds_subquery: bool,
)
    requires
        inputs_replaced(before, after, feeds_subquery),
    ensures
        settled(after),
        feeds_subquery ==> !wants_row(after),
    decreases before,
{
    match before {
        PlanTree::Node { op, is_subquery, children } => {
            assert forall|i: int| 0 <= i < children.len() implies {
                &&& settled(#[trigger] after->Node_children[i])
                &&& is_subquery && i == 0 ==> !wants_row(after->Node_children[i])
            } by {
                lemma_replaced_is_settled(
                    children[i],
                    after->Node_children[i],
                    is_subquery && i == 0,
                );
            }
            if is_subquery && children.len() > 0 {
                assert(settled(after->Node_children[0]));
            }
        },
        _ => {},
    }
}

/// Aligning an aligned plan changes nothing.
pub proof fn law_alignment_is_idempotent<P>(plan: PlanTree<P>)
    ensures
        aligned(result_plan(plan)) == AlignedTree::Kept(result_plan(plan)),
        result_plan(result_plan(plan)) == result_plan(plan),
{
    law_result_is_settled(plan);
    law_kept_exactly_when_settled(result_plan(plan));
}

/// The root operator is rebuilt exactly when the plan under it changes.
pub proof fn law_rebuilt_only_on_change<P>(plan: PlanTree<P>)
    ensures
        aligned(plan) is Rebuilt <==> result_plan(plan) != plan,
        aligned(plan) !is Supplied,
{
    law_kept_exactly_when_settled(plan);
    law_result_is_settled(plan);
}

/// The source that replaces a bare one-row input declares the schema of that input, has as many
/// partitions, and no projection. Each partition holds one batch, which carries the declared
/// schema, holds one row, and has exactly as many columns as that schema declares.
pub proof fn law_supplied_row_matches_schema<P>(plan: PlanTree<P>)
    requires
        wants_row(plan),
    ensures
        row_supplied(plan)->Supplied_0.schema == *plan->Empty_input.schema,
        row_supplied(plan)->Supplied_0.projection is None,
        row_supplied(plan)->Supplied_0.partitions.len() == plan->Empty_input.partition_count,
        forall|i: int|
            #![trigger row_supplied(plan)->Supplied_0.partitions[i]]
            0 <= i < plan->Empty_input.partition_count ==> {
                let partition = row_supplied(plan)->Supplied_0.partitions[i];
                &&& partition.len() == 1
                &&& partition[0].schema == *plan->Empty_input.schema
                &&& partition[0].columns == schema_fields(*plan->Empty_input.schema).len()
                &&& partition[0].rows == 1
            },
{
}

/// `rebuild` makes `op` when it is handed the operator `before` and new children.
pub open spec fn rebuilds_to<P, E, B: Fn(P, Vec<P>) -> Result<Outcome<P>, E>>(
    rebuild: B,
    before: P,
    children: Seq<P>,
    op: P,
) -> bool {
    exists|ops: Vec<P>, outcome: Outcome<P>|
        ops@ == children && outcome.op == op && #[trigger] call_ensures(
            rebuild,
            (before, ops),
            Ok::<Outcome<P>, E>(outcome),
        )
}

/// `op` is an operator that an aligned tree comes down to: the operator of a kept plan, what
/// `source` makes of a source, and what `rebuild` makes of an operator and of what its new
/// children come down to.
pub open spec fn comes_down_to<P, E, B, S>(
    tree: AlignedTree<P>,
    rebuild: B,
    source: S,
    op: P,
) -> bool where B: Fn(P, Vec<P>) -> Result<Outcome<P>, E>, S: Fn(MemoryExec) -> P
    decreases tree,
{
    match tree {
        AlignedTree::Kept(plan) => op == root_op(plan),
        AlignedTree::Supplied(shape) => carries(source, shape, op),
        AlignedTree::Rebuilt { op: before, children, .. } => exists|parts: Seq<P>|
            {
                &&& parts.len() == children.len()
                &&& forall|i: int|
                    0 <= i < children.len() ==> comes_down_to::<P, E, B, S>(
                        #[trigger] children[i],
                        rebuild,
                        source,
                        parts[i],
                    )
                &&& #[trigger] rebuilds_to::<P, E, B>(rebuild, before, parts, op)
            },
    }
}

/// The root operator of a plan that holds no in-memory source at its root.
pub open spec fn root_op<P>(plan: PlanTree<P>) -> P {
    match plan {
        PlanTree::Empty { op, .. } => op,
        PlanTree::Memory(_) => arbitrary(),
        PlanTree::Node { op, .. } => op,
    }
}

/// Rebuilding an operator makes a new operator that is no empty relation.
pub open spec fn makes_new<P, E, B: Fn(P, Vec<P>) -> Result<Outcome<P>, E>>(rebuild: B) -> bool {
    forall|op: P, children: Vec<P>, outcome: Outcome<P>| #[trigger]
        call_ensures(rebuild, (op, children), Ok::<Outcome<P>, E>(outcome)) ==> !outcome.same
            && outcome.empty is None
}

proof fn lemma_rebuilt_comes_down<P, E, B, S>(
    tree: AlignedTree<P>,
    rebuild: B,
    source: S,
    parts: Seq<P>,
    op: P,
) where B: Fn(P, Vec<P>) -> Result<Outcome<P>, E>, S: Fn(MemoryExec) -> P
    requires
        tree is Rebuilt,
        parts.len() == tree->Rebuilt_children.len(),
        forall|i: int|
            0 <= i < parts.len() ==> comes_down_to::<P, E, B, S>(
                #[trigger] tree->Rebuilt_children[i],
                rebuild,
                source,
                parts[i],
            ),
        rebuilds_to::<P, E, B>(rebuild, tree->Rebuilt_op, parts, op),
    ensures
        comes_down_to::<P, E, B, S>(tree, rebuild, source, op),
{
}

/// Where rebuilding an operator makes a new operator that is no empty relation, a plan comes out
/// as what its aligned tree comes down to, and as itself exactly where that tree is kept.
pub proof fn law_outcome_follows_tree<P, E, B, S>(
    plan: Plan<P>,
    rebuild: B,
    source: S,
    outcome: Outcome<P>,
) where B: Fn(P, Vec<P>) -> Result<Outcome<P>, E>, S: Fn(MemoryExec) -> P
    requires
        makes_new::<P, E, B>(rebuild),
        aligns::<P, E, B, S>(plan, rebuild, source, outcome),
    ensures
        comes_down_to::<P, E, B, S>(aligned(plan@), rebuild, source, outcome.op),
        outcome.same <==> aligned(plan@) is Kept,
        outcome.same ==> outcome == unchanged(plan),
        !outcome.same ==> outcome.empty is None,
    decreases plan,
{
    match plan {
        Plan::Empty { .. } => {},
        Plan::Node { op, is_subquery, children } => {
            let (below, supplied) = choose|below: Seq<Outcome<P>>, supplied: Seq<Outcome<P>>|
                {
                    &&& below.len() == children@.len()
                    &&& forall|i: int|
                        0 <= i < children@.len() ==> aligns::<P, E, B, S>(
                            #[trigger] children@[i],
                            rebuild,
                            source,
                            below[i],
                        )
                    &&& #[trigger] input_supplied(is_subquery, source, below, supplied)
                    &&& if all_same(supplied) {
                        outcome == unchanged(plan)
                    } else {
                        answers(rebuild, op, supplied, Ok::<Outcome<P>, E>(outcome))
                    }
                };
            let trees = aligned_all(plan_trees(children@));
            assert forall|i: int| 0 <= i < children@.len() implies {
                &&& (#[trigger] trees[i]) == aligned(children@[i]@)
                &&& comes_down_to::<P, E, B, S>(trees[i], rebuild, source, below[i].op)
                &&& below[i].same <==> trees[i] is Kept
                &&& below[i].same ==> below[i] == unchanged(children@[i])
                &&& !below[i].same ==> below[i].empty is None
                &&& trees[i] is Kept ==> trees[i] == AlignedTree::Kept(children@[i]@)
            } by {
                assert(aligns::<P, E, B, S>(children@[i], rebuild, source, below[i]));
                law_outcome_follows_tree::<P, E, B, S>(children@[i], rebuild, source, below[i]);
                law_kept_exactly_when_settled(children@[i]@);
            }
            let supplied_trees = if is_subquery {
                with_input_supplied(trees)
            } else {
                trees
            };
            if children@.len() > 0 {
                assert(trees[0] == aligned(children@[0]@));
                assert(came_out_bare(below[0]) <==> (trees[0] is Kept && wants_row(
                    trees[0]->Kept_0,
                )));
            }
            assert forall|i: int| 0 <= i < children@.len() implies {
                &&& comes_down_to::<P, E, B, S>(
                    #[trigger] supplied_trees[i],
                    rebuild,
                    source,
                    supplied[i].op,
                )
                &&& supplied[i].same <==> supplied_trees[i] is Kept
            } by {
                assert(trees[i] == aligned(children@[i]@));
            }
            if all_same(supplied) {
                assert forall|i: int| 0 <= i < supplied_trees.len() implies (
                #[trigger] supplied_trees[i]) is Kept by {
                    assert(supplied[i].same);
                }
            } else {
                let k = choose|k: int| 0 <= k < supplied.len() && !(#[trigger] supplied[k]).same;
                assert(!(supplied_trees[k] is Kept));
                let ops = choose|ops: Vec<P>|
                    ops@ == operators(supplied) && #[trigger] call_ensures(
                        rebuild,
                        (op, ops),
                        Ok::<Outcome<P>, E>(outcome),
                    );
                let parts = operators(supplied);
                assert(rebuilds_to::<P, E, B>(rebuild, op, parts, outcome.op));
                assert forall|i: int| 0 <= i < supplied_trees.len() implies comes_down_to::<
                    P,
                    E,
                    B,
                    S,
                >(#[trigger] supplied_trees[i], rebuild, source, parts[i]) by {
                    assert(parts[i] == supplied[i].op);
                }
                let tree = AlignedTree::Rebuilt { op, is_subquery, children: supplied_trees };
                assert(aligned(plan@) == tree);
                assert(parts.len() == supplied_trees.len());
                lemma_rebuilt_comes_down::<P, E, B, S>(tree, rebuild, source, parts, outcome.op);
            }
        },
    }
}

/// No subquery operator is rebuilt over a bare one-row input, whatever its children came out as.
pub proof fn law_no_bare_input_is_handed_on<P, S: Fn(MemoryExec) -> P>(
    source: S,
    below: Seq<Outcome<P>>,
    supplied: Seq<Outcome<P>>,
)
    requires
        input_supplied(true, source, below, supplied),
        below.len() > 0,
    ensures
        supplied.len() == below.len(),
        !came_out_bare(supplied[0]),
{
}

/// A plan none of whose subquery operators reads a bare one-row input comes out as itself,
/// whatever rebuilding would do.
pub proof fn law_settled_plan_is_unchanged<P, E, B, S>(
    plan: Plan<P>,
    rebuild: B,
    source: S,
    outcome: Outcome<P>,
) where B: Fn(P, Vec<P>) -> Result<Outcome<P>, E>, S: Fn(MemoryExec) -> P
    requires
        settled(plan@),
        aligns::<P, E, B, S>(plan, rebuild, source, outcome),
    ensures
        outcome == unchanged(plan),
    decreases plan,
{
    match plan {
        Plan::Empty { .. } => {},
        Plan::Node { op, is_subquery, children } => {
            let (below, supplied) = choose|below: Seq<Outcome<P>>, supplied: Seq<Outcome<P>>|
                {
                    &&& below.len() == children@.len()
                    &&& forall|i: int|
                        0 <= i < children@.len() ==> aligns::<P, E, B, S>(
                            #[trigger] children@[i],
                            rebuild,
                            source,
                            below[i],
                        )
                    &&& #[trigger] input_supplied(is_subquery, source, below, supplied)
                    &&& if all_same(supplied) {
                        outcome == unchanged(plan)
                    } else {
                        answers(rebuild, op, supplied, Ok::<Outcome<P>, E>(outcome))
                    }
                };
            lemma_settled_children_are_unchanged::<P, E, B, S>(
                plan,
                rebuild,
                source,
                below,
                supplied,
            );
        },
    }
}

proof fn lemma_settled_children_are_unchanged<P, E, B, S>(
    plan: Plan<P>,
    rebuild: B,
    source: S,
    below: Seq<Outcome<P>>,
    supplied: Seq<Outcome<P>>,
) where B: Fn(P, Vec<P>) -> Result<Outcome<P>, E>, S: Fn(MemoryExec) -> P
    requires
        plan is Node,
        settled(plan@),
        below.len() == plan->Node_children@.len(),
        forall|i: int|
            0 <= i < below.len() ==> aligns::<P, E, B, S>(
                #[trigger] plan->Node_children@[i],
                rebuild,
                source,
                below[i],
            ),
        input_supplied(plan->Node_is_subquery, source, below, supplied),
    ensures
        all_same(supplied),
    decreases plan, 0int,
{
    let children = plan->Node_children@;
    let trees = plan@->Node_children;
    assert forall|i: int| 0 <= i < children.len() implies (#[trigger] below[i]) == unchanged(
        children[i],
    ) by {
        assert(trees[i] == children[i]@);
        assert(settled(trees[i]));
        assert(aligns::<P, E, B, S>(children[i], rebuild, source, below[i]));
        law_settled_plan_is_unchanged::<P, E, B, S>(children[i], rebuild, source, below[i]);
    }
    if children.len() > 0 {
        assert(trees[0] == children[0]@);
        assert(below[0] == unchanged(children[0]));
    }
}

/// A plan none of whose subquery operators reads a bare one-row input cannot fail to be aligned.
pub proof fn law_settled_plan_does_not_fail<P, E, B, S>(
    plan: Plan<P>,
    rebuild: B,
    source: S,
    error: E,
) where B: Fn(P, Vec<P>) -> Result<Outcome<P>, E>, S: Fn(MemoryExec) -> P
    requires
        settled(plan@),
    ensures
        !fails_with::<P, E, B, S>(plan, rebuild, source, error),
    decreases plan,
{
    if fails_with::<P, E, B, S>(plan, rebuild, source, error) {
        let children = plan->Node_children;
        let trees = plan@->Node_children;
        assert forall|k: int| 0 <= k < children@.len() implies !fails_with::<P, E, B, S>(
            #[trigger] children@[k],
            rebuild,
            source,
            error,
        ) by {
            assert(trees[k] == children@[k]@);
            assert(settled(trees[k]));
            law_settled_plan_does_not_fail::<P, E, B, S>(children@[k], rebuild, source, error);
        }
        let (below, supplied) = choose|below: Seq<Outcome<P>>, supplied: Seq<Outcome<P>>|
            {
                &&& below.len() == children@.len()
                &&& forall|i: int|
                    0 <= i < children@.len() ==> aligns::<P, E, B, S>(
                        #[trigger] children@[i],
                        rebuild,
                        source,
                        below[i],
                    )
                &&& #[trigger] input_supplied(plan->Node_is_subquery, source, below, supplied)
                &&& !all_same(supplied)
                &&& answers(rebuild, plan->Node_op, supplied, Err::<Outcome<P>, E>(error))
            };
        lemma_settled_children_are_unchanged::<P, E, B, S>(
            plan,
            rebuild,
            source,
            below,
            supplied,
        );
    }
}

/// Rebuilding an operator never fails.
pub open spec fn never_fails<P, E, B: Fn(P, Vec<P>) -> Result<Outcome<P>, E>>(rebuild: B) -> bool {
    forall|op: P, children: Vec<P>, error: E|
        !#[trigger] call_ensures(rebuild, (op, children), Err::<Outcome<P>, E>(error))
}

/// Alignment fails only where rebuilding an operator does.
pub proof fn law_failure_comes_from_rebuilding<P, E, B, S>(
    plan: Plan<P>,
    rebuild: B,
    source: S,
    error: E,
) where B: Fn(P, Vec<P>) -> Result<Outcome<P>, E>, S: Fn(MemoryExec) -> P
    requires
        never_fails::<P, E, B>(rebuild),
    ensures
        !fails_with::<P, E, B, S>(plan, rebuild, source, error),
    decreases plan,
{
    if fails_with::<P, E, B, S>(plan, rebuild, source, error) {
        let children = plan->Node_children;
        assert forall|k: int| 0 <= k < children@.len() implies !fails_with::<P, E, B, S>(
            #[trigger] children@[k],
            rebuild,
            source,
            error,
        ) by {
            law_failure_comes_from_rebuilding::<P, E, B, S>(children@[k], rebuild, source, error);
        }
    }
}

/// A subquery operator over a bare one-row input is rebuilt, whatever its other children are. In
/// place of the input stands a source of the input's schema without a projection, which has as
/// many partitions as the input and in each of them one batch of that schema, without columns and
/// with one row. The other children are aligned on their own.
pub proof fn law_bare_input_gets_its_row<P>(
    op: P,
    input_op: P,
    input: EmptyInput,
    others: Seq<PlanTree<P>>,
)
    requires
        input.produce_one_row,
        schema_fields(*input.schema).len() == 0,
    ensures
        ({
            let bare = PlanTree::Empty { op: input_op, input };
            let plan = PlanTree::Node { op, is_subquery: true, children: seq![bare] + others };
            let children = aligned(plan)->Rebuilt_children;
            let shape = children[0]->Supplied_0;
            &&& aligned(plan) is Rebuilt
            &&& aligned(plan)->Rebuilt_op == op
            &&& aligned(plan)->Rebuilt_is_subquery
            &&& children.len() == 1 + others.len()
            &&& children[0] is Supplied
            &&& shape.schema == *input.schema
            &&& shape.projection is None
            &&& shape.partitions.len() == input.partition_count
            &&& forall|i: int|
                0 <= i < input.partition_count ==> (#[trigger] shape.partitions[i]) == seq![
                    BatchShape { schema: *input.schema, columns: 0, rows: 1 },
                ]
            &&& forall|i: int|
                0 <= i < others.len() ==> (#[trigger] children[i + 1]) == aligned(others[i])
        }),
{
    let bare = PlanTree::Empty { op: input_op, input };
    let plan = PlanTree::Node { op, is_subquery: true, children: seq![bare] + others };
    let below = aligned_all(seq![bare] + others);
    assert(below[0] == aligned(bare));
    assert(aligned(bare) == AlignedTree::Kept(bare));
    assert(with_input_supplied(below)[0] is Supplied);
    assert(!all_kept(with_input_supplied(below)));
    assert forall|i: int| 0 <= i < others.len() implies (#[trigger] with_input_supplied(below)[i
        + 1]) == aligned(others[i]) by {
        assert((seq![bare] + others)[i + 1] == others[i]);
    }
}

/// An operator all of whose children are settled is kept with everything below it, unless it is a
/// subquery operator whose first child is an empty relation that produces a row and declares no
/// columns.
pub proof fn law_other_operators_are_kept<P>(
    op: P,
    is_subquery: bool,
    children: Seq<PlanTree<P>>,
)
    requires
        forall|i: int| 0 <= i < children.len() ==> settled(#[trigger] children[i]),
        !is_subquery || children.len() == 0 || !(children[0] is Empty)
            || !children[0]->Empty_input.produce_one_row || schema_fields(
            *children[0]->Empty_input.schema,
        ).len() > 0,
    ensures
        aligned(PlanTree::Node { op, is_subquery, children }) == AlignedTree::Kept(
            PlanTree::Node { op, is_subquery, children },
        ),
{
    law_kept_exactly_when_settled(PlanTree::Node { op, is_subquery, children });
}

/// An operator whose children come out as nothing but themselves comes out as itself, unless it is
/// a subquery operator and its first child comes out as an empty relation that produces a row and
/// declares no columns.
pub proof fn law_operator_over_same_children_is_kept<P, E, B, S>(
    plan: Plan<P>,
    rebuild: B,
    source: S,
    outcome: Outcome<P>,
) where B: Fn(P, Vec<P>) -> Result<Outcome<P>, E>, S: Fn(MemoryExec) -> P
    requires
        plan is Node,
        forall|i: int, child: Outcome<P>|
            0 <= i < plan->Node_children@.len() && #[trigger] aligns::<P, E, B, S>(
                plan->Node_children@[i],
                rebuild,
                source,
                child,
            ) ==> child.same && (plan->Node_is_subquery && i == 0 && child.empty is Some ==> !(
            child.empty->0.produce_one_row && schema_fields(*child.empty->0.schema).len() == 0)),
        aligns::<P, E, B, S>(plan, rebuild, source, outcome),
    ensures
        outcome == unchanged(plan),
        outcome.op == plan->Node_op,
        outcome.same,
        outcome.empty is None,
{
    let children = plan->Node_children;
    let is_subquery = plan->Node_is_subquery;
    let op = plan->Node_op;
    let (below, supplied) = choose|below: Seq<Outcome<P>>, supplied: Seq<Outcome<P>>|
        {
            &&& below.len() == children@.len()
            &&& forall|i: int|
                0 <= i < children@.len() ==> aligns::<P, E, B, S>(
                    #[trigger] children@[i],
                    rebuild,
                    source,
                    below[i],
                )
            &&& #[trigger] input_supplied(is_subquery, source, below, supplied)
            &&& if all_same(supplied) {
                outcome == unchanged(plan)
            } else {
                answers(rebuild, op, supplied, Ok::<Outcome<P>, E>(outcome))
            }
        };
    if below.len() > 0 {
        assert(aligns::<P, E, B, S>(children@[0], rebuild, source, below[0]));
    }
    assert forall|i: int| 0 <= i < supplied.len() implies (#[trigger] supplied[i]).same by {
        assert(aligns::<P, E, B, S>(children@[i], rebuild, source, below[i]));
    }
}

/// A plan comes out as the operator `op`.
pub open spec fn comes_out_as<P, E, B, S>(plan: Plan<P>, rebuild: B, source: S, op: P) -> bool where
    B: Fn(P, Vec<P>) -> Result<Outcome<P>, E>,
    S: Fn(MemoryExec) -> P,
 {
    exists|outcome: Outcome<P>| #[trigger]
        aligns::<P, E, B, S>(plan, rebuild, source, outcome) && outcome.op == op
}

/// A plan comes out as an empty relation that produces a row and declares no columns, and `op` is
/// what `source` makes of the source in its place.
pub open spec fn gives_way_to<P, E, B, S>(plan: Plan<P>, rebuild: B, source: S, op: P) -> bool where
    B: Fn(P, Vec<P>) -> Result<Outcome<P>, E>,
    S: Fn(MemoryExec) -> P,
 {
    exists|outcome: Outcome<P>|
        {
            &&& #[trigger] aligns::<P, E, B, S>(plan, rebuild, source, outcome)
            &&& outcome.empty is Some
            &&& outcome.empty->0.produce_one_row
            &&& schema_fields(*outcome.empty->0.schema).len() == 0
            &&& carries(source, source_for(outcome.empty->0), op)
        }
}

/// An operator one of whose children never comes out as itself is rebuilt, once: it comes out as
/// the answer for the operator and for what its children came out as, in their order. Only the
/// first child of a subquery operator may give way to a source.
pub proof fn law_operator_over_changed_child_is_rebuilt<P, E, B, S>(
    plan: Plan<P>,
    k: int,
    rebuild: B,
    source: S,
    outcome: Outcome<P>,
) where B: Fn(P, Vec<P>) -> Result<Outcome<P>, E>, S: Fn(MemoryExec) -> P
    requires
        plan is Node,
        0 <= k < plan->Node_children@.len(),
        forall|child: Outcome<P>| #[trigger]
            aligns::<P, E, B, S>(plan->Node_children@[k], rebuild, source, child) ==> !child.same,
        aligns::<P, E, B, S>(plan, rebuild, source, outcome),
    ensures
        exists|ops: Vec<P>|
            {
                &&& ops@.len() == plan->Node_children@.len()
                &&& forall|i: int|
                    0 <= i < ops@.len() ==> comes_out_as::<P, E, B, S>(
                        plan->Node_children@[i],
                        rebuild,
                        source,
                        #[trigger] ops@[i],
                    ) || (plan->Node_is_subquery && i == 0 && gives_way_to::<P, E, B, S>(
                        plan->Node_children@[i],
                        rebuild,
                        source,
                        ops@[i],
                    ))
                &&& #[trigger] call_ensures(
                    rebuild,
                    (plan->Node_op, ops),
                    Ok::<Outcome<P>, E>(outcome),
                )
            },
{
    let children = plan->Node_children;
    let is_subquery = plan->Node_is_subquery;
    let op = plan->Node_op;
    let (below, supplied) = choose|below: Seq<Outcome<P>>, supplied: Seq<Outcome<P>>|
        {
            &&& below.len() == children@.len()
            &&& forall|i: int|
                0 <= i < children@.len() ==> aligns::<P, E, B, S>(
                    #[trigger] children@[i],
                    rebuild,
                    source,
                    below[i],
                )
            &&& #[trigger] input_supplied(is_subquery, source, below, supplied)
            &&& if all_same(supplied) {
                outcome == unchanged(plan)
            } else {
                answers(rebuild, op, supplied, Ok::<Outcome<P>, E>(outcome))
            }
        };
    assert(aligns::<P, E, B, S>(children@[k], rebuild, source, below[k]));
    assert(!supplied[k].same);
    let ops = choose|ops: Vec<P>|
        ops@ == operators(supplied) && #[trigger] call_ensures(
            rebuild,
            (op, ops),
            Ok::<Outcome<P>, E>(outcome),
        );
    assert forall|i: int| 0 <= i < ops@.len() implies comes_out_as::<P, E, B, S>(
        plan->Node_children@[i],
        rebuild,
        source,
        #[trigger] ops@[i],
    ) || (is_subquery && i == 0 && gives_way_to::<P, E, B, S>(
        plan->Node_children@[i],
        rebuild,
        source,
        ops@[i],
    )) by {
        assert(aligns::<P, E, B, S>(children@[i], rebuild, source, below[i]));
        assert(ops@[i] == supplied[i].op);
    }
}

/// The error of a plan is what rebuilding one of its operators answered. Where a child cannot come
/// out as anything, it is the error of that child or of one before it.
pub proof fn law_error_comes_from_the_first_failing_child<P, E, B, S>(
    plan: Plan<P>,
    k: int,
    rebuild: B,
    source: S,
    error: E,
) where B: Fn(P, Vec<P>) -> Result<Outcome<P>, E>, S: Fn(MemoryExec) -> P
    requires
        fails_with::<P, E, B, S>(plan, rebuild, source, error),
    ensures
        plan is Node,
        exists|op: P, ops: Vec<P>| #[trigger]
            call_ensures(rebuild, (op, ops), Err::<Outcome<P>, E>(error)),
        (0 <= k < plan->Node_children@.len() && forall|outcome: Outcome<P>|
            !#[trigger] aligns::<P, E, B, S>(
                plan->Node_children@[k],
                rebuild,
                source,
                outcome,
            )) ==> exists|j: int|
            0 <= j <= k && #[trigger] fails_with::<P, E, B, S>(
                plan->Node_children@[j],
                rebuild,
                source,
                error,
            ),
    decreases plan,
{
    let children = plan->Node_children;
    let stuck = 0 <= k < children@.len() && forall|outcome: Outcome<P>|
        !#[trigger] aligns::<P, E, B, S>(children@[k], rebuild, source, outcome);
    if exists|j: int|
        {
            &&& 0 <= j < children@.len()
            &&& forall|i: int|
                0 <= i < j ==> can_align::<P, E, B, S>(#[trigger] children@[i], rebuild, source)
            &&& fails_with::<P, E, B, S>(#[trigger] children@[j], rebuild, source, error)
        } {
        let j = choose|j: int|
            {
                &&& 0 <= j < children@.len()
                &&& forall|i: int|
                    0 <= i < j ==> can_align::<P, E, B, S>(
                        #[trigger] children@[i],
                        rebuild,
                        source,
                    )
                &&& fails_with::<P, E, B, S>(#[trigger] children@[j], rebuild, source, error)
            };
        law_error_comes_from_the_first_failing_child::<P, E, B, S>(
            children@[j],
            0,
            rebuild,
            source,
            error,
        );
        if stuck {
            assert(!can_align::<P, E, B, S>(children@[k], rebuild, source));
            assert(j <= k);
        }
    } else if stuck {
        let (below, supplied) = choose|below: Seq<Outcome<P>>, supplied: Seq<Outcome<P>>|
            {
                &&& below.len() == children@.len()
                &&& forall|i: int|
                    0 <= i < children@.len() ==> aligns::<P, E, B, S>(
                        #[trigger] children@[i],
                        rebuild,
                        source,
                        below[i],
                    )
                &&& #[trigger] input_supplied(plan->Node_is_subquery, source, below, supplied)
                &&& !all_same(supplied)
                &&& answers(rebuild, plan->Node_op, supplied, Err::<Outcome<P>, E>(error))
            };
        assert(aligns::<P, E, B, S>(children@[k], rebuild, source, below[k]));
    }
}

/// The shape of a source shows each batch that it holds, partition by partition, with its schema,
/// its columns and its rows.
pub proof fn law_shape_shows_every_batch(memory: MemoryExec, i: int, j: int)
    requires
        0 <= i < memory_partitions(memory).len(),
        0 <= j < memory_partitions(memory)[i].len(),
    ensures
        source_shape(memory).schema == memory_schema(memory),
        source_shape(memory).projection == memory_projection(memory),
        source_shape(memory).partitions.len() == memory_partitions(memory).len(),
        source_shape(memory).partitions[i].len() == memory_partitions(memory)[i].len(),
        source_shape(memory).partitions[i][j].schema == batch_schema(
            memory_partitions(memory)[i][j],
        ),
        source_shape(memory).partitions[i][j].columns == batch_columns(
            memory_partitions(memory)[i][j],
        ),
        source_shape(memory).partitions[i][j].rows == batch_rows(memory_partitions(memory)[i][j]),
{
}

} // verus!
