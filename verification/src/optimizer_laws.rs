//! Laws of the optimizer: what it leaves out, and what it must not change.
//!
//! Results are those of an abstract engine that runs the operations one after the
//! other.

use crate::model::{ExprModel, OperationModel};
use crate::sql_ir::SqlBinaryOp;
use crate::sql_optimizer::{filters_combined, pipeline_optimized, projections_reduced};
use crate::translation::conjunction;
use vstd::prelude::*;

verus! {

/// A way to run a pipeline on values of a type: how a filter and how any other
/// operation changes the value that reaches it.
#[verifier::reject_recursive_types(R)]
pub struct Engine<R> {
    pub keep: spec_fn(ExprModel, R) -> R,
    pub step: spec_fn(OperationModel, R) -> R,
}

impl<R> Engine<R> {
    /// What an operation makes of a value.
    pub open spec fn apply(self, op: OperationModel, rows: R) -> R {
        match op {
            OperationModel::Where(e) => (self.keep)(e, rows),
            _ => (self.step)(op, rows),
        }
    }

    /// What a pipeline makes of a value.
    pub open spec fn run(self, ops: Seq<OperationModel>, rows: R) -> R
        decreases ops.len(),
    {
        if ops.len() == 0 {
            rows
        } else {
            self.apply(ops.last(), self.run(ops.drop_last(), rows))
        }
    }

    /// A filter that asks for two things keeps what two filters in a row keep.
    pub open spec fn combines_filters(self) -> bool {
        forall|a: ExprModel, b: ExprModel, rows: R|
            (#[trigger] (self.keep)(ExprModel::binary(SqlBinaryOp::And, a, b), rows)) == (
            self.keep)(b, (self.keep)(a, rows))
    }

    /// A projection has the same result whether or not another one comes right
    /// before it.
    pub open spec fn last_projection_counts(self) -> bool {
        forall|p: OperationModel, q: OperationModel, rows: R|
            p is Project && q is Project ==> (#[trigger] (self.step)(q, (self.step)(p, rows)))
                == (self.step)(q, rows)
    }

    proof fn lemma_run_push(self, ops: Seq<OperationModel>, op: OperationModel, rows: R)
        ensures
            self.run(ops.push(op), rows) == self.apply(op, self.run(ops, rows)),
    {
        assert(ops.push(op).drop_last() =~= ops);
    }

    /// Combining filters does not change what a pipeline does.
    pub proof fn combined_filters_keep_result(self, ops: Seq<OperationModel>, rows: R)
        requires
            self.combines_filters(),
        ensures
            self.run(filters_combined(ops), rows) == self.run(ops, rows),
        decreases ops.len(),
    {
        if ops.len() > 0 {
            self.combined_filters_keep_result(ops.drop_last(), rows);
            let earlier = filters_combined(ops.drop_last());
            let last = ops.last();
            if last is Where && earlier.len() > 0 && earlier.last() is Where {
                let both = OperationModel::Where(
                    ExprModel::binary(SqlBinaryOp::And, earlier.last()->Where_0, last->Where_0),
                );
                self.lemma_run_push(earlier.drop_last(), both, rows);
            } else {
                self.lemma_run_push(earlier, last, rows);
            }
        }
    }

    /// Leaving out all but the last of neighbouring projections does not change
    /// what a pipeline does, where of two of them the last counts.
    pub proof fn reduced_projections_keep_result(self, ops: Seq<OperationModel>, rows: R)
        requires
            self.last_projection_counts(),
        ensures
            self.run(projections_reduced(ops), rows) == self.run(ops, rows),
        decreases ops.len(),
    {
        if ops.len() > 0 {
            self.reduced_projections_keep_result(ops.drop_last(), rows);
            let earlier = projections_reduced(ops.drop_last());
            let last = ops.last();
            if last is Project && earlier.len() > 0 && earlier.last() is Project {
                self.lemma_run_push(earlier.drop_last(), last, rows);
            } else {
                self.lemma_run_push(earlier, last, rows);
            }
        }
    }

    /// An optimised pipeline does what the pipeline did, on every engine on which
    /// of two neighbouring projections the last counts. The law is about such an
    /// engine and not about the SQL text: the text of a pipeline selects the
    /// columns of its first projection.
    pub proof fn optimized_keeps_result(self, ops: Seq<OperationModel>, rows: R)
        requires
            self.combines_filters(),
            self.last_projection_counts(),
        ensures
            self.run(pipeline_optimized(ops), rows) == self.run(ops, rows),
    {
        self.combined_filters_keep_result(ops, rows);
        self.reduced_projections_keep_result(filters_combined(ops), rows);
    }
}

/// Whether no two neighbouring operations are filters.
pub open spec fn filters_are_apart(ops: Seq<OperationModel>) -> bool {
    forall|i: int, j: int|
        0 <= i && j == i + 1 && j < ops.len() ==> !(#[trigger] ops[i] is Where
            && #[trigger] ops[j] is Where)
}

/// Whether no two neighbouring operations are projections.
pub open spec fn projections_are_apart(ops: Seq<OperationModel>) -> bool {
    forall|i: int, j: int|
        0 <= i && j == i + 1 && j < ops.len() ==> !(#[trigger] ops[i] is Project
            && #[trigger] ops[j] is Project)
}

proof fn lemma_combined_apart(ops: Seq<OperationModel>)
    ensures
        filters_are_apart(filters_combined(ops)),
    decreases ops.len(),
{
    if ops.len() > 0 {
        lemma_combined_apart(ops.drop_last());
    }
}

proof fn lemma_reduced_apart(ops: Seq<OperationModel>)
    requires
        filters_are_apart(ops),
    ensures
        filters_are_apart(projections_reduced(ops)),
        projections_are_apart(projections_reduced(ops)),
        ops.len() > 0 ==> projections_reduced(ops).len() > 0 && projections_reduced(ops).last()
            == ops.last(),
    decreases ops.len(),
{
    if ops.len() > 0 {
        let shorter = ops.drop_last();
        assert(filters_are_apart(shorter)) by {
            assert forall|i: int, j: int|
                0 <= i && j == i + 1 && j < shorter.len() implies !(#[trigger] shorter[i] is Where
                && #[trigger] shorter[j] is Where) by {
                assert(shorter[i] == ops[i]);
                assert(shorter[j] == ops[j]);
            }
        }
        lemma_reduced_apart(shorter);
        if shorter.len() > 0 {
            assert(shorter.last() == ops[ops.len() - 2]);
            assert(ops.last() == ops[ops.len() - 1]);
        }
    }
}

/// In an optimised pipeline no two filters and no two projections are neighbours.
pub proof fn optimized_has_no_neighbours(ops: Seq<OperationModel>)
    ensures
        filters_are_apart(pipeline_optimized(ops)),
        projections_are_apart(pipeline_optimized(ops)),
{
    lemma_combined_apart(ops);
    lemma_reduced_apart(filters_combined(ops));
}

proof fn lemma_combined_fixed(ops: Seq<OperationModel>)
    requires
        filters_are_apart(ops),
    ensures
        filters_combined(ops) == ops,
    decreases ops.len(),
{
    if ops.len() > 0 {
        let shorter = ops.drop_last();
        assert forall|i: int, j: int|
            0 <= i && j == i + 1 && j < shorter.len() implies !(#[trigger] shorter[i] is Where
            && #[trigger] shorter[j] is Where) by {
            assert(shorter[i] == ops[i]);
            assert(shorter[j] == ops[j]);
        }
        lemma_combined_fixed(shorter);
        if shorter.len() > 0 {
            assert(shorter.last() == ops[ops.len() - 2]);
            assert(ops.last() == ops[ops.len() - 1]);
        }
        assert(shorter.push(ops.last()) =~= ops);
    } else {
        assert(ops =~= Seq::empty());
    }
}

proof fn lemma_reduced_fixed(ops: Seq<OperationModel>)
    requires
        projections_are_apart(ops),
    ensures
        projections_reduced(ops) == ops,
    decreases ops.len(),
{
    if ops.len() > 0 {
        let shorter = ops.drop_last();
        assert forall|i: int, j: int|
            0 <= i && j == i + 1 && j < shorter.len() implies !(#[trigger] shorter[i] is Project
            && #[trigger] shorter[j] is Project) by {
            assert(shorter[i] == ops[i]);
            assert(shorter[j] == ops[j]);
        }
        lemma_reduced_fixed(shorter);
        if shorter.len() > 0 {
            assert(shorter.last() == ops[ops.len() - 2]);
            assert(ops.last() == ops[ops.len() - 1]);
        }
        assert(shorter.push(ops.last()) =~= ops);
    } else {
        assert(ops =~= Seq::empty());
    }
}

/// Optimising an optimised pipeline changes nothing.
pub proof fn optimizing_twice_changes_nothing(ops: Seq<OperationModel>)
    ensures
        pipeline_optimized(pipeline_optimized(ops)) == pipeline_optimized(ops),
{
    optimized_has_no_neighbours(ops);
    lemma_combined_fixed(pipeline_optimized(ops));
    lemma_reduced_fixed(pipeline_optimized(ops));
}

/// The operations of a pipeline that are neither filters nor projections.
pub open spec fn other_operations(ops: Seq<OperationModel>) -> Seq<OperationModel> {
    ops.filter(|op: OperationModel| !(op is Where) && !(op is Project))
}

proof fn lemma_other_operations_push(ops: Seq<OperationModel>, op: OperationModel)
    ensures
        other_operations(ops.push(op)) == if op is Where || op is Project {
            other_operations(ops)
        } else {
            other_operations(ops).push(op)
        },
{
    reveal(Seq::filter);
    assert(ops.push(op).drop_last() =~= ops);
}

proof fn lemma_combined_keeps_others(ops: Seq<OperationModel>)
    ensures
        other_operations(filters_combined(ops)) == other_operations(ops),
    decreases ops.len(),
{
    if ops.len() > 0 {
        let shorter = ops.drop_last();
        lemma_combined_keeps_others(shorter);
        let earlier = filters_combined(shorter);
        assert(shorter.push(ops.last()) =~= ops);
        lemma_other_operations_push(shorter, ops.last());
        if ops.last() is Where && earlier.len() > 0 && earlier.last() is Where {
            assert(earlier.drop_last().push(earlier.last()) =~= earlier);
            lemma_other_operations_push(earlier.drop_last(), earlier.last());
            lemma_other_operations_push(earlier.drop_last(), filters_combined(ops).last());
        } else {
            lemma_other_operations_push(earlier, ops.last());
        }
    }
}

proof fn lemma_reduced_keeps_others(ops: Seq<OperationModel>)
    ensures
        other_operations(projections_reduced(ops)) == other_operations(ops),
    decreases ops.len(),
{
    if ops.len() > 0 {
        let shorter = ops.drop_last();
        lemma_reduced_keeps_others(shorter);
        let earlier = projections_reduced(shorter);
        assert(shorter.push(ops.last()) =~= ops);
        lemma_other_operations_push(shorter, ops.last());
        if ops.last() is Project && earlier.len() > 0 && earlier.last() is Project {
            assert(earlier.drop_last().push(earlier.last()) =~= earlier);
            lemma_other_operations_push(earlier.drop_last(), earlier.last());
            lemma_other_operations_push(earlier.drop_last(), ops.last());
        } else {
            lemma_other_operations_push(earlier, ops.last());
        }
    }
}

/// Operations that are neither filters nor projections all stay, in their order.
pub proof fn optimized_keeps_other_operations(ops: Seq<OperationModel>)
    ensures
        other_operations(pipeline_optimized(ops)) == other_operations(ops),
{
    lemma_combined_keeps_others(ops);
    lemma_reduced_keeps_others(filters_combined(ops));
}

/// A pipeline that does nothing but filter.
pub open spec fn filter_pipeline(conditions: Seq<ExprModel>) -> Seq<OperationModel> {
    conditions.map_values(|e: ExprModel| OperationModel::Where(e))
}

/// Filters in a row become one filter that asks for all of them.
pub proof fn filters_become_one(conditions: Seq<ExprModel>)
    requires
        conditions.len() > 0,
    ensures
        pipeline_optimized(filter_pipeline(conditions)) == seq![
            OperationModel::Where(conjunction(conditions)),
        ],
{
    lemma_filters_become_one(conditions);
    let one = seq![OperationModel::Where(conjunction(conditions))];
    assert(projections_are_apart(one));
    lemma_reduced_fixed(one);
}

proof fn lemma_filters_become_one(conditions: Seq<ExprModel>)
    requires
        conditions.len() > 0,
    ensures
        filters_combined(filter_pipeline(conditions)) == seq![
            OperationModel::Where(conjunction(conditions)),
        ],
    decreases conditions.len(),
{
    let ops = filter_pipeline(conditions);
    assert(ops.drop_last() =~= filter_pipeline(conditions.drop_last()));
    if conditions.len() == 1 {
        assert(filters_combined(ops.drop_last()) =~= Seq::empty());
        assert(filters_combined(ops) =~= seq![OperationModel::Where(conditions[0])]);
    } else {
        lemma_filters_become_one(conditions.drop_last());
        assert(filters_combined(ops) =~= seq![OperationModel::Where(conjunction(conditions))]);
    }
}

} // verus!
