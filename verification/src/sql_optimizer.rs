//! Optimisation of the intermediate representation.

use crate::model::{operation_models, ExprModel, OperationModel, QueryModel};
use crate::sql_ir::{SqlBinaryOp, SqlExpression, SqlOperation, SqlQuery};
use vstd::prelude::*;

verus! {

/// The pipeline with each run of neighbouring filters turned into one filter
/// that asks for all of them.
pub open spec fn filters_combined(ops: Seq<OperationModel>) -> Seq<OperationModel>
    decreases ops.len(),
{
    if ops.len() == 0 {
        Seq::empty()
    } else {
        let earlier = filters_combined(ops.drop_last());
        match ops.last() {
            OperationModel::Where(e) => if earlier.len() > 0 && earlier.last() is Where {
                earlier.drop_last().push(
                    OperationModel::Where(
                        ExprModel::binary(SqlBinaryOp::And, earlier.last()->Where_0, e),
                    ),
                )
            } else {
                earlier.push(ops.last())
            },
            _ => earlier.push(ops.last()),
        }
    }
}

/// The pipeline with each run of neighbouring projections cut down to its last.
pub open spec fn projections_reduced(ops: Seq<OperationModel>) -> Seq<OperationModel>
    decreases ops.len(),
{
    if ops.len() == 0 {
        Seq::empty()
    } else {
        let earlier = projections_reduced(ops.drop_last());
        if ops.last() is Project && earlier.len() > 0 && earlier.last() is Project {
            earlier.drop_last().push(ops.last())
        } else {
            earlier.push(ops.last())
        }
    }
}

/// The optimised pipeline.
pub open spec fn pipeline_optimized(ops: Seq<OperationModel>) -> Seq<OperationModel> {
    projections_reduced(filters_combined(ops))
}

/// Query optimizer.
#[derive(Debug)]
pub struct SqlOptimizer;

impl SqlOptimizer {
    /// An optimizer.
    pub fn new() -> (r: Self)
        ensures
            r == SqlOptimizer,
    {
        SqlOptimizer
    }

    /// Optimizes a query: neighbouring filters are combined, and of neighbouring
    /// projections the last is kept. Everything but the pipeline stays as it is.
    pub fn optimize(&self, query: &SqlQuery) -> (r: SqlQuery)
        ensures
            r@ == (QueryModel { pipeline: pipeline_optimized(query@.pipeline), ..query@ }),
    {
        let combined: SqlQuery = Self::combine_filters(query.clone());
        Self::eliminate_redundant_operations(combined)
    }

    /// Combines neighbouring filters into one.
    pub fn combine_filters(query: SqlQuery) -> (r: SqlQuery)
        ensures
            r@ == (QueryModel { pipeline: filters_combined(query@.pipeline), ..query@ }),
    {
        let ghost ops = query@.pipeline;
        let ghost given = query.pipeline@;
        let mut combined: Vec<SqlOperation> = Vec::new();
        let mut current: Option<SqlExpression> = None;
        proof {
            assert(operation_models(combined@) =~= filters_combined(ops.take(0)));
        }
        for op in it: query.pipeline
            invariant
                it.seq() == given,
                ops == operation_models(given),
                match current {
                    Some(e) => filters_combined(ops.take(it.index() as int)) == operation_models(
                        combined@,
                    ).push(OperationModel::Where(e@)),
                    None => {
                        let done = filters_combined(ops.take(it.index() as int));
                        done == operation_models(combined@) && (done.len() > 0
                            ==> !(done.last() is Where))
                    },
                },
        {
            let ghost before = ops.take(it.index() as int);
            let ghost i = it.index() as int;
            proof {
                assert(ops.take(i + 1).drop_last() =~= before);
                assert(ops.take(i + 1).last() == op@);
            }
            match op {
                SqlOperation::Where(e) => {
                    match current {
                        None => {
                            current = Some(e);
                        },
                        Some(existing) => {
                            proof {
                                let earlier = filters_combined(before);
                                assert(earlier.drop_last() =~= operation_models(combined@));
                            }
                            current = Some(SqlExpression::and(existing, e));
                        },
                    }
                },
                other => {
                    let ghost kept = combined@;
                    match current {
                        Some(filter) => {
                            combined.push(SqlOperation::Where(filter));
                            proof {
                                assert(operation_models(combined@) =~= operation_models(kept).push(
                                    OperationModel::Where(filter@),
                                ));
                            }
                        },
                        None => {},
                    }
                    current = None;
                    let ghost flushed = combined@;
                    combined.push(other);
                    proof {
                        assert(operation_models(combined@) =~= operation_models(flushed).push(
                            other@,
                        ));
                    }
                },
            }
        }
        proof {
            assert(ops.take(ops.len() as int) =~= ops);
        }
        let ghost kept = combined@;
        match current {
            Some(filter) => {
                combined.push(SqlOperation::Where(filter));
                proof {
                    assert(operation_models(combined@) =~= operation_models(kept).push(
                        OperationModel::Where(filter@),
                    ));
                }
            },
            None => {},
        }
        SqlQuery {
            ctes: query.ctes,
            source: query.source,
            pipeline: combined,
            projection: query.projection,
        }
    }

    /// Of neighbouring projections keeps the last.
    pub fn eliminate_redundant_operations(query: SqlQuery) -> (r: SqlQuery)
        ensures
            r@ == (QueryModel { pipeline: projections_reduced(query@.pipeline), ..query@ }),
    {
        let ghost ops = query@.pipeline;
        let ghost given = query.pipeline@;
        let mut kept: Vec<SqlOperation> = Vec::new();
        let mut last_project: Option<SqlOperation> = None;
        proof {
            assert(operation_models(kept@) =~= projections_reduced(ops.take(0)));
        }
        for op in it: query.pipeline
            invariant
                it.seq() == given,
                ops == operation_models(given),
                match last_project {
                    Some(p) => p@ is Project && projections_reduced(ops.take(it.index() as int))
                        == operation_models(kept@).push(p@),
                    None => {
                        let done = projections_reduced(ops.take(it.index() as int));
                        done == operation_models(kept@) && (done.len() > 0
                            ==> !(done.last() is Project))
                    },
                },
        {
            let ghost i = it.index() as int;
            let ghost before = ops.take(i);
            proof {
                assert(ops.take(i + 1).drop_last() =~= before);
                assert(ops.take(i + 1).last() == op@);
            }
            match op {
                SqlOperation::Project(columns) => {
                    proof {
                        if last_project is Some {
                            assert(projections_reduced(before).drop_last() =~= operation_models(
                                kept@,
                            ));
                        }
                    }
                    last_project = Some(SqlOperation::Project(columns));
                },
                other => {
                    let ghost earlier = kept@;
                    match last_project {
                        Some(project) => {
                            kept.push(project);
                            proof {
                                assert(operation_models(kept@) =~= operation_models(earlier).push(
                                    project@,
                                ));
                            }
                        },
                        None => {},
                    }
                    last_project = None;
                    let ghost flushed = kept@;
                    kept.push(other);
                    proof {
                        assert(operation_models(kept@) =~= operation_models(flushed).push(other@));
                    }
                },
            }
        }
        proof {
            assert(ops.take(ops.len() as int) =~= ops);
        }
        let ghost earlier = kept@;
        match last_project {
            Some(project) => {
                kept.push(project);
                proof {
                    assert(operation_models(kept@) =~= operation_models(earlier).push(project@));
                }
            },
            None => {},
        }
        SqlQuery {
            ctes: query.ctes,
            source: query.source,
            pipeline: kept,
            projection: query.projection,
        }
    }
}

impl Default for SqlOptimizer {
    fn default() -> (r: Self)
        ensures
            r == SqlOptimizer,
    {
        SqlOptimizer
    }
}

} // verus!
