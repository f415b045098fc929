//! Laws of the models: a value of the intermediate representation and its model hold
//! the same.

use crate::model::{
    branch_models, expr_models, AggregateFunctionModel, ColumnModel, ExprModel, InputModel,
    JoinConditionModel, JoinSourceModel, LiteralModel, OperationModel, OrderModel,
};
use crate::sql_ir::{
    BuilderModel, SqlAggregate, SqlAggregateFunction, SqlColumn, SqlExpression, SqlInputValue,
    SqlJoinCondition, SqlJoinSource, SqlLiteral, SqlOperation, SqlOrderBy, SqlQuery,
};
use vstd::prelude::*;

verus! {

/// Whether a model holds a literal.
pub open spec fn holds_literal(m: LiteralModel, literal: SqlLiteral) -> bool {
    match (m, literal) {
        (LiteralModel::String(s), SqlLiteral::String(t)) => s == t@,
        (LiteralModel::Integer(i), SqlLiteral::Integer(j)) => i == j,
        (LiteralModel::Float(f), SqlLiteral::Float(g)) => f == g@,
        (LiteralModel::Boolean(b), SqlLiteral::Boolean(c)) => b == c,
        (LiteralModel::Null, SqlLiteral::Null) => true,
        (LiteralModel::DateTime(s), SqlLiteral::DateTime(t)) => s == t@,
        (LiteralModel::Interval(s), SqlLiteral::Interval(t)) => s == t@,
        _ => false,
    }
}

/// Whether a model holds an aggregate function.
pub open spec fn holds_function(m: AggregateFunctionModel, f: SqlAggregateFunction) -> bool {
    match (m, f) {
        (AggregateFunctionModel::Count, SqlAggregateFunction::Count) => true,
        (AggregateFunctionModel::Sum, SqlAggregateFunction::Sum) => true,
        (AggregateFunctionModel::Avg, SqlAggregateFunction::Avg) => true,
        (AggregateFunctionModel::Min, SqlAggregateFunction::Min) => true,
        (AggregateFunctionModel::Max, SqlAggregateFunction::Max) => true,
        (AggregateFunctionModel::StdDev, SqlAggregateFunction::StdDev) => true,
        (AggregateFunctionModel::Variance, SqlAggregateFunction::Variance) => true,
        (AggregateFunctionModel::Percentile(p), SqlAggregateFunction::Percentile(q)) => p == q@,
        (AggregateFunctionModel::ArrayAgg, SqlAggregateFunction::ArrayAgg) => true,
        (AggregateFunctionModel::StringAgg, SqlAggregateFunction::StringAgg) => true,
        _ => false,
    }
}

/// Whether a model holds an expression, given that the models of its parts hold those.
pub open spec fn holds_expression(m: ExprModel, e: SqlExpression) -> bool {
    match (m, e) {
        (ExprModel::Column(n), SqlExpression::Column(name)) => n == name@,
        (ExprModel::Literal(l), SqlExpression::Literal(literal)) => holds_literal(l, literal),
        (ExprModel::InjectedVariable(n), SqlExpression::InjectedVariable(name)) => n == name@,
        (
            ExprModel::Binary { op: o, left: l, right: r },
            SqlExpression::Binary { op, left, right },
        ) => o == op && *l == left.model() && *r == right.model(),
        (ExprModel::Unary { op: o, operand: x }, SqlExpression::Unary { op, operand }) => o == op
            && *x == operand.model(),
        (ExprModel::Function { name: n, args: a }, SqlExpression::Function { name, args }) => n
            == name@ && a.len() == args@.len() && forall|i: int|
            0 <= i < a.len() ==> #[trigger] a[i] == args@[i].model(),
        (ExprModel::Array(a), SqlExpression::Array(items)) => a.len() == items@.len() && forall|
            i: int,
        |
            0 <= i < a.len() ==> #[trigger] a[i] == items@[i].model(),
        (
            ExprModel::Case { conditions: c, default: d },
            SqlExpression::Case { conditions, default },
        ) => c.len() == conditions@.len() && (forall|i: int|
            0 <= i < c.len() ==> #[trigger] c[i] == (
                conditions@[i].0.model(),
                conditions@[i].1.model(),
            )) && match (d, default) {
            (Some(x), Some(y)) => *x == y.model(),
            (None, None) => true,
            _ => false,
        },
        (ExprModel::Parenthesized(x), SqlExpression::Parenthesized(inner)) => *x == inner.model(),
        (ExprModel::Subquery(q), SqlExpression::Subquery(query)) => *q == query.model(),
        (
            ExprModel::Cast { expression: x, target_type: t },
            SqlExpression::Cast { expression, target_type },
        ) => *x == expression.model() && t == target_type,
        (
            ExprModel::Between { expression: x, lower: l, upper: u, not: n },
            SqlExpression::Between { expression, lower, upper, not },
        ) => *x == expression.model() && *l == lower.model() && *u == upper.model() && n == not,
        (
            ExprModel::ArrayIndex { expr: x, index: i },
            SqlExpression::ArrayIndex { expr, index },
        ) => *x == expr.model() && *i == index.model(),
        _ => false,
    }
}

/// The model of an expression is of the same form and holds the models of its parts in
/// their places.
pub proof fn expression_models_keep_form(e: SqlExpression)
    ensures
        holds_expression(e.model(), e),
{
    match e {
        SqlExpression::Function { name, args } => {
            assert(e.model() == ExprModel::Function { name: name@, args: expr_models(args@) });
        },
        SqlExpression::Array(items) => {
            assert(e.model() == ExprModel::Array(expr_models(items@)));
        },
        SqlExpression::Case { conditions, default } => {
            assert(e.model() is Case);
            assert(e.model()->conditions == branch_models(conditions@));
        },
        _ => {},
    }
}

/// Whether a model holds an operation, given that the models of its parts hold those.
pub open spec fn holds_operation(m: OperationModel, op: SqlOperation) -> bool {
    match (m, op) {
        (OperationModel::Where(x), SqlOperation::Where(e)) => x == e.model(),
        (OperationModel::Project(c), SqlOperation::Project(columns)) => holds_columns(c, columns@),
        (OperationModel::Extend(c), SqlOperation::Extend(columns)) => holds_columns(c, columns@),
        (OperationModel::Limit(n), SqlOperation::Limit(count)) => n == count,
        (OperationModel::Order(o), SqlOperation::Order(order)) => o.len() == order@.len()
            && forall|i: int|
            0 <= i < o.len() ==> holds_key(#[trigger] o[i], order@[i]),
        (
            OperationModel::Aggregate { group_by: g, aggregates: a, having: h },
            SqlOperation::Aggregate { group_by, aggregates, having },
        ) => g.len() == group_by@.len() && (forall|i: int|
            0 <= i < g.len() ==> #[trigger] g[i] == group_by@[i].model()) && a.len()
            == aggregates@.len() && (forall|i: int|
            0 <= i < a.len() ==> #[trigger] a[i] == aggregates@[i].model()) && match (h, having) {
            (Some(x), Some(e)) => x == e.model(),
            (None, None) => true,
            _ => false,
        },
        (
            OperationModel::Join { kind: k, source: s, on: o },
            SqlOperation::Join { kind, source, on },
        ) => k == kind && s == source.model() && o.len() == on@.len() && forall|i: int|
            0 <= i < o.len() ==> holds_join_condition(#[trigger] o[i], on@[i]),
        (OperationModel::Union(q), SqlOperation::Union(query)) => *q == query.model(),
        (OperationModel::Distinct(d), SqlOperation::Distinct(exprs)) => d.len() == exprs@.len()
            && forall|i: int|
            0 <= i < d.len() ==> #[trigger] d[i] == exprs@[i].model(),
        _ => false,
    }
}

/// Whether models hold columns.
pub open spec fn holds_columns(models: Seq<ColumnModel>, columns: Seq<SqlColumn>) -> bool {
    models.len() == columns.len() && forall|i: int|
        0 <= i < models.len() ==> {
            &&& (#[trigger] models[i]).name == columns[i].name@
            &&& models[i].expression == columns[i].expression.model()
            &&& match (models[i].alias, columns[i].alias) {
                (Some(a), Some(alias)) => a == alias@,
                (None, None) => true,
                _ => false,
            }
        }
}

/// Whether a model holds a sort key.
pub open spec fn holds_key(m: OrderModel, key: SqlOrderBy) -> bool {
    m.expression == key.expression.model() && m.direction == key.direction && m.null_order
        == key.null_order
}

/// Whether a model holds a join condition.
pub open spec fn holds_join_condition(m: JoinConditionModel, c: SqlJoinCondition) -> bool {
    m.left == c.left.model() && m.right == c.right.model() && m.operator == c.operator
}

/// The model of an operation is of the same form and holds the models of its parts in
/// their places.
pub proof fn operation_models_keep_form(op: SqlOperation)
    ensures
        holds_operation(op.model(), op),
{
}

/// The models of an aggregate, a bound value, a joined table and a query hold what
/// those hold.
pub proof fn other_models_keep_form(
    f: SqlAggregateFunction,
    a: SqlAggregate,
    v: SqlInputValue,
    s: SqlJoinSource,
    q: SqlQuery,
    literal: SqlLiteral,
)
    ensures
        holds_literal(literal.model(), literal),
        holds_function(f.model(), f),
        a.model().function == a.function.model(),
        a.model().alias == a.alias@,
        a.model().distinct == a.distinct,
        match (a.model().expression, a.expression) {
            (Some(x), Some(e)) => x == e.model(),
            (None, None) => true,
            _ => false,
        },
        match (v.model(), v) {
            (InputModel::Literal(l), SqlInputValue::Literal(bound)) => holds_literal(l, bound),
            (InputModel::Variable(n), SqlInputValue::Variable(name)) => n == name@,
            _ => false,
        },
        match (s.model(), s) {
            (JoinSourceModel::Table(n), SqlJoinSource::Table(name)) => n == name@,
            (
                JoinSourceModel::Filtered { table: n, filters: f },
                SqlJoinSource::Filtered { table, filters },
            ) => n == table@ && f.len() == filters@.len() && forall|i: int|
                0 <= i < f.len() ==> #[trigger] f[i] == filters@[i].model(),
            (JoinSourceModel::Subquery(m), SqlJoinSource::Subquery(query)) => m == query.model(),
            _ => false,
        },
        q.model().source == q.source@,
        q.model().pipeline.len() == q.pipeline@.len(),
        forall|i: int|
            0 <= i < q.pipeline@.len() ==> #[trigger] q.model().pipeline[i]
                == q.pipeline@[i].model(),
        q.model().ctes.len() == q.ctes@.len(),
        forall|i: int|
            0 <= i < q.ctes@.len() ==> (#[trigger] q.model().ctes[i]).name == q.ctes@[i].name@
                && *q.model().ctes[i].query == q.ctes@[i].query.model(),
        q.model().projection is Some <==> q.projection is Some,
{
}

/// A builder that is asked for one more operation has it behind those it was asked for
/// before, and is otherwise as it was; a new one was asked for nothing.
pub proof fn builders_append(b: BuilderModel, op: OperationModel)
    ensures
        b.with_operation(op).operations.len() == b.operations.len() + 1,
        b.with_operation(op).operations.last() == op,
        b.with_operation(op).operations.drop_last() == b.operations,
        b.with_operation(op).ctes == b.ctes,
        b.with_operation(op).source == b.source,
        b.with_operation(op).projection == b.projection,
        BuilderModel::empty().operations.len() == 0,
        BuilderModel::empty().ctes.len() == 0,
        BuilderModel::empty().source is None,
        BuilderModel::empty().projection is None,
{
    assert(b.operations.push(op).drop_last() =~= b.operations);
}

} // verus!
