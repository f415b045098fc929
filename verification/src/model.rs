//! Mathematical model of the intermediate representation.
//!
//! Each type of the intermediate representation has a model in which strings
//! and vectors are sequences. Two values with the same model are the same query.

use crate::sql_ir::{
    SqlAggregate, SqlAggregateFunction, SqlBinaryOp, SqlColumn, SqlCte, SqlDataType, SqlExpression,
    SqlInputValue, SqlJoinCondition, SqlJoinKind, SqlJoinSource, SqlLiteral, SqlNullOrder,
    SqlOperation, SqlOrderBy, SqlProjection, SqlQuery, SqlSortDirection, SqlUnaryOp,
};
use vstd::prelude::*;

verus! {

/// Model of [`SqlQuery`].
pub struct QueryModel {
    pub ctes: Seq<CteModel>,
    pub source: Seq<char>,
    pub pipeline: Seq<OperationModel>,
    pub projection: Option<ProjectionModel>,
}

/// Model of [`SqlCte`].
pub struct CteModel {
    pub name: Seq<char>,
    pub query: Box<QueryModel>,
}

/// Model of [`SqlOperation`].
pub enum OperationModel {
    Where(ExprModel),
    Project(Seq<ColumnModel>),
    Extend(Seq<ColumnModel>),
    Limit(i64),
    Order(Seq<OrderModel>),
    Aggregate {
        group_by: Seq<ExprModel>,
        aggregates: Seq<AggregateModel>,
        having: Option<ExprModel>,
    },
    Join { kind: SqlJoinKind, source: JoinSourceModel, on: Seq<JoinConditionModel> },
    Union(Box<QueryModel>),
    Distinct(Seq<ExprModel>),
}

/// Model of [`SqlExpression`].
#[allow(inconsistent_fields)]
pub enum ExprModel {
    Column(Seq<char>),
    Literal(LiteralModel),
    InjectedVariable(Seq<char>),
    Binary { op: SqlBinaryOp, left: Box<ExprModel>, right: Box<ExprModel> },
    Unary { op: SqlUnaryOp, operand: Box<ExprModel> },
    Function { name: Seq<char>, args: Seq<ExprModel> },
    Array(Seq<ExprModel>),
    Case { conditions: Seq<(ExprModel, ExprModel)>, default: Option<Box<ExprModel>> },
    Parenthesized(Box<ExprModel>),
    Subquery(Box<QueryModel>),
    Cast { expression: Box<ExprModel>, target_type: SqlDataType },
    Between {
        expression: Box<ExprModel>,
        lower: Box<ExprModel>,
        upper: Box<ExprModel>,
        not: bool,
    },
    ArrayIndex { expr: Box<ExprModel>, index: Box<ExprModel> },
}

/// Model of [`SqlLiteral`].
pub enum LiteralModel {
    String(Seq<char>),
    Integer(i64),
    Float(Seq<char>),
    Boolean(bool),
    Null,
    DateTime(Seq<char>),
    Interval(Seq<char>),
}

/// Model of [`SqlInputValue`].
pub enum InputModel {
    Literal(LiteralModel),
    Variable(Seq<char>),
}

/// Model of [`SqlColumn`].
pub struct ColumnModel {
    pub name: Seq<char>,
    pub expression: ExprModel,
    pub alias: Option<Seq<char>>,
}

/// Model of [`SqlProjection`].
pub enum ProjectionModel {
    All,
    Columns(Seq<Seq<char>>),
    Expressions(Seq<ColumnModel>),
}

/// Model of [`SqlOrderBy`].
pub struct OrderModel {
    pub expression: ExprModel,
    pub direction: SqlSortDirection,
    pub null_order: Option<SqlNullOrder>,
}

/// Model of [`SqlAggregate`].
pub struct AggregateModel {
    pub function: AggregateFunctionModel,
    pub expression: Option<ExprModel>,
    pub alias: Seq<char>,
    pub distinct: bool,
}

/// Model of [`SqlAggregateFunction`].
pub enum AggregateFunctionModel {
    Count,
    Sum,
    Avg,
    Min,
    Max,
    StdDev,
    Variance,
    Percentile(Seq<char>),
    ArrayAgg,
    StringAgg,
}

/// Model of [`SqlJoinSource`].
pub enum JoinSourceModel {
    Table(Seq<char>),
    Filtered { table: Seq<char>, filters: Seq<ExprModel> },
    Subquery(QueryModel),
}

/// Model of [`SqlJoinCondition`].
pub struct JoinConditionModel {
    pub left: ExprModel,
    pub right: ExprModel,
    pub operator: SqlBinaryOp,
}

impl ExprModel {
    /// A binary operation.
    pub open spec fn binary(op: SqlBinaryOp, left: ExprModel, right: ExprModel) -> ExprModel {
        ExprModel::Binary { op, left: Box::new(left), right: Box::new(right) }
    }
}

/// The content of an optional string.
pub open spec fn optional_text(s: Option<String>) -> Option<Seq<char>> {
    match s {
        Some(t) => Some(t@),
        None => None,
    }
}

/// The models of a sequence of expressions.
pub open spec fn expr_models(v: Seq<SqlExpression>) -> Seq<ExprModel>
    decreases v,
{
    Seq::new(
        v.len(),
        |i: int|
            if 0 <= i < v.len() {
                v[i].model()
            } else {
                arbitrary()
            },
    )
}

/// The models of a sequence of `CASE` branches.
pub open spec fn branch_models(v: Seq<(SqlExpression, SqlExpression)>) -> Seq<
    (ExprModel, ExprModel),
>
    decreases v,
{
    Seq::new(
        v.len(),
        |i: int|
            if 0 <= i < v.len() {
                (v[i].0.model(), v[i].1.model())
            } else {
                arbitrary()
            },
    )
}

/// The models of a sequence of columns.
pub open spec fn column_models(v: Seq<SqlColumn>) -> Seq<ColumnModel>
    decreases v,
{
    Seq::new(
        v.len(),
        |i: int|
            if 0 <= i < v.len() {
                v[i].model()
            } else {
                arbitrary()
            },
    )
}

/// The models of a sequence of sort keys.
pub open spec fn order_models(v: Seq<SqlOrderBy>) -> Seq<OrderModel>
    decreases v,
{
    Seq::new(
        v.len(),
        |i: int|
            if 0 <= i < v.len() {
                v[i].model()
            } else {
                arbitrary()
            },
    )
}

/// The models of a sequence of aggregates.
pub open spec fn aggregate_models(v: Seq<SqlAggregate>) -> Seq<AggregateModel>
    decreases v,
{
    Seq::new(
        v.len(),
        |i: int|
            if 0 <= i < v.len() {
                v[i].model()
            } else {
                arbitrary()
            },
    )
}

/// The models of a sequence of join conditions.
pub open spec fn join_condition_models(v: Seq<SqlJoinCondition>) -> Seq<JoinConditionModel>
    decreases v,
{
    Seq::new(
        v.len(),
        |i: int|
            if 0 <= i < v.len() {
                v[i].model()
            } else {
                arbitrary()
            },
    )
}

/// The models of a pipeline of operations.
pub open spec fn operation_models(v: Seq<SqlOperation>) -> Seq<OperationModel>
    decreases v,
{
    Seq::new(
        v.len(),
        |i: int|
            if 0 <= i < v.len() {
                v[i].model()
            } else {
                arbitrary()
            },
    )
}

/// The models of a sequence of common table expressions.
pub open spec fn cte_models(v: Seq<SqlCte>) -> Seq<CteModel>
    decreases v,
{
    Seq::new(
        v.len(),
        |i: int|
            if 0 <= i < v.len() {
                v[i].model()
            } else {
                arbitrary()
            },
    )
}

impl SqlQuery {
    /// The model of the query.
    pub open spec fn model(self) -> QueryModel
        decreases self,
    {
        QueryModel {
            ctes: cte_models(self.ctes@),
            source: self.source@,
            pipeline: operation_models(self.pipeline@),
            projection: match self.projection {
                Some(p) => Some(p.model()),
                None => None,
            },
        }
    }
}

impl SqlCte {
    /// The model of the common table expression.
    pub open spec fn model(self) -> CteModel
        decreases self,
    {
        CteModel { name: self.name@, query: Box::new(self.query.model()) }
    }
}

impl SqlOperation {
    /// The model of the operation.
    pub open spec fn model(self) -> OperationModel
        decreases self,
    {
        match self {
            SqlOperation::Where(e) => OperationModel::Where(e.model()),
            SqlOperation::Project(columns) => OperationModel::Project(column_models(columns@)),
            SqlOperation::Extend(columns) => OperationModel::Extend(column_models(columns@)),
            SqlOperation::Limit(count) => OperationModel::Limit(count),
            SqlOperation::Order(order) => OperationModel::Order(order_models(order@)),
            SqlOperation::Aggregate { group_by, aggregates, having } => OperationModel::Aggregate {
                group_by: expr_models(group_by@),
                aggregates: aggregate_models(aggregates@),
                having: match having {
                    Some(e) => Some(e.model()),
                    None => None,
                },
            },
            SqlOperation::Join { kind, source, on } => OperationModel::Join {
                kind,
                source: source.model(),
                on: join_condition_models(on@),
            },
            SqlOperation::Union(query) => OperationModel::Union(Box::new(query.model())),
            SqlOperation::Distinct(exprs) => OperationModel::Distinct(expr_models(exprs@)),
        }
    }
}

impl SqlExpression {
    /// The model of the expression.
    pub open spec fn model(self) -> ExprModel
        decreases self,
    {
        match self {
            SqlExpression::Column(name) => ExprModel::Column(name@),
            SqlExpression::Literal(literal) => ExprModel::Literal(literal.model()),
            SqlExpression::InjectedVariable(name) => ExprModel::InjectedVariable(name@),
            SqlExpression::Binary { op, left, right } => ExprModel::Binary {
                op,
                left: Box::new(left.model()),
                right: Box::new(right.model()),
            },
            SqlExpression::Unary { op, operand } => ExprModel::Unary {
                op,
                operand: Box::new(operand.model()),
            },
            SqlExpression::Function { name, args } => ExprModel::Function {
                name: name@,
                args: expr_models(args@),
            },
            SqlExpression::Array(items) => ExprModel::Array(expr_models(items@)),
            SqlExpression::Case { conditions, default } => ExprModel::Case {
                conditions: branch_models(conditions@),
                default: match default {
                    Some(e) => Some(Box::new(e.model())),
                    None => None,
                },
            },
            SqlExpression::Parenthesized(e) => ExprModel::Parenthesized(Box::new(e.model())),
            SqlExpression::Subquery(query) => ExprModel::Subquery(Box::new(query.model())),
            SqlExpression::Cast { expression, target_type } => ExprModel::Cast {
                expression: Box::new(expression.model()),
                target_type,
            },
            SqlExpression::Between { expression, lower, upper, not } => ExprModel::Between {
                expression: Box::new(expression.model()),
                lower: Box::new(lower.model()),
                upper: Box::new(upper.model()),
                not,
            },
            SqlExpression::ArrayIndex { expr, index } => ExprModel::ArrayIndex {
                expr: Box::new(expr.model()),
                index: Box::new(index.model()),
            },
        }
    }
}

impl SqlLiteral {
    /// The model of the literal.
    pub open spec fn model(self) -> LiteralModel {
        match self {
            SqlLiteral::String(s) => LiteralModel::String(s@),
            SqlLiteral::Integer(i) => LiteralModel::Integer(i),
            SqlLiteral::Float(f) => LiteralModel::Float(f@),
            SqlLiteral::Boolean(b) => LiteralModel::Boolean(b),
            SqlLiteral::Null => LiteralModel::Null,
            SqlLiteral::DateTime(s) => LiteralModel::DateTime(s@),
            SqlLiteral::Interval(s) => LiteralModel::Interval(s@),
        }
    }
}

impl SqlInputValue {
    /// The model of the bound value.
    pub open spec fn model(self) -> InputModel {
        match self {
            SqlInputValue::Literal(literal) => InputModel::Literal(literal.model()),
            SqlInputValue::Variable(name) => InputModel::Variable(name@),
        }
    }
}

impl SqlColumn {
    /// The model of the column.
    pub open spec fn model(self) -> ColumnModel
        decreases self,
    {
        ColumnModel {
            name: self.name@,
            expression: self.expression.model(),
            alias: optional_text(self.alias),
        }
    }
}

impl SqlProjection {
    /// The model of the projection.
    pub open spec fn model(self) -> ProjectionModel
        decreases self,
    {
        match self {
            SqlProjection::All => ProjectionModel::All,
            SqlProjection::Columns(names) => ProjectionModel::Columns(crate::text::texts(names@)),
            SqlProjection::Expressions(columns) => ProjectionModel::Expressions(
                column_models(columns@),
            ),
        }
    }
}

impl SqlOrderBy {
    /// The model of the sort key.
    pub open spec fn model(self) -> OrderModel
        decreases self,
    {
        OrderModel {
            expression: self.expression.model(),
            direction: self.direction,
            null_order: self.null_order,
        }
    }
}

impl SqlAggregate {
    /// The model of the aggregate.
    pub open spec fn model(self) -> AggregateModel
        decreases self,
    {
        AggregateModel {
            function: self.function.model(),
            expression: match self.expression {
                Some(e) => Some(e.model()),
                None => None,
            },
            alias: self.alias@,
            distinct: self.distinct,
        }
    }
}

impl SqlAggregateFunction {
    /// The model of the aggregate function.
    pub open spec fn model(self) -> AggregateFunctionModel {
        match self {
            SqlAggregateFunction::Count => AggregateFunctionModel::Count,
            SqlAggregateFunction::Sum => AggregateFunctionModel::Sum,
            SqlAggregateFunction::Avg => AggregateFunctionModel::Avg,
            SqlAggregateFunction::Min => AggregateFunctionModel::Min,
            SqlAggregateFunction::Max => AggregateFunctionModel::Max,
            SqlAggregateFunction::StdDev => AggregateFunctionModel::StdDev,
            SqlAggregateFunction::Variance => AggregateFunctionModel::Variance,
            SqlAggregateFunction::Percentile(p) => AggregateFunctionModel::Percentile(p@),
            SqlAggregateFunction::ArrayAgg => AggregateFunctionModel::ArrayAgg,
            SqlAggregateFunction::StringAgg => AggregateFunctionModel::StringAgg,
        }
    }
}

impl SqlJoinSource {
    /// The model of the join source.
    pub open spec fn model(self) -> JoinSourceModel
        decreases self,
    {
        match self {
            SqlJoinSource::Table(table) => JoinSourceModel::Table(table@),
            SqlJoinSource::Filtered { table, filters } => JoinSourceModel::Filtered {
                table: table@,
                filters: expr_models(filters@),
            },
            SqlJoinSource::Subquery(query) => JoinSourceModel::Subquery(query.model()),
        }
    }
}

impl SqlJoinCondition {
    /// The model of the join condition.
    pub open spec fn model(self) -> JoinConditionModel
        decreases self,
    {
        JoinConditionModel {
            left: self.left.model(),
            right: self.right.model(),
            operator: self.operator,
        }
    }
}

impl View for SqlQuery {
    type V = QueryModel;

    open spec fn view(&self) -> QueryModel {
        self.model()
    }
}

impl View for SqlExpression {
    type V = ExprModel;

    open spec fn view(&self) -> ExprModel {
        self.model()
    }
}

impl View for SqlOperation {
    type V = OperationModel;

    open spec fn view(&self) -> OperationModel {
        self.model()
    }
}

} // verus!
