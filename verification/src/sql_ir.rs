//! SQL intermediate representation.
//!
//! A query is held as a tree that mirrors the structure of SQL, so that it can
//! be built, stored, optimised and only then turned into text.

use crate::floats::FloatText;
use crate::model::{
    aggregate_models, column_models, cte_models, expr_models, join_condition_models,
    operation_models, order_models, CteModel, ExprModel, JoinSourceModel, LiteralModel,
    OperationModel, ProjectionModel, QueryModel,
};
use vstd::prelude::*;

verus! {

/// SQL query.
#[derive(Debug, PartialEq)]
pub struct SqlQuery {
    /// Common table expressions (`WITH` clauses)
    pub ctes: Vec<SqlCte>,
    /// The main data source (table name)
    pub source: String,
    /// Pipeline of operations to apply
    pub pipeline: Vec<SqlOperation>,
    /// Optional result projection
    pub projection: Option<SqlProjection>,
}

/// SQL common table expression.
#[derive(Debug, PartialEq)]
pub struct SqlCte {
    pub name: String,
    pub query: Box<SqlQuery>,
}

/// Operation in the query pipeline.
#[derive(Debug, PartialEq)]
pub enum SqlOperation {
    /// Filter rows
    Where(SqlExpression),
    /// Project specific columns
    Project(Vec<SqlColumn>),
    /// Extend with computed columns, which are written in the projection
    Extend(Vec<SqlColumn>),
    /// Keep at most so many rows
    Limit(i64),
    /// Order by columns
    Order(Vec<SqlOrderBy>),
    /// Group and aggregate
    Aggregate {
        group_by: Vec<SqlExpression>,
        aggregates: Vec<SqlAggregate>,
        having: Option<SqlExpression>,
    },
    /// Join with another table
    Join { kind: SqlJoinKind, source: SqlJoinSource, on: Vec<SqlJoinCondition> },
    /// Union with another query
    Union(Box<SqlQuery>),
    /// Distinct values
    Distinct(Vec<SqlExpression>),
}

/// SQL expression.
#[derive(Debug, PartialEq)]
#[allow(inconsistent_fields)]
pub enum SqlExpression {
    /// Column reference
    Column(String),
    /// Literal value
    Literal(SqlLiteral),
    /// Host variable, written out as it is
    InjectedVariable(String),
    /// Binary operation
    Binary { op: SqlBinaryOp, left: Box<SqlExpression>, right: Box<SqlExpression> },
    /// Unary operation
    Unary { op: SqlUnaryOp, operand: Box<SqlExpression> },
    /// Function call
    Function { name: String, args: Vec<SqlExpression> },
    /// Array or list literal
    Array(Vec<SqlExpression>),
    /// `CASE WHEN` expression
    Case {
        conditions: Vec<(SqlExpression, SqlExpression)>,
        default: Option<Box<SqlExpression>>,
    },
    /// Parenthesized expression
    Parenthesized(Box<SqlExpression>),
    /// Nested query
    Subquery(Box<SqlQuery>),
    /// Cast expression
    Cast { expression: Box<SqlExpression>, target_type: SqlDataType },
    /// Between expression
    Between {
        expression: Box<SqlExpression>,
        lower: Box<SqlExpression>,
        upper: Box<SqlExpression>,
        not: bool,
    },
    /// Array subscript, such as `arr[1]`
    ArrayIndex { expr: Box<SqlExpression>, index: Box<SqlExpression> },
}

/// SQL literal value.
#[derive(Debug, PartialEq)]
pub enum SqlLiteral {
    String(String),
    Integer(i64),
    Float(FloatText),
    Boolean(bool),
    Null,
    /// Date, time or timestamp (ISO 8601 format)
    DateTime(String),
    /// Interval value
    Interval(String),
}

/// Value that a path under the global `input` is bound to.
#[derive(Debug, PartialEq)]
pub enum SqlInputValue {
    /// A value known when the rule is translated
    Literal(SqlLiteral),
    /// The name of a host variable that holds the value when the query runs
    Variable(String),
}

/// SQL binary operator.
#[derive(Debug, Clone, Copy, PartialEq, Eq, Structural)]
pub enum SqlBinaryOp {
    Equal,
    NotEqual,
    LessThan,
    LessThanOrEqual,
    GreaterThan,
    GreaterThanOrEqual,
    Add,
    Subtract,
    Multiply,
    Divide,
    Modulo,
    And,
    Or,
    Like,
    NotLike,
    /// Case-insensitive `LIKE`
    ILike,
    NotILike,
    In,
    NotIn,
    IsNull,
    IsNotNull,
    SimilarTo,
    NotSimilarTo,
    /// `||`
    Concat,
    /// `~`
    RegexMatch,
}

/// SQL unary operator.
#[derive(Debug, Clone, Copy, PartialEq, Eq, Structural)]
pub enum SqlUnaryOp {
    Not,
    /// Unary minus
    Negate,
    /// `EXISTS` subquery
    Exists,
}

/// Column of a projection.
#[derive(Debug, PartialEq)]
pub struct SqlColumn {
    pub name: String,
    pub expression: SqlExpression,
    pub alias: Option<String>,
}

/// Result projection.
#[derive(Debug, PartialEq)]
pub enum SqlProjection {
    /// All columns
    All,
    /// Named columns
    Columns(Vec<String>),
    /// Columns with expressions
    Expressions(Vec<SqlColumn>),
}

/// Sort key.
#[derive(Debug, PartialEq)]
pub struct SqlOrderBy {
    pub expression: SqlExpression,
    pub direction: SqlSortDirection,
    /// Where nulls are placed
    pub null_order: Option<SqlNullOrder>,
}

/// Sort direction.
#[derive(Debug, Clone, Copy, PartialEq, Eq, Structural)]
pub enum SqlSortDirection {
    Ascending,
    Descending,
}

/// Placement of nulls in a sort order.
#[derive(Debug, Clone, Copy, PartialEq, Eq, Structural)]
pub enum SqlNullOrder {
    NullsFirst,
    NullsLast,
}

/// Aggregate column.
#[derive(Debug, PartialEq)]
pub struct SqlAggregate {
    pub function: SqlAggregateFunction,
    pub expression: Option<SqlExpression>,
    pub alias: String,
    /// `DISTINCT` modifier, as in `COUNT(DISTINCT column)`
    pub distinct: bool,
}

/// Aggregate function.
#[derive(Debug, PartialEq)]
pub enum SqlAggregateFunction {
    Count,
    Sum,
    Avg,
    Min,
    Max,
    StdDev,
    Variance,
    /// Percentile, with the fraction to take
    Percentile(FloatText),
    ArrayAgg,
    StringAgg,
}

/// Target type of a cast.
#[derive(Debug, PartialEq)]
pub enum SqlDataType {
    Integer,
    BigInt,
    SmallInt,
    Decimal,
    Real,
    DoublePrecision,
    Varchar(Option<usize>),
    Text,
    Boolean,
    Date,
    Time,
    Timestamp,
    Timestamptz,
    Interval,
    Json,
    Jsonb,
    Array(Box<SqlDataType>),
    Numeric,
}

/// Kind of join.
#[derive(Debug, Clone, Copy, PartialEq, Eq, Structural)]
pub enum SqlJoinKind {
    Inner,
    LeftOuter,
    RightOuter,
    FullOuter,
    Cross,
    LeftAnti,
    RightAnti,
    LeftSemi,
    RightSemi,
}

/// Right side of a join.
#[derive(Debug, PartialEq)]
pub enum SqlJoinSource {
    Table(String),
    Filtered { table: String, filters: Vec<SqlExpression> },
    Subquery(SqlQuery),
}

/// Join condition.
#[derive(Debug, PartialEq)]
pub struct SqlJoinCondition {
    pub left: SqlExpression,
    pub right: SqlExpression,
    pub operator: SqlBinaryOp,
}

/// Query builder.
#[derive(Debug)]
pub struct SqlQueryBuilder {
    ctes: Vec<SqlCte>,
    source: Option<String>,
    operations: Vec<SqlOperation>,
    projection: Option<SqlProjection>,
}

/// Model of [`SqlQueryBuilder`]: what has been asked for so far.
pub struct BuilderModel {
    pub ctes: Seq<CteModel>,
    pub source: Option<Seq<char>>,
    pub operations: Seq<OperationModel>,
    pub projection: Option<ProjectionModel>,
}

impl BuilderModel {
    /// A builder that nothing has been asked of.
    pub open spec fn empty() -> BuilderModel {
        BuilderModel {
            ctes: Seq::empty(),
            source: None,
            operations: Seq::empty(),
            projection: None,
        }
    }

    /// The builder with one more operation at the end of its pipeline.
    pub open spec fn with_operation(self, operation: OperationModel) -> BuilderModel {
        BuilderModel { operations: self.operations.push(operation), ..self }
    }
}

impl View for SqlQueryBuilder {
    type V = BuilderModel;

    closed spec fn view(&self) -> BuilderModel {
        BuilderModel {
            ctes: cte_models(self.ctes@),
            source: crate::model::optional_text(self.source),
            operations: operation_models(self.operations@),
            projection: match self.projection {
                Some(p) => Some(p.model()),
                None => None,
            },
        }
    }
}

impl SqlQueryBuilder {
    /// An empty builder.
    pub fn new() -> (r: Self)
        ensures
            r@ == BuilderModel::empty(),
    {
        let r = SqlQueryBuilder {
            ctes: Vec::new(),
            source: None,
            operations: Vec::new(),
            projection: None,
        };
        proof {
            assert(r@.ctes =~= Seq::empty());
            assert(r@.operations =~= Seq::empty());
        }
        r
    }

    /// Sets the source table.
    pub fn from_table(self, table: &str) -> (r: Self)
        ensures
            r@ == (BuilderModel { source: Some(table@), ..self@ }),
    {
        SqlQueryBuilder { source: Some(table.to_string()), ..self }
    }

    /// Appends an operation to the pipeline.
    fn push(self, operation: SqlOperation) -> (r: Self)
        ensures
            r@ == self@.with_operation(operation@),
    {
        let mut operations: Vec<SqlOperation> = self.operations;
        operations.push(operation);
        let r = SqlQueryBuilder {
            ctes: self.ctes,
            source: self.source,
            operations,
            projection: self.projection,
        };
        proof {
            assert(r@.operations =~= self@.operations.push(operation@));
        }
        r
    }

    /// Filters rows.
    pub fn where_clause(self, condition: SqlExpression) -> (r: Self)
        ensures
            r@ == self@.with_operation(OperationModel::Where(condition@)),
    {
        self.push(SqlOperation::Where(condition))
    }

    /// Projects columns.
    pub fn project(self, columns: Vec<SqlColumn>) -> (r: Self)
        ensures
            r@ == self@.with_operation(OperationModel::Project(column_models(columns@))),
    {
        self.push(SqlOperation::Project(columns))
    }

    /// Extends rows with computed columns.
    pub fn extend(self, columns: Vec<SqlColumn>) -> (r: Self)
        ensures
            r@ == self@.with_operation(OperationModel::Extend(column_models(columns@))),
    {
        self.push(SqlOperation::Extend(columns))
    }

    /// Keeps at most `count` rows.
    pub fn limit(self, count: i64) -> (r: Self)
        ensures
            r@ == self@.with_operation(OperationModel::Limit(count)),
    {
        self.push(SqlOperation::Limit(count))
    }

    /// Orders rows.
    pub fn order_by(self, order: Vec<SqlOrderBy>) -> (r: Self)
        ensures
            r@ == self@.with_operation(OperationModel::Order(order_models(order@))),
    {
        self.push(SqlOperation::Order(order))
    }

    /// Groups and aggregates rows.
    pub fn aggregate(
        self,
        group_by: Vec<SqlExpression>,
        aggregates: Vec<SqlAggregate>,
        having: Option<SqlExpression>,
    ) -> (r: Self)
        ensures
            r@ == self@.with_operation(
                (OperationModel::Aggregate {
                    group_by: expr_models(group_by@),
                    aggregates: aggregate_models(aggregates@),
                    having: match having {
                        Some(e) => Some(e@),
                        None => None,
                    },
                }),
            ),
    {
        self.push(SqlOperation::Aggregate { group_by, aggregates, having })
    }

    /// Joins a table.
    pub fn join(
        self,
        kind: SqlJoinKind,
        table: &str,
        conditions: Vec<SqlJoinCondition>,
    ) -> (r: Self)
        ensures
            r@ == self@.with_operation(
                (OperationModel::Join {
                    kind,
                    source: JoinSourceModel::Table(table@),
                    on: join_condition_models(conditions@),
                }),
            ),
    {
        self.push(
            SqlOperation::Join {
                kind,
                source: SqlJoinSource::Table(table.to_string()),
                on: conditions,
            },
        )
    }

    /// Joins the rows of a table that pass the filters.
    pub fn join_filtered(
        self,
        kind: SqlJoinKind,
        table: &str,
        filters: Vec<SqlExpression>,
        conditions: Vec<SqlJoinCondition>,
    ) -> (r: Self)
        ensures
            r@ == self@.with_operation(
                (OperationModel::Join {
                    kind,
                    source: (JoinSourceModel::Filtered {
                        table: table@,
                        filters: expr_models(filters@),
                    }),
                    on: join_condition_models(conditions@),
                }),
            ),
    {
        self.push(
            SqlOperation::Join {
                kind,
                source: SqlJoinSource::Filtered { table: table.to_string(), filters },
                on: conditions,
            },
        )
    }

    /// Joins a subquery.
    pub fn join_subquery(
        self,
        kind: SqlJoinKind,
        subquery: SqlQuery,
        conditions: Vec<SqlJoinCondition>,
    ) -> (r: Self)
        ensures
            r@ == self@.with_operation(
                (OperationModel::Join {
                    kind,
                    source: JoinSourceModel::Subquery(subquery@),
                    on: join_condition_models(conditions@),
                }),
            ),
    {
        self.push(
            SqlOperation::Join { kind, source: SqlJoinSource::Subquery(subquery), on: conditions },
        )
    }

    /// The query, with the operations in the order in which they were asked for.
    /// It fails exactly where no source table was set.
    pub fn build(self) -> (r: Result<SqlQuery, String>)
        ensures
            match (self@.source, r) {
                (Some(source), Ok(query)) => query@ == (QueryModel {
                    ctes: self@.ctes,
                    source,
                    pipeline: self@.operations,
                    projection: self@.projection,
                }),
                (None, Err(message)) => message@ == "Source table not specified"@,
                _ => false,
            },
    {
        match self.source {
            Some(source) => Ok(
                SqlQuery {
                    ctes: self.ctes,
                    source,
                    pipeline: self.operations,
                    projection: self.projection,
                },
            ),
            None => Err("Source table not specified".to_string()),
        }
    }
}

impl Default for SqlQueryBuilder {
    fn default() -> (r: Self)
        ensures
            r@ == BuilderModel::empty(),
    {
        SqlQueryBuilder::new()
    }
}

impl SqlExpression {
    /// A column reference.
    pub fn column(name: &str) -> (r: Self)
        ensures
            r@ == ExprModel::Column(name@),
    {
        SqlExpression::Column(name.to_string())
    }

    /// A string literal.
    pub fn string_literal(value: &str) -> (r: Self)
        ensures
            r@ == ExprModel::Literal(LiteralModel::String(value@)),
    {
        SqlExpression::Literal(SqlLiteral::String(value.to_string()))
    }

    /// An integer literal.
    pub fn int_literal(value: i64) -> (r: Self)
        ensures
            r@ == ExprModel::Literal(LiteralModel::Integer(value)),
    {
        SqlExpression::Literal(SqlLiteral::Integer(value))
    }

    /// A floating-point literal.
    pub fn float_literal(value: FloatText) -> (r: Self)
        ensures
            r@ == ExprModel::Literal(LiteralModel::Float(value@)),
    {
        SqlExpression::Literal(SqlLiteral::Float(value))
    }

    /// A boolean literal.
    pub fn bool_literal(value: bool) -> (r: Self)
        ensures
            r@ == ExprModel::Literal(LiteralModel::Boolean(value)),
    {
        SqlExpression::Literal(SqlLiteral::Boolean(value))
    }

    /// The null literal.
    pub fn null_literal() -> (r: Self)
        ensures
            r@ == ExprModel::Literal(LiteralModel::Null),
    {
        SqlExpression::Literal(SqlLiteral::Null)
    }

    /// `left = right`
    pub fn equals(left: SqlExpression, right: SqlExpression) -> (r: Self)
        ensures
            r@ == ExprModel::binary(SqlBinaryOp::Equal, left@, right@),
    {
        SqlExpression::binary(SqlBinaryOp::Equal, left, right)
    }

    /// `left AND right`
    pub fn and(left: SqlExpression, right: SqlExpression) -> (r: Self)
        ensures
            r@ == ExprModel::binary(SqlBinaryOp::And, left@, right@),
    {
        SqlExpression::binary(SqlBinaryOp::And, left, right)
    }

    /// `left OR right`
    pub fn or(left: SqlExpression, right: SqlExpression) -> (r: Self)
        ensures
            r@ == ExprModel::binary(SqlBinaryOp::Or, left@, right@),
    {
        SqlExpression::binary(SqlBinaryOp::Or, left, right)
    }

    /// A binary operation.
    pub(crate) fn binary(op: SqlBinaryOp, left: SqlExpression, right: SqlExpression) -> (r: Self)
        ensures
            r@ == ExprModel::binary(op, left@, right@),
    {
        SqlExpression::Binary { op, left: Box::new(left), right: Box::new(right) }
    }

    /// A function call.
    pub fn function(name: &str, args: Vec<SqlExpression>) -> (r: Self)
        ensures
            r@ == (ExprModel::Function { name: name@, args: expr_models(args@) }),
    {
        SqlExpression::Function { name: name.to_string(), args }
    }

    /// `CAST(expression AS target_type)`
    pub fn cast(expression: SqlExpression, target_type: SqlDataType) -> (r: Self)
        ensures
            r@ == (ExprModel::Cast { expression: Box::new(expression@), target_type }),
    {
        SqlExpression::Cast { expression: Box::new(expression), target_type }
    }

    /// `expression BETWEEN lower AND upper`
    pub fn between(
        expression: SqlExpression,
        lower: SqlExpression,
        upper: SqlExpression,
    ) -> (r: Self)
        ensures
            r@ == (ExprModel::Between {
                expression: Box::new(expression@),
                lower: Box::new(lower@),
                upper: Box::new(upper@),
                not: false,
            }),
    {
        SqlExpression::Between {
            expression: Box::new(expression),
            lower: Box::new(lower),
            upper: Box::new(upper),
            not: false,
        }
    }
}

/// The message for a query that could not be written in binary form.
pub fn serialization_error(detail: &str) -> (r: String)
    ensures
        r@ == "Serialization error: "@ + detail@,
{
    crate::text::cat2("Serialization error: ", detail)
}

/// The message for bytes that could not be read as a query.
pub fn deserialization_error(detail: &str) -> (r: String)
    ensures
        r@ == "Deserialization error: "@ + detail@,
{
    crate::text::cat2("Deserialization error: ", detail)
}

} // verus!
