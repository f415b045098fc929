//! Copies of the intermediate representation: a copy has the model of what it copies.

use crate::model::{
    aggregate_models, branch_models, column_models, cte_models, expr_models, join_condition_models,
    operation_models, optional_text, order_models,
};
use crate::sql_ir::{
    SqlAggregate, SqlAggregateFunction, SqlColumn, SqlCte, SqlDataType, SqlExpression,
    SqlInputValue, SqlJoinCondition, SqlJoinSource, SqlLiteral, SqlOperation, SqlOrderBy,
    SqlProjection, SqlQuery,
};
use crate::text::texts;
use vstd::prelude::*;

verus! {

fn copy_strings(v: &Vec<String>) -> (r: Vec<String>)
    ensures
        texts(r@) == texts(v@),
{
    let mut r: Vec<String> = Vec::new();
    for i in 0..v.len()
        invariant
            r@.len() == i,
            forall|j: int| 0 <= j < i ==> (#[trigger] r@[j])@ == v@[j]@,
    {
        r.push(v[i].clone());
    }
    proof {
        assert(texts(r@) =~= texts(v@));
    }
    r
}

fn copy_optional_string(s: &Option<String>) -> (r: Option<String>)
    ensures
        optional_text(r) == optional_text(*s),
{
    match s {
        Some(t) => Some(t.clone()),
        None => None,
    }
}

fn copy_optional_expr(e: &Option<SqlExpression>) -> (r: Option<SqlExpression>)
    ensures
        match (r, *e) {
            (Some(x), Some(y)) => x.model() == y.model(),
            (None, None) => true,
            _ => false,
        },
    decreases e,
{
    match e {
        Some(x) => Some(copy_expr(x)),
        None => None,
    }
}

fn copy_exprs(v: &Vec<SqlExpression>) -> (r: Vec<SqlExpression>)
    ensures
        expr_models(r@) == expr_models(v@),
    decreases v,
{
    let mut r: Vec<SqlExpression> = Vec::new();
    for i in 0..v.len()
        invariant
            r@.len() == i,
            forall|j: int| 0 <= j < i ==> (#[trigger] r@[j]).model() == v@[j].model(),
    {
        r.push(copy_expr(&v[i]));
    }
    proof {
        assert(expr_models(r@) =~= expr_models(v@));
    }
    r
}

fn copy_columns(v: &Vec<SqlColumn>) -> (r: Vec<SqlColumn>)
    ensures
        column_models(r@) == column_models(v@),
    decreases v,
{
    let mut r: Vec<SqlColumn> = Vec::new();
    for i in 0..v.len()
        invariant
            r@.len() == i,
            forall|j: int| 0 <= j < i ==> (#[trigger] r@[j]).model() == v@[j].model(),
    {
        r.push(copy_column(&v[i]));
    }
    proof {
        assert(column_models(r@) =~= column_models(v@));
    }
    r
}

fn copy_orders(v: &Vec<SqlOrderBy>) -> (r: Vec<SqlOrderBy>)
    ensures
        order_models(r@) == order_models(v@),
    decreases v,
{
    let mut r: Vec<SqlOrderBy> = Vec::new();
    for i in 0..v.len()
        invariant
            r@.len() == i,
            forall|j: int| 0 <= j < i ==> (#[trigger] r@[j]).model() == v@[j].model(),
    {
        r.push(copy_order(&v[i]));
    }
    proof {
        assert(order_models(r@) =~= order_models(v@));
    }
    r
}

fn copy_aggregates(v: &Vec<SqlAggregate>) -> (r: Vec<SqlAggregate>)
    ensures
        aggregate_models(r@) == aggregate_models(v@),
    decreases v,
{
    let mut r: Vec<SqlAggregate> = Vec::new();
    for i in 0..v.len()
        invariant
            r@.len() == i,
            forall|j: int| 0 <= j < i ==> (#[trigger] r@[j]).model() == v@[j].model(),
    {
        r.push(copy_aggregate(&v[i]));
    }
    proof {
        assert(aggregate_models(r@) =~= aggregate_models(v@));
    }
    r
}

fn copy_join_conditions(v: &Vec<SqlJoinCondition>) -> (r: Vec<SqlJoinCondition>)
    ensures
        join_condition_models(r@) == join_condition_models(v@),
    decreases v,
{
    let mut r: Vec<SqlJoinCondition> = Vec::new();
    for i in 0..v.len()
        invariant
            r@.len() == i,
            forall|j: int| 0 <= j < i ==> (#[trigger] r@[j]).model() == v@[j].model(),
    {
        r.push(copy_join_condition(&v[i]));
    }
    proof {
        assert(join_condition_models(r@) =~= join_condition_models(v@));
    }
    r
}

fn copy_operations(v: &Vec<SqlOperation>) -> (r: Vec<SqlOperation>)
    ensures
        operation_models(r@) == operation_models(v@),
    decreases v,
{
    let mut r: Vec<SqlOperation> = Vec::new();
    for i in 0..v.len()
        invariant
            r@.len() == i,
            forall|j: int| 0 <= j < i ==> (#[trigger] r@[j]).model() == v@[j].model(),
    {
        r.push(copy_operation(&v[i]));
    }
    proof {
        assert(operation_models(r@) =~= operation_models(v@));
    }
    r
}

fn copy_ctes(v: &Vec<SqlCte>) -> (r: Vec<SqlCte>)
    ensures
        cte_models(r@) == cte_models(v@),
    decreases v,
{
    let mut r: Vec<SqlCte> = Vec::new();
    for i in 0..v.len()
        invariant
            r@.len() == i,
            forall|j: int| 0 <= j < i ==> (#[trigger] r@[j]).model() == v@[j].model(),
    {
        r.push(copy_cte(&v[i]));
    }
    proof {
        assert(cte_models(r@) =~= cte_models(v@));
    }
    r
}

fn copy_branches(v: &Vec<(SqlExpression, SqlExpression)>) -> (r: Vec<
    (SqlExpression, SqlExpression),
>)
    ensures
        branch_models(r@) == branch_models(v@),
    decreases v,
{
    let mut r: Vec<(SqlExpression, SqlExpression)> = Vec::new();
    for i in 0..v.len()
        invariant
            r@.len() == i,
            forall|j: int|
                0 <= j < i ==> (#[trigger] r@[j]).0.model() == v@[j].0.model()
                    && r@[j].1.model() == v@[j].1.model(),
    {
        let branch = &v[i];
        r.push((copy_expr(&branch.0), copy_expr(&branch.1)));
    }
    proof {
        assert(branch_models(r@) =~= branch_models(v@));
    }
    r
}

fn copy_expr(e: &SqlExpression) -> (r: SqlExpression)
    ensures
        r.model() == e.model(),
    decreases e,
{
    match e {
        SqlExpression::Column(name) => SqlExpression::Column(name.clone()),
        SqlExpression::Literal(literal) => SqlExpression::Literal(literal.clone()),
        SqlExpression::InjectedVariable(name) => SqlExpression::InjectedVariable(name.clone()),
        SqlExpression::Binary { op, left, right } => SqlExpression::Binary {
            op: *op,
            left: Box::new(copy_expr(left)),
            right: Box::new(copy_expr(right)),
        },
        SqlExpression::Unary { op, operand } => SqlExpression::Unary {
            op: *op,
            operand: Box::new(copy_expr(operand)),
        },
        SqlExpression::Function { name, args } => SqlExpression::Function {
            name: name.clone(),
            args: copy_exprs(args),
        },
        SqlExpression::Array(items) => SqlExpression::Array(copy_exprs(items)),
        SqlExpression::Case { conditions, default } => SqlExpression::Case {
            conditions: copy_branches(conditions),
            default: match default {
                Some(d) => Some(Box::new(copy_expr(d))),
                None => None,
            },
        },
        SqlExpression::Parenthesized(inner) => SqlExpression::Parenthesized(
            Box::new(copy_expr(inner)),
        ),
        SqlExpression::Subquery(query) => SqlExpression::Subquery(Box::new(copy_query(query))),
        SqlExpression::Cast { expression, target_type } => SqlExpression::Cast {
            expression: Box::new(copy_expr(expression)),
            target_type: target_type.clone(),
        },
        SqlExpression::Between { expression, lower, upper, not } => SqlExpression::Between {
            expression: Box::new(copy_expr(expression)),
            lower: Box::new(copy_expr(lower)),
            upper: Box::new(copy_expr(upper)),
            not: *not,
        },
        SqlExpression::ArrayIndex { expr, index } => SqlExpression::ArrayIndex {
            expr: Box::new(copy_expr(expr)),
            index: Box::new(copy_expr(index)),
        },
    }
}

fn copy_column(c: &SqlColumn) -> (r: SqlColumn)
    ensures
        r.model() == c.model(),
    decreases c,
{
    SqlColumn {
        name: c.name.clone(),
        expression: copy_expr(&c.expression),
        alias: copy_optional_string(&c.alias),
    }
}

fn copy_order(o: &SqlOrderBy) -> (r: SqlOrderBy)
    ensures
        r.model() == o.model(),
    decreases o,
{
    SqlOrderBy {
        expression: copy_expr(&o.expression),
        direction: o.direction,
        null_order: o.null_order,
    }
}

fn copy_aggregate(a: &SqlAggregate) -> (r: SqlAggregate)
    ensures
        r.model() == a.model(),
    decreases a,
{
    SqlAggregate {
        function: a.function.clone(),
        expression: copy_optional_expr(&a.expression),
        alias: a.alias.clone(),
        distinct: a.distinct,
    }
}

fn copy_join_condition(c: &SqlJoinCondition) -> (r: SqlJoinCondition)
    ensures
        r.model() == c.model(),
    decreases c,
{
    SqlJoinCondition {
        left: copy_expr(&c.left),
        right: copy_expr(&c.right),
        operator: c.operator,
    }
}

fn copy_join_source(s: &SqlJoinSource) -> (r: SqlJoinSource)
    ensures
        r.model() == s.model(),
    decreases s,
{
    match s {
        SqlJoinSource::Table(table) => SqlJoinSource::Table(table.clone()),
        SqlJoinSource::Filtered { table, filters } => SqlJoinSource::Filtered {
            table: table.clone(),
            filters: copy_exprs(filters),
        },
        SqlJoinSource::Subquery(query) => SqlJoinSource::Subquery(copy_query(query)),
    }
}

fn copy_operation(o: &SqlOperation) -> (r: SqlOperation)
    ensures
        r.model() == o.model(),
    decreases o,
{
    match o {
        SqlOperation::Where(e) => SqlOperation::Where(copy_expr(e)),
        SqlOperation::Project(columns) => SqlOperation::Project(copy_columns(columns)),
        SqlOperation::Extend(columns) => SqlOperation::Extend(copy_columns(columns)),
        SqlOperation::Limit(count) => SqlOperation::Limit(*count),
        SqlOperation::Order(order) => SqlOperation::Order(copy_orders(order)),
        SqlOperation::Aggregate { group_by, aggregates, having } => SqlOperation::Aggregate {
            group_by: copy_exprs(group_by),
            aggregates: copy_aggregates(aggregates),
            having: copy_optional_expr(having),
        },
        SqlOperation::Join { kind, source, on } => SqlOperation::Join {
            kind: *kind,
            source: copy_join_source(source),
            on: copy_join_conditions(on),
        },
        SqlOperation::Union(query) => SqlOperation::Union(Box::new(copy_query(query))),
        SqlOperation::Distinct(exprs) => SqlOperation::Distinct(copy_exprs(exprs)),
    }
}

fn copy_cte(c: &SqlCte) -> (r: SqlCte)
    ensures
        r.model() == c.model(),
    decreases c,
{
    SqlCte { name: c.name.clone(), query: Box::new(copy_query(&c.query)) }
}

fn copy_projection(p: &SqlProjection) -> (r: SqlProjection)
    ensures
        r.model() == p.model(),
    decreases p,
{
    match p {
        SqlProjection::All => SqlProjection::All,
        SqlProjection::Columns(names) => SqlProjection::Columns(copy_strings(names)),
        SqlProjection::Expressions(columns) => SqlProjection::Expressions(copy_columns(columns)),
    }
}

fn copy_query(q: &SqlQuery) -> (r: SqlQuery)
    ensures
        r.model() == q.model(),
    decreases q,
{
    SqlQuery {
        ctes: copy_ctes(&q.ctes),
        source: q.source.clone(),
        pipeline: copy_operations(&q.pipeline),
        projection: match &q.projection {
            Some(p) => Some(copy_projection(p)),
            None => None,
        },
    }
}

fn copy_data_type(t: &SqlDataType) -> (r: SqlDataType)
    ensures
        r == *t,
    decreases t,
{
    match t {
        SqlDataType::Integer => SqlDataType::Integer,
        SqlDataType::BigInt => SqlDataType::BigInt,
        SqlDataType::SmallInt => SqlDataType::SmallInt,
        SqlDataType::Decimal => SqlDataType::Decimal,
        SqlDataType::Real => SqlDataType::Real,
        SqlDataType::DoublePrecision => SqlDataType::DoublePrecision,
        SqlDataType::Varchar(length) => SqlDataType::Varchar(*length),
        SqlDataType::Text => SqlDataType::Text,
        SqlDataType::Boolean => SqlDataType::Boolean,
        SqlDataType::Date => SqlDataType::Date,
        SqlDataType::Time => SqlDataType::Time,
        SqlDataType::Timestamp => SqlDataType::Timestamp,
        SqlDataType::Timestamptz => SqlDataType::Timestamptz,
        SqlDataType::Interval => SqlDataType::Interval,
        SqlDataType::Json => SqlDataType::Json,
        SqlDataType::Jsonb => SqlDataType::Jsonb,
        SqlDataType::Array(inner) => SqlDataType::Array(Box::new(copy_data_type(inner))),
        SqlDataType::Numeric => SqlDataType::Numeric,
    }
}

impl Clone for SqlLiteral {
    fn clone(&self) -> (r: Self)
        ensures
            r.model() == self.model(),
    {
        match self {
            SqlLiteral::String(s) => SqlLiteral::String(s.clone()),
            SqlLiteral::Integer(i) => SqlLiteral::Integer(*i),
            SqlLiteral::Float(f) => SqlLiteral::Float(f.clone()),
            SqlLiteral::Boolean(b) => SqlLiteral::Boolean(*b),
            SqlLiteral::Null => SqlLiteral::Null,
            SqlLiteral::DateTime(s) => SqlLiteral::DateTime(s.clone()),
            SqlLiteral::Interval(s) => SqlLiteral::Interval(s.clone()),
        }
    }
}

impl Clone for SqlInputValue {
    fn clone(&self) -> (r: Self)
        ensures
            r.model() == self.model(),
    {
        match self {
            SqlInputValue::Literal(literal) => SqlInputValue::Literal(literal.clone()),
            SqlInputValue::Variable(name) => SqlInputValue::Variable(name.clone()),
        }
    }
}

impl Clone for SqlAggregateFunction {
    fn clone(&self) -> (r: Self)
        ensures
            r.model() == self.model(),
    {
        match self {
            SqlAggregateFunction::Count => SqlAggregateFunction::Count,
            SqlAggregateFunction::Sum => SqlAggregateFunction::Sum,
            SqlAggregateFunction::Avg => SqlAggregateFunction::Avg,
            SqlAggregateFunction::Min => SqlAggregateFunction::Min,
            SqlAggregateFunction::Max => SqlAggregateFunction::Max,
            SqlAggregateFunction::StdDev => SqlAggregateFunction::StdDev,
            SqlAggregateFunction::Variance => SqlAggregateFunction::Variance,
            SqlAggregateFunction::Percentile(p) => SqlAggregateFunction::Percentile(p.clone()),
            SqlAggregateFunction::ArrayAgg => SqlAggregateFunction::ArrayAgg,
            SqlAggregateFunction::StringAgg => SqlAggregateFunction::StringAgg,
        }
    }
}

impl Clone for SqlDataType {
    fn clone(&self) -> (r: Self)
        ensures
            r == *self,
    {
        copy_data_type(self)
    }
}

impl Clone for SqlQuery {
    fn clone(&self) -> (r: Self)
        ensures
            r.model() == self.model(),
    {
        copy_query(self)
    }
}

impl Clone for SqlCte {
    fn clone(&self) -> (r: Self)
        ensures
            r.model() == self.model(),
    {
        copy_cte(self)
    }
}

impl Clone for SqlOperation {
    fn clone(&self) -> (r: Self)
        ensures
            r.model() == self.model(),
    {
        copy_operation(self)
    }
}

impl Clone for SqlExpression {
    fn clone(&self) -> (r: Self)
        ensures
            r.model() == self.model(),
    {
        copy_expr(self)
    }
}

impl Clone for SqlColumn {
    fn clone(&self) -> (r: Self)
        ensures
            r.model() == self.model(),
    {
        copy_column(self)
    }
}

impl Clone for SqlProjection {
    fn clone(&self) -> (r: Self)
        ensures
            r.model() == self.model(),
    {
        copy_projection(self)
    }
}

impl Clone for SqlOrderBy {
    fn clone(&self) -> (r: Self)
        ensures
            r.model() == self.model(),
    {
        copy_order(self)
    }
}

impl Clone for SqlAggregate {
    fn clone(&self) -> (r: Self)
        ensures
            r.model() == self.model(),
    {
        copy_aggregate(self)
    }
}

impl Clone for SqlJoinSource {
    fn clone(&self) -> (r: Self)
        ensures
            r.model() == self.model(),
    {
        copy_join_source(self)
    }
}

impl Clone for SqlJoinCondition {
    fn clone(&self) -> (r: Self)
        ensures
            r.model() == self.model(),
    {
        copy_join_condition(self)
    }
}

} // verus!
