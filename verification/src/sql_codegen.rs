//! SQL code generation: the intermediate representation written out as SQL text.

use crate::model::{
    aggregate_models, branch_models, column_models, cte_models, expr_models, join_condition_models,
    operation_models, optional_text, order_models, OperationModel,
};
use crate::render::{
    binary_op_text, direction_text, first_index, has_distinct, is_aggregate, is_keyword, is_project,
    is_quoted, is_quoted_as, join_kind_text, lemma_first_index, null_order_text, Style,
};
use crate::sql_ir::{
    SqlAggregate, SqlAggregateFunction, SqlBinaryOp, SqlColumn, SqlCte, SqlDataType, SqlExpression,
    SqlJoinCondition, SqlJoinKind, SqlJoinSource, SqlLiteral, SqlNullOrder, SqlOperation,
    SqlOrderBy, SqlQuery, SqlSortDirection, SqlUnaryOp,
};
use crate::text::{
    all_ascii, ascii_upper, cat2, cat3, cat4, cat5, concatenated, double_quotes, has_char, join,
    joined, same_text, signed_text, texts, to_uppercase, trim_quotes, unsigned_text,
};
use vstd::prelude::*;

verus! {

/// Supported SQL dialects.
#[derive(Debug, Clone, Copy, PartialEq, Eq, Structural)]
pub enum SqlDialect {
    /// Standard SQL (ANSI SQL)
    Standard,
    /// PostgreSQL
    PostgreSQL,
    /// MySQL/MariaDB
    MySQL,
    /// SQLite
    SQLite,
    /// Microsoft SQL Server
    TSQL,
}

/// SQL code generator.
#[derive(Debug)]
pub struct SqlCodeGenerator {
    /// Whether to generate pretty-printed SQL
    pretty_print: bool,
    /// SQL dialect
    dialect: SqlDialect,
    /// What stands before every line but the first
    margin: String,
}

impl View for SqlCodeGenerator {
    type V = Style;

    closed spec fn view(&self) -> Style {
        Style { pretty: self.pretty_print, dialect: self.dialect, margin: self.margin@ }
    }
}

impl SqlCodeGenerator {
    /// A generator of pretty-printed standard SQL.
    pub fn new() -> (r: Self)
        ensures
            r@ == (Style { pretty: true, dialect: SqlDialect::Standard, margin: Seq::empty() }),
    {
        SqlCodeGenerator {
            pretty_print: true,
            dialect: SqlDialect::Standard,
            margin: String::new(),
        }
    }

    /// Chooses between pretty-printed and compact text.
    pub fn with_pretty_print(self, pretty: bool) -> (r: Self)
        ensures
            r@ == (Style { pretty, ..self@ }),
    {
        SqlCodeGenerator { pretty_print: pretty, dialect: self.dialect, margin: self.margin }
    }

    /// Chooses the dialect.
    pub fn with_dialect(self, dialect: SqlDialect) -> (r: Self)
        ensures
            r@ == (Style { dialect, ..self@ }),
    {
        SqlCodeGenerator { pretty_print: self.pretty_print, dialect, margin: self.margin }
    }

    /// The SQL text of a query.
    pub fn generate(&mut self, query: &SqlQuery) -> (r: String)
        ensures
            r@ == old(self)@.query(query@),
            *final(self) == *old(self),
    {
        self.write_query(query)
    }

    /// What stands before a clause.
    fn gap(&self) -> (r: String)
        ensures
            r@ == self@.gap(),
    {
        if self.pretty_print {
            cat2("\n", self.margin.as_str())
        } else {
            " ".to_string()
        }
    }

    /// A generator for what stands inside parentheses.
    fn deeper(&self) -> (r: SqlCodeGenerator)
        ensures
            r@ == self@.deeper(),
    {
        SqlCodeGenerator {
            pretty_print: self.pretty_print,
            dialect: self.dialect,
            margin: cat2(self.margin.as_str(), "    "),
        }
    }

    fn write_query(&self, query: &SqlQuery) -> (r: String)
        ensures
            r@ == self@.query(query@),
        decreases query, 5int,
    {
        let with: String = self.generate_ctes(&query.ctes);
        let select: String = self.generate_select(query);
        let mut sql: String = cat5(
            with.as_str(),
            select.as_str(),
            self.gap().as_str(),
            "FROM ",
            query.source.as_str(),
        );
        self.generate_operations(&mut sql, &query.pipeline);
        sql
    }

    /// The `WITH` clause.
    fn generate_ctes(&self, ctes: &Vec<SqlCte>) -> (r: String)
        ensures
            r@ == self@.with_clause(cte_models(ctes@)),
        decreases ctes, 5int,
    {
        if ctes.len() == 0 {
            return "".to_string();
        }
        let mut parts: Vec<String> = Vec::new();
        for i in 0..ctes.len()
            invariant
                parts@.len() == i,
                forall|j: int|
                    0 <= j < i ==> (#[trigger] parts@[j])@ == self@.ctes(cte_models(ctes@))[j],
        {
            let cte = &ctes[i];
            let body: String = self.generate_nested(&cte.query);
            parts.push(cat3(cte.name.as_str(), " AS ", body.as_str()));
        }
        proof {
            assert(texts(parts@) =~= self@.ctes(cte_models(ctes@)));
        }
        let between: String = cat2(",\n", self.margin.as_str());
        let list: String = join(&parts, between.as_str());
        if self.pretty_print {
            let end: String = cat2("\n", self.margin.as_str());
            cat3("WITH ", list.as_str(), end.as_str())
        } else {
            cat3("WITH ", list.as_str(), "")
        }
    }

    /// A query in parentheses.
    fn generate_nested(&self, query: &SqlQuery) -> (r: String)
        ensures
            r@ == self@.nested(query@),
        decreases query, 6int,
    {
        if self.pretty_print {
            let body: String = self.generate_subquery_pretty(query);
            cat5("(\n", body.as_str(), "\n", self.margin.as_str(), ")")
        } else {
            let body: String = self.write_query(query);
            cat3("(", body.as_str(), ")")
        }
    }

    /// The `SELECT` clause of a query.
    fn generate_select(&self, query: &SqlQuery) -> (r: String)
        ensures
            r@ == self@.select_clause(operation_models(query.pipeline@)),
        decreases query, 4int,
    {
        let ghost ops = operation_models(query.pipeline@);
        let mut distinct: bool = false;
        for i in 0..query.pipeline.len()
            invariant
                ops == operation_models(query.pipeline@),
                distinct == exists|j: int| 0 <= j < i && #[trigger] ops[j] is Distinct,
        {
            if let SqlOperation::Distinct(_) = &query.pipeline[i] {
                distinct = true;
                proof {
                    assert(ops[i as int] is Distinct);
                }
            }
        }
        let projection: String = self.generate_projection(query);
        proof {
            assert(distinct == has_distinct(ops));
        }
        if distinct {
            cat3("SELECT ", "DISTINCT ", projection.as_str())
        } else {
            cat3("SELECT ", "", projection.as_str())
        }
    }

    /// Appends the texts of the operations of a pipeline.
    fn generate_operations(&self, sql: &mut String, pipeline: &Vec<SqlOperation>)
        ensures
            final(sql)@ == old(sql)@ + concatenated(
                self@.operations(operation_models(pipeline@)),
            ),
        decreases pipeline, 5int,
    {
        let ghost parts = self@.operations(operation_models(pipeline@));
        proof {
            assert(sql@ =~= old(sql)@ + concatenated(parts.take(0)));
        }
        for i in 0..pipeline.len()
            invariant
                parts == self@.operations(operation_models(pipeline@)),
                sql@ == old(sql)@ + concatenated(parts.take(i as int)),
        {
            self.generate_operation(sql, &pipeline[i]);
            proof {
                assert(parts.take(i + 1).drop_last() =~= parts.take(i as int));
                assert(sql@ =~= old(sql)@ + concatenated(parts.take(i + 1)));
            }
        }
        proof {
            assert(parts.take(parts.len() as int) =~= parts);
        }
    }

    /// Appends the text of an operation.
    pub fn generate_operation(&self, sql: &mut String, operation: &SqlOperation)
        ensures
            final(sql)@ == old(sql)@ + self@.operation(operation@),
        decreases operation, 4int,
    {
        let text: String = match operation {
            SqlOperation::Where(expr) => {
                let condition: String = self.generate_expression(expr);
                cat3(self.gap().as_str(), "WHERE ", condition.as_str())
            },
            SqlOperation::Project(_) => "".to_string(),
            SqlOperation::Extend(_) => "".to_string(),
            SqlOperation::Limit(count) => {
                let number: String = signed_text(*count);
                cat3(self.gap().as_str(), "LIMIT ", number.as_str())
            },
            SqlOperation::Order(order_by) => {
                let orders: String = self.generate_orders(order_by);
                cat3(self.gap().as_str(), "ORDER BY ", orders.as_str())
            },
            SqlOperation::Aggregate { group_by, aggregates: _, having } => {
                let group_clause: String = if group_by.len() == 0 {
                    "".to_string()
                } else {
                    let groups: String = join(&self.generate_expressions(group_by), ", ");
                    cat3(self.gap().as_str(), "GROUP BY ", groups.as_str())
                };
                let having_clause: String = match having {
                    Some(expr) => {
                        let condition: String = self.generate_expression(expr);
                        cat3(self.gap().as_str(), "HAVING ", condition.as_str())
                    },
                    None => "".to_string(),
                };
                cat2(group_clause.as_str(), having_clause.as_str())
            },
            SqlOperation::Join { kind, source, on } => {
                let table: String = self.generate_join_source(source);
                let on_clause: String = self.generate_on_clause(on);
                cat5(
                    self.gap().as_str(),
                    SqlCodeGenerator::generate_join_kind(kind),
                    " ",
                    table.as_str(),
                    on_clause.as_str(),
                )
            },
            SqlOperation::Union(query) => {
                let other: String = self.write_query(query);
                cat4(self.gap().as_str(), "UNION", self.gap().as_str(), other.as_str())
            },
            SqlOperation::Distinct(_) => "".to_string(),
        };
        sql.append(text.as_str());
    }

    /// The right side of a join.
    fn generate_join_source(&self, source: &SqlJoinSource) -> (r: String)
        ensures
            r@ == self@.join_source(source.model()),
        decreases source, 4int,
    {
        match source {
            SqlJoinSource::Table(table) => table.clone(),
            SqlJoinSource::Filtered { table, filters } => {
                if filters.len() == 0 {
                    table.clone()
                } else {
                    let condition: String = join(&self.generate_expressions(filters), " AND ");
                    cat5("(", table.as_str(), " WHERE ", condition.as_str(), ")")
                }
            },
            SqlJoinSource::Subquery(query) => self.generate_nested(query),
        }
    }

    /// The `ON` clause of a join.
    fn generate_on_clause(&self, on: &Vec<SqlJoinCondition>) -> (r: String)
        ensures
            r@ == (if on@.len() == 0 {
                ""@
            } else {
                (if self@.pretty {
                    "\n"@ + self@.margin + "  ON "@
                } else {
                    " ON "@
                }) + joined(self@.join_conditions(join_condition_models(on@)), " AND "@)
            }),
        decreases on, 5int,
    {
        if on.len() == 0 {
            return "".to_string();
        }
        let mut parts: Vec<String> = Vec::new();
        for i in 0..on.len()
            invariant
                parts@.len() == i,
                forall|j: int|
                    0 <= j < i ==> (#[trigger] parts@[j])@ == self@.join_conditions(
                        join_condition_models(on@),
                    )[j],
        {
            parts.push(self.generate_join_condition(&on[i]));
        }
        proof {
            assert(texts(parts@) =~= self@.join_conditions(join_condition_models(on@)));
        }
        let conditions: String = join(&parts, " AND ");
        if self.pretty_print {
            cat4("\n", self.margin.as_str(), "  ON ", conditions.as_str())
        } else {
            cat2(" ON ", conditions.as_str())
        }
    }

    /// What a query selects: the columns of its projection, or its aggregates, or
    /// everything, and behind them the computed columns that extend it.
    pub fn generate_projection(&self, query: &SqlQuery) -> (r: String)
        ensures
            r@ == self@.selection(operation_models(query.pipeline@)),
        decreases query, 3int,
    {
        let base: String = self.generate_base(query);
        let extensions: String = self.generate_extensions(&query.pipeline);
        cat2(base.as_str(), extensions.as_str())
    }

    /// The computed columns of a pipeline, with a comma before each operation's.
    fn generate_extensions(&self, pipeline: &Vec<SqlOperation>) -> (r: String)
        ensures
            r@ == self@.extensions(operation_models(pipeline@)),
        decreases pipeline, 3int,
    {
        let ghost ops = operation_models(pipeline@);
        let mut sql: String = "".to_string();
        for i in 0..pipeline.len()
            invariant
                ops == operation_models(pipeline@),
                sql@ == self@.extensions(ops.take(i as int)),
        {
            proof {
                assert(ops.take(i + 1).drop_last() =~= ops.take(i as int));
                assert(ops.take(i + 1).last() == pipeline@[i as int]@);
            }
            let extension: String = self.generate_extension(&pipeline[i]);
            sql.append(extension.as_str());
        }
        proof {
            assert(ops.take(ops.len() as int) =~= ops);
        }
        sql
    }

    /// The computed columns of an operation, with a comma before them.
    fn generate_extension(&self, operation: &SqlOperation) -> (r: String)
        ensures
            r@ == self@.extension(operation@),
        decreases operation, 3int,
    {
        match operation {
            SqlOperation::Extend(columns) => if columns.len() == 0 {
                "".to_string()
            } else {
                let list: String = join(&self.generate_columns(columns), ", ");
                cat2(", ", list.as_str())
            },
            _ => "".to_string(),
        }
    }

    /// What a query selects before it is extended.
    fn generate_base(&self, query: &SqlQuery) -> (r: String)
        ensures
            r@ == self@.base_selection(operation_models(query.pipeline@)),
        decreases query, 2int,
    {
        let ghost ops = operation_models(query.pipeline@);
        let ghost projects = |op: OperationModel| is_project(op);
        let ghost aggregations = |op: OperationModel| is_aggregate(op);
        proof {
            lemma_first_index(ops, projects);
            lemma_first_index(ops, aggregations);
        }
        for i in 0..query.pipeline.len()
            invariant
                ops == operation_models(query.pipeline@),
                projects == (|op: OperationModel| is_project(op)),
                first_index(ops, projects) < ops.len() ==> projects(
                    ops[first_index(ops, projects)],
                ),
                0 <= first_index(ops, projects) <= ops.len(),
                forall|j: int| 0 <= j < first_index(ops, projects) ==> !projects(#[trigger] ops[j]),
                forall|j: int| 0 <= j < i ==> !(#[trigger] ops[j] is Project),
        {
            let operation = &query.pipeline[i];
            if let SqlOperation::Project(columns) = operation {
                proof {
                    assert(ops[i as int] is Project);
                    assert(projects(ops[i as int]));
                    assert(first_index(ops, projects) == i);
                }
                return join(&self.generate_columns(columns), ", ");
            }
        }
        proof {
            assert(first_index(ops, projects) == ops.len());
        }
        for i in 0..query.pipeline.len()
            invariant
                ops == operation_models(query.pipeline@),
                projects == (|op: OperationModel| is_project(op)),
                first_index(ops, projects) == ops.len(),
                aggregations == (|op: OperationModel| is_aggregate(op)),
                first_index(ops, aggregations) < ops.len() ==> aggregations(
                    ops[first_index(ops, aggregations)],
                ),
                0 <= first_index(ops, aggregations) <= ops.len(),
                forall|j: int|
                    0 <= j < first_index(ops, aggregations) ==> !aggregations(#[trigger] ops[j]),
                forall|j: int| 0 <= j < i ==> !(#[trigger] ops[j] is Aggregate),
        {
            let operation = &query.pipeline[i];
            if let SqlOperation::Aggregate { aggregates, group_by, having: _ } = operation {
                proof {
                    assert(ops[i as int] is Aggregate);
                    assert(aggregations(ops[i as int]));
                    assert(first_index(ops, aggregations) == i);
                }
                let mut parts: Vec<String> = self.generate_expressions(group_by);
                let ghost groups = parts@;
                let mut rest: Vec<String> = self.generate_aggregates(aggregates);
                let ghost aggs = rest@;
                parts.append(&mut rest);
                proof {
                    assert(texts(groups + aggs) =~= texts(groups) + texts(aggs));
                }
                return join(&parts, ", ");
            }
        }
        proof {
            assert(first_index(ops, aggregations) == ops.len());
        }
        "*".to_string()
    }

    /// The texts of a vector of expressions.
    fn generate_expressions(&self, exprs: &Vec<SqlExpression>) -> (r: Vec<String>)
        ensures
            texts(r@) == self@.exprs(expr_models(exprs@)),
        decreases exprs, 2int,
    {
        let mut parts: Vec<String> = Vec::new();
        for i in 0..exprs.len()
            invariant
                parts@.len() == i,
                forall|j: int|
                    0 <= j < i ==> (#[trigger] parts@[j])@ == self@.exprs(expr_models(exprs@))[j],
        {
            parts.push(self.generate_expression(&exprs[i]));
        }
        proof {
            assert(texts(parts@) =~= self@.exprs(expr_models(exprs@)));
        }
        parts
    }

    /// The texts of a vector of columns.
    fn generate_columns(&self, columns: &Vec<SqlColumn>) -> (r: Vec<String>)
        ensures
            texts(r@) == self@.columns(column_models(columns@)),
        decreases columns, 2int,
    {
        let mut parts: Vec<String> = Vec::new();
        for i in 0..columns.len()
            invariant
                parts@.len() == i,
                forall|j: int|
                    0 <= j < i ==> (#[trigger] parts@[j])@ == self@.columns(
                        column_models(columns@),
                    )[j],
        {
            parts.push(self.generate_column(&columns[i]));
        }
        proof {
            assert(texts(parts@) =~= self@.columns(column_models(columns@)));
        }
        parts
    }

    /// The texts of a vector of aggregates.
    fn generate_aggregates(&self, aggregates: &Vec<SqlAggregate>) -> (r: Vec<String>)
        ensures
            texts(r@) == self@.aggregates(aggregate_models(aggregates@)),
        decreases aggregates, 2int,
    {
        let mut parts: Vec<String> = Vec::new();
        for i in 0..aggregates.len()
            invariant
                parts@.len() == i,
                forall|j: int|
                    0 <= j < i ==> (#[trigger] parts@[j])@ == self@.aggregates(
                        aggregate_models(aggregates@),
                    )[j],
        {
            parts.push(self.generate_aggregate(&aggregates[i]));
        }
        proof {
            assert(texts(parts@) =~= self@.aggregates(aggregate_models(aggregates@)));
        }
        parts
    }

    /// The sort keys, separated by commas.
    fn generate_orders(&self, orders: &Vec<SqlOrderBy>) -> (r: String)
        ensures
            r@ == joined(self@.orders(order_models(orders@)), ", "@),
        decreases orders, 2int,
    {
        let mut parts: Vec<String> = Vec::new();
        for i in 0..orders.len()
            invariant
                parts@.len() == i,
                forall|j: int|
                    0 <= j < i ==> (#[trigger] parts@[j])@ == self@.orders(
                        order_models(orders@),
                    )[j],
        {
            parts.push(self.generate_order_by(&orders[i]));
        }
        proof {
            assert(texts(parts@) =~= self@.orders(order_models(orders@)));
        }
        join(&parts, ", ")
    }

    /// The SQL text of an expression.
    pub fn generate_expression(&self, expr: &SqlExpression) -> (r: String)
        ensures
            r@ == self@.expr(expr@),
        decreases expr, 0int,
    {
        match expr {
            SqlExpression::Column(name) => {
                if self.needs_quoting(name.as_str()) {
                    self.quote_identifier(name.as_str())
                } else {
                    name.clone()
                }
            },
            SqlExpression::Literal(literal) => self.generate_literal(literal),
            SqlExpression::InjectedVariable(name) => name.clone(),
            SqlExpression::Binary { op, left, right } => {
                let left_text: String = self.generate_expression(left);
                match op {
                    SqlBinaryOp::In => {
                        let items: String = self.generate_list_items(right);
                        cat4(left_text.as_str(), " IN (", items.as_str(), ")")
                    },
                    SqlBinaryOp::NotIn => {
                        let items: String = self.generate_list_items(right);
                        cat4(left_text.as_str(), " NOT IN (", items.as_str(), ")")
                    },
                    _ => {
                        let right_text: String = self.generate_expression(right);
                        self.generate_binary(*op, left_text.as_str(), right_text.as_str())
                    },
                }
            },
            SqlExpression::Unary { op, operand } => {
                let text: String = self.generate_expression(operand);
                match op {
                    SqlUnaryOp::Not => cat3("NOT (", text.as_str(), ")"),
                    SqlUnaryOp::Negate => cat2("-", text.as_str()),
                    SqlUnaryOp::Exists => cat3("EXISTS (", text.as_str(), ")"),
                }
            },
            SqlExpression::Function { name, args } => {
                let parts: Vec<String> = self.generate_expressions(args);
                self.generate_call(name.as_str(), &parts)
            },
            SqlExpression::Array(items) => {
                let list: String = join(&self.generate_expressions(items), ", ");
                cat3("[", list.as_str(), "]")
            },
            SqlExpression::Case { conditions, default } => {
                let branches: String = self.generate_branches(conditions);
                let otherwise: String = match default {
                    Some(default_expr) => {
                        let text: String = self.generate_expression(default_expr);
                        cat2(" ELSE ", text.as_str())
                    },
                    None => "".to_string(),
                };
                cat4("CASE", branches.as_str(), otherwise.as_str(), " END")
            },
            SqlExpression::Parenthesized(inner) => {
                let text: String = self.generate_expression(inner);
                cat3("(", text.as_str(), ")")
            },
            SqlExpression::Subquery(query) => {
                let text: String = self.write_query(query);
                cat3("(", text.as_str(), ")")
            },
            SqlExpression::Cast { expression, target_type } => {
                let text: String = self.generate_expression(expression);
                let type_text: String = self.generate_data_type(target_type);
                cat5("CAST(", text.as_str(), " AS ", type_text.as_str(), ")")
            },
            SqlExpression::Between { expression, lower, upper, not } => {
                let text: String = self.generate_expression(expression);
                let lower_text: String = self.generate_expression(lower);
                let upper_text: String = self.generate_expression(upper);
                if *not {
                    cat5(
                        text.as_str(),
                        " NOT BETWEEN ",
                        lower_text.as_str(),
                        " AND ",
                        upper_text.as_str(),
                    )
                } else {
                    cat5(
                        text.as_str(),
                        " BETWEEN ",
                        lower_text.as_str(),
                        " AND ",
                        upper_text.as_str(),
                    )
                }
            },
            SqlExpression::ArrayIndex { expr: array, index } => {
                let text: String = self.generate_expression(array);
                let index_text: String = self.generate_expression(index);
                cat4(text.as_str(), "[", index_text.as_str(), "]")
            },
        }
    }

    /// What stands in the parentheses of `IN`.
    fn generate_list_items(&self, expr: &SqlExpression) -> (r: String)
        ensures
            r@ == self@.list_items(expr@),
        decreases expr, 1int,
    {
        match expr {
            SqlExpression::Array(items) => join(&self.generate_expressions(items), ", "),
            _ => self.generate_expression(expr),
        }
    }

    /// The branches of a `CASE` expression.
    fn generate_branches(&self, conditions: &Vec<(SqlExpression, SqlExpression)>) -> (r: String)
        ensures
            r@ == concatenated(self@.branches(branch_models(conditions@))),
        decreases conditions, 2int,
    {
        let ghost parts = self@.branches(branch_models(conditions@));
        let mut r: String = String::new();
        for i in 0..conditions.len()
            invariant
                parts == self@.branches(branch_models(conditions@)),
                r@ == concatenated(parts.take(i as int)),
        {
            let branch = &conditions[i];
            let condition: String = self.generate_expression(&branch.0);
            let value: String = self.generate_expression(&branch.1);
            let text: String = cat4(" WHEN ", condition.as_str(), " THEN ", value.as_str());
            r.append(text.as_str());
            proof {
                assert(parts.take(i + 1).drop_last() =~= parts.take(i as int));
            }
        }
        proof {
            assert(parts.take(parts.len() as int) =~= parts);
        }
        r
    }

    /// A binary operation whose operands are already written.
    fn generate_binary(&self, op: SqlBinaryOp, left: &str, right: &str) -> (r: String)
        ensures
            r@ == self@.binary(op, left@, right@),
    {
        match op {
            SqlBinaryOp::ILike => match self.dialect {
                SqlDialect::PostgreSQL => cat3(left, " ILIKE ", right),
                _ => cat5("LOWER(", left, ") LIKE LOWER(", right, ")"),
            },
            SqlBinaryOp::NotILike => match self.dialect {
                SqlDialect::PostgreSQL => cat3(left, " NOT ILIKE ", right),
                _ => cat5("LOWER(", left, ") NOT LIKE LOWER(", right, ")"),
            },
            SqlBinaryOp::IsNull => cat2(left, " IS NULL"),
            SqlBinaryOp::IsNotNull => cat2(left, " IS NOT NULL"),
            SqlBinaryOp::Or => cat5("(", left, " OR ", right, ")"),
            _ => cat5(left, " ", SqlCodeGenerator::generate_binary_op(&op), " ", right),
        }
    }

    /// A function call whose arguments are already written.
    fn generate_call(&self, name: &str, args: &Vec<String>) -> (r: String)
        ensures
            r@ == self@.call(name@, texts(args@)),
    {
        if args.len() == 2 {
            if same_text(name, "json_extract") {
                return cat3(args[0].as_str(), "->", args[1].as_str());
            }
            if same_text(name, "json_extract_text") {
                return cat3(args[0].as_str(), "->>", args[1].as_str());
            }
            let trimmed: String = trim_quotes(args[1].as_str());
            if same_text(name, "contains") {
                return cat4(args[0].as_str(), " LIKE '%", trimmed.as_str(), "%'");
            }
            if same_text(name, "startswith") {
                return cat4(args[0].as_str(), " LIKE '", trimmed.as_str(), "%'");
            }
            if same_text(name, "endswith") {
                return cat4(args[0].as_str(), " LIKE '%", trimmed.as_str(), "'");
            }
        }
        let list: String = join(args, ", ");
        cat4(name, "(", list.as_str(), ")")
    }

    /// The SQL text of a literal.
    pub fn generate_literal(&self, literal: &SqlLiteral) -> (r: String)
        ensures
            r@ == self@.literal(literal.model()),
    {
        match literal {
            SqlLiteral::String(s) => {
                let escaped: String = double_quotes(s.as_str());
                cat3("'", escaped.as_str(), "'")
            },
            SqlLiteral::Integer(i) => signed_text(*i),
            SqlLiteral::Float(f) => {
                let text: &str = f.text();
                if has_char(text, '.') || has_char(text, 'e') {
                    text.to_string()
                } else {
                    cat2(text, ".0")
                }
            },
            SqlLiteral::Boolean(b) => {
                let word: &str = match self.dialect {
                    SqlDialect::MySQL | SqlDialect::TSQL => if *b {
                        "1"
                    } else {
                        "0"
                    },
                    _ => if *b {
                        "TRUE"
                    } else {
                        "FALSE"
                    },
                };
                word.to_string()
            },
            SqlLiteral::Null => "NULL".to_string(),
            SqlLiteral::DateTime(dt) => match self.dialect {
                SqlDialect::PostgreSQL => cat3("'", dt.as_str(), "'::timestamp"),
                SqlDialect::MySQL | SqlDialect::TSQL => cat3(
                    "CAST('",
                    dt.as_str(),
                    "' AS DATETIME)",
                ),
                SqlDialect::SQLite => cat3("datetime('", dt.as_str(), "')"),
                SqlDialect::Standard => cat3("CAST('", dt.as_str(), "' AS TIMESTAMP)"),
            },
            SqlLiteral::Interval(ts) => match self.dialect {
                SqlDialect::PostgreSQL | SqlDialect::Standard => cat3(
                    "INTERVAL '",
                    ts.as_str(),
                    "'",
                ),
                _ => cat3("'", ts.as_str(), "'"),
            },
        }
    }

    /// The sign or words of a binary operator.
    pub fn generate_binary_op(op: &SqlBinaryOp) -> (r: &'static str)
        ensures
            r@ == binary_op_text(*op),
    {
        match op {
            SqlBinaryOp::Equal => "=",
            SqlBinaryOp::NotEqual => "!=",
            SqlBinaryOp::LessThan => "<",
            SqlBinaryOp::LessThanOrEqual => "<=",
            SqlBinaryOp::GreaterThan => ">",
            SqlBinaryOp::GreaterThanOrEqual => ">=",
            SqlBinaryOp::Add => "+",
            SqlBinaryOp::Subtract => "-",
            SqlBinaryOp::Multiply => "*",
            SqlBinaryOp::Divide => "/",
            SqlBinaryOp::Modulo => "%",
            SqlBinaryOp::And => "AND",
            SqlBinaryOp::Or => "OR",
            SqlBinaryOp::Like => "LIKE",
            SqlBinaryOp::NotLike => "NOT LIKE",
            SqlBinaryOp::ILike => "ILIKE",
            SqlBinaryOp::NotILike => "NOT ILIKE",
            SqlBinaryOp::In => "IN",
            SqlBinaryOp::NotIn => "NOT IN",
            SqlBinaryOp::IsNull => "IS NULL",
            SqlBinaryOp::IsNotNull => "IS NOT NULL",
            SqlBinaryOp::SimilarTo => "SIMILAR TO",
            SqlBinaryOp::NotSimilarTo => "NOT SIMILAR TO",
            SqlBinaryOp::Concat => "||",
            SqlBinaryOp::RegexMatch => "~",
        }
    }

    /// A column of the `SELECT` clause.
    pub fn generate_column(&self, column: &SqlColumn) -> (r: String)
        ensures
            r@ == self@.aliased(self@.expr(column.expression@), optional_text(column.alias)),
        decreases column, 0int,
    {
        let text: String = self.generate_expression(&column.expression);
        match &column.alias {
            Some(alias) => {
                if same_text(alias.as_str(), text.as_str()) {
                    text
                } else if self.needs_quoting(alias.as_str()) {
                    let quoted: String = self.quote_identifier(alias.as_str());
                    cat3(text.as_str(), " AS ", quoted.as_str())
                } else {
                    cat3(text.as_str(), " AS ", alias.as_str())
                }
            },
            None => text,
        }
    }

    /// A sort key.
    pub fn generate_order_by(&self, order: &SqlOrderBy) -> (r: String)
        ensures
            r@ == self@.expr(order.expression@) + " "@ + direction_text(order.direction)
                + null_order_text(order.null_order),
        decreases order, 0int,
    {
        let text: String = self.generate_expression(&order.expression);
        let direction: &str = match order.direction {
            SqlSortDirection::Ascending => "ASC",
            SqlSortDirection::Descending => "DESC",
        };
        let nulls: &str = match order.null_order {
            Some(SqlNullOrder::NullsFirst) => " NULLS FIRST",
            Some(SqlNullOrder::NullsLast) => " NULLS LAST",
            None => "",
        };
        cat4(text.as_str(), " ", direction, nulls)
    }

    /// An aggregate column.
    pub fn generate_aggregate(&self, aggregate: &SqlAggregate) -> (r: String)
        ensures
            r@ == self@.aggregate(aggregate.model()),
        decreases aggregate, 0int,
    {
        let call: String = match &aggregate.expression {
            Some(expr) => {
                let argument: String = self.generate_expression(expr);
                self.generate_applied(&aggregate.function, argument.as_str(), aggregate.distinct)
            },
            None => self.generate_unapplied(&aggregate.function),
        };
        let alias: String = self.quote_identifier(aggregate.alias.as_str());
        cat3(call.as_str(), " AS ", alias.as_str())
    }

    /// An aggregate function applied to a written argument.
    fn generate_applied(
        &self,
        function: &SqlAggregateFunction,
        argument: &str,
        distinct: bool,
    ) -> (r: String)
        ensures
            r@ == self@.aggregate_call(function.model(), Some(argument@), distinct),
    {
        match function {
            SqlAggregateFunction::Count => if distinct {
                cat3("COUNT(DISTINCT ", argument, ")")
            } else {
                cat3("COUNT(", argument, ")")
            },
            SqlAggregateFunction::Sum => if distinct {
                cat3("SUM(DISTINCT ", argument, ")")
            } else {
                cat3("SUM(", argument, ")")
            },
            SqlAggregateFunction::Avg => if distinct {
                cat3("AVG(DISTINCT ", argument, ")")
            } else {
                cat3("AVG(", argument, ")")
            },
            SqlAggregateFunction::Min => cat3("MIN(", argument, ")"),
            SqlAggregateFunction::Max => cat3("MAX(", argument, ")"),
            SqlAggregateFunction::StdDev => match self.dialect {
                SqlDialect::PostgreSQL | SqlDialect::MySQL => cat3("STDDEV(", argument, ")"),
                _ => cat3("STDEV(", argument, ")"),
            },
            SqlAggregateFunction::Variance => match self.dialect {
                SqlDialect::PostgreSQL | SqlDialect::MySQL => cat3("VARIANCE(", argument, ")"),
                _ => cat3("VAR(", argument, ")"),
            },
            SqlAggregateFunction::Percentile(p) => match self.dialect {
                SqlDialect::PostgreSQL => cat5(
                    "PERCENTILE_CONT(",
                    p.text(),
                    ") WITHIN GROUP (ORDER BY ",
                    argument,
                    ")",
                ),
                _ => cat5("PERCENTILE(", argument, ", ", p.text(), ")"),
            },
            SqlAggregateFunction::ArrayAgg => cat3("ARRAY_AGG(", argument, ")"),
            SqlAggregateFunction::StringAgg => match self.dialect {
                SqlDialect::MySQL => cat3("GROUP_CONCAT(", argument, ")"),
                _ => cat3("STRING_AGG(", argument, ", ',')"),
            },
        }
    }

    /// An aggregate function over whole rows.
    fn generate_unapplied(&self, function: &SqlAggregateFunction) -> (r: String)
        ensures
            forall|distinct: bool|
                r@ == #[trigger] self@.aggregate_call(function.model(), None, distinct),
    {
        match function {
            SqlAggregateFunction::Count => "COUNT(*)".to_string(),
            SqlAggregateFunction::Sum => "SUM(*)".to_string(),
            SqlAggregateFunction::Avg => "AVG(*)".to_string(),
            SqlAggregateFunction::Min => "MIN(*)".to_string(),
            SqlAggregateFunction::Max => "MAX(*)".to_string(),
            SqlAggregateFunction::StdDev => "STDEV(*)".to_string(),
            SqlAggregateFunction::Variance => "VARIANCE(*)".to_string(),
            SqlAggregateFunction::Percentile(p) => cat3(
                "PERCENTILE_CONT(",
                p.text(),
                ") WITHIN GROUP (ORDER BY *)",
            ),
            SqlAggregateFunction::ArrayAgg => "ARRAY_AGG(*)".to_string(),
            SqlAggregateFunction::StringAgg => "STRING_AGG(*)".to_string(),
        }
    }

    /// The words of a join.
    pub fn generate_join_kind(kind: &SqlJoinKind) -> (r: &'static str)
        ensures
            r@ == join_kind_text(*kind),
    {
        match kind {
            SqlJoinKind::Inner => "INNER JOIN",
            SqlJoinKind::LeftOuter => "LEFT OUTER JOIN",
            SqlJoinKind::RightOuter => "RIGHT OUTER JOIN",
            SqlJoinKind::FullOuter => "FULL OUTER JOIN",
            SqlJoinKind::Cross => "CROSS JOIN",
            SqlJoinKind::LeftAnti => "LEFT JOIN",
            SqlJoinKind::RightAnti => "RIGHT JOIN",
            SqlJoinKind::LeftSemi => "INNER JOIN",
            SqlJoinKind::RightSemi => "INNER JOIN",
        }
    }

    /// A join condition.
    pub fn generate_join_condition(&self, condition: &SqlJoinCondition) -> (r: String)
        ensures
            r@ == self@.expr(condition.left@) + " "@ + binary_op_text(condition.operator) + " "@
                + self@.expr(condition.right@),
        decreases condition, 0int,
    {
        let left: String = self.generate_expression(&condition.left);
        let right: String = self.generate_expression(&condition.right);
        cat5(
            left.as_str(),
            " ",
            SqlCodeGenerator::generate_binary_op(&condition.operator),
            " ",
            right.as_str(),
        )
    }

    /// The name of a data type.
    pub fn generate_data_type(&self, data_type: &SqlDataType) -> (r: String)
        ensures
            r@ == self@.data_type(*data_type),
        decreases data_type,
    {
        match data_type {
            SqlDataType::Integer => "INTEGER".to_string(),
            SqlDataType::BigInt => "BIGINT".to_string(),
            SqlDataType::SmallInt => "SMALLINT".to_string(),
            SqlDataType::Decimal => "DECIMAL".to_string(),
            SqlDataType::Real => "REAL".to_string(),
            SqlDataType::DoublePrecision => "DOUBLE PRECISION".to_string(),
            SqlDataType::Varchar(length) => match length {
                Some(n) => {
                    let number: String = unsigned_text(*n as u64);
                    cat3("VARCHAR(", number.as_str(), ")")
                },
                None => "VARCHAR".to_string(),
            },
            SqlDataType::Text => "TEXT".to_string(),
            SqlDataType::Boolean => match self.dialect {
                SqlDialect::MySQL => "TINYINT(1)".to_string(),
                SqlDialect::TSQL => "BIT".to_string(),
                _ => "BOOLEAN".to_string(),
            },
            SqlDataType::Date => "DATE".to_string(),
            SqlDataType::Time => "TIME".to_string(),
            SqlDataType::Timestamp => "TIMESTAMP".to_string(),
            SqlDataType::Timestamptz => "TIMESTAMP WITH TIME ZONE".to_string(),
            SqlDataType::Interval => "INTERVAL".to_string(),
            SqlDataType::Json => "JSON".to_string(),
            SqlDataType::Jsonb => match self.dialect {
                SqlDialect::PostgreSQL => "JSONB".to_string(),
                _ => "JSON".to_string(),
            },
            SqlDataType::Array(inner) => {
                let text: String = self.generate_data_type(inner);
                cat2(text.as_str(), "[]")
            },
            SqlDataType::Numeric => "NUMERIC".to_string(),
        }
    }

    /// A query as it stands inside the parentheses of pretty text.
    pub fn generate_subquery_pretty(&self, query: &SqlQuery) -> (r: String)
        ensures
            r@ == self@.indented_query(query@),
        decreases query, 5int,
    {
        let inner: SqlCodeGenerator = self.deeper();
        let select: String = inner.generate_select(query);
        let mut sql: String = cat5(
            inner.margin.as_str(),
            select.as_str(),
            "\n",
            inner.margin.as_str(),
            "FROM ",
        );
        sql.append(query.source.as_str());
        inner.generate_operations(&mut sql, &query.pipeline);
        sql
    }

    /// Quotes an identifier.
    pub fn quote_identifier(&self, identifier: &str) -> (r: String)
        ensures
            r@ == self@.quoted(identifier@),
    {
        match self.dialect {
            SqlDialect::MySQL => cat3("`", identifier, "`"),
            SqlDialect::TSQL => cat3("[", identifier, "]"),
            _ => cat3("\"", identifier, "\""),
        }
    }

    /// Whether an identifier has to be quoted. On an identifier of ASCII
    /// characters the keywords are found whatever the case of their letters.
    pub fn needs_quoting(&self, identifier: &str) -> (r: bool)
        ensures
            r == is_quoted(identifier@),
            all_ascii(identifier@) ==> r == is_quoted_as(
                identifier@,
                identifier@.map_values(|c: char| ascii_upper(c)),
            ),
    {
        let upper: String = to_uppercase(identifier);
        needs_quoting_as(identifier, upper.as_str())
    }
}

/// Whether an identifier whose upper-case form is `upper` has to be quoted.
pub fn needs_quoting_as(identifier: &str, upper: &str) -> (r: bool)
    ensures
        r == is_quoted_as(identifier@, upper@),
{
    keyword(upper) || has_char(identifier, ' ') || has_char(identifier, '-')
}

/// Whether a word in upper case is a keyword.
fn keyword(word: &str) -> (r: bool)
    ensures
        r == is_keyword(word@),
{
    same_text(word, "SELECT") || same_text(word, "FROM") || same_text(word, "WHERE") || same_text(
        word,
        "JOIN",
    ) || same_text(word, "INNER") || same_text(word, "OUTER") || same_text(word, "LEFT")
        || same_text(word, "RIGHT") || same_text(word, "FULL") || same_text(word, "CROSS")
        || same_text(word, "UNION") || same_text(word, "INTERSECT") || same_text(word, "EXCEPT")
        || same_text(word, "GROUP") || same_text(word, "BY") || same_text(word, "HAVING")
        || same_text(word, "ORDER") || same_text(word, "LIMIT") || same_text(word, "OFFSET")
        || same_text(word, "AND") || same_text(word, "OR") || same_text(word, "NOT") || same_text(
        word,
        "NULL",
    ) || same_text(word, "TRUE") || same_text(word, "FALSE") || same_text(word, "IS") || same_text(
        word,
        "BETWEEN",
    ) || same_text(word, "LIKE") || same_text(word, "IN") || same_text(word, "EXISTS")
        || same_text(word, "DISTINCT") || same_text(word, "AS") || same_text(word, "ON")
        || same_text(word, "ASC") || same_text(word, "DESC") || same_text(word, "CASE")
        || same_text(word, "WHEN") || same_text(word, "THEN") || same_text(word, "ELSE")
        || same_text(word, "END") || same_text(word, "CAST") || same_text(word, "WITH")
        || same_text(word, "RECURSIVE")
}

impl Default for SqlCodeGenerator {
    fn default() -> (r: Self)
        ensures
            r@ == (Style { pretty: true, dialect: SqlDialect::Standard, margin: Seq::empty() }),
    {
        SqlCodeGenerator::new()
    }
}

} // verus!
