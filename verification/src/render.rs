//! SQL text of the intermediate representation.
//!
//! These functions say which text stands for a query, an operation or an
//! expression in a given style. The code generator is proved to write it.

use crate::model::{
    AggregateFunctionModel, AggregateModel, ColumnModel, CteModel, ExprModel, JoinConditionModel,
    JoinSourceModel, LiteralModel, OperationModel, OrderModel, QueryModel,
};
use crate::sql_codegen::SqlDialect;
use crate::sql_ir::{
    SqlBinaryOp, SqlDataType, SqlJoinKind, SqlNullOrder, SqlSortDirection, SqlUnaryOp,
};
use crate::text::{
    concatenated, decimal, digits, joined, quotes_doubled, quotes_trimmed, uppercase_of,
};
use vstd::prelude::*;

verus! {

/// How SQL text is laid out and which dialect it is written in.
pub struct Style {
    pub pretty: bool,
    pub dialect: SqlDialect,
    /// What stands before every line of pretty text but the first
    pub margin: Seq<char>,
}

/// The words that cannot stand as an identifier without quoting.
pub open spec fn is_keyword(word: Seq<char>) -> bool {
    ||| word == "SELECT"@
    ||| word == "FROM"@
    ||| word == "WHERE"@
    ||| word == "JOIN"@
    ||| word == "INNER"@
    ||| word == "OUTER"@
    ||| word == "LEFT"@
    ||| word == "RIGHT"@
    ||| word == "FULL"@
    ||| word == "CROSS"@
    ||| word == "UNION"@
    ||| word == "INTERSECT"@
    ||| word == "EXCEPT"@
    ||| word == "GROUP"@
    ||| word == "BY"@
    ||| word == "HAVING"@
    ||| word == "ORDER"@
    ||| word == "LIMIT"@
    ||| word == "OFFSET"@
    ||| word == "AND"@
    ||| word == "OR"@
    ||| word == "NOT"@
    ||| word == "NULL"@
    ||| word == "TRUE"@
    ||| word == "FALSE"@
    ||| word == "IS"@
    ||| word == "BETWEEN"@
    ||| word == "LIKE"@
    ||| word == "IN"@
    ||| word == "EXISTS"@
    ||| word == "DISTINCT"@
    ||| word == "AS"@
    ||| word == "ON"@
    ||| word == "ASC"@
    ||| word == "DESC"@
    ||| word == "CASE"@
    ||| word == "WHEN"@
    ||| word == "THEN"@
    ||| word == "ELSE"@
    ||| word == "END"@
    ||| word == "CAST"@
    ||| word == "WITH"@
    ||| word == "RECURSIVE"@
}

/// An identifier whose upper-case form is `upper` is quoted when that form is a
/// keyword, or when the identifier holds a space or a hyphen.
pub open spec fn is_quoted_as(identifier: Seq<char>, upper: Seq<char>) -> bool {
    ||| is_keyword(upper)
    ||| identifier.contains(' ')
    ||| identifier.contains('-')
}

/// Whether an identifier is quoted.
pub open spec fn is_quoted(identifier: Seq<char>) -> bool {
    is_quoted_as(identifier, uppercase_of(identifier))
}

/// The sign or words of a binary operator.
pub open spec fn binary_op_text(op: SqlBinaryOp) -> Seq<char> {
    match op {
        SqlBinaryOp::Equal => "="@,
        SqlBinaryOp::NotEqual => "!="@,
        SqlBinaryOp::LessThan => "<"@,
        SqlBinaryOp::LessThanOrEqual => "<="@,
        SqlBinaryOp::GreaterThan => ">"@,
        SqlBinaryOp::GreaterThanOrEqual => ">="@,
        SqlBinaryOp::Add => "+"@,
        SqlBinaryOp::Subtract => "-"@,
        SqlBinaryOp::Multiply => "*"@,
        SqlBinaryOp::Divide => "/"@,
        SqlBinaryOp::Modulo => "%"@,
        SqlBinaryOp::And => "AND"@,
        SqlBinaryOp::Or => "OR"@,
        SqlBinaryOp::Like => "LIKE"@,
        SqlBinaryOp::NotLike => "NOT LIKE"@,
        SqlBinaryOp::ILike => "ILIKE"@,
        SqlBinaryOp::NotILike => "NOT ILIKE"@,
        SqlBinaryOp::In => "IN"@,
        SqlBinaryOp::NotIn => "NOT IN"@,
        SqlBinaryOp::IsNull => "IS NULL"@,
        SqlBinaryOp::IsNotNull => "IS NOT NULL"@,
        SqlBinaryOp::SimilarTo => "SIMILAR TO"@,
        SqlBinaryOp::NotSimilarTo => "NOT SIMILAR TO"@,
        SqlBinaryOp::Concat => "||"@,
        SqlBinaryOp::RegexMatch => "~"@,
    }
}

/// The words of a join.
pub open spec fn join_kind_text(kind: SqlJoinKind) -> Seq<char> {
    match kind {
        SqlJoinKind::Inner => "INNER JOIN"@,
        SqlJoinKind::LeftOuter => "LEFT OUTER JOIN"@,
        SqlJoinKind::RightOuter => "RIGHT OUTER JOIN"@,
        SqlJoinKind::FullOuter => "FULL OUTER JOIN"@,
        SqlJoinKind::Cross => "CROSS JOIN"@,
        SqlJoinKind::LeftAnti => "LEFT JOIN"@,
        SqlJoinKind::RightAnti => "RIGHT JOIN"@,
        SqlJoinKind::LeftSemi => "INNER JOIN"@,
        SqlJoinKind::RightSemi => "INNER JOIN"@,
    }
}

/// Whether the operation is a projection.
pub open spec fn is_project(op: OperationModel) -> bool {
    op is Project
}

/// Whether the operation is an aggregation.
pub open spec fn is_aggregate(op: OperationModel) -> bool {
    op is Aggregate
}

/// Whether the pipeline asks for distinct rows.
pub open spec fn has_distinct(pipeline: Seq<OperationModel>) -> bool {
    exists|i: int| 0 <= i < pipeline.len() && #[trigger] pipeline[i] is Distinct
}

/// The index of the first operation of the wanted kind, or the length of the
/// pipeline where there is none.
pub open spec fn first_index(
    pipeline: Seq<OperationModel>,
    wanted: spec_fn(OperationModel) -> bool,
) -> int
    decreases pipeline.len(),
{
    if pipeline.len() == 0 {
        0
    } else {
        let earlier = first_index(pipeline.drop_last(), wanted);
        if earlier < pipeline.len() - 1 || wanted(pipeline.last()) {
            earlier
        } else {
            pipeline.len() as int
        }
    }
}

/// [`first_index`] is in range, points at a wanted operation, and no earlier
/// operation is wanted.
pub proof fn lemma_first_index(
    pipeline: Seq<OperationModel>,
    wanted: spec_fn(OperationModel) -> bool,
)
    ensures
        0 <= first_index(pipeline, wanted) <= pipeline.len(),
        first_index(pipeline, wanted) < pipeline.len() ==> wanted(
            pipeline[first_index(pipeline, wanted)],
        ),
        forall|j: int|
            0 <= j < first_index(pipeline, wanted) ==> !wanted(#[trigger] pipeline[j]),
    decreases pipeline.len(),
{
    if pipeline.len() > 0 {
        let shorter = pipeline.drop_last();
        lemma_first_index(shorter, wanted);
        assert forall|j: int| 0 <= j < first_index(pipeline, wanted) implies !wanted(
            #[trigger] pipeline[j],
        ) by {
            if j < shorter.len() {
                assert(shorter[j] == pipeline[j]);
            }
        }
    }
}

impl Style {
    /// The style of a query inside parentheses: four blanks further in.
    pub open spec fn deeper(self) -> Style {
        Style { margin: self.margin + "    "@, ..self }
    }

    /// What stands before a clause: a new line, or a blank in compact text.
    pub open spec fn gap(self) -> Seq<char> {
        if self.pretty {
            "\n"@ + self.margin
        } else {
            " "@
        }
    }

    /// A quoted identifier.
    pub open spec fn quoted(self, identifier: Seq<char>) -> Seq<char> {
        match self.dialect {
            SqlDialect::MySQL => "`"@ + identifier + "`"@,
            SqlDialect::TSQL => "["@ + identifier + "]"@,
            _ => "\""@ + identifier + "\""@,
        }
    }

    /// An identifier, quoted where it has to be.
    pub open spec fn identifier(self, name: Seq<char>) -> Seq<char> {
        if is_quoted(name) {
            self.quoted(name)
        } else {
            name
        }
    }

    /// A literal.
    pub open spec fn literal(self, literal: LiteralModel) -> Seq<char> {
        match literal {
            LiteralModel::String(s) => "'"@ + quotes_doubled(s) + "'"@,
            LiteralModel::Integer(i) => decimal(i as int),
            LiteralModel::Float(f) => if f.contains('.') || f.contains('e') {
                f
            } else {
                f + ".0"@
            },
            LiteralModel::Boolean(b) => match self.dialect {
                SqlDialect::MySQL | SqlDialect::TSQL => if b {
                    "1"@
                } else {
                    "0"@
                },
                _ => if b {
                    "TRUE"@
                } else {
                    "FALSE"@
                },
            },
            LiteralModel::Null => "NULL"@,
            LiteralModel::DateTime(dt) => match self.dialect {
                SqlDialect::PostgreSQL => "'"@ + dt + "'::timestamp"@,
                SqlDialect::MySQL | SqlDialect::TSQL => "CAST('"@ + dt + "' AS DATETIME)"@,
                SqlDialect::SQLite => "datetime('"@ + dt + "')"@,
                SqlDialect::Standard => "CAST('"@ + dt + "' AS TIMESTAMP)"@,
            },
            LiteralModel::Interval(ts) => match self.dialect {
                SqlDialect::PostgreSQL | SqlDialect::Standard => "INTERVAL '"@ + ts + "'"@,
                _ => "'"@ + ts + "'"@,
            },
        }
    }

    /// The name of a data type.
    pub open spec fn data_type(self, t: SqlDataType) -> Seq<char>
        decreases t,
    {
        match t {
            SqlDataType::Integer => "INTEGER"@,
            SqlDataType::BigInt => "BIGINT"@,
            SqlDataType::SmallInt => "SMALLINT"@,
            SqlDataType::Decimal => "DECIMAL"@,
            SqlDataType::Real => "REAL"@,
            SqlDataType::DoublePrecision => "DOUBLE PRECISION"@,
            SqlDataType::Varchar(length) => match length {
                Some(n) => "VARCHAR("@ + digits(n as nat) + ")"@,
                None => "VARCHAR"@,
            },
            SqlDataType::Text => "TEXT"@,
            SqlDataType::Boolean => match self.dialect {
                SqlDialect::MySQL => "TINYINT(1)"@,
                SqlDialect::TSQL => "BIT"@,
                _ => "BOOLEAN"@,
            },
            SqlDataType::Date => "DATE"@,
            SqlDataType::Time => "TIME"@,
            SqlDataType::Timestamp => "TIMESTAMP"@,
            SqlDataType::Timestamptz => "TIMESTAMP WITH TIME ZONE"@,
            SqlDataType::Interval => "INTERVAL"@,
            SqlDataType::Json => "JSON"@,
            SqlDataType::Jsonb => match self.dialect {
                SqlDialect::PostgreSQL => "JSONB"@,
                _ => "JSON"@,
            },
            SqlDataType::Array(inner) => self.data_type(*inner) + "[]"@,
            SqlDataType::Numeric => "NUMERIC"@,
        }
    }

    /// A binary operation whose operands have the texts `left` and `right`, for
    /// every operator but `IN` and `NOT IN`.
    pub open spec fn binary(self, op: SqlBinaryOp, left: Seq<char>, right: Seq<char>) -> Seq<char> {
        match op {
            SqlBinaryOp::ILike => match self.dialect {
                SqlDialect::PostgreSQL => left + " ILIKE "@ + right,
                _ => "LOWER("@ + left + ") LIKE LOWER("@ + right + ")"@,
            },
            SqlBinaryOp::NotILike => match self.dialect {
                SqlDialect::PostgreSQL => left + " NOT ILIKE "@ + right,
                _ => "LOWER("@ + left + ") NOT LIKE LOWER("@ + right + ")"@,
            },
            SqlBinaryOp::IsNull => left + " IS NULL"@,
            SqlBinaryOp::IsNotNull => left + " IS NOT NULL"@,
            SqlBinaryOp::Or => "("@ + left + " OR "@ + right + ")"@,
            _ => left + " "@ + binary_op_text(op) + " "@ + right,
        }
    }

    /// A unary operation whose operand has the text `operand`.
    pub open spec fn unary(self, op: SqlUnaryOp, operand: Seq<char>) -> Seq<char> {
        match op {
            SqlUnaryOp::Not => "NOT ("@ + operand + ")"@,
            SqlUnaryOp::Negate => "-"@ + operand,
            SqlUnaryOp::Exists => "EXISTS ("@ + operand + ")"@,
        }
    }

    /// A call of the function `name` whose arguments have the texts `args`.
    pub open spec fn call(self, name: Seq<char>, args: Seq<Seq<char>>) -> Seq<char> {
        if name == "json_extract"@ && args.len() == 2 {
            args[0] + "->"@ + args[1]
        } else if name == "json_extract_text"@ && args.len() == 2 {
            args[0] + "->>"@ + args[1]
        } else if name == "contains"@ && args.len() == 2 {
            args[0] + " LIKE '%"@ + quotes_trimmed(args[1]) + "%'"@
        } else if name == "startswith"@ && args.len() == 2 {
            args[0] + " LIKE '"@ + quotes_trimmed(args[1]) + "%'"@
        } else if name == "endswith"@ && args.len() == 2 {
            args[0] + " LIKE '%"@ + quotes_trimmed(args[1]) + "'"@
        } else {
            name + "("@ + joined(args, ", "@) + ")"@
        }
    }

    /// An expression.
    pub open spec fn expr(self, e: ExprModel) -> Seq<char>
        decreases e, 0int,
    {
        match e {
            ExprModel::Column(name) => self.identifier(name),
            ExprModel::Literal(literal) => self.literal(literal),
            ExprModel::InjectedVariable(name) => name,
            ExprModel::Binary { op, left, right } => match op {
                SqlBinaryOp::In => self.expr(*left) + " IN ("@ + self.list_items(*right) + ")"@,
                SqlBinaryOp::NotIn => self.expr(*left) + " NOT IN ("@ + self.list_items(*right)
                    + ")"@,
                _ => self.binary(op, self.expr(*left), self.expr(*right)),
            },
            ExprModel::Unary { op, operand } => self.unary(op, self.expr(*operand)),
            ExprModel::Function { name, args } => self.call(name, self.exprs(args)),
            ExprModel::Array(items) => "["@ + joined(self.exprs(items), ", "@) + "]"@,
            ExprModel::Case { conditions, default } => "CASE"@ + concatenated(
                self.branches(conditions),
            ) + (match default {
                Some(d) => " ELSE "@ + self.expr(*d),
                None => ""@,
            }) + " END"@,
            ExprModel::Parenthesized(inner) => "("@ + self.expr(*inner) + ")"@,
            ExprModel::Subquery(query) => "("@ + self.query(*query) + ")"@,
            ExprModel::Cast { expression, target_type } => "CAST("@ + self.expr(*expression)
                + " AS "@ + self.data_type(target_type) + ")"@,
            ExprModel::Between { expression, lower, upper, not } => self.expr(*expression) + (
            if not {
                " NOT BETWEEN "@
            } else {
                " BETWEEN "@
            }) + self.expr(*lower) + " AND "@ + self.expr(*upper),
            ExprModel::ArrayIndex { expr, index } => self.expr(*expr) + "["@ + self.expr(*index)
                + "]"@,
        }
    }

    /// What stands in the parentheses of `IN`: the items of an array, separated
    /// by commas, or any other expression as it is.
    pub open spec fn list_items(self, e: ExprModel) -> Seq<char>
        decreases e, 1int,
    {
        match e {
            ExprModel::Array(items) => joined(self.exprs(items), ", "@),
            _ => self.expr(e),
        }
    }

    /// The texts of a sequence of expressions.
    pub open spec fn exprs(self, es: Seq<ExprModel>) -> Seq<Seq<char>>
        decreases es, 0int,
    {
        Seq::new(
            es.len(),
            |i: int|
                if 0 <= i < es.len() {
                    self.expr(es[i])
                } else {
                    arbitrary()
                },
        )
    }

    /// The texts of the branches of a `CASE` expression.
    pub open spec fn branches(self, bs: Seq<(ExprModel, ExprModel)>) -> Seq<Seq<char>>
        decreases bs, 0int,
    {
        Seq::new(
            bs.len(),
            |i: int|
                if 0 <= i < bs.len() {
                    " WHEN "@ + self.expr(bs[i].0) + " THEN "@ + self.expr(bs[i].1)
                } else {
                    arbitrary()
                },
        )
    }

    /// A column whose expression has the text `expression`: the alias is left
    /// out where it says the same as the expression.
    pub open spec fn aliased(self, expression: Seq<char>, alias: Option<Seq<char>>) -> Seq<char> {
        match alias {
            Some(a) => if a == expression {
                expression
            } else {
                expression + " AS "@ + self.identifier(a)
            },
            None => expression,
        }
    }

    /// The texts of the columns of a projection.
    pub open spec fn columns(self, cs: Seq<ColumnModel>) -> Seq<Seq<char>>
        decreases cs, 0int,
    {
        Seq::new(
            cs.len(),
            |i: int|
                if 0 <= i < cs.len() {
                    self.aliased(self.expr(cs[i].expression), cs[i].alias)
                } else {
                    arbitrary()
                },
        )
    }

    /// The texts of the sort keys.
    pub open spec fn orders(self, os: Seq<OrderModel>) -> Seq<Seq<char>>
        decreases os, 0int,
    {
        Seq::new(
            os.len(),
            |i: int|
                if 0 <= i < os.len() {
                    self.expr(os[i].expression) + " "@ + direction_text(os[i].direction)
                        + null_order_text(os[i].null_order)
                } else {
                    arbitrary()
                },
        )
    }

    /// The call of an aggregate function; `argument` is the text of what it is
    /// applied to.
    pub open spec fn aggregate_call(
        self,
        function: AggregateFunctionModel,
        argument: Option<Seq<char>>,
        distinct: bool,
    ) -> Seq<char> {
        match function {
            AggregateFunctionModel::Count => match argument {
                Some(a) => if distinct {
                    "COUNT(DISTINCT "@ + a + ")"@
                } else {
                    "COUNT("@ + a + ")"@
                },
                None => "COUNT(*)"@,
            },
            AggregateFunctionModel::Sum => match argument {
                Some(a) => if distinct {
                    "SUM(DISTINCT "@ + a + ")"@
                } else {
                    "SUM("@ + a + ")"@
                },
                None => "SUM(*)"@,
            },
            AggregateFunctionModel::Avg => match argument {
                Some(a) => if distinct {
                    "AVG(DISTINCT "@ + a + ")"@
                } else {
                    "AVG("@ + a + ")"@
                },
                None => "AVG(*)"@,
            },
            AggregateFunctionModel::Min => match argument {
                Some(a) => "MIN("@ + a + ")"@,
                None => "MIN(*)"@,
            },
            AggregateFunctionModel::Max => match argument {
                Some(a) => "MAX("@ + a + ")"@,
                None => "MAX(*)"@,
            },
            AggregateFunctionModel::StdDev => match argument {
                Some(a) => match self.dialect {
                    SqlDialect::PostgreSQL | SqlDialect::MySQL => "STDDEV("@ + a + ")"@,
                    _ => "STDEV("@ + a + ")"@,
                },
                None => "STDEV(*)"@,
            },
            AggregateFunctionModel::Variance => match argument {
                Some(a) => match self.dialect {
                    SqlDialect::PostgreSQL | SqlDialect::MySQL => "VARIANCE("@ + a + ")"@,
                    _ => "VAR("@ + a + ")"@,
                },
                None => "VARIANCE(*)"@,
            },
            AggregateFunctionModel::Percentile(p) => match argument {
                Some(a) => match self.dialect {
                    SqlDialect::PostgreSQL => "PERCENTILE_CONT("@ + p
                        + ") WITHIN GROUP (ORDER BY "@ + a + ")"@,
                    _ => "PERCENTILE("@ + a + ", "@ + p + ")"@,
                },
                None => "PERCENTILE_CONT("@ + p + ") WITHIN GROUP (ORDER BY *)"@,
            },
            AggregateFunctionModel::ArrayAgg => match argument {
                Some(a) => "ARRAY_AGG("@ + a + ")"@,
                None => "ARRAY_AGG(*)"@,
            },
            AggregateFunctionModel::StringAgg => match argument {
                Some(a) => match self.dialect {
                    SqlDialect::MySQL => "GROUP_CONCAT("@ + a + ")"@,
                    _ => "STRING_AGG("@ + a + ", ',')"@,
                },
                None => "STRING_AGG(*)"@,
            },
        }
    }

    /// An aggregate column.
    pub open spec fn aggregate(self, a: AggregateModel) -> Seq<char>
        decreases a, 0int,
    {
        let argument = match a.expression {
            Some(e) => Some(self.expr(e)),
            None => None,
        };
        self.aggregate_call(a.function, argument, a.distinct) + " AS "@ + self.quoted(a.alias)
    }

    /// The texts of the aggregate columns.
    pub open spec fn aggregates(self, aggs: Seq<AggregateModel>) -> Seq<Seq<char>>
        decreases aggs, 0int,
    {
        Seq::new(
            aggs.len(),
            |i: int|
                if 0 <= i < aggs.len() {
                    self.aggregate(aggs[i])
                } else {
                    arbitrary()
                },
        )
    }

    /// The texts of the conditions of a join.
    pub open spec fn join_conditions(self, cs: Seq<JoinConditionModel>) -> Seq<Seq<char>>
        decreases cs, 0int,
    {
        Seq::new(
            cs.len(),
            |i: int|
                if 0 <= i < cs.len() {
                    self.expr(cs[i].left) + " "@ + binary_op_text(cs[i].operator) + " "@
                        + self.expr(cs[i].right)
                } else {
                    arbitrary()
                },
        )
    }

    /// The right side of a join.
    pub open spec fn join_source(self, s: JoinSourceModel) -> Seq<char>
        decreases s, 0int,
    {
        match s {
            JoinSourceModel::Table(table) => table,
            JoinSourceModel::Filtered { table, filters } => if filters.len() == 0 {
                table
            } else {
                "("@ + table + " WHERE "@ + joined(self.exprs(filters), " AND "@) + ")"@
            },
            JoinSourceModel::Subquery(query) => self.nested(query),
        }
    }

    /// A query in parentheses, indented in pretty text.
    pub open spec fn nested(self, q: QueryModel) -> Seq<char>
        decreases q, 3int,
    {
        if self.pretty {
            "(\n"@ + self.indented_query(q) + "\n"@ + self.margin + ")"@
        } else {
            "("@ + self.query(q) + ")"@
        }
    }

    /// An operation of the pipeline. Projections, computed columns and `DISTINCT`
    /// have no text of their own: they show in the `SELECT` clause.
    pub open spec fn operation(self, op: OperationModel) -> Seq<char>
        decreases op, 0int,
    {
        match op {
            OperationModel::Where(e) => self.gap() + "WHERE "@ + self.expr(e),
            OperationModel::Project(_) => ""@,
            OperationModel::Extend(_) => ""@,
            OperationModel::Limit(count) => self.gap() + "LIMIT "@ + decimal(count as int),
            OperationModel::Order(order) => self.gap() + "ORDER BY "@ + joined(
                self.orders(order),
                ", "@,
            ),
            OperationModel::Aggregate { group_by, aggregates, having } => (if group_by.len() == 0 {
                ""@
            } else {
                self.gap() + "GROUP BY "@ + joined(self.exprs(group_by), ", "@)
            }) + (match having {
                Some(e) => self.gap() + "HAVING "@ + self.expr(e),
                None => ""@,
            }),
            OperationModel::Join { kind, source, on } => self.gap() + join_kind_text(kind) + " "@
                + self.join_source(source) + (if on.len() == 0 {
                ""@
            } else {
                (if self.pretty {
                    "\n"@ + self.margin + "  ON "@
                } else {
                    " ON "@
                }) + joined(self.join_conditions(on), " AND "@)
            }),
            OperationModel::Union(query) => self.gap() + "UNION"@ + self.gap() + self.query(*query),
            OperationModel::Distinct(_) => ""@,
        }
    }

    /// The texts of the operations of a pipeline.
    pub open spec fn operations(self, ops: Seq<OperationModel>) -> Seq<Seq<char>>
        decreases ops, 0int,
    {
        Seq::new(
            ops.len(),
            |i: int|
                if 0 <= i < ops.len() {
                    self.operation(ops[i])
                } else {
                    arbitrary()
                },
        )
    }

    /// What a pipeline selects before it is extended: the columns of its first
    /// projection, else the group keys and aggregates of its first aggregation,
    /// else everything.
    pub open spec fn base_selection(self, pipeline: Seq<OperationModel>) -> Seq<char>
        decreases pipeline, 0int,
    {
        let project = first_index(pipeline, |op: OperationModel| is_project(op));
        let aggregate = first_index(pipeline, |op: OperationModel| is_aggregate(op));
        if 0 <= project < pipeline.len() {
            match pipeline[project] {
                OperationModel::Project(columns) => joined(self.columns(columns), ", "@),
                _ => arbitrary(),
            }
        } else if 0 <= aggregate < pipeline.len() {
            match pipeline[aggregate] {
                OperationModel::Aggregate { group_by, aggregates, having } => joined(
                    self.exprs(group_by) + self.aggregates(aggregates),
                    ", "@,
                ),
                _ => arbitrary(),
            }
        } else {
            "*"@
        }
    }

    /// The computed columns of an operation, with a comma before them.
    pub open spec fn extension(self, op: OperationModel) -> Seq<char>
        decreases op, 0int,
    {
        match op {
            OperationModel::Extend(columns) => if columns.len() == 0 {
                ""@
            } else {
                ", "@ + joined(self.columns(columns), ", "@)
            },
            _ => ""@,
        }
    }

    /// The computed columns of every operation of a pipeline, in order.
    pub open spec fn extensions(self, pipeline: Seq<OperationModel>) -> Seq<char>
        decreases pipeline, 0int,
    {
        if pipeline.len() == 0 {
            ""@
        } else {
            self.extensions(pipeline.drop_last()) + self.extension(pipeline.last())
        }
    }

    /// What a pipeline selects, computed columns last.
    pub open spec fn selection(self, pipeline: Seq<OperationModel>) -> Seq<char>
        decreases pipeline, 1int,
    {
        self.base_selection(pipeline) + self.extensions(pipeline)
    }

    /// The `SELECT` clause of a pipeline.
    pub open spec fn select_clause(self, pipeline: Seq<OperationModel>) -> Seq<char>
        decreases pipeline, 2int,
    {
        "SELECT "@ + (if has_distinct(pipeline) {
            "DISTINCT "@
        } else {
            ""@
        }) + self.selection(pipeline)
    }

    /// The texts of the common table expressions.
    pub open spec fn ctes(self, cs: Seq<CteModel>) -> Seq<Seq<char>>
        decreases cs, 0int,
    {
        Seq::new(
            cs.len(),
            |i: int|
                if 0 <= i < cs.len() {
                    cs[i].name + " AS "@ + self.nested(*cs[i].query)
                } else {
                    arbitrary()
                },
        )
    }

    /// The `WITH` clause, empty where there are no common table expressions.
    pub open spec fn with_clause(self, cs: Seq<CteModel>) -> Seq<char>
        decreases cs, 1int,
    {
        if cs.len() == 0 {
            ""@
        } else {
            "WITH "@ + joined(self.ctes(cs), ",\n"@ + self.margin) + (if self.pretty {
                "\n"@ + self.margin
            } else {
                ""@
            })
        }
    }

    /// A query.
    pub open spec fn query(self, q: QueryModel) -> Seq<char>
        decreases q, 2int,
    {
        self.with_clause(q.ctes) + self.select_clause(q.pipeline) + self.gap() + "FROM "@ + q.source
            + concatenated(self.operations(q.pipeline))
    }

    /// A query as it stands inside the parentheses of pretty text: each of its
    /// lines is four blanks further in. Its own common table expressions are not
    /// written.
    pub open spec fn indented_query(self, q: QueryModel) -> Seq<char>
        decreases q, 2int,
    {
        let inner = self.deeper();
        inner.margin + inner.select_clause(q.pipeline) + "\n"@ + inner.margin + "FROM "@ + q.source
            + concatenated(inner.operations(q.pipeline))
    }
}

/// The word of a sort direction.
pub open spec fn direction_text(d: SqlSortDirection) -> Seq<char> {
    match d {
        SqlSortDirection::Ascending => "ASC"@,
        SqlSortDirection::Descending => "DESC"@,
    }
}

/// The words of a null placement.
pub open spec fn null_order_text(n: Option<SqlNullOrder>) -> Seq<char> {
    match n {
        Some(SqlNullOrder::NullsFirst) => " NULLS FIRST"@,
        Some(SqlNullOrder::NullsLast) => " NULLS LAST"@,
        None => ""@,
    }
}

} // verus!
