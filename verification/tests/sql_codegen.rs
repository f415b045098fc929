//! SQL text of queries.

use rego_sql::floats::FloatText;
use rego_sql::sql_codegen::{needs_quoting_as, SqlCodeGenerator, SqlDialect};
use rego_sql::sql_ir::{
    SqlAggregate, SqlAggregateFunction, SqlBinaryOp, SqlColumn, SqlCte, SqlDataType,
    SqlExpression, SqlJoinCondition, SqlJoinKind, SqlLiteral, SqlNullOrder, SqlOperation,
    SqlOrderBy, SqlQuery, SqlQueryBuilder, SqlSortDirection, SqlUnaryOp,
};
use rego_sql::sql_optimizer::SqlOptimizer;

fn expr_text(dialect: SqlDialect, expr: &SqlExpression) -> String {
    SqlCodeGenerator::new().with_dialect(dialect).generate_expression(expr)
}

fn standard(expr: &SqlExpression) -> String {
    expr_text(SqlDialect::Standard, expr)
}

fn binary(op: SqlBinaryOp, left: SqlExpression, right: SqlExpression) -> SqlExpression {
    SqlExpression::Binary { op, left: Box::new(left), right: Box::new(right) }
}

fn col(name: &str) -> SqlExpression {
    SqlExpression::column(name)
}

fn text(value: &str) -> SqlExpression {
    SqlExpression::string_literal(value)
}

fn float(value: &str) -> SqlExpression {
    SqlExpression::float_literal(FloatText::new(value.to_string()).unwrap())
}

fn compact(query: &SqlQuery) -> String {
    SqlCodeGenerator::new().with_pretty_print(false).generate(query)
}

#[test]
fn test_simple_query_generation() {
    let query = SqlQueryBuilder::new()
        .from_table("users")
        .where_clause(SqlExpression::equals(
            SqlExpression::column("role"),
            SqlExpression::string_literal("admin"),
        ))
        .limit(10)
        .build()
        .unwrap();

    let mut generator = SqlCodeGenerator::new().with_pretty_print(false);
    let sql = generator.generate(&query);

    assert!(sql.contains("SELECT"), "expected 'SELECT' in SQL");
    assert!(sql.contains("users"), "expected 'users' in SQL");
    assert!(sql.contains("WHERE"), "expected 'WHERE' in SQL");
    assert!(sql.contains("role = 'admin'"), "expected role filter in SQL");
    assert!(sql.contains("LIMIT 10"), "expected 'LIMIT 10' in SQL");
    assert_eq!(sql, "SELECT * FROM users WHERE role = 'admin' LIMIT 10");
}

#[test]
fn test_aggregation_query() {
    let query = SqlQueryBuilder::new()
        .from_table("events")
        .aggregate(
            vec![SqlExpression::column("category")],
            vec![SqlAggregate {
                function: SqlAggregateFunction::Count,
                expression: None,
                alias: "event_count".to_string(),
                distinct: false,
            }],
            None,
        )
        .build()
        .unwrap();

    let mut generator = SqlCodeGenerator::new().with_pretty_print(false);
    let sql = generator.generate(&query);

    assert!(sql.contains("SELECT"), "expected 'SELECT' in SQL");
    assert!(sql.contains("events"), "expected 'events' in SQL");
    assert!(sql.contains("GROUP BY"), "expected 'GROUP BY' in SQL");
    assert!(sql.contains("COUNT(*)"), "expected COUNT in SQL");
    assert_eq!(
        sql,
        "SELECT category, COUNT(*) AS \"event_count\" FROM events GROUP BY category"
    );
}

#[test]
fn test_query_optimization() {
    let mut query = SqlQueryBuilder::new()
        .from_table("logs")
        .where_clause(SqlExpression::equals(
            SqlExpression::column("level"),
            SqlExpression::string_literal("error"),
        ))
        .where_clause(SqlExpression::equals(
            SqlExpression::column("service"),
            SqlExpression::string_literal("web"),
        ))
        .build()
        .unwrap();

    query.pipeline.push(SqlOperation::Where(SqlExpression::equals(
        SqlExpression::column("timestamp"),
        SqlExpression::string_literal("today"),
    )));

    let optimizer = SqlOptimizer::new();
    let result_query = optimizer.optimize(&query);

    let where_count = result_query
        .pipeline
        .iter()
        .filter(|op| matches!(*op, SqlOperation::Where(_)))
        .count();

    assert!(where_count == 1, "all filters should be combined, got {}", where_count);
    assert_eq!(
        compact(&result_query),
        "SELECT * FROM logs WHERE level = 'error' AND service = 'web' AND timestamp = 'today'"
    );
}

#[test]
fn sql_codegen_test_complex_expression() {
    let expr = SqlExpression::and(
        SqlExpression::equals(
            SqlExpression::column("status"),
            SqlExpression::string_literal("active"),
        ),
        SqlExpression::Binary {
            op: SqlBinaryOp::GreaterThan,
            left: Box::new(SqlExpression::column("age")),
            right: Box::new(SqlExpression::int_literal(18)),
        },
    );

    let generator = SqlCodeGenerator::new();
    let sql_expr = generator.generate_expression(&expr);

    assert!(sql_expr.contains("status = 'active'"));
    assert!(sql_expr.contains("age > 18"));
    assert!(sql_expr.contains("AND"));
}

#[test]
fn sql_codegen_test_cast_expression() {
    let expr = SqlExpression::cast(SqlExpression::column("age"), SqlDataType::Integer);

    let generator = SqlCodeGenerator::new();
    let sql_expr = generator.generate_expression(&expr);

    assert!(sql_expr.contains("CAST"));
    assert!(sql_expr.contains("INTEGER"));
}

#[test]
fn sql_codegen_test_between_expression() {
    let expr = SqlExpression::between(
        SqlExpression::column("age"),
        SqlExpression::int_literal(18),
        SqlExpression::int_literal(65),
    );

    let generator = SqlCodeGenerator::new();
    let sql_expr = generator.generate_expression(&expr);

    assert!(sql_expr.contains("BETWEEN"));
    assert!(sql_expr.contains("AND"));
}

#[test]
fn test_case_expression() {
    let expr = SqlExpression::Case {
        conditions: vec![
            (
                SqlExpression::equals(
                    SqlExpression::column("status"),
                    SqlExpression::string_literal("active"),
                ),
                SqlExpression::int_literal(1),
            ),
            (
                SqlExpression::equals(
                    SqlExpression::column("status"),
                    SqlExpression::string_literal("inactive"),
                ),
                SqlExpression::int_literal(0),
            ),
        ],
        default: Some(Box::new(SqlExpression::int_literal(-1))),
    };

    let generator = SqlCodeGenerator::new();
    let sql_expr = generator.generate_expression(&expr);

    assert!(sql_expr.contains("CASE"));
    assert!(sql_expr.contains("WHEN"));
    assert!(sql_expr.contains("THEN"));
    assert!(sql_expr.contains("ELSE"));
    assert!(sql_expr.contains("END"));
    assert_eq!(
        sql_expr,
        "CASE WHEN status = 'active' THEN 1 WHEN status = 'inactive' THEN 0 ELSE -1 END"
    );
}

#[test]
fn string_literals_double_their_quotes() {
    assert_eq!(standard(&text("O'Brien")), "'O''Brien'");
    assert_eq!(standard(&text("''")), "''''''");
    assert_eq!(standard(&text("")), "''");
    assert_eq!(standard(&text("ünï")), "'ünï'");
}

#[test]
fn integer_literals_are_decimal() {
    assert_eq!(standard(&SqlExpression::int_literal(0)), "0");
    assert_eq!(standard(&SqlExpression::int_literal(i64::MAX)), "9223372036854775807");
    assert_eq!(standard(&SqlExpression::int_literal(i64::MIN)), "-9223372036854775808");
    assert_eq!(standard(&SqlExpression::int_literal(-100)), "-100");
}

#[test]
fn float_literals_have_a_point() {
    assert_eq!(standard(&float(&2.0f64.to_string())), "2.0");
    assert_eq!(standard(&float(&0.5f64.to_string())), "0.5");
    assert_eq!(standard(&float(&(-0.25f64).to_string())), "-0.25");
    assert_eq!(standard(&float(&1e21f64.to_string())), "1000000000000000000000.0");
}

#[test]
fn other_literals_follow_the_dialect() {
    let yes = SqlExpression::bool_literal(true);
    let no = SqlExpression::bool_literal(false);
    let when = SqlExpression::Literal(SqlLiteral::DateTime("2024-01-02".to_string()));
    let span = SqlExpression::Literal(SqlLiteral::Interval("1 day".to_string()));
    let cases = [
        (
            SqlDialect::Standard,
            ["TRUE", "FALSE", "CAST('2024-01-02' AS TIMESTAMP)", "INTERVAL '1 day'"],
        ),
        (
            SqlDialect::PostgreSQL,
            ["TRUE", "FALSE", "'2024-01-02'::timestamp", "INTERVAL '1 day'"],
        ),
        (SqlDialect::MySQL, ["1", "0", "CAST('2024-01-02' AS DATETIME)", "'1 day'"]),
        (SqlDialect::SQLite, ["TRUE", "FALSE", "datetime('2024-01-02')", "'1 day'"]),
        (SqlDialect::TSQL, ["1", "0", "CAST('2024-01-02' AS DATETIME)", "'1 day'"]),
    ];
    for (dialect, expected) in cases {
        assert_eq!(expr_text(dialect, &yes), expected[0]);
        assert_eq!(expr_text(dialect, &no), expected[1]);
        assert_eq!(expr_text(dialect, &when), expected[2]);
        assert_eq!(expr_text(dialect, &span), expected[3]);
        assert_eq!(expr_text(dialect, &SqlExpression::null_literal()), "NULL");
    }
}

#[test]
fn identifiers_are_quoted_where_they_must_be() {
    assert_eq!(standard(&col("age")), "age");
    assert_eq!(standard(&col("select")), "\"select\"");
    assert_eq!(standard(&col("Order")), "\"Order\"");
    assert_eq!(standard(&col("first name")), "\"first name\"");
    assert_eq!(standard(&col("first-name")), "\"first-name\"");
    assert_eq!(expr_text(SqlDialect::MySQL, &col("from")), "`from`");
    assert_eq!(expr_text(SqlDialect::TSQL, &col("from")), "[from]");
    assert_eq!(expr_text(SqlDialect::SQLite, &col("from")), "\"from\"");
    assert_eq!(expr_text(SqlDialect::PostgreSQL, &col("from")), "\"from\"");
    assert_eq!(standard(&col("selected")), "selected");
    assert!(!SqlCodeGenerator::new().needs_quoting("u.select"));
    assert!(SqlCodeGenerator::new().needs_quoting("rEcUrSiVe"));
    assert!(needs_quoting_as("x", "LIMIT"));
    assert!(!needs_quoting_as("limit", "limit"));
    assert!(needs_quoting_as("a b", "A B"));
}

#[test]
fn binary_operators_have_their_texts() {
    let cases = [
        (SqlBinaryOp::Equal, "a = b"),
        (SqlBinaryOp::NotEqual, "a != b"),
        (SqlBinaryOp::LessThan, "a < b"),
        (SqlBinaryOp::LessThanOrEqual, "a <= b"),
        (SqlBinaryOp::GreaterThan, "a > b"),
        (SqlBinaryOp::GreaterThanOrEqual, "a >= b"),
        (SqlBinaryOp::Add, "a + b"),
        (SqlBinaryOp::Subtract, "a - b"),
        (SqlBinaryOp::Multiply, "a * b"),
        (SqlBinaryOp::Divide, "a / b"),
        (SqlBinaryOp::Modulo, "a % b"),
        (SqlBinaryOp::And, "a AND b"),
        (SqlBinaryOp::Or, "(a OR b)"),
        (SqlBinaryOp::Like, "a LIKE b"),
        (SqlBinaryOp::NotLike, "a NOT LIKE b"),
        (SqlBinaryOp::ILike, "LOWER(a) LIKE LOWER(b)"),
        (SqlBinaryOp::NotILike, "LOWER(a) NOT LIKE LOWER(b)"),
        (SqlBinaryOp::In, "a IN (b)"),
        (SqlBinaryOp::NotIn, "a NOT IN (b)"),
        (SqlBinaryOp::IsNull, "a IS NULL"),
        (SqlBinaryOp::IsNotNull, "a IS NOT NULL"),
        (SqlBinaryOp::SimilarTo, "a SIMILAR TO b"),
        (SqlBinaryOp::NotSimilarTo, "a NOT SIMILAR TO b"),
        (SqlBinaryOp::Concat, "a || b"),
        (SqlBinaryOp::RegexMatch, "a ~ b"),
    ];
    for (op, expected) in cases {
        assert_eq!(standard(&binary(op, col("a"), col("b"))), expected);
    }
    let ilike = binary(SqlBinaryOp::ILike, col("a"), col("b"));
    assert_eq!(expr_text(SqlDialect::PostgreSQL, &ilike), "a ILIKE b");
    let not_ilike = binary(SqlBinaryOp::NotILike, col("a"), col("b"));
    assert_eq!(expr_text(SqlDialect::PostgreSQL, &not_ilike), "a NOT ILIKE b");
    assert_eq!(SqlCodeGenerator::generate_binary_op(&SqlBinaryOp::NotIn), "NOT IN");
}

#[test]
fn lists_are_wrapped_once() {
    let list = SqlExpression::Array(vec![text("x"), SqlExpression::int_literal(2)]);
    assert_eq!(standard(&binary(SqlBinaryOp::In, col("a"), list.clone())), "a IN ('x', 2)");
    assert_eq!(
        standard(&binary(SqlBinaryOp::NotIn, col("a"), list.clone())),
        "a NOT IN ('x', 2)"
    );
    assert_eq!(standard(&list), "['x', 2]");
}

#[test]
fn unary_operators_have_their_texts() {
    let unary = |op: SqlUnaryOp| SqlExpression::Unary { op, operand: Box::new(col("a")) };
    assert_eq!(standard(&unary(SqlUnaryOp::Not)), "NOT (a)");
    assert_eq!(standard(&unary(SqlUnaryOp::Negate)), "-a");
    assert_eq!(standard(&unary(SqlUnaryOp::Exists)), "EXISTS (a)");
}

#[test]
fn calls_have_their_texts() {
    let call = |name: &str, args: Vec<SqlExpression>| standard(&SqlExpression::function(name, args));
    assert_eq!(call("LOWER", vec![col("a")]), "LOWER(a)");
    assert_eq!(call("f", vec![]), "f()");
    assert_eq!(call("json_extract", vec![col("a"), text("k")]), "a->'k'");
    assert_eq!(call("json_extract_text", vec![col("a"), text("k")]), "a->>'k'");
    assert_eq!(call("json_extract", vec![col("a")]), "json_extract(a)");
    assert_eq!(call("contains", vec![col("a"), text("x")]), "a LIKE '%x%'");
    assert_eq!(call("startswith", vec![col("a"), text("x")]), "a LIKE 'x%'");
    assert_eq!(call("endswith", vec![col("a"), text("x")]), "a LIKE '%x'");
    assert_eq!(call("endswith", vec![col("a")]), "endswith(a)");
    assert_eq!(call("contains", vec![col("a"), text("'x'")]), "a LIKE '%x%'");
}

#[test]
fn other_expressions_have_their_texts() {
    assert_eq!(standard(&SqlExpression::InjectedVariable(":user id".to_string())), ":user id");
    assert_eq!(standard(&SqlExpression::Parenthesized(Box::new(col("a")))), "(a)");
    assert_eq!(
        standard(&SqlExpression::ArrayIndex {
            expr: Box::new(col("tags")),
            index: Box::new(SqlExpression::int_literal(1)),
        }),
        "tags[1]"
    );
    assert_eq!(
        standard(&SqlExpression::Between {
            expression: Box::new(col("a")),
            lower: Box::new(SqlExpression::int_literal(1)),
            upper: Box::new(SqlExpression::int_literal(2)),
            not: true,
        }),
        "a NOT BETWEEN 1 AND 2"
    );
    let inner = SqlQueryBuilder::new().from_table("t").build().unwrap();
    assert_eq!(
        standard(&SqlExpression::Subquery(Box::new(inner.clone()))),
        "(SELECT *\nFROM t)"
    );
    assert_eq!(
        standard(&SqlExpression::Case { conditions: vec![], default: None }),
        "CASE END"
    );
}

#[test]
fn data_types_follow_the_dialect() {
    let name = |dialect: SqlDialect, t: SqlDataType| {
        SqlCodeGenerator::new().with_dialect(dialect).generate_data_type(&t)
    };
    let std = SqlDialect::Standard;
    assert_eq!(name(std, SqlDataType::BigInt), "BIGINT");
    assert_eq!(name(std, SqlDataType::SmallInt), "SMALLINT");
    assert_eq!(name(std, SqlDataType::Decimal), "DECIMAL");
    assert_eq!(name(std, SqlDataType::Real), "REAL");
    assert_eq!(name(std, SqlDataType::DoublePrecision), "DOUBLE PRECISION");
    assert_eq!(name(std, SqlDataType::Varchar(None)), "VARCHAR");
    assert_eq!(name(std, SqlDataType::Varchar(Some(255))), "VARCHAR(255)");
    assert_eq!(name(std, SqlDataType::Text), "TEXT");
    assert_eq!(name(std, SqlDataType::Boolean), "BOOLEAN");
    assert_eq!(name(SqlDialect::MySQL, SqlDataType::Boolean), "TINYINT(1)");
    assert_eq!(name(SqlDialect::TSQL, SqlDataType::Boolean), "BIT");
    assert_eq!(name(std, SqlDataType::Date), "DATE");
    assert_eq!(name(std, SqlDataType::Time), "TIME");
    assert_eq!(name(std, SqlDataType::Timestamp), "TIMESTAMP");
    assert_eq!(name(std, SqlDataType::Timestamptz), "TIMESTAMP WITH TIME ZONE");
    assert_eq!(name(std, SqlDataType::Interval), "INTERVAL");
    assert_eq!(name(std, SqlDataType::Json), "JSON");
    assert_eq!(name(std, SqlDataType::Jsonb), "JSON");
    assert_eq!(name(SqlDialect::PostgreSQL, SqlDataType::Jsonb), "JSONB");
    assert_eq!(
        name(std, SqlDataType::Array(Box::new(SqlDataType::Array(Box::new(SqlDataType::Numeric))))),
        "NUMERIC[][]"
    );
}

fn aggregate(
    dialect: SqlDialect,
    function: SqlAggregateFunction,
    expression: Option<SqlExpression>,
    distinct: bool,
) -> String {
    SqlCodeGenerator::new().with_dialect(dialect).generate_aggregate(&SqlAggregate {
        function,
        expression,
        alias: "r".to_string(),
        distinct,
    })
}

#[test]
fn aggregates_have_their_texts() {
    let std = SqlDialect::Standard;
    let pg = SqlDialect::PostgreSQL;
    let my = SqlDialect::MySQL;
    let a = || Some(col("a"));
    let half = || SqlAggregateFunction::Percentile(FloatText::new("0.5".to_string()).unwrap());
    assert_eq!(aggregate(std, SqlAggregateFunction::Count, None, true), "COUNT(*) AS \"r\"");
    assert_eq!(aggregate(std, SqlAggregateFunction::Count, a(), false), "COUNT(a) AS \"r\"");
    assert_eq!(
        aggregate(std, SqlAggregateFunction::Count, a(), true),
        "COUNT(DISTINCT a) AS \"r\""
    );
    assert_eq!(aggregate(my, SqlAggregateFunction::Sum, a(), true), "SUM(DISTINCT a) AS `r`");
    assert_eq!(aggregate(std, SqlAggregateFunction::Sum, None, true), "SUM(*) AS \"r\"");
    assert_eq!(aggregate(std, SqlAggregateFunction::Avg, a(), false), "AVG(a) AS \"r\"");
    assert_eq!(aggregate(std, SqlAggregateFunction::Min, a(), true), "MIN(a) AS \"r\"");
    assert_eq!(aggregate(std, SqlAggregateFunction::Max, None, false), "MAX(*) AS \"r\"");
    assert_eq!(aggregate(std, SqlAggregateFunction::StdDev, a(), false), "STDEV(a) AS \"r\"");
    assert_eq!(aggregate(pg, SqlAggregateFunction::StdDev, a(), false), "STDDEV(a) AS \"r\"");
    assert_eq!(aggregate(std, SqlAggregateFunction::Variance, a(), false), "VAR(a) AS \"r\"");
    assert_eq!(aggregate(my, SqlAggregateFunction::Variance, a(), false), "VARIANCE(a) AS `r`");
    assert_eq!(aggregate(std, half(), a(), false), "PERCENTILE(a, 0.5) AS \"r\"");
    assert_eq!(
        aggregate(pg, half(), a(), false),
        "PERCENTILE_CONT(0.5) WITHIN GROUP (ORDER BY a) AS \"r\""
    );
    assert_eq!(
        aggregate(std, half(), None, false),
        "PERCENTILE_CONT(0.5) WITHIN GROUP (ORDER BY *) AS \"r\""
    );
    assert_eq!(aggregate(std, SqlAggregateFunction::ArrayAgg, a(), false), "ARRAY_AGG(a) AS \"r\"");
    assert_eq!(
        aggregate(std, SqlAggregateFunction::StringAgg, a(), false),
        "STRING_AGG(a, ',') AS \"r\""
    );
    assert_eq!(aggregate(my, SqlAggregateFunction::StringAgg, a(), false), "GROUP_CONCAT(a) AS `r`");
    assert_eq!(
        aggregate(SqlDialect::TSQL, SqlAggregateFunction::StringAgg, None, false),
        "STRING_AGG(*) AS [r]"
    );
}

#[test]
fn columns_leave_out_an_alias_that_says_nothing() {
    let generator = SqlCodeGenerator::new();
    let column = |alias: Option<&str>| SqlColumn {
        name: "n".to_string(),
        expression: col("a"),
        alias: alias.map(|s| s.to_string()),
    };
    assert_eq!(generator.generate_column(&column(None)), "a");
    assert_eq!(generator.generate_column(&column(Some("a"))), "a");
    assert_eq!(generator.generate_column(&column(Some("b"))), "a AS b");
    assert_eq!(generator.generate_column(&column(Some("order"))), "a AS \"order\"");
}

#[test]
fn sort_keys_have_their_texts() {
    let generator = SqlCodeGenerator::new();
    let order = |direction: SqlSortDirection, null_order: Option<SqlNullOrder>| SqlOrderBy {
        expression: col("a"),
        direction,
        null_order,
    };
    assert_eq!(generator.generate_order_by(&order(SqlSortDirection::Ascending, None)), "a ASC");
    assert_eq!(
        generator.generate_order_by(&order(
            SqlSortDirection::Descending,
            Some(SqlNullOrder::NullsFirst)
        )),
        "a DESC NULLS FIRST"
    );
    assert_eq!(
        generator.generate_order_by(&order(
            SqlSortDirection::Ascending,
            Some(SqlNullOrder::NullsLast)
        )),
        "a ASC NULLS LAST"
    );
}

fn on(left: &str, right: &str) -> SqlJoinCondition {
    SqlJoinCondition { left: col(left), right: col(right), operator: SqlBinaryOp::Equal }
}

#[test]
fn queries_are_written_compactly() {
    let inner = SqlQueryBuilder::new().from_table("s").limit(1).build().unwrap();
    let mut query = SqlQueryBuilder::new()
        .from_table("a")
        .join(SqlJoinKind::LeftSemi, "b", vec![on("a.x", "b.x"), on("a.y", "b.y")])
        .join_filtered(SqlJoinKind::RightAnti, "c", vec![col("p"), col("q")], vec![])
        .join_filtered(SqlJoinKind::FullOuter, "d", vec![], vec![])
        .join_subquery(SqlJoinKind::Cross, inner.clone(), vec![])
        .order_by(vec![SqlOrderBy {
            expression: col("a"),
            direction: SqlSortDirection::Descending,
            null_order: None,
        }])
        .build()
        .unwrap();
    query.pipeline.push(SqlOperation::Distinct(vec![]));
    query.pipeline.push(SqlOperation::Union(Box::new(inner)));
    assert_eq!(
        compact(&query),
        "SELECT DISTINCT * FROM a INNER JOIN b ON a.x = b.x AND a.y = b.y \
         RIGHT JOIN (c WHERE p AND q) FULL OUTER JOIN d CROSS JOIN (SELECT * FROM s LIMIT 1) \
         ORDER BY a DESC UNION SELECT * FROM s LIMIT 1"
    );
}

#[test]
fn queries_are_written_prettily() {
    let inner = SqlQueryBuilder::new()
        .from_table("s")
        .where_clause(col("p"))
        .build()
        .unwrap();
    let mut query = SqlQueryBuilder::new()
        .from_table("a")
        .join(SqlJoinKind::Inner, "b", vec![on("a.x", "b.x")])
        .join_subquery(SqlJoinKind::LeftOuter, inner.clone(), vec![])
        .aggregate(vec![col("g")], vec![], Some(col("h")))
        .limit(5)
        .build()
        .unwrap();
    query.ctes.push(SqlCte { name: "w".to_string(), query: Box::new(inner.clone()) });
    query.ctes.push(SqlCte { name: "v".to_string(), query: Box::new(inner.clone()) });
    assert_eq!(
        SqlCodeGenerator::default().generate(&query),
        "WITH w AS (\n    SELECT *\n    FROM s\n    WHERE p\n),\n\
         v AS (\n    SELECT *\n    FROM s\n    WHERE p\n)\n\
         SELECT g\nFROM a\nINNER JOIN b\n  ON a.x = b.x\n\
         LEFT OUTER JOIN (\n    SELECT *\n    FROM s\n    WHERE p\n)\n\
         GROUP BY g\nHAVING h\nLIMIT 5"
    );
    query.pipeline.clear();
    query.ctes.truncate(1);
    assert_eq!(compact(&query), "WITH w AS (SELECT * FROM s WHERE p)SELECT * FROM a");
    let inner_distinct = {
        let mut q = inner;
        q.pipeline.push(SqlOperation::Distinct(vec![]));
        q
    };
    let outer = SqlQueryBuilder::new()
        .from_table("a")
        .join_subquery(SqlJoinKind::Cross, inner_distinct, vec![])
        .build()
        .unwrap();
    assert_eq!(
        SqlCodeGenerator::new().generate(&outer),
        "SELECT *\nFROM a\nCROSS JOIN (\n    SELECT DISTINCT *\n    FROM s\n    WHERE p\n)"
    );
}

#[test]
fn generating_twice_gives_the_same_text() {
    let query = SqlQueryBuilder::new().from_table("a").limit(2).build().unwrap();
    let mut generator = SqlCodeGenerator::new();
    let first = generator.generate(&query);
    let second = generator.generate(&query);
    assert_eq!(first, "SELECT *\nFROM a\nLIMIT 2");
    assert_eq!(first, second);
}

#[test]
fn the_first_projection_is_selected() {
    let column = |name: &str| SqlColumn {
        name: name.to_string(),
        expression: col(name),
        alias: None,
    };
    let query = SqlQueryBuilder::new()
        .from_table("t")
        .project(vec![column("a"), column("b")])
        .limit(1)
        .project(vec![column("c")])
        .build()
        .unwrap();
    assert_eq!(compact(&query), "SELECT a, b FROM t LIMIT 1");
    assert_eq!(SqlCodeGenerator::new().generate_projection(&query), "a, b");
}

#[test]
fn join_kinds_have_their_words() {
    let cases = [
        (SqlJoinKind::Inner, "INNER JOIN"),
        (SqlJoinKind::LeftOuter, "LEFT OUTER JOIN"),
        (SqlJoinKind::RightOuter, "RIGHT OUTER JOIN"),
        (SqlJoinKind::FullOuter, "FULL OUTER JOIN"),
        (SqlJoinKind::Cross, "CROSS JOIN"),
        (SqlJoinKind::LeftAnti, "LEFT JOIN"),
        (SqlJoinKind::RightAnti, "RIGHT JOIN"),
        (SqlJoinKind::LeftSemi, "INNER JOIN"),
        (SqlJoinKind::RightSemi, "INNER JOIN"),
    ];
    for (kind, expected) in cases {
        assert_eq!(SqlCodeGenerator::generate_join_kind(&kind), expected);
    }
}

#[test]
fn optimizing_keeps_the_last_of_neighbouring_projections() {
    let column = |name: &str| {
        vec![SqlColumn { name: name.to_string(), expression: col(name), alias: None }]
    };
    let query = SqlQueryBuilder::new()
        .from_table("t")
        .project(column("a"))
        .project(column("b"))
        .where_clause(col("p"))
        .limit(1)
        .where_clause(col("q"))
        .where_clause(col("r"))
        .project(column("c"))
        .build()
        .unwrap();
    let optimized = SqlOptimizer::default().optimize(&query);
    assert_eq!(
        optimized.pipeline,
        vec![
            SqlOperation::Project(column("b")),
            SqlOperation::Where(col("p")),
            SqlOperation::Limit(1),
            SqlOperation::Where(SqlExpression::and(col("q"), col("r"))),
            SqlOperation::Project(column("c")),
        ]
    );
    assert_eq!(optimized.source, "t");
    assert_eq!(SqlOptimizer::new().optimize(&optimized), optimized);
}

#[test]
fn subqueries_are_indented() {
    let logs = SqlQueryBuilder::new()
        .from_table("logs")
        .where_clause(SqlExpression::equals(col("level"), text("error")))
        .build()
        .unwrap();
    let generator = SqlCodeGenerator::new();
    assert_eq!(
        generator.generate_subquery_pretty(&logs),
        "    SELECT *\n    FROM logs\n    WHERE level = 'error'"
    );
    let outer = SqlQueryBuilder::new()
        .from_table("a")
        .join_subquery(SqlJoinKind::Inner, logs, vec![on("a.x", "b.x")])
        .where_clause(SqlExpression::equals(col("note"), text("two\nlines")))
        .limit(1)
        .build()
        .unwrap();
    assert_eq!(
        generator.generate_subquery_pretty(&outer),
        "    SELECT *\n    FROM a\n    INNER JOIN (\n        SELECT *\n        FROM logs\n        \
         WHERE level = 'error'\n    )\n      ON a.x = b.x\n    WHERE note = 'two\nlines'\n    LIMIT 1"
    );
}

#[test]
fn computed_columns_are_selected() {
    let column = |name: &str, alias: Option<&str>| SqlColumn {
        name: name.to_string(),
        expression: col(name),
        alias: alias.map(|a| a.to_string()),
    };
    let extended = SqlQueryBuilder::new()
        .from_table("t")
        .extend(vec![column("price", Some("total"))])
        .build()
        .unwrap();
    assert_eq!(SqlCodeGenerator::new().generate_projection(&extended), "*, price AS total");
    assert_eq!(compact(&extended), "SELECT *, price AS total FROM t");
    let projected = SqlQueryBuilder::new()
        .from_table("t")
        .extend(vec![column("p", None), column("q", Some("r"))])
        .extend(vec![])
        .project(vec![column("a", None)])
        .extend(vec![column("s", None)])
        .build()
        .unwrap();
    assert_eq!(compact(&projected), "SELECT a, p, q AS r, s FROM t");
}

#[test]
fn pretty_text_differs_in_white_space() {
    let query = SqlQueryBuilder::new()
        .from_table("a")
        .join(SqlJoinKind::Inner, "b", vec![on("a.x", "b.x")])
        .where_clause(col("p"))
        .aggregate(vec![col("g")], vec![], Some(col("h")))
        .limit(5)
        .build()
        .unwrap();
    let pretty = SqlCodeGenerator::new().generate(&query);
    assert_eq!(pretty.replace("\n  ON ", " ON ").replace("\n", " "), compact(&query));
}
