//! Queries and expressions built by hand.

use rego_sql::floats::FloatText;
use rego_sql::sql_ir::{
    deserialization_error, serialization_error, SqlAggregate, SqlAggregateFunction,
    SqlBinaryOp, SqlColumn, SqlDataType, SqlExpression, SqlJoinCondition, SqlJoinKind,
    SqlJoinSource, SqlLiteral, SqlNullOrder, SqlOperation, SqlOrderBy, SqlQuery, SqlQueryBuilder,
    SqlSortDirection,
};

fn float(text: &str) -> FloatText {
    FloatText::new(text.to_string()).unwrap()
}

#[test]
fn test_query_builder() {
    let query = SqlQueryBuilder::new()
        .from_table("users")
        .where_clause(SqlExpression::equals(
            SqlExpression::column("role"),
            SqlExpression::string_literal("admin"),
        ))
        .limit(100)
        .build()
        .unwrap();

    assert!(query.source == "users", "wrong source table");
    assert!(query.pipeline.len() == 2, "expected 2 pipeline operations");

    let first_op = query.pipeline.first().expect("expected pipeline operation").clone();
    match first_op {
        SqlOperation::Where(expr) => match expr {
            SqlExpression::Binary { op, .. } => {
                assert!(op == SqlBinaryOp::Equal, "expected Equal op");
            }
            _ => panic!("Expected binary expression"),
        },
        _ => panic!("Expected where operation"),
    }
}

#[test]
fn sql_ir_test_complex_expression() {
    let expr = SqlExpression::and(
        SqlExpression::equals(
            SqlExpression::column("status"),
            SqlExpression::string_literal("active"),
        ),
        SqlExpression::Binary {
            op: SqlBinaryOp::GreaterThan,
            left: Box::new(SqlExpression::column("age")),
            right: Box::new(SqlExpression::int_literal(18)),
        },
    );

    match expr {
        SqlExpression::Binary { op, .. } => {
            assert!(op == SqlBinaryOp::And, "expected And op");
        }
        _ => panic!("Expected binary expression"),
    }
}

#[test]
fn test_aggregate_query() {
    let query = SqlQueryBuilder::new()
        .from_table("events")
        .aggregate(
            vec![SqlExpression::column("category")],
            vec![SqlAggregate {
                function: SqlAggregateFunction::Count,
                expression: None,
                alias: "count".to_string(),
                distinct: false,
            }],
            None,
        )
        .build()
        .unwrap();

    assert!(query.pipeline.len() == 1, "expected 1 pipeline operation");
    let first_op = query.pipeline.first().expect("expected pipeline operation").clone();
    match first_op {
        SqlOperation::Aggregate { group_by, aggregates, .. } => {
            assert!(group_by.len() == 1, "expected 1 group by");
            assert!(aggregates.len() == 1, "expected 1 aggregate");
        }
        _ => panic!("Expected aggregate operation"),
    }
}

#[test]
fn sql_ir_test_cast_expression() {
    let expr = SqlExpression::cast(SqlExpression::column("age"), SqlDataType::Integer);

    match expr {
        SqlExpression::Cast { target_type, .. } => {
            assert!(matches!(target_type, SqlDataType::Integer));
        }
        _ => panic!("Expected cast expression"),
    }
}

#[test]
fn sql_ir_test_between_expression() {
    let expr = SqlExpression::between(
        SqlExpression::column("age"),
        SqlExpression::int_literal(18),
        SqlExpression::int_literal(65),
    );

    match expr {
        SqlExpression::Between { not, .. } => {
            assert!(!not);
        }
        _ => panic!("Expected between expression"),
    }
}

#[test]
fn builder_without_a_source_fails() {
    let built = SqlQueryBuilder::new().limit(1).build();
    assert_eq!(built, Err("Source table not specified".to_string()));
    assert_eq!(
        SqlQueryBuilder::default().build(),
        Err("Source table not specified".to_string())
    );
}

#[test]
fn builder_keeps_the_order_of_operations() {
    let condition = SqlJoinCondition {
        left: SqlExpression::column("a.id"),
        right: SqlExpression::column("b.id"),
        operator: SqlBinaryOp::Equal,
    };
    let inner = SqlQueryBuilder::new().from_table("c").build().unwrap();
    let query = SqlQueryBuilder::new()
        .from_table("x")
        .from_table("a")
        .join(SqlJoinKind::Inner, "b", vec![condition.clone()])
        .join_filtered(
            SqlJoinKind::LeftOuter,
            "d",
            vec![SqlExpression::bool_literal(true)],
            vec![],
        )
        .join_subquery(SqlJoinKind::Cross, inner.clone(), vec![])
        .extend(vec![])
        .project(vec![SqlColumn {
            name: "n".to_string(),
            expression: SqlExpression::null_literal(),
            alias: None,
        }])
        .order_by(vec![SqlOrderBy {
            expression: SqlExpression::column("n"),
            direction: SqlSortDirection::Ascending,
            null_order: Some(SqlNullOrder::NullsLast),
        }])
        .limit(3)
        .build()
        .unwrap();
    assert_eq!(query.source, "a");
    assert_eq!(query.ctes.len(), 0);
    assert_eq!(query.projection, None);
    assert_eq!(
        query.pipeline,
        vec![
            SqlOperation::Join {
                kind: SqlJoinKind::Inner,
                source: SqlJoinSource::Table("b".to_string()),
                on: vec![condition],
            },
            SqlOperation::Join {
                kind: SqlJoinKind::LeftOuter,
                source: SqlJoinSource::Filtered {
                    table: "d".to_string(),
                    filters: vec![SqlExpression::bool_literal(true)],
                },
                on: vec![],
            },
            SqlOperation::Join {
                kind: SqlJoinKind::Cross,
                source: SqlJoinSource::Subquery(inner),
                on: vec![],
            },
            SqlOperation::Extend(vec![]),
            SqlOperation::Project(vec![SqlColumn {
                name: "n".to_string(),
                expression: SqlExpression::Literal(SqlLiteral::Null),
                alias: None,
            }]),
            SqlOperation::Order(vec![SqlOrderBy {
                expression: SqlExpression::column("n"),
                direction: SqlSortDirection::Ascending,
                null_order: Some(SqlNullOrder::NullsLast),
            }]),
            SqlOperation::Limit(3),
        ]
    );
}

#[test]
fn constructors_build_what_they_name() {
    assert_eq!(SqlExpression::column("a"), SqlExpression::Column("a".to_string()));
    assert_eq!(
        SqlExpression::float_literal(float("0.5")),
        SqlExpression::Literal(SqlLiteral::Float(float("0.5")))
    );
    assert_eq!(
        SqlExpression::or(SqlExpression::bool_literal(true), SqlExpression::null_literal()),
        SqlExpression::Binary {
            op: SqlBinaryOp::Or,
            left: Box::new(SqlExpression::Literal(SqlLiteral::Boolean(true))),
            right: Box::new(SqlExpression::Literal(SqlLiteral::Null)),
        }
    );
    assert_eq!(
        SqlExpression::function("f", vec![SqlExpression::int_literal(7)]),
        SqlExpression::Function {
            name: "f".to_string(),
            args: vec![SqlExpression::Literal(SqlLiteral::Integer(7))],
        }
    );
}

#[test]
fn copies_are_equal() {
    let query: SqlQuery = SqlQueryBuilder::new()
        .from_table("t")
        .where_clause(SqlExpression::Case {
            conditions: vec![(SqlExpression::bool_literal(true), SqlExpression::int_literal(1))],
            default: Some(Box::new(SqlExpression::cast(
                SqlExpression::column("c"),
                SqlDataType::Array(Box::new(SqlDataType::Varchar(Some(9)))),
            ))),
        })
        .build()
        .unwrap();
    assert_eq!(query.clone(), query);
}

#[test]
fn binary_format_messages() {
    assert_eq!(serialization_error("disk"), "Serialization error: disk");
    assert_eq!(deserialization_error("eof"), "Deserialization error: eof");
}

#[test]
fn floats_are_held_as_decimals() {
    let values = [0.0, -0.0, 2.0, 0.5, -1.25, 1e300, 1e-7, f64::MAX, f64::MIN_POSITIVE];
    for value in values {
        let held = FloatText::new(value.to_string()).unwrap();
        assert_eq!(held.text(), value.to_string());
        assert_eq!(held.clone(), held);
    }
    for value in [f64::INFINITY, f64::NEG_INFINITY, f64::NAN] {
        assert!(FloatText::new(value.to_string()).is_some());
    }
    for text in ["", "-", ".", "1.", ".5", "1e5", "01", "1.50", "1.2.3", "--1", "+1", "x", "-NaN"] {
        assert!(FloatText::new(text.to_string()).is_none(), "{}", text);
    }
    assert_eq!(FloatText::zero(), float("0"));
}

#[test]
fn floats_are_equal_as_numbers() {
    assert!(float("0") == float("-0"));
    assert!(float("NaN") != float("NaN"));
    assert!(float("inf") == float("inf"));
    assert!(float("inf") != float("-inf"));
    assert!(float("1") != float("-1"));
    let literal = |text: &str| SqlExpression::float_literal(float(text));
    assert!(literal("0") == literal("-0"));
    assert!(literal("NaN") != literal("NaN"));
}
