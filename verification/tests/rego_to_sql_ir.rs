//! Rego rules translated and written as SQL.

use rego_sql::ast::{
    ArithOp, BigNumber, BinOp, BoolOp, Expr, Literal, LiteralStmt, Number, Query, Rule,
    RuleAssign, RuleBody, RuleHead, Value,
};
use rego_sql::ast_text::write_expr;
use rego_sql::errors::{Fault, TranslateError};
use rego_sql::calls::{translate_binary_call, translate_unary_call};
use rego_sql::floats::FloatText;
use rego_sql::joining::{
    assemble_query, col_has_known_alias, combine_conditions, expression_contains_table_alias,
    extract_join_condition, is_condition_for_var, is_join_condition, make_table_column,
};
use rego_sql::rego_to_sql_ir::{
    collect_array_columns_in_expr, derive_alias, is_boolean_expression, make_condition, make_projection, validate_rule_pattern,
    RegoToSqlIrTranslator,
};
use rego_sql::sql_codegen::{SqlCodeGenerator, SqlDialect};
use rego_sql::sql_ir::{
    SqlBinaryOp, SqlColumn, SqlDataType, SqlExpression, SqlInputValue, SqlLiteral, SqlOperation,
    SqlUnaryOp,
};
use rego_sql::string_map::StringMap;

fn string(s: &str) -> Value {
    Value::String(s.to_string())
}

fn var(name: &str) -> Expr {
    Expr::Var { value: string(name) }
}

fn dot(refr: Expr, field: &str) -> Expr {
    Expr::RefDot { refr: Box::new(refr), field: string(field) }
}

fn brack(refr: Expr, index: Expr) -> Expr {
    Expr::RefBrack { refr: Box::new(refr), index: Box::new(index) }
}

fn text(s: &str) -> Expr {
    Expr::String { value: string(s) }
}

fn num(i: i64) -> Expr {
    Expr::Number { value: Value::Number(Number::Int(i)) }
}

fn boolean(b: bool) -> Expr {
    Expr::Bool { value: Value::Bool(b) }
}

fn compare(op: BoolOp, lhs: Expr, rhs: Expr) -> Expr {
    Expr::BoolExpr { op, lhs: Box::new(lhs), rhs: Box::new(rhs) }
}

fn eq(lhs: Expr, rhs: Expr) -> Expr {
    compare(BoolOp::Eq, lhs, rhs)
}

fn arith(op: ArithOp, lhs: Expr, rhs: Expr) -> Expr {
    Expr::ArithExpr { op, lhs: Box::new(lhs), rhs: Box::new(rhs) }
}

fn assign(lhs: Expr, rhs: Expr) -> Expr {
    Expr::AssignExpr { lhs: Box::new(lhs), rhs: Box::new(rhs) }
}

fn call(name: &str, params: Vec<Expr>) -> Expr {
    let mut parts = name.split('.');
    let mut fcn = var(parts.next().unwrap());
    for part in parts {
        fcn = dot(fcn, part);
    }
    Expr::Call { fcn: Box::new(fcn), params }
}

fn some(name: &str, table: &str) -> Literal {
    Literal::SomeIn { value: var(name), collection: dot(var("data"), table) }
}

fn holds(expr: Expr) -> Literal {
    Literal::Expr { expr }
}

fn body(literals: Vec<Literal>, value: Option<Expr>) -> RuleBody {
    RuleBody {
        assign: value.map(|value| RuleAssign { value }),
        query: Query {
            stmts: literals.into_iter().map(|literal| LiteralStmt { literal }).collect(),
        },
    }
}

fn rule(literals: Vec<Literal>) -> Rule {
    Rule::Spec { head: RuleHead::PartialSet, bodies: vec![body(literals, None)] }
}

fn translate_with(
    translator: &mut RegoToSqlIrTranslator,
    literals: Vec<Literal>,
) -> Result<String, TranslateError> {
    let query = translator.translate_rule(&rule(literals))?;
    let mut generator = SqlCodeGenerator::new()
        .with_pretty_print(false)
        .with_dialect(SqlDialect::PostgreSQL);
    Ok(generator.generate(&query))
}

fn translate(literals: Vec<Literal>) -> Result<String, TranslateError> {
    translate_with(&mut RegoToSqlIrTranslator::new(None), literals)
}

/// The text of the only condition of a rule over `user`.
fn condition(expr: Expr) -> Result<String, TranslateError> {
    let sql = translate(vec![some("user", "users"), holds(expr)])?;
    Ok(sql.strip_prefix("SELECT * FROM users WHERE ").expect("one condition").to_string())
}

fn user(field: &str) -> Expr {
    dot(var("user"), field)
}

fn fault(f: Fault) -> TranslateError {
    TranslateError::Rejected(f)
}

#[test]
fn test_translator_creation() {
    let translator = RegoToSqlIrTranslator::new(Some("users".to_string()));
    assert_eq!(translator.default_table, Some("users".to_string()));
}

#[test]
fn a_rule_over_one_table() {
    assert_eq!(
        translate(vec![
            some("user", "users"),
            holds(eq(user("role"), text("admin"))),
            holds(compare(BoolOp::Ge, user("age"), num(18))),
            holds(assign(
                var("result"),
                Expr::Object {
                    fields: vec![
                        (text("name"), user("name")),
                        (text("years"), user("age")),
                        (text("next"), arith(ArithOp::Add, user("age"), num(1))),
                    ],
                },
            )),
        ]),
        Ok("SELECT name, age AS years, age + 1 AS next FROM users \
            WHERE role = 'admin' AND age >= 18"
            .to_string())
    );
}

#[test]
fn a_rule_over_two_tables() {
    let expected = "SELECT u.name FROM users u INNER JOIN assignments ra ON u.id = ra.user_id \
                    WHERE ra.level > 3";
    let link = || eq(dot(var("role_assignment"), "user_id"), user("id"));
    let level = || compare(BoolOp::Gt, dot(var("role_assignment"), "level"), num(3));
    let result = || {
        holds(assign(
            var("result"),
            Expr::Object { fields: vec![(text("name"), user("name"))] },
        ))
    };
    assert_eq!(
        translate(vec![
            some("user", "users"),
            some("role_assignment", "assignments"),
            holds(link()),
            holds(level()),
            result(),
        ]),
        Ok(expected.to_string())
    );
    // The statements that name the tables may come after the conditions.
    assert_eq!(
        translate(vec![
            holds(link()),
            some("user", "users"),
            holds(level()),
            result(),
            some("role_assignment", "assignments"),
        ]),
        Ok(expected.to_string())
    );
}

#[test]
fn a_table_joined_with_itself() {
    assert_eq!(
        translate(vec![
            some("employee", "Employees"),
            some("manager", "Employees"),
            holds(eq(dot(var("employee"), "manager_id"), dot(var("manager"), "id"))),
        ]),
        Ok("SELECT * FROM Employees e INNER JOIN Employees m ON e.manager_id = m.id".to_string())
    );
}

#[test]
fn a_join_condition_stands_with_the_last_table_it_names() {
    assert_eq!(
        translate(vec![
            some("a", "ta"),
            some("b", "tb"),
            some("c", "tc"),
            holds(eq(dot(var("c"), "x"), dot(var("a"), "x"))),
            holds(eq(dot(var("a"), "y"), dot(var("b"), "y"))),
            holds(eq(dot(var("b"), "z"), dot(var("c"), "z"))),
        ]),
        Ok("SELECT * FROM ta a INNER JOIN tb b ON a.y = b.y \
            INNER JOIN tc c ON a.x = c.x AND b.z = c.z"
            .to_string())
    );
}

#[test]
fn an_equality_within_the_first_table_joins_nothing() {
    assert_eq!(
        translate(vec![
            some("a", "ta"),
            some("b", "tb"),
            holds(eq(dot(var("a"), "x"), dot(var("a"), "y"))),
            holds(eq(var("a"), var("b"))),
            holds(eq(dot(var("b"), "x"), dot(var("b"), "y"))),
        ]),
        Ok("SELECT * FROM ta a INNER JOIN tb b ON b.y = b.x WHERE a = b".to_string())
    );
    assert_eq!(
        translate(vec![some("a", "ta"), holds(eq(dot(var("a"), "a"), dot(var("a"), "b")))]),
        Ok("SELECT * FROM ta WHERE a = b".to_string())
    );
}

#[test]
fn short_names_are_initials() {
    assert_eq!(derive_alias("user"), "u");
    assert_eq!(derive_alias("role_assignment"), "ra");
    assert_eq!(derive_alias("Role_Assignment"), "ra");
    assert_eq!(derive_alias("_a__b_"), "ab");
    assert_eq!(derive_alias("___"), "");
    assert_eq!(derive_alias(""), "");
    assert_eq!(derive_alias("Ünit"), "ü");
}

#[test]
fn a_table_without_a_short_name_stands_alone() {
    assert_eq!(
        translate(vec![some("_", "ta"), some("b", "tb")]),
        Ok("SELECT * FROM ta INNER JOIN tb b".to_string())
    );
}

#[test]
fn the_value_of_a_body_is_projected() {
    let mut translator = RegoToSqlIrTranslator::new(None);
    let value = Expr::Object { fields: vec![(text("n"), user("name"))] };
    let rule = Rule::Spec {
        head: RuleHead::PartialSet,
        bodies: vec![body(vec![some("user", "users")], Some(value))],
    };
    let query = translator.translate_rule(&rule).unwrap();
    assert_eq!(
        query.pipeline,
        vec![SqlOperation::Project(vec![SqlColumn {
            name: "n".to_string(),
            expression: SqlExpression::column("name"),
            alias: Some("n".to_string()),
        }])]
    );
}

#[test]
fn the_default_table_is_used_where_a_rule_names_none() {
    let nameless = || vec![some("user", ""), holds(user("active"))];
    let mut translator = RegoToSqlIrTranslator::default().with_default_table("people".to_string());
    assert_eq!(
        translate_with(&mut translator, nameless()),
        Ok("SELECT * FROM people WHERE active IS NOT NULL".to_string())
    );
    assert_eq!(
        translate_with(&mut translator, vec![some("user", "users")]),
        Ok("SELECT * FROM users".to_string())
    );
    assert_eq!(translate(nameless()), Err(fault(Fault::NoSource)));
}

#[test]
fn a_translator_forgets_the_last_rule() {
    let mut translator = RegoToSqlIrTranslator::new(None);
    let first = vec![
        some("a", "ta"),
        some("b", "tb"),
        holds(assign(var("x"), num(1))),
        holds(eq(brack(dot(var("a"), "tags"), num(0)), text("t"))),
    ];
    translate_with(&mut translator, first).unwrap();
    let second = || {
        vec![
            some("user", "users"),
            holds(compare(BoolOp::Gt, call("count", vec![user("tags")]), var("x"))),
        ]
    };
    let expected = Ok("SELECT * FROM users WHERE LENGTH(tags) > x".to_string());
    assert_eq!(translate_with(&mut translator, second()), expected);
    assert_eq!(translate(second()), expected);
}

#[test]
fn expressions_that_are_no_predicates_are_tested_for_null() {
    assert_eq!(condition(user("active")), Ok("active IS NOT NULL".to_string()));
    assert_eq!(
        condition(call("base64.encode", vec![user("name")])),
        Ok("ENCODE(name, 'BASE64') IS NOT NULL".to_string())
    );
    assert_eq!(condition(boolean(true)), Ok("TRUE".to_string()));
    assert_eq!(
        condition(arith(ArithOp::Add, num(1), num(2))),
        Ok("1 + 2 IS NOT NULL".to_string())
    );
    let not = translate(vec![some("user", "users"), Literal::NotExpr { expr: user("active") }]);
    assert_eq!(not, Ok("SELECT * FROM users WHERE NOT (active)".to_string()));
}

#[test]
fn predicates_are_told_from_values() {
    let column = || SqlExpression::column("a");
    assert!(is_boolean_expression(&SqlExpression::equals(column(), column())));
    assert!(is_boolean_expression(&SqlExpression::bool_literal(false)));
    assert!(!is_boolean_expression(&column()));
    assert!(!is_boolean_expression(&SqlExpression::null_literal()));
    let unary = |op: SqlUnaryOp| SqlExpression::Unary {
        op,
        operand: Box::new(SqlExpression::column("a")),
    };
    assert!(is_boolean_expression(&unary(SqlUnaryOp::Not)));
    assert!(is_boolean_expression(&unary(SqlUnaryOp::Exists)));
    assert!(!is_boolean_expression(&unary(SqlUnaryOp::Negate)));
    assert_eq!(make_condition(SqlExpression::bool_literal(true)), SqlExpression::bool_literal(true));
}

#[test]
fn comparisons_have_their_operators() {
    let cases = [
        (BoolOp::Eq, "age = 5"),
        (BoolOp::Ne, "age != 5"),
        (BoolOp::Lt, "age < 5"),
        (BoolOp::Le, "age <= 5"),
        (BoolOp::Gt, "age > 5"),
        (BoolOp::Ge, "age >= 5"),
    ];
    for (op, expected) in cases {
        assert_eq!(condition(compare(op, user("age"), num(5))), Ok(expected.to_string()));
    }
}

#[test]
fn null_is_tested_for() {
    assert_eq!(condition(eq(user("a"), Expr::Null)), Ok("a IS NULL".to_string()));
    assert_eq!(
        condition(compare(BoolOp::Ne, user("a"), Expr::Null)),
        Ok("a IS NOT NULL".to_string())
    );
    assert_eq!(condition(compare(BoolOp::Lt, user("a"), Expr::Null)), Ok("a < NULL".to_string()));
    assert_eq!(condition(eq(Expr::Null, user("a"))), Ok("a IS NULL".to_string()));
    assert_eq!(
        condition(compare(BoolOp::Ne, Expr::Null, user("a"))),
        Ok("a IS NOT NULL".to_string())
    );
    assert_eq!(condition(eq(Expr::Null, Expr::Null)), Ok("NULL IS NULL".to_string()));
    assert_eq!(
        translate(vec![
            some("user", "users"),
            holds(assign(var("nothing"), Expr::Null)),
            holds(eq(user("a"), var("nothing"))),
        ]),
        Ok("SELECT * FROM users WHERE a IS NULL".to_string())
    );
    let translator = RegoToSqlIrTranslator::new(None);
    assert_eq!(
        translator.translate_expression_to_sql(&eq(Expr::Null, var("name"))),
        Ok(SqlExpression::Binary {
            op: SqlBinaryOp::IsNull,
            left: Box::new(SqlExpression::column("name")),
            right: Box::new(SqlExpression::null_literal()),
        })
    );
    assert_eq!(condition(call("is_null", vec![user("a")])), Ok("a IS NULL".to_string()));
}

#[test]
fn arithmetic_is_grouped() {
    let a = || user("a");
    let b = || user("b");
    let c = || user("c");
    let op = |expr: Expr| condition(eq(expr, num(0)));
    assert_eq!(
        op(arith(ArithOp::Mul, arith(ArithOp::Add, a(), b()), c())),
        Ok("(a + b) * c = 0".to_string())
    );
    assert_eq!(
        op(arith(ArithOp::Sub, a(), arith(ArithOp::Sub, b(), c()))),
        Ok("a - (b - c) = 0".to_string())
    );
    assert_eq!(
        op(arith(ArithOp::Add, a(), arith(ArithOp::Mul, b(), c()))),
        Ok("a + b * c = 0".to_string())
    );
    assert_eq!(
        op(arith(ArithOp::Mul, a(), arith(ArithOp::Div, b(), c()))),
        Ok("a * (b / c) = 0".to_string())
    );
    assert_eq!(
        op(arith(ArithOp::Mod, arith(ArithOp::Div, a(), b()), c())),
        Ok("a / b % c = 0".to_string())
    );
    assert_eq!(
        op(arith(ArithOp::Add, a(), arith(ArithOp::Sub, b(), c()))),
        Ok("a + b - c = 0".to_string())
    );
    assert_eq!(
        op(Expr::UnaryExpr { expr: Box::new(a()) }),
        Ok("-a = 0".to_string())
    );
}

#[test]
fn membership_becomes_in() {
    let items = || vec![text("x"), text("y")];
    let member = |collection: Expr| {
        condition(Expr::Membership {
            value: Box::new(user("role")),
            collection: Box::new(collection),
        })
    };
    let expected = Ok("role IN ('x', 'y')".to_string());
    assert_eq!(member(Expr::SetExpr { items: items() }), expected);
    assert_eq!(member(Expr::Array { items: items() }), expected);
    assert_eq!(member(user("roles")), Err(fault(Fault::InRightSide)));
}

#[test]
fn set_operators_become_in_and_or() {
    let op = |op: BinOp| {
        condition(Expr::BinExpr {
            op,
            lhs: Box::new(user("a")),
            rhs: Box::new(Expr::Array { items: vec![num(1)] }),
        })
    };
    assert_eq!(op(BinOp::Intersection), Ok("a IN (1)".to_string()));
    assert_eq!(op(BinOp::Union), Ok("(a OR [1])".to_string()));
}

#[test]
fn nested_fields_are_looked_up_in_json() {
    assert_eq!(
        condition(eq(dot(dot(user("profile"), "settings"), "theme"), text("dark"))),
        Ok("profile->'settings'->>'theme' = 'dark'".to_string())
    );
    assert_eq!(
        condition(eq(dot(user("permissions"), "read"), boolean(true))),
        Ok("permissions->>'read' = 'true'".to_string())
    );
    assert_eq!(
        condition(eq(dot(user("permissions"), "read"), boolean(false))),
        Ok("permissions->>'read' = 'false'".to_string())
    );
    assert_eq!(condition(eq(user("read"), boolean(true))), Ok("read = TRUE".to_string()));
    assert_eq!(
        condition(eq(dot(var("other"), "k'ey"), num(1))),
        Ok("other->>'k''ey' = 1".to_string())
    );
}

#[test]
fn positions_are_shifted_to_one() {
    assert_eq!(
        condition(eq(brack(user("tags"), num(0)), text("t"))),
        Ok("tags[1] = 't'".to_string())
    );
    assert_eq!(
        condition(eq(brack(user("tags"), user("n")), text("t"))),
        Ok("tags[n + 1] = 't'".to_string())
    );
    assert_eq!(
        condition(eq(brack(user("tags"), num(i64::MAX)), text("t"))),
        Err(fault(Fault::IndexRange))
    );
    assert_eq!(
        condition(call("array.slice", vec![user("tags"), num(1), num(i64::MIN)])),
        Err(fault(Fault::IndexRange))
    );
}

#[test]
fn numbers_keep_their_form() {
    let number = |n: Number| {
        condition(eq(user("a"), Expr::Number { value: Value::Number(n) }))
    };
    let float = |s: &str| FloatText::new(s.to_string()).unwrap();
    let big = |integral: bool, as_i64: Option<i64>, as_f64: Option<&str>| {
        Number::Big(BigNumber { integral, as_i64, as_f64: as_f64.map(float) })
    };
    assert_eq!(number(Number::UInt(7)), Ok("a = 7".to_string()));
    assert_eq!(number(Number::UInt(u64::MAX)), Ok("a = 0".to_string()));
    assert_eq!(number(Number::Int(-7)), Ok("a = -7".to_string()));
    assert_eq!(number(Number::Float(float(&2.0f64.to_string()))), Ok("a = 2.0".to_string()));
    assert_eq!(number(big(true, Some(3), None)), Ok("a = 3".to_string()));
    assert_eq!(number(big(true, None, Some("1"))), Ok("a = 0".to_string()));
    assert_eq!(number(big(false, Some(3), Some("0.25"))), Ok("a = 0.25".to_string()));
    assert_eq!(number(big(false, None, None)), Ok("a = 0.0".to_string()));
}

#[test]
fn assigned_variables_are_substituted() {
    assert_eq!(
        translate(vec![
            some("role", "roles"),
            holds(assign(var("t"), arith(ArithOp::Add, dot(var("role"), "age"), num(10)))),
            holds(compare(BoolOp::Gt, arith(ArithOp::Mul, var("t"), num(2)), num(50))),
        ]),
        Ok("SELECT * FROM roles WHERE (age + 10) * 2 > 50".to_string())
    );
    // An assignment to something that is no variable has no effect.
    assert_eq!(
        translate(vec![some("role", "roles"), holds(assign(num(1), var("x")))]),
        Ok("SELECT * FROM roles".to_string())
    );
}

#[test]
fn input_paths_are_bound() {
    let mut translator = RegoToSqlIrTranslator::new(None)
        .with_input_binding(
            "user.id".to_string(),
            SqlInputValue::Variable(":user_id".to_string()),
        )
        .with_input_binding(
            "level".to_string(),
            SqlInputValue::Literal(SqlLiteral::Integer(3)),
        );
    let where_clause = |translator: &mut RegoToSqlIrTranslator, rhs: Expr| {
        translate_with(translator, vec![some("user", "users"), holds(eq(user("id"), rhs))])
    };
    let expected = Ok("SELECT * FROM users WHERE id = :user_id".to_string());
    assert_eq!(where_clause(&mut translator, dot(dot(var("input"), "user"), "id")), expected);
    assert_eq!(
        where_clause(&mut translator, brack(dot(var("input"), "user"), text("id"))),
        expected
    );
    assert_eq!(
        where_clause(&mut translator, dot(var("input"), "level")),
        Ok("SELECT * FROM users WHERE id = 3".to_string())
    );
    assert_eq!(
        where_clause(&mut translator, dot(var("input"), "missing")),
        Err(TranslateError::MissingInputBinding("missing".to_string()))
    );
    assert_eq!(
        where_clause(&mut translator, var("input")),
        Err(fault(Fault::InputNotBound))
    );
    assert_eq!(
        where_clause(&mut translator, brack(var("input"), num(0))),
        Err(fault(Fault::InputIndex))
    );
    assert_eq!(
        where_clause(&mut translator, brack(var("input"), Expr::String { value: Value::Null })),
        Err(fault(Fault::InputFieldName))
    );
    let mut bindings = StringMap::new();
    bindings.insert("".to_string(), SqlInputValue::Variable("$1".to_string()));
    bindings.insert("level".to_string(), SqlInputValue::Variable("$2".to_string()));
    bindings.insert("level".to_string(), SqlInputValue::Variable("$3".to_string()));
    let mut rebound = translator.with_input_bindings(bindings);
    assert_eq!(
        where_clause(&mut rebound, var("input")),
        Ok("SELECT * FROM users WHERE id = $1".to_string())
    );
    assert_eq!(
        where_clause(&mut rebound, dot(var("input"), "level")),
        Ok("SELECT * FROM users WHERE id = $3".to_string())
    );
}

#[test]
fn functions_have_their_sql_forms() {
    let a = || user("a");
    let b = || user("b");
    let is = |expr: Expr, expected: &str| {
        assert_eq!(condition(eq(expr, num(0))), Ok(format!("{} = 0", expected)));
    };
    is(call("is_string", vec![a()]), "TYPEOF(a) = 'text'");
    is(call("is_number", vec![a()]), "(TYPEOF(a) = 'integer' OR TYPEOF(a) = 'real')");
    is(call("count", vec![a()]), "LENGTH(a)");
    is(call("sort", vec![a()]), "ARRAY_SORT(a)");
    is(call("trim_left", vec![a(), b()]), "LTRIM(a)");
    is(call("trim_right", vec![a(), b()]), "RTRIM(a)");
    is(call("to_number", vec![a()]), "CAST(a AS NUMERIC)");
    is(call("format_int", vec![a(), num(10)]), "CAST(a AS VARCHAR)");
    is(call("pow", vec![a(), b()]), "POWER(a, b)");
    is(call("round", vec![a()]), "ROUND(a)");
    is(call("round", vec![a(), num(2)]), "ROUND(a, 2)");
    is(call("sqrt", vec![a()]), "SQRT(a)");
    is(call("sin", vec![a()]), "SIN(a)");
    is(call("cos", vec![a()]), "COS(a)");
    is(call("tan", vec![a()]), "TAN(a)");
    is(call("array.concat", vec![a(), b()]), "a || b");
    is(call("array.reverse", vec![a()]), "array_reverse(a)");
    is(call("array.slice", vec![a(), num(1), num(3)]), "ARRAY_SLICE(a, 1, 2)");
    is(call("array.slice", vec![a(), num(1), b()]), "ARRAY_SLICE(a, 1, b - 1)");
    is(call("array.length", vec![a()]), "ARRAY_LENGTH(a)");
    is(call("strings.reverse", vec![a()]), "REVERSE(a)");
    is(call("base64.encode", vec![a()]), "ENCODE(a, 'BASE64')");
    is(call("base64.decode", vec![a()]), "DECODE(a, 'BASE64')");
    is(call("lower", vec![a()]), "LOWER(a)");
    is(call("upper", vec![a()]), "UPPER(a)");
    is(call("abs", vec![a()]), "ABS(a)");
    is(call("floor", vec![a()]), "FLOOR(a)");
    is(call("ceil", vec![a()]), "CEIL(a)");
    is(call("trim", vec![a(), b()]), "TRIM(a, b)");
    is(call("length", vec![a()]), "LENGTH(a)");
    is(call("replace", vec![a(), text("x"), text("y")]), "REPLACE(a, 'x', 'y')");
    is(call("concat", vec![a(), b()]), "CONCAT(a, b)");
    is(call("sum", vec![a()]), "SUM(a)");
    is(call("avg", vec![a()]), "AVG(a)");
    is(call("min", vec![a()]), "MIN(a)");
    is(call("max", vec![a()]), "MAX(a)");
    is(call("my.own.function", vec![]), "my.own.function()");
    is(call("sqrt", vec![a(), b()]), "sqrt(a, b)");
}

#[test]
fn searches_become_like() {
    let a = || user("a");
    let is = |expr: Expr, expected: &str| {
        assert_eq!(condition(expr), Ok(expected.to_string()));
    };
    is(call("contains", vec![a(), text("x'y")]), "a LIKE '%x''y%'");
    is(call("startswith", vec![a(), text("x")]), "a LIKE 'x%'");
    is(call("endswith", vec![a(), text("x")]), "a LIKE '%x'");
    is(call("contains", vec![a(), user("b")]), "a LIKE CONCAT('%', b, '%')");
    is(call("startswith", vec![a(), user("b")]), "a LIKE CONCAT(b, '%')");
    is(call("endswith", vec![a(), user("b")]), "a LIKE CONCAT('%', b)");
    is(call("regex.match", vec![text("^x"), a()]), "a ~ '^x'");
}

#[test]
fn indexed_columns_are_arrays() {
    let counted = compare(BoolOp::Gt, call("count", vec![user("tags")]), num(1));
    let indexed = eq(brack(user("tags"), num(0)), text("t"));
    assert_eq!(
        translate(vec![some("user", "users"), holds(counted), holds(indexed)]),
        Ok("SELECT * FROM users WHERE ARRAY_LENGTH(tags) > 1 AND tags[1] = 't'".to_string())
    );
    let qualified = compare(BoolOp::Gt, call("count", vec![user("tags")]), num(1));
    let nested = Expr::Object {
        fields: vec![(
            text("k"),
            call(
                "f",
                vec![Expr::Array {
                    items: vec![Expr::UnaryExpr {
                        expr: Box::new(brack(brack(user("tags"), num(0)), num(1))),
                    }],
                }],
            ),
        )],
    };
    assert_eq!(
        translate(vec![
            some("user", "users"),
            some("group", "groups"),
            holds(qualified),
            holds(assign(var("r"), nested)),
        ]),
        Ok("SELECT f([-u.tags[1][2]]) AS k FROM users u INNER JOIN groups g \
            WHERE ARRAY_LENGTH(u.tags) > 1"
            .to_string())
    );
}

#[test]
fn columns_are_found_wherever_they_are_indexed() {
    let found = |expr: Expr| {
        let mut columns = StringMap::new();
        collect_array_columns_in_expr(&expr, &mut columns);
        columns.get("tags").is_some()
    };
    let indexed = || brack(user("tags"), num(0));
    let set = || Expr::SetExpr { items: vec![text("a")] };
    assert!(found(Expr::Membership {
        value: Box::new(indexed()),
        collection: Box::new(set()),
    }));
    assert!(found(Expr::Membership {
        value: Box::new(text("a")),
        collection: Box::new(indexed()),
    }));
    assert!(!found(brack(user("tags"), text("k"))));
    let counted = || holds(compare(BoolOp::Gt, call("count", vec![user("tags")]), num(1)));
    assert_eq!(
        translate(vec![
            some("user", "users"),
            counted(),
            Literal::NotExpr { expr: eq(indexed(), text("t")) },
        ]),
        Ok("SELECT * FROM users WHERE ARRAY_LENGTH(tags) > 1 AND NOT (tags[1] = 't')".to_string())
    );
    let value = Expr::Object { fields: vec![(text("first"), indexed())] };
    let rule = Rule::Spec {
        head: RuleHead::PartialSet,
        bodies: vec![body(vec![some("user", "users"), counted()], Some(value))],
    };
    let query = RegoToSqlIrTranslator::new(None).translate_rule(&rule).unwrap();
    assert_eq!(
        SqlCodeGenerator::new().with_pretty_print(false).generate(&query),
        "SELECT tags[1] AS first FROM users WHERE ARRAY_LENGTH(tags) > 1"
    );
}

#[test]
fn a_failing_statement_adds_the_columns_before_its_failure() {
    let mut translator = RegoToSqlIrTranslator::new(None);
    let mut projections = vec![];
    let stmt = |literal: Literal| LiteralStmt { literal };
    let failing = stmt(holds(assign(
        var("r"),
        Expr::Object {
            fields: vec![
                (text("a"), var("a")),
                (text("b"), Expr::SetCompr),
                (text("c"), var("c")),
            ],
        },
    )));
    assert!(translator.process_statement(&failing, &mut projections).is_err());
    assert_eq!(projections.len(), 1);
    assert_eq!(projections[0].name, "a");
    let other = stmt(holds(Expr::SetCompr));
    assert!(translator.process_statement(&other, &mut projections).is_err());
    assert_eq!(projections.len(), 1);
}

#[test]
fn a_minus_sign_has_no_parentheses_behind_it() {
    let sum = arith(ArithOp::Add, user("a"), user("b"));
    let negated = Expr::UnaryExpr { expr: Box::new(sum) };
    assert_eq!(
        condition(eq(arith(ArithOp::Mul, negated, user("c")), num(0))),
        Ok("-a + b * c = 0".to_string())
    );
}

#[test]
fn rules_of_other_forms_are_refused() {
    let mut translator = RegoToSqlIrTranslator::new(None);
    let mut refused = |rule: Rule| translator.translate_rule(&rule).unwrap_err();
    assert_eq!(refused(Rule::Default), fault(Fault::DefaultRule));
    let head = |head: RuleHead| Rule::Spec {
        head,
        bodies: vec![body(vec![some("u", "users")], None)],
    };
    assert_eq!(refused(head(RuleHead::Compr)), fault(Fault::RulePattern));
    assert_eq!(refused(head(RuleHead::Func)), fault(Fault::RulePattern));
    assert_eq!(refused(rule(vec![])), fault(Fault::NoTable));
    assert_eq!(refused(rule(vec![Literal::SomeVars, holds(var("x"))])), fault(Fault::NoTable));
    let two = Rule::Spec {
        head: RuleHead::PartialSet,
        bodies: vec![body(vec![], None), body(vec![some("u", "users")], None)],
    };
    assert_eq!(refused(two), fault(Fault::BodyCount));
    assert_eq!(
        validate_rule_pattern(RuleHead::PartialSet, &vec![body(vec![some("u", "t")], None)]),
        Ok(())
    );
}

#[test]
fn statements_of_other_forms_are_refused() {
    let refused = |literal: Literal| {
        translate(vec![some("user", "users"), Literal::SomeVars, literal]).unwrap_err()
    };
    assert_eq!(refused(Literal::Every), fault(Fault::Every));
    assert_eq!(
        refused(Literal::SomeIn { value: num(1), collection: dot(var("data"), "t") }),
        TranslateError::ExpectedVariable("Number { value: Number(1) }".to_string())
    );
    assert_eq!(
        refused(Literal::SomeIn { value: var("x"), collection: dot(var("input"), "t") }),
        fault(Fault::Collection)
    );
    assert_eq!(
        refused(Literal::SomeIn { value: var("x"), collection: var("data") }),
        fault(Fault::Collection)
    );
    assert_eq!(
        refused(Literal::SomeIn {
            value: var("x"),
            collection: Expr::RefDot { refr: Box::new(var("data")), field: Value::Null },
        }),
        fault(Fault::FieldName)
    );
    let projected = |key: Expr| {
        refused(holds(assign(
            var("r"),
            Expr::Object { fields: vec![(key, user("a"))] },
        )))
    };
    assert_eq!(projected(var("k")), fault(Fault::ProjectionKey));
    assert_eq!(projected(Expr::String { value: Value::Other }), fault(Fault::ProjectionName));
}

#[test]
fn a_collection_may_be_nested() {
    let collection = dot(dot(var("input"), "x"), "users");
    assert_eq!(
        translate(vec![Literal::SomeIn { value: var("u"), collection }]),
        Ok("SELECT * FROM users".to_string())
    );
}

#[test]
fn expressions_of_other_forms_are_refused() {
    let refused = |expr: Expr| condition(expr).unwrap_err();
    let unsupported = |expr: &str| TranslateError::Unsupported(expr.to_string());
    assert_eq!(refused(Expr::Object { fields: vec![] }), fault(Fault::ObjectLiteral));
    assert_eq!(refused(Expr::RawString { value: string("x") }), unsupported("RawString { value: String(\"x\") }"));
    assert_eq!(refused(Expr::ArrayCompr), unsupported("ArrayCompr"));
    assert_eq!(refused(Expr::SetCompr), unsupported("SetCompr"));
    assert_eq!(refused(Expr::ObjectCompr), unsupported("ObjectCompr"));
    assert_eq!(refused(Expr::OrExpr), unsupported("OrExpr"));
    assert_eq!(refused(Expr::Var { value: Value::Null }), fault(Fault::VariableName));
    assert_eq!(refused(Expr::String { value: Value::Null }), fault(Fault::StringValue));
    assert_eq!(refused(Expr::Number { value: Value::Null }), fault(Fault::NumberValue));
    assert_eq!(refused(Expr::Bool { value: Value::Null }), fault(Fault::BooleanValue));
    assert_eq!(
        refused(Expr::RefDot { refr: Box::new(var("user")), field: Value::Bool(true) }),
        fault(Fault::FieldName)
    );
    let called = |fcn: Expr| Expr::Call { fcn: Box::new(fcn), params: vec![] };
    assert_eq!(refused(called(Expr::Var { value: Value::Null })), fault(Fault::FunctionName));
    assert_eq!(
        refused(called(Expr::RefDot { refr: Box::new(var("ns")), field: Value::Null })),
        fault(Fault::FunctionField)
    );
    assert_eq!(refused(called(num(1))), fault(Fault::FunctionForm));
    // The first argument that fails gives the reason.
    assert_eq!(
        refused(call("f", vec![user("a"), Expr::SetCompr, Expr::ArrayCompr])),
        unsupported("SetCompr")
    );
}

#[test]
fn errors_have_messages() {
    let message = |f: Fault| fault(f).message();
    assert_eq!(
        TranslateError::MissingInputBinding("user.id".to_string()).message(),
        "missing SQL input binding for `input.user.id`"
    );
    assert_eq!(message(Fault::DefaultRule), "Default rules not supported in SQL translation");
    assert_eq!(
        message(Fault::NoTable),
        "SQL translation requires at least one 'some var in table' statement"
    );
    assert_eq!(
        message(Fault::RulePattern),
        "Only 'rule_name contains var if { ... }' rule patterns are supported for SQL translation"
    );
    assert_eq!(
        message(Fault::BodyCount),
        "Only single-body rules are supported for SQL translation"
    );
    assert_eq!(message(Fault::NoSource), "No table found in rule and no default table specified");
    assert_eq!(message(Fault::FieldName), "Field name must be a string");
    assert_eq!(message(Fault::VariableName), "Invalid variable name");
    assert_eq!(message(Fault::InputFieldName), "Invalid input field name");
    assert_eq!(message(Fault::InputIndex), "input indexing requires a string literal key");
    assert_eq!(
        message(Fault::InputNotBound),
        "global `input` is not supported directly; bind a specific input path"
    );
    assert_eq!(message(Fault::FunctionName), "Invalid function name");
    assert_eq!(message(Fault::FunctionField), "Function field name must be a string");
    assert_eq!(message(Fault::FunctionForm), "Function name must be a simple identifier");
    assert_eq!(message(Fault::JoinCondition), "Only equality conditions are supported for JOINs");
    assert_eq!(message(Fault::Every), "'every' statements are not supported in SQL translation");
    assert_eq!(message(Fault::ProjectionName), "Invalid field name");
    assert_eq!(message(Fault::ProjectionKey), "Projection field name must be a string literal");
    assert_eq!(message(Fault::Collection), "Collection must be of the form 'data.table_name'");
    assert_eq!(
        message(Fault::InRightSide),
        "IN operation requires an array/set on the right side"
    );
    assert_eq!(message(Fault::StringValue), "Invalid string value");
    assert_eq!(message(Fault::NumberValue), "Invalid number value");
    assert_eq!(message(Fault::BooleanValue), "Invalid boolean value");
    assert_eq!(
        message(Fault::ObjectLiteral),
        "Object literals in expressions are not yet supported for SQL translation"
    );
    assert_eq!(message(Fault::IndexRange), "Array position out of range");
    assert_eq!(
        TranslateError::ExpectedVariable(write_expr(&Expr::SetExpr { items: vec![] })).message(),
        "Expected variable name, got Set { items: [] }"
    );
    assert_eq!(
        TranslateError::Unsupported(write_expr(&assign(var("x"), num(-2)))).message(),
        "Unsupported expression type: AssignExpr { lhs: Var { value: String(\"x\") }, \
         rhs: Number { value: Number(-2) } }"
    );
}

#[test]
fn expressions_are_written_out() {
    let plain = [
        boolean(true),
        Expr::Null,
        text("say \"hi\" \\ there"),
        dot(var("a"), "b"),
        eq(var("a"), Expr::Bool { value: Value::Other }),
        Expr::BinExpr { op: BinOp::Union, lhs: Box::new(var("a")), rhs: Box::new(var("b")) },
        Expr::Array { items: vec![var("a"), Expr::ArrayCompr] },
        Expr::Object { fields: vec![(text("k"), var("v")), (text("l"), Expr::OrExpr)] },
        call("f", vec![var("x"), Expr::SetCompr]),
        Expr::UnaryExpr { expr: Box::new(brack(var("a"), Expr::ObjectCompr)) },
        Expr::Membership { value: Box::new(var("a")), collection: Box::new(var("b")) },
        Expr::RawString { value: Value::Null },
    ];
    for expr in &plain {
        assert_eq!(write_expr(expr), format!("{:?}", expr));
    }
    assert_eq!(
        write_expr(&arith(ArithOp::Mod, num(7), Expr::SetExpr { items: vec![num(-1)] })),
        "ArithExpr { op: Mod, lhs: Number { value: Number(7) }, \
         rhs: Set { items: [Number { value: Number(-1) }] } }"
    );
}

#[test]
fn join_conditions_are_recognised() {
    let column = SqlExpression::column;
    let aliases = vec!["u".to_string(), "ra".to_string(), "".to_string()];
    let link = SqlExpression::equals(column("ra.user_id"), column("u.id"));
    assert!(col_has_known_alias("u.id", &aliases));
    assert!(!col_has_known_alias("u", &aliases));
    assert!(col_has_known_alias(".id", &aliases));
    assert!(!col_has_known_alias("r.id", &aliases));
    assert!(is_join_condition(&link, &aliases));
    assert!(!is_join_condition(&column("u.id"), &aliases));
    assert!(!is_join_condition(
        &SqlExpression::equals(column("u.id"), SqlExpression::int_literal(1)),
        &aliases
    ));
    assert!(expression_contains_table_alias(&link, "ra"));
    assert!(!expression_contains_table_alias(&link, "r"));
    assert!(expression_contains_table_alias(
        &SqlExpression::function(
            "f",
            vec![
                SqlExpression::int_literal(1),
                SqlExpression::Unary {
                    op: SqlUnaryOp::Negate,
                    operand: Box::new(column("u.a")),
                },
            ]
        ),
        "u"
    ));
    let inside: Vec<SqlExpression> = vec![
        SqlExpression::Parenthesized(Box::new(column("u.id"))),
        SqlExpression::Array(vec![column("x"), column("u.id")]),
        SqlExpression::cast(column("u.id"), SqlDataType::Text),
        SqlExpression::between(column("a"), column("b"), column("u.id")),
        SqlExpression::ArrayIndex {
            expr: Box::new(column("a")),
            index: Box::new(column("u.id")),
        },
        SqlExpression::Case {
            conditions: vec![(column("a"), column("u.id"))],
            default: None,
        },
        SqlExpression::Case { conditions: vec![], default: Some(Box::new(column("u.id"))) },
    ];
    for expr in &inside {
        assert!(expression_contains_table_alias(expr, "u"));
        assert!(!expression_contains_table_alias(expr, "ra"));
    }
    assert!(!is_condition_for_var(&link, 0, &aliases));
    assert!(is_condition_for_var(&link, 1, &aliases));
    assert!(!is_condition_for_var(&link, 2, &aliases));
    let condition = extract_join_condition(&link, "ra").unwrap();
    assert_eq!(condition.left, column("u.id"));
    assert_eq!(condition.right, column("ra.user_id"));
    assert_eq!(condition.operator, SqlBinaryOp::Equal);
    assert_eq!(
        extract_join_condition(&column("u.id"), "u"),
        Err(fault(Fault::JoinCondition))
    );
}

#[test]
fn parts_are_put_together() {
    let column = SqlExpression::column;
    assert_eq!(make_table_column(1, "u", "id"), column("id"));
    assert_eq!(make_table_column(2, "u", "id"), column("u.id"));
    assert_eq!(combine_conditions(&vec![]), SqlExpression::bool_literal(true));
    assert_eq!(combine_conditions(&vec![column("a")]), column("a"));
    assert_eq!(
        combine_conditions(&vec![column("a"), column("b"), column("c")]),
        SqlExpression::and(SqlExpression::and(column("a"), column("b")), column("c"))
    );
    assert_eq!(make_projection("id".to_string(), column("u.id")).alias, None);
    assert_eq!(
        make_projection("id".to_string(), column("u.key")).alias,
        Some("id".to_string())
    );
    assert_eq!(
        translate_unary_call("count", column("a"), true),
        SqlExpression::function("ARRAY_LENGTH", vec![column("a")])
    );
    assert_eq!(
        translate_binary_call("regex.match", column("p"), column("s")),
        SqlExpression::Binary {
            op: SqlBinaryOp::RegexMatch,
            left: Box::new(column("s")),
            right: Box::new(column("p")),
        }
    );
    let query = assemble_query(
        &vec![("t".to_string(), "x".to_string()), ("s".to_string(), "y".to_string())],
        &vec!["p".to_string(), "q".to_string()],
        &vec![SqlExpression::equals(column("q.a"), column("p.a")), column("p.b")],
        "t",
        vec![],
    );
    assert_eq!(
        SqlCodeGenerator::new().with_pretty_print(false).generate(&query),
        "SELECT * FROM t p INNER JOIN s q ON p.a = q.a WHERE p.b"
    );
}

#[test]
fn maps_keep_the_last_value() {
    let mut map: StringMap<u8> = StringMap::new();
    map.insert("a".to_string(), 1);
    map.insert("b".to_string(), 2);
    map.insert("a".to_string(), 3);
    assert_eq!(map.get("a"), Some(&3));
    assert_eq!(map.get("b"), Some(&2));
    assert_eq!(map.get("c"), None);
    map.clear();
    assert_eq!(map.get("a"), None);
}
