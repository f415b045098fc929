//! Parentheses in arithmetic.

use rego_sql::ast::ArithOp;
use rego_sql::rego_to_sql_ir::parenthesize_if_lower_precedence;
use rego_sql::sql_codegen::SqlCodeGenerator;
use rego_sql::sql_ir::{SqlBinaryOp, SqlExpression};

fn child(op: SqlBinaryOp) -> SqlExpression {
    SqlExpression::Binary {
        op,
        left: Box::new(SqlExpression::column("b")),
        right: Box::new(SqlExpression::column("c")),
    }
}

fn text(op: SqlBinaryOp, parent: ArithOp, is_left: bool) -> String {
    let wrapped = parenthesize_if_lower_precedence(child(op), parent, is_left);
    SqlCodeGenerator::new().generate_expression(&wrapped)
}

#[test]
fn sums_are_wrapped_under_products() {
    assert_eq!(text(SqlBinaryOp::Add, ArithOp::Mul, true), "(b + c)");
    assert_eq!(text(SqlBinaryOp::Subtract, ArithOp::Div, false), "(b - c)");
    assert_eq!(text(SqlBinaryOp::Add, ArithOp::Mod, true), "(b + c)");
}

#[test]
fn right_operands_of_products_are_wrapped() {
    assert_eq!(text(SqlBinaryOp::Divide, ArithOp::Mul, false), "(b / c)");
    assert_eq!(text(SqlBinaryOp::Divide, ArithOp::Mul, true), "b / c");
}

#[test]
fn sums_are_wrapped_on_the_right_of_minus() {
    assert_eq!(text(SqlBinaryOp::Add, ArithOp::Sub, false), "(b + c)");
    assert_eq!(text(SqlBinaryOp::Add, ArithOp::Sub, true), "b + c");
    assert_eq!(text(SqlBinaryOp::Subtract, ArithOp::Add, false), "b - c");
    assert_eq!(text(SqlBinaryOp::Multiply, ArithOp::Sub, false), "b * c");
}

#[test]
fn nothing_but_arithmetic_is_wrapped() {
    assert_eq!(text(SqlBinaryOp::Equal, ArithOp::Mul, false), "b = c");
    assert_eq!(text(SqlBinaryOp::Concat, ArithOp::Sub, false), "b || c");
}
