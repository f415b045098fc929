//! Calls of built-in functions, and positions in arrays, as SQL has them.

use crate::errors::{reject, Fault, TranslateError};
use crate::model::{expr_models, ExprModel};
use crate::sql_ir::{SqlBinaryOp, SqlDataType, SqlExpression, SqlLiteral};
use crate::text::{cat3, same_text};
use crate::translation::{
    binary_builtin, call, expr_outcome, inclusive_end, like_pattern, one_based, sql_function_name,
    text_literal, unary_builtin,
};
use vstd::prelude::*;

verus! {

/// A function call with one argument.
fn call1(name: &str, x: SqlExpression) -> (r: SqlExpression)
    ensures
        r@ == call(name@, seq![x@]),
{
    let mut args: Vec<SqlExpression> = Vec::new();
    args.push(x);
    proof {
        assert(expr_models(args@) =~= seq![x@]);
    }
    SqlExpression::function(name, args)
}

/// A function call with two arguments.
pub(crate) fn call2(name: &str, x: SqlExpression, y: SqlExpression) -> (r: SqlExpression)
    ensures
        r@ == call(name@, seq![x@, y@]),
{
    let mut args: Vec<SqlExpression> = Vec::new();
    args.push(x);
    args.push(y);
    proof {
        assert(expr_models(args@) =~= seq![x@, y@]);
    }
    SqlExpression::function(name, args)
}

/// A function call with three arguments.
pub(crate) fn call3(
    name: &str,
    x: SqlExpression,
    y: SqlExpression,
    z: SqlExpression,
) -> (r: SqlExpression)
    ensures
        r@ == call(name@, seq![x@, y@, z@]),
{
    let mut args: Vec<SqlExpression> = Vec::new();
    args.push(x);
    args.push(y);
    args.push(z);
    proof {
        assert(expr_models(args@) =~= seq![x@, y@, z@]);
    }
    SqlExpression::function(name, args)
}

/// The SQL name of a function that is called with the same arguments in SQL.
pub(crate) fn translate_function_name(name: &str) -> (r: String)
    ensures
        r@ == sql_function_name(name@),
{
    if same_text(name, "lower") {
        "LOWER".to_string()
    } else if same_text(name, "upper") {
        "UPPER".to_string()
    } else if same_text(name, "abs") {
        "ABS".to_string()
    } else if same_text(name, "floor") {
        "FLOOR".to_string()
    } else if same_text(name, "ceil") {
        "CEIL".to_string()
    } else if same_text(name, "trim") {
        "TRIM".to_string()
    } else if same_text(name, "length") {
        "LENGTH".to_string()
    } else if same_text(name, "replace") {
        "REPLACE".to_string()
    } else if same_text(name, "concat") {
        "CONCAT".to_string()
    } else if same_text(name, "sum") {
        "SUM".to_string()
    } else if same_text(name, "avg") {
        "AVG".to_string()
    } else if same_text(name, "min") {
        "MIN".to_string()
    } else if same_text(name, "max") {
        "MAX".to_string()
    } else {
        name.to_string()
    }
}

/// A comparison of the type of a value with a type name.
fn type_test(x: SqlExpression, wanted: &str) -> (r: SqlExpression)
    ensures
        r@ == ExprModel::binary(
            SqlBinaryOp::Equal,
            call("TYPEOF"@, seq![x@]),
            text_literal(wanted@),
        ),
{
    SqlExpression::equals(call1("TYPEOF", x), SqlExpression::string_literal(wanted))
}

/// The call of a function with one argument.
pub fn translate_unary_call(name: &str, x: SqlExpression, x_is_array: bool) -> (r: SqlExpression)
    ensures
        r@ == match unary_builtin(name@, x@, x_is_array) {
            Some(e) => e,
            None => call(sql_function_name(name@), seq![x@]),
        },
{
    if same_text(name, "is_string") {
        type_test(x, "text")
    } else if same_text(name, "is_number") {
        let copy: SqlExpression = x.clone();
        SqlExpression::or(type_test(copy, "integer"), type_test(x, "real"))
    } else if same_text(name, "is_null") {
        SqlExpression::binary(SqlBinaryOp::IsNull, x, SqlExpression::null_literal())
    } else if same_text(name, "count") {
        if x_is_array {
            call1("ARRAY_LENGTH", x)
        } else {
            call1("LENGTH", x)
        }
    } else if same_text(name, "sort") {
        call1("ARRAY_SORT", x)
    } else if same_text(name, "to_number") {
        SqlExpression::cast(x, SqlDataType::Numeric)
    } else if same_text(name, "round") {
        call1("ROUND", x)
    } else if same_text(name, "sqrt") {
        call1("SQRT", x)
    } else if same_text(name, "sin") {
        call1("SIN", x)
    } else if same_text(name, "cos") {
        call1("COS", x)
    } else if same_text(name, "tan") {
        call1("TAN", x)
    } else if same_text(name, "array.reverse") {
        call1("array_reverse", x)
    } else if same_text(name, "array.length") {
        call1("ARRAY_LENGTH", x)
    } else if same_text(name, "strings.reverse") {
        call1("REVERSE", x)
    } else if same_text(name, "base64.encode") {
        call2("ENCODE", x, SqlExpression::string_literal("BASE64"))
    } else if same_text(name, "base64.decode") {
        call2("DECODE", x, SqlExpression::string_literal("BASE64"))
    } else {
        let sql_name: String = translate_function_name(name);
        call1(sql_name.as_str(), x)
    }
}

/// The pattern that finds `needle`, with anything before it where `before` and
/// anything after it where `after`.
fn make_pattern(needle: SqlExpression, before: bool, after: bool) -> (r: SqlExpression)
    ensures
        r@ == like_pattern(needle@, before, after),
{
    match needle {
        SqlExpression::Literal(SqlLiteral::String(s)) => {
            let head = if before {
                "%"
            } else {
                ""
            };
            let tail = if after {
                "%"
            } else {
                ""
            };
            SqlExpression::Literal(SqlLiteral::String(cat3(head, s.as_str(), tail)))
        },
        _ => {
            let mut args: Vec<SqlExpression> = Vec::new();
            if before {
                args.push(SqlExpression::string_literal("%"));
            }
            args.push(needle);
            if after {
                args.push(SqlExpression::string_literal("%"));
            }
            proof {
                let head = if before {
                    seq![text_literal("%"@)]
                } else {
                    Seq::empty()
                };
                let tail = if after {
                    seq![text_literal("%"@)]
                } else {
                    Seq::empty()
                };
                assert(expr_models(args@) =~= head + seq![needle@] + tail);
            }
            SqlExpression::function("CONCAT", args)
        },
    }
}

/// The call of a function with two arguments.
pub fn translate_binary_call(name: &str, x: SqlExpression, y: SqlExpression) -> (r: SqlExpression)
    ensures
        r@ == match binary_builtin(name@, x@, y@) {
            Some(e) => e,
            None => call(sql_function_name(name@), seq![x@, y@]),
        },
{
    if same_text(name, "trim_left") {
        call1("LTRIM", x)
    } else if same_text(name, "trim_right") {
        call1("RTRIM", x)
    } else if same_text(name, "format_int") {
        SqlExpression::cast(x, SqlDataType::Varchar(None))
    } else if same_text(name, "pow") {
        call2("POWER", x, y)
    } else if same_text(name, "round") {
        call2("ROUND", x, y)
    } else if same_text(name, "array.concat") {
        SqlExpression::binary(SqlBinaryOp::Concat, x, y)
    } else if same_text(name, "regex.match") {
        SqlExpression::binary(SqlBinaryOp::RegexMatch, y, x)
    } else if same_text(name, "contains") {
        SqlExpression::binary(SqlBinaryOp::Like, x, make_pattern(y, true, true))
    } else if same_text(name, "startswith") {
        SqlExpression::binary(SqlBinaryOp::Like, x, make_pattern(y, false, true))
    } else if same_text(name, "endswith") {
        SqlExpression::binary(SqlBinaryOp::Like, x, make_pattern(y, true, false))
    } else {
        let sql_name: String = translate_function_name(name);
        call2(sql_name.as_str(), x, y)
    }
}

/// The SQL position of a Rego position.
pub(crate) fn shift_index(index: SqlExpression) -> (r: Result<SqlExpression, TranslateError>)
    ensures
        expr_outcome(r) == one_based(index@),
{
    match index {
        SqlExpression::Literal(SqlLiteral::Integer(n)) => if n < i64::MAX {
            Ok(SqlExpression::int_literal(n + 1))
        } else {
            reject(Fault::IndexRange)
        },
        _ => Ok(SqlExpression::binary(SqlBinaryOp::Add, index, SqlExpression::int_literal(1))),
    }
}

/// The last position before an end position.
pub(crate) fn make_inclusive(end: SqlExpression) -> (r: Result<SqlExpression, TranslateError>)
    ensures
        expr_outcome(r) == inclusive_end(end@),
{
    match end {
        SqlExpression::Literal(SqlLiteral::Integer(n)) => if n > i64::MIN {
            Ok(SqlExpression::int_literal(n - 1))
        } else {
            reject(Fault::IndexRange)
        },
        _ => Ok(SqlExpression::binary(SqlBinaryOp::Subtract, end, SqlExpression::int_literal(1))),
    }
}

} // verus!
