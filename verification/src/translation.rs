//! What a Rego rule means in SQL.
//!
//! These functions say which intermediate representation stands for a Rego
//! expression, statement or rule, or why there is none. The translator is
//! proved to build it.

use crate::ast::{
    ArithOp, BinOp, BoolOp, Expr, Literal, LiteralStmt, Number, Rule, RuleBody, RuleHead, Value,
};
use crate::ast_text::expr_text;
use crate::errors::{ErrorModel, Fault, TranslateError};
use crate::model::{
    ColumnModel, ExprModel, InputModel, JoinConditionModel, JoinSourceModel, LiteralModel,
    OperationModel, QueryModel,
};
use crate::sql_ir::{SqlBinaryOp, SqlDataType, SqlExpression, SqlJoinKind, SqlQuery, SqlUnaryOp};
use crate::text::{after_last, before_first, begins_with, initials, joined, lowercase_of};
use vstd::prelude::*;

verus! {

/// The failure with a given fault.
pub open spec fn rejected<T>(fault: Fault) -> Result<T, ErrorModel> {
    Err(ErrorModel::Rejected(fault))
}

/// The outcome of translating an expression.
pub open spec fn expr_outcome(r: Result<SqlExpression, TranslateError>) -> Result<
    ExprModel,
    ErrorModel,
> {
    match r {
        Ok(e) => Ok(e@),
        Err(error) => Err(error@),
    }
}

/// The outcome of reading a name.
pub open spec fn text_outcome(r: Result<String, TranslateError>) -> Result<Seq<char>, ErrorModel> {
    match r {
        Ok(s) => Ok(s@),
        Err(error) => Err(error@),
    }
}

/// The outcome of translating a rule.
pub open spec fn query_outcome(r: Result<SqlQuery, TranslateError>) -> Result<
    QueryModel,
    ErrorModel,
> {
    match r {
        Ok(query) => Ok(query@),
        Err(error) => Err(error@),
    }
}

/// The outcome of a step that gives nothing.
pub open spec fn unit_outcome(r: Result<(), TranslateError>) -> Result<(), ErrorModel> {
    match r {
        Ok(()) => Ok(()),
        Err(error) => Err(error@),
    }
}

/// The comparison operator of SQL for one of Rego.
pub open spec fn comparison(op: BoolOp) -> SqlBinaryOp {
    match op {
        BoolOp::Eq => SqlBinaryOp::Equal,
        BoolOp::Ne => SqlBinaryOp::NotEqual,
        BoolOp::Lt => SqlBinaryOp::LessThan,
        BoolOp::Le => SqlBinaryOp::LessThanOrEqual,
        BoolOp::Gt => SqlBinaryOp::GreaterThan,
        BoolOp::Ge => SqlBinaryOp::GreaterThanOrEqual,
    }
}

/// The arithmetic operator of SQL for one of Rego.
pub open spec fn arithmetic(op: ArithOp) -> SqlBinaryOp {
    match op {
        ArithOp::Add => SqlBinaryOp::Add,
        ArithOp::Sub => SqlBinaryOp::Subtract,
        ArithOp::Mul => SqlBinaryOp::Multiply,
        ArithOp::Div => SqlBinaryOp::Divide,
        ArithOp::Mod => SqlBinaryOp::Modulo,
    }
}

/// The operator of SQL for a set operator of Rego.
pub open spec fn set_operation(op: BinOp) -> SqlBinaryOp {
    match op {
        BinOp::Intersection => SqlBinaryOp::In,
        BinOp::Union => SqlBinaryOp::Or,
    }
}

/// Whether the operator is `*`, `/` or `%`.
pub open spec fn is_multiplicative(op: SqlBinaryOp) -> bool {
    op == SqlBinaryOp::Multiply || op == SqlBinaryOp::Divide || op == SqlBinaryOp::Modulo
}

/// Whether the operator is `+` or `-`.
pub open spec fn is_additive(op: SqlBinaryOp) -> bool {
    op == SqlBinaryOp::Add || op == SqlBinaryOp::Subtract
}

/// Whether an operand needs parentheses under an arithmetic operator: a sum or
/// difference under `*`, `/` or `%`; any arithmetic on the right of those; a sum
/// or difference on the right of `-`.
pub open spec fn needs_parentheses(e: ExprModel, parent: ArithOp, is_left: bool) -> bool {
    match e {
        ExprModel::Binary { op, left, right } => {
            ||| is_multiplicative(arithmetic(parent)) && is_additive(op)
            ||| is_multiplicative(arithmetic(parent)) && is_multiplicative(op) && !is_left
            ||| parent == ArithOp::Sub && is_additive(op) && !is_left
        },
        _ => false,
    }
}

/// An operand, in parentheses where it needs them.
pub open spec fn parenthesized(e: ExprModel, parent: ArithOp, is_left: bool) -> ExprModel {
    if needs_parentheses(e, parent, is_left) {
        ExprModel::Parenthesized(Box::new(e))
    } else {
        e
    }
}

/// Whether an expression is a predicate.
pub open spec fn is_boolean(e: ExprModel) -> bool {
    match e {
        ExprModel::Binary { op, left, right } => match op {
            SqlBinaryOp::Add
            | SqlBinaryOp::Subtract
            | SqlBinaryOp::Multiply
            | SqlBinaryOp::Divide
            | SqlBinaryOp::Modulo
            | SqlBinaryOp::Concat => false,
            _ => true,
        },
        ExprModel::Unary { op, operand } => op == SqlUnaryOp::Not || op == SqlUnaryOp::Exists,
        ExprModel::Literal(literal) => literal is Boolean,
        _ => false,
    }
}

/// A condition of a query: a predicate as it is, anything else as a test that it
/// is not null.
pub open spec fn condition(e: ExprModel) -> ExprModel {
    if is_boolean(e) {
        e
    } else {
        ExprModel::binary(SqlBinaryOp::IsNotNull, e, null())
    }
}

/// The null literal.
pub open spec fn null() -> ExprModel {
    ExprModel::Literal(LiteralModel::Null)
}

/// A comparison. Equality with null on either side is a test for null, since
/// nothing is equal to null in SQL.
pub open spec fn compared(op: BoolOp, left: ExprModel, right: ExprModel) -> ExprModel {
    if (op == BoolOp::Eq || op == BoolOp::Ne) && (left == null() || right == null()) {
        ExprModel::binary(
            if op == BoolOp::Eq {
                SqlBinaryOp::IsNull
            } else {
                SqlBinaryOp::IsNotNull
            },
            if right == null() {
                left
            } else {
                right
            },
            null(),
        )
    } else {
        ExprModel::binary(comparison(op), left, right)
    }
}

/// A string literal.
pub open spec fn text_literal(s: Seq<char>) -> ExprModel {
    ExprModel::Literal(LiteralModel::String(s))
}

/// An integer literal.
pub open spec fn integer(n: i64) -> ExprModel {
    ExprModel::Literal(LiteralModel::Integer(n))
}

/// A function call.
pub open spec fn call(name: Seq<char>, args: Seq<ExprModel>) -> ExprModel {
    ExprModel::Function { name, args }
}

/// The content of a string value.
pub open spec fn string_of_value(value: Value, fault: Fault) -> Result<Seq<char>, ErrorModel> {
    match value {
        Value::String(s) => Ok(s@),
        _ => rejected(fault),
    }
}

/// The short name of a table that a variable ranges over: the first letters of
/// the words in the variable's name.
pub open spec fn alias_of(var: Seq<char>) -> Seq<char> {
    lowercase_of(initials(var))
}

/// The literal for a number: floating-point numbers stay what they are, even
/// when they are whole.
pub open spec fn number_literal(n: Number) -> LiteralModel {
    match n {
        Number::Float(f) => LiteralModel::Float(f@),
        _ => if n.integral() {
            LiteralModel::Integer(
                match n.signed() {
                    Some(i) => i,
                    None => 0,
                },
            )
        } else {
            LiteralModel::Float(
                match n {
                    Number::Big(big) => match big.as_f64 {
                        Some(f) => f@,
                        None => "0"@,
                    },
                    _ => "0"@,
                },
            )
        },
    }
}

/// The path under `input` that an expression names, if it names one.
pub open spec fn input_path(e: Expr) -> Result<Option<Seq<Seq<char>>>, ErrorModel>
    decreases e,
{
    match e {
        Expr::Var { value } => match string_of_value(value, Fault::VariableName) {
            Ok(name) => Ok(
                if name == "input"@ {
                    Some(Seq::empty())
                } else {
                    None
                },
            ),
            Err(error) => Err(error),
        },
        Expr::RefDot { refr, field } => match input_path(*refr) {
            Ok(Some(path)) => match string_of_value(field, Fault::FieldName) {
                Ok(name) => Ok(Some(path.push(name))),
                Err(error) => Err(error),
            },
            Ok(None) => Ok(None),
            Err(error) => Err(error),
        },
        Expr::RefBrack { refr, index } => match input_path(*refr) {
            Ok(Some(path)) => match *index {
                Expr::String { value } => match string_of_value(value, Fault::InputFieldName) {
                    Ok(name) => Ok(Some(path.push(name))),
                    Err(error) => Err(error),
                },
                _ => rejected(Fault::InputIndex),
            },
            Ok(None) => Ok(None),
            Err(error) => Err(error),
        },
        _ => Ok(None),
    }
}

/// The name of a called function, with its namespaces.
pub open spec fn function_name(e: Expr) -> Result<Seq<char>, ErrorModel>
    decreases e,
{
    match e {
        Expr::Var { value } => string_of_value(value, Fault::FunctionName),
        Expr::RefDot { refr, field } => match function_name(*refr) {
            Ok(namespace) => match string_of_value(field, Fault::FunctionField) {
                Ok(name) => Ok(namespace + "."@ + name),
                Err(error) => Err(error),
            },
            Err(error) => Err(error),
        },
        _ => rejected(Fault::FunctionForm),
    }
}

/// The name of a variable.
pub open spec fn variable_name(e: Expr) -> Result<Seq<char>, ErrorModel> {
    match e {
        Expr::Var { value } => string_of_value(value, Fault::VariableName),
        _ => Err(ErrorModel::ExpectedVariable(expr_text(e))),
    }
}

/// The table that a collection names.
pub open spec fn table_name(e: Expr) -> Result<Seq<char>, ErrorModel> {
    match e {
        Expr::RefDot { refr, field } => match *refr {
            Expr::Var { value } => match string_of_value(value, Fault::VariableName) {
                Ok(name) => if name == "data"@ {
                    string_of_value(field, Fault::FieldName)
                } else {
                    rejected(Fault::Collection)
                },
                Err(error) => Err(error),
            },
            _ => string_of_value(field, Fault::FieldName),
        },
        _ => rejected(Fault::Collection),
    }
}

/// The last field that a chain of references names.
pub open spec fn last_field(e: Expr) -> Option<Seq<char>>
    decreases e,
{
    match e {
        Expr::RefDot { refr, field } => match field {
            Value::String(s) => Some(s@),
            _ => None,
        },
        Expr::RefBrack { refr, index } => last_field(*refr),
        _ => None,
    }
}

/// The columns that an expression indexes by a number.
pub open spec fn indexed_columns(e: Expr) -> Set<Seq<char>>
    decreases e,
{
    match e {
        Expr::RefBrack { refr, index } => {
            let inner = indexed_columns(*refr).union(indexed_columns(*index));
            match (*index, last_field(*refr)) {
                (Expr::Number { value }, Some(name)) => inner.insert(name),
                _ => inner,
            }
        },
        Expr::BoolExpr { op, lhs, rhs } => indexed_columns(*lhs).union(indexed_columns(*rhs)),
        Expr::ArithExpr { op, lhs, rhs } => indexed_columns(*lhs).union(indexed_columns(*rhs)),
        Expr::BinExpr { op, lhs, rhs } => indexed_columns(*lhs).union(indexed_columns(*rhs)),
        Expr::AssignExpr { lhs, rhs } => indexed_columns(*lhs).union(indexed_columns(*rhs)),
        Expr::Object { fields } => indexed_columns_of_fields(fields@),
        Expr::Array { items } => indexed_columns_of(items@),
        Expr::SetExpr { items } => indexed_columns_of(items@),
        Expr::Call { fcn, params } => indexed_columns(*fcn).union(indexed_columns_of(params@)),
        Expr::Membership { value, collection } => indexed_columns(*value).union(
            indexed_columns(*collection),
        ),
        Expr::RefDot { refr, field } => indexed_columns(*refr),
        Expr::UnaryExpr { expr } => indexed_columns(*expr),
        _ => Set::empty(),
    }
}

/// The columns that any of the expressions indexes by a number.
pub open spec fn indexed_columns_of(es: Seq<Expr>) -> Set<Seq<char>>
    decreases es,
{
    if es.len() == 0 {
        Set::empty()
    } else {
        indexed_columns_of(es.drop_last()).union(indexed_columns(es.last()))
    }
}

/// The columns that any of the keys and values of an object indexes by a number.
pub open spec fn indexed_columns_of_fields(fields: Seq<(Expr, Expr)>) -> Set<Seq<char>>
    decreases fields,
{
    if fields.len() == 0 {
        Set::empty()
    } else {
        indexed_columns_of_fields(fields.drop_last()).union(
            indexed_columns(fields.last().0),
        ).union(indexed_columns(fields.last().1))
    }
}

/// The columns that a statement indexes by a number.
pub open spec fn indexed_columns_of_statement(literal: Literal) -> Set<Seq<char>> {
    match literal {
        Literal::Expr { expr } => indexed_columns(expr),
        Literal::NotExpr { expr } => indexed_columns(expr),
        _ => Set::empty(),
    }
}

/// The columns that the statements of a body index by a number.
pub open spec fn indexed_columns_of_statements(stmts: Seq<LiteralStmt>) -> Set<Seq<char>>
    decreases stmts.len(),
{
    if stmts.len() == 0 {
        Set::empty()
    } else {
        indexed_columns_of_statements(stmts.drop_last()).union(
            indexed_columns_of_statement(stmts.last().literal),
        )
    }
}

/// The columns that the statements and the assigned value of a body index by a
/// number.
pub open spec fn indexed_columns_of_body(body: RuleBody) -> Set<Seq<char>> {
    indexed_columns_of_statements(body.query.stmts@).union(
        match body.assign {
            Some(assign) => indexed_columns(assign.value),
            None => Set::empty(),
        },
    )
}

/// The value at a path of JSON keys, still as JSON.
pub open spec fn json_extracted(base: ExprModel, keys: Seq<Seq<char>>) -> ExprModel
    decreases keys.len(),
{
    if keys.len() == 0 {
        base
    } else {
        call(
            "json_extract"@,
            seq![json_extracted(base, keys.drop_last()), text_literal(keys.last())],
        )
    }
}

/// The value at a path of JSON keys: every key but the last is looked up as
/// JSON, the last one as text.
pub open spec fn json_path(base: ExprModel, keys: Seq<Seq<char>>) -> ExprModel {
    if keys.len() == 0 {
        base
    } else {
        call(
            "json_extract_text"@,
            seq![json_extracted(base, keys.drop_last()), text_literal(keys.last())],
        )
    }
}

/// Whether an expression looks up JSON as text.
pub open spec fn is_json_text(e: ExprModel) -> bool {
    match e {
        ExprModel::Function { name, args } => name == "json_extract_text"@,
        _ => false,
    }
}

/// The SQL position of a Rego position: Rego counts from 0, SQL from 1.
pub open spec fn one_based(index: ExprModel) -> Result<ExprModel, ErrorModel> {
    match index {
        ExprModel::Literal(LiteralModel::Integer(n)) => if n < i64::MAX {
            Ok(integer((n + 1) as i64))
        } else {
            rejected(Fault::IndexRange)
        },
        _ => Ok(ExprModel::binary(SqlBinaryOp::Add, index, integer(1))),
    }
}

/// The last position before an end position.
pub open spec fn inclusive_end(end: ExprModel) -> Result<ExprModel, ErrorModel> {
    match end {
        ExprModel::Literal(LiteralModel::Integer(n)) => if n > i64::MIN {
            Ok(integer((n - 1) as i64))
        } else {
            rejected(Fault::IndexRange)
        },
        _ => Ok(ExprModel::binary(SqlBinaryOp::Subtract, end, integer(1))),
    }
}

/// The pattern that finds `needle`, with anything before it where `before` and
/// anything after it where `after`.
pub open spec fn like_pattern(needle: ExprModel, before: bool, after: bool) -> ExprModel {
    let head = if before {
        "%"@
    } else {
        ""@
    };
    let tail = if after {
        "%"@
    } else {
        ""@
    };
    match needle {
        ExprModel::Literal(LiteralModel::String(s)) => text_literal(head + s + tail),
        _ => call(
            "CONCAT"@,
            (if before {
                seq![text_literal("%"@)]
            } else {
                Seq::empty()
            }) + seq![needle] + (if after {
                seq![text_literal("%"@)]
            } else {
                Seq::empty()
            }),
        ),
    }
}

/// The SQL name of a function that is called with the same arguments in SQL.
pub open spec fn sql_function_name(name: Seq<char>) -> Seq<char> {
    if name == "lower"@ {
        "LOWER"@
    } else if name == "upper"@ {
        "UPPER"@
    } else if name == "abs"@ {
        "ABS"@
    } else if name == "floor"@ {
        "FLOOR"@
    } else if name == "ceil"@ {
        "CEIL"@
    } else if name == "trim"@ {
        "TRIM"@
    } else if name == "length"@ {
        "LENGTH"@
    } else if name == "replace"@ {
        "REPLACE"@
    } else if name == "concat"@ {
        "CONCAT"@
    } else if name == "sum"@ {
        "SUM"@
    } else if name == "avg"@ {
        "AVG"@
    } else if name == "min"@ {
        "MIN"@
    } else if name == "max"@ {
        "MAX"@
    } else {
        name
    }
}

/// A call of a built-in function with one argument, where it is not called in
/// SQL as it is in Rego.
pub open spec fn unary_builtin(name: Seq<char>, x: ExprModel, x_is_array: bool) -> Option<
    ExprModel,
> {
    if name == "is_string"@ {
        Some(
            ExprModel::binary(
                SqlBinaryOp::Equal,
                call("TYPEOF"@, seq![x]),
                text_literal("text"@),
            ),
        )
    } else if name == "is_number"@ {
        Some(
            ExprModel::binary(
                SqlBinaryOp::Or,
                ExprModel::binary(
                    SqlBinaryOp::Equal,
                    call("TYPEOF"@, seq![x]),
                    text_literal("integer"@),
                ),
                ExprModel::binary(
                    SqlBinaryOp::Equal,
                    call("TYPEOF"@, seq![x]),
                    text_literal("real"@),
                ),
            ),
        )
    } else if name == "is_null"@ {
        Some(ExprModel::binary(SqlBinaryOp::IsNull, x, null()))
    } else if name == "count"@ {
        Some(
            call(
                if x_is_array {
                    "ARRAY_LENGTH"@
                } else {
                    "LENGTH"@
                },
                seq![x],
            ),
        )
    } else if name == "sort"@ {
        Some(call("ARRAY_SORT"@, seq![x]))
    } else if name == "to_number"@ {
        Some(ExprModel::Cast { expression: Box::new(x), target_type: SqlDataType::Numeric })
    } else if name == "round"@ {
        Some(call("ROUND"@, seq![x]))
    } else if name == "sqrt"@ {
        Some(call("SQRT"@, seq![x]))
    } else if name == "sin"@ {
        Some(call("SIN"@, seq![x]))
    } else if name == "cos"@ {
        Some(call("COS"@, seq![x]))
    } else if name == "tan"@ {
        Some(call("TAN"@, seq![x]))
    } else if name == "array.reverse"@ {
        Some(call("array_reverse"@, seq![x]))
    } else if name == "array.length"@ {
        Some(call("ARRAY_LENGTH"@, seq![x]))
    } else if name == "strings.reverse"@ {
        Some(call("REVERSE"@, seq![x]))
    } else if name == "base64.encode"@ {
        Some(call("ENCODE"@, seq![x, text_literal("BASE64"@)]))
    } else if name == "base64.decode"@ {
        Some(call("DECODE"@, seq![x, text_literal("BASE64"@)]))
    } else {
        None
    }
}

/// A call of a built-in function with two arguments, where it is not called in
/// SQL as it is in Rego.
pub open spec fn binary_builtin(name: Seq<char>, x: ExprModel, y: ExprModel) -> Option<ExprModel> {
    if name == "trim_left"@ {
        Some(call("LTRIM"@, seq![x]))
    } else if name == "trim_right"@ {
        Some(call("RTRIM"@, seq![x]))
    } else if name == "format_int"@ {
        Some(ExprModel::Cast { expression: Box::new(x), target_type: SqlDataType::Varchar(None) })
    } else if name == "pow"@ {
        Some(call("POWER"@, seq![x, y]))
    } else if name == "round"@ {
        Some(call("ROUND"@, seq![x, y]))
    } else if name == "array.concat"@ {
        Some(ExprModel::binary(SqlBinaryOp::Concat, x, y))
    } else if name == "regex.match"@ {
        Some(ExprModel::binary(SqlBinaryOp::RegexMatch, y, x))
    } else if name == "contains"@ {
        Some(ExprModel::binary(SqlBinaryOp::Like, x, like_pattern(y, true, true)))
    } else if name == "startswith"@ {
        Some(ExprModel::binary(SqlBinaryOp::Like, x, like_pattern(y, false, true)))
    } else if name == "endswith"@ {
        Some(ExprModel::binary(SqlBinaryOp::Like, x, like_pattern(y, true, false)))
    } else {
        None
    }
}

/// Whether an expression refers to a column of the table with the given short
/// name. The short names inside a nested query are its own.
pub open spec fn refers_to(e: ExprModel, alias: Seq<char>) -> bool
    decreases e,
{
    match e {
        ExprModel::Column(name) => begins_with(name, alias + "."@),
        ExprModel::Binary { op, left, right } => refers_to(*left, alias) || refers_to(
            *right,
            alias,
        ),
        ExprModel::Unary { op, operand } => refers_to(*operand, alias),
        ExprModel::Function { name, args } => any_refers_to(args, alias),
        ExprModel::Array(items) => any_refers_to(items, alias),
        ExprModel::Case { conditions, default } => any_branch_refers_to(conditions, alias) || (
        match default {
            Some(d) => refers_to(*d, alias),
            None => false,
        }),
        ExprModel::Parenthesized(inner) => refers_to(*inner, alias),
        ExprModel::Cast { expression, target_type } => refers_to(*expression, alias),
        ExprModel::Between { expression, lower, upper, not } => refers_to(*expression, alias)
            || refers_to(*lower, alias) || refers_to(*upper, alias),
        ExprModel::ArrayIndex { expr, index } => refers_to(*expr, alias) || refers_to(
            *index,
            alias,
        ),
        ExprModel::Literal(_) => false,
        ExprModel::InjectedVariable(_) => false,
        ExprModel::Subquery(_) => false,
    }
}

/// Whether any of the expressions refers to a column of the table with the given
/// short name.
pub open spec fn any_refers_to(es: Seq<ExprModel>, alias: Seq<char>) -> bool
    decreases es,
{
    es.len() > 0 && (any_refers_to(es.drop_last(), alias) || refers_to(es.last(), alias))
}

/// Whether any of the branches refers to a column of the table with the given
/// short name.
pub open spec fn any_branch_refers_to(
    branches: Seq<(ExprModel, ExprModel)>,
    alias: Seq<char>,
) -> bool
    decreases branches,
{
    branches.len() > 0 && (any_branch_refers_to(branches.drop_last(), alias) || refers_to(
        branches.last().0,
        alias,
    ) || refers_to(branches.last().1, alias))
}

/// Whether a column has one of the given short names before its first dot.
pub open spec fn has_known_alias(column: Seq<char>, aliases: Seq<Seq<char>>) -> bool {
    column.contains('.') && aliases.contains(before_first(column, '.'))
}

/// Whether a condition joins tables: it equates two columns of known tables.
pub open spec fn is_join(e: ExprModel, aliases: Seq<Seq<char>>) -> bool {
    match e {
        ExprModel::Binary { op, left, right } => match (op, *left, *right) {
            (SqlBinaryOp::Equal, ExprModel::Column(l), ExprModel::Column(r)) => has_known_alias(
                l,
                aliases,
            ) && has_known_alias(r, aliases),
            _ => false,
        },
        _ => false,
    }
}

/// Whether an expression is an equality.
pub open spec fn is_equality(e: ExprModel) -> bool {
    match e {
        ExprModel::Binary { op, left, right } => op == SqlBinaryOp::Equal,
        _ => false,
    }
}

/// Whether a join condition stands in the `ON` clause of table number `idx`: it
/// refers to that table and to no table after it.
pub open spec fn belongs_to(e: ExprModel, idx: int, aliases: Seq<Seq<char>>) -> bool {
    &&& aliases[idx].len() > 0
    &&& refers_to(e, aliases[idx])
    &&& !exists|j: int|
        idx < j < aliases.len() && aliases[j].len() > 0 && refers_to(e, #[trigger] aliases[j])
}

/// Whether a condition joins tables and stands in the `ON` clause of table number
/// `idx`.
pub open spec fn stands_on(e: ExprModel, idx: int, aliases: Seq<Seq<char>>) -> bool {
    is_join(e, aliases) && belongs_to(e, idx, aliases)
}

/// A join condition for the table with the given short name: the column of the
/// earlier table stands on the left.
pub open spec fn oriented(e: ExprModel, alias: Seq<char>) -> JoinConditionModel {
    match e {
        ExprModel::Binary { op, left, right } => if refers_to(*left, alias) {
            JoinConditionModel { left: *right, right: *left, operator: SqlBinaryOp::Equal }
        } else {
            JoinConditionModel { left: *left, right: *right, operator: SqlBinaryOp::Equal }
        },
        _ => arbitrary(),
    }
}

/// All of the conditions at once.
pub open spec fn conjunction(conditions: Seq<ExprModel>) -> ExprModel
    decreases conditions.len(),
{
    if conditions.len() == 0 {
        ExprModel::Literal(LiteralModel::Boolean(true))
    } else if conditions.len() == 1 {
        conditions[0]
    } else {
        ExprModel::binary(
            SqlBinaryOp::And,
            conjunction(conditions.drop_last()),
            conditions.last(),
        )
    }
}

/// The first table with a name that is not empty, or the empty name.
pub open spec fn first_table(tables: Seq<(Seq<char>, Seq<char>)>) -> Seq<char>
    decreases tables.len(),
{
    if tables.len() == 0 {
        Seq::empty()
    } else {
        let earlier = first_table(tables.drop_last());
        if earlier.len() > 0 {
            earlier
        } else {
            tables.last().0
        }
    }
}

/// A table with its short name behind it, where it has one.
pub open spec fn with_alias(table: Seq<char>, alias: Seq<char>) -> Seq<char> {
    if alias.len() > 0 {
        table + " "@ + alias
    } else {
        table
    }
}

/// A projected column. The alias is left out where the column has the name of
/// the field already.
pub open spec fn projected(field: Seq<char>, e: ExprModel) -> ColumnModel {
    ColumnModel {
        name: field,
        expression: e,
        alias: match e {
            ExprModel::Column(column) => if after_last(column, '.') == field {
                None
            } else {
                Some(field)
            },
            _ => Some(field),
        },
    }
}

/// The column for a field of the table with the given short name, where there
/// are so many tables. The table is named only where it is not the only one.
pub open spec fn table_column(tables: nat, alias: Seq<char>, field: Seq<char>) -> ExprModel {
    ExprModel::Column(
        if tables == 1 {
            field
        } else {
            alias + "."@ + field
        },
    )
}

/// The short names of the tables.
pub open spec fn aliases_of(tables: Seq<(Seq<char>, Seq<char>)>) -> Seq<Seq<char>> {
    tables.map_values(|t: (Seq<char>, Seq<char>)| alias_of(t.1))
}

/// The conditions that filter rows: those that do not join tables.
pub open spec fn row_conditions(conditions: Seq<ExprModel>, aliases: Seq<Seq<char>>) -> Seq<
    ExprModel,
> {
    conditions.filter(|e: ExprModel| !is_join(e, aliases))
}

/// A further condition that does not join tables filters rows.
pub proof fn lemma_row_conditions_step(conditions: Seq<ExprModel>, aliases: Seq<Seq<char>>)
    ensures
        conditions.len() == 0 ==> row_conditions(conditions, aliases) == Seq::<
            ExprModel,
        >::empty(),
        conditions.len() > 0 ==> row_conditions(conditions, aliases) == {
            let earlier = row_conditions(conditions.drop_last(), aliases);
            if is_join(conditions.last(), aliases) {
                earlier
            } else {
                earlier.push(conditions.last())
            }
        },
{
    reveal(Seq::filter);
    if conditions.len() == 0 {
        assert(row_conditions(conditions, aliases) =~= Seq::empty());
    }
}

/// The `ON` clause of the join with table number `idx`.
pub open spec fn on_clause(
    conditions: Seq<ExprModel>,
    idx: int,
    aliases: Seq<Seq<char>>,
) -> Seq<JoinConditionModel> {
    conditions.filter(|e: ExprModel| stands_on(e, idx, aliases)).map_values(
        |e: ExprModel| oriented(e, aliases[idx]),
    )
}

/// A further condition adds to an `ON` clause what it says itself.
pub proof fn lemma_on_clause_step(
    conditions: Seq<ExprModel>,
    idx: int,
    aliases: Seq<Seq<char>>,
)
    ensures
        conditions.len() == 0 ==> on_clause(conditions, idx, aliases) == Seq::<
            JoinConditionModel,
        >::empty(),
        conditions.len() > 0 ==> on_clause(conditions, idx, aliases) == {
            let earlier = on_clause(conditions.drop_last(), idx, aliases);
            if stands_on(conditions.last(), idx, aliases) {
                earlier.push(oriented(conditions.last(), aliases[idx]))
            } else {
                earlier
            }
        },
{
    reveal(Seq::filter);
    if conditions.len() == 0 {
        assert(on_clause(conditions, idx, aliases) =~= Seq::empty());
    } else if stands_on(conditions.last(), idx, aliases) {
        assert(on_clause(conditions, idx, aliases) =~= on_clause(
            conditions.drop_last(),
            idx,
            aliases,
        ).push(oriented(conditions.last(), aliases[idx])));
    }
}

/// The joins with every table after the first.
pub open spec fn joins(
    tables: Seq<(Seq<char>, Seq<char>)>,
    aliases: Seq<Seq<char>>,
    conditions: Seq<ExprModel>,
) -> Seq<OperationModel> {
    Seq::new(
        if tables.len() == 0 {
            0
        } else {
            (tables.len() - 1) as nat
        },
        |i: int|
            OperationModel::Join {
                kind: SqlJoinKind::Inner,
                source: JoinSourceModel::Table(with_alias(tables[i + 1].0, aliases[i + 1])),
                on: on_clause(conditions, i + 1, aliases),
            },
    )
}

/// The query over the tables, with the given short names, that selects the rows
/// that meet the conditions and projects the columns.
pub open spec fn assembled(
    tables: Seq<(Seq<char>, Seq<char>)>,
    aliases: Seq<Seq<char>>,
    conditions: Seq<ExprModel>,
    source: Seq<char>,
    columns: Seq<ColumnModel>,
) -> QueryModel {
    let rows = row_conditions(conditions, aliases);
    QueryModel {
        ctes: Seq::empty(),
        source: if tables.len() > 1 {
            with_alias(source, aliases[0])
        } else {
            source
        },
        pipeline: joins(tables, aliases, conditions) + (if rows.len() == 0 {
            Seq::empty()
        } else {
            seq![OperationModel::Where(conjunction(rows))]
        }) + (if columns.len() == 0 {
            Seq::empty()
        } else {
            seq![OperationModel::Project(columns)]
        }),
        projection: None,
    }
}

/// Whether a body ranges over a table.
pub open spec fn has_some_in(stmts: Seq<LiteralStmt>) -> bool {
    exists|i: int| 0 <= i < stmts.len() && #[trigger] stmts[i].literal is SomeIn
}

/// Whether any of the bodies ranges over a table.
pub open spec fn any_some_in(bodies: Seq<RuleBody>) -> bool {
    exists|i: int| 0 <= i < bodies.len() && has_some_in(#[trigger] bodies[i].query.stmts@)
}

/// Whether a rule has the form that can be translated.
pub open spec fn rule_pattern(head: RuleHead, bodies: Seq<RuleBody>) -> Result<(), ErrorModel> {
    if head != RuleHead::PartialSet {
        rejected(Fault::RulePattern)
    } else if !any_some_in(bodies) {
        rejected(Fault::NoTable)
    } else {
        Ok(())
    }
}

/// Model of the translator: its settings, and what it has found out about the
/// rule at hand.
#[verifier::ext_equal]
pub struct TranslatorModel {
    /// The table to use where a rule names none
    pub default_table: Option<Seq<char>>,
    /// The values bound to paths under `input`
    pub input_bindings: Map<Seq<char>, InputModel>,
    /// The variables in scope
    pub variables: Seq<Seq<char>>,
    /// The variables that range over a table
    pub table_variables: Seq<Seq<char>>,
    /// The tables, each with the variable that ranges over it
    pub tables_seen: Seq<(Seq<char>, Seq<char>)>,
    /// The conditions
    pub conditions: Seq<ExprModel>,
    /// The variables that stand for an expression
    pub variable_assignments: Map<Seq<char>, ExprModel>,
    /// The columns that hold arrays
    pub array_columns: Set<Seq<char>>,
}

impl TranslatorModel {
    /// A translator that has seen no rule.
    pub open spec fn initial(
        default_table: Option<Seq<char>>,
        input_bindings: Map<Seq<char>, InputModel>,
    ) -> TranslatorModel {
        TranslatorModel {
            default_table,
            input_bindings,
            variables: Seq::empty(),
            table_variables: Seq::empty(),
            tables_seen: Seq::empty(),
            conditions: Seq::empty(),
            variable_assignments: Map::empty(),
            array_columns: Set::empty(),
        }
    }

    /// The expression for a path under `input`.
    pub open spec fn input_value(self, path: Seq<Seq<char>>) -> Result<ExprModel, ErrorModel> {
        let key = joined(path, "."@);
        if self.input_bindings.contains_key(key) {
            Ok(
                match self.input_bindings[key] {
                    InputModel::Literal(literal) => ExprModel::Literal(literal),
                    InputModel::Variable(name) => ExprModel::InjectedVariable(name),
                },
            )
        } else if key.len() == 0 {
            rejected(Fault::InputNotBound)
        } else {
            Err(ErrorModel::MissingInputBinding(key))
        }
    }

    /// The expression for a variable.
    pub open spec fn variable(self, name: Seq<char>) -> Result<ExprModel, ErrorModel> {
        if name == "input"@ {
            self.input_value(Seq::empty())
        } else if self.variable_assignments.contains_key(name) {
            Ok(self.variable_assignments[name])
        } else {
            Ok(ExprModel::Column(name))
        }
    }

    /// A chain of field references, taken apart into what it starts from and the
    /// JSON keys that are looked up in it.
    pub open spec fn reference_parts(self, e: Expr) -> Result<
        (ExprModel, Seq<Seq<char>>),
        ErrorModel,
    >
        decreases e, 1int,
    {
        match e {
            Expr::RefDot { refr, field } => match string_of_value(field, Fault::FieldName) {
                Ok(name) => {
                    let direct = match *refr {
                        Expr::Var { value } => match string_of_value(value, Fault::VariableName) {
                            Ok(var) => Ok(
                                if self.table_variables.contains(var) {
                                    Some(var)
                                } else {
                                    None
                                },
                            ),
                            Err(error) => Err(error),
                        },
                        _ => Ok(None),
                    };
                    match direct {
                        Ok(Some(var)) => Ok(
                            (
                                table_column(self.tables_seen.len(), alias_of(var), name),
                                Seq::empty(),
                            ),
                        ),
                        Ok(None) => match self.reference_parts(*refr) {
                            Ok((base, keys)) => Ok((base, keys.push(name))),
                            Err(error) => Err(error),
                        },
                        Err(error) => Err(error),
                    }
                },
                Err(error) => Err(error),
            },
            _ => match self.expression(e) {
                Ok(base) => Ok((base, Seq::empty())),
                Err(error) => Err(error),
            },
        }
    }

    /// The SQL expression for a Rego expression.
    pub open spec fn expression(self, e: Expr) -> Result<ExprModel, ErrorModel>
        decreases
            e,
            (if e is RefDot {
                2int
            } else {
                0int
            }),
    {
        match e {
            Expr::Membership { value, collection } => match self.expression(*value) {
                Ok(left) => match self.expression(*collection) {
                    Ok(right) => if right is Array {
                        Ok(ExprModel::binary(SqlBinaryOp::In, left, right))
                    } else {
                        rejected(Fault::InRightSide)
                    },
                    Err(error) => Err(error),
                },
                Err(error) => Err(error),
            },
            Expr::BoolExpr { op, lhs, rhs } => match self.expression(*lhs) {
                Ok(left) => {
                    let right = match (is_json_text(left), *rhs) {
                        (true, Expr::Bool { value: Value::Bool(b) }) => Ok(
                            text_literal(
                                if b {
                                    "true"@
                                } else {
                                    "false"@
                                },
                            ),
                        ),
                        _ => self.expression(*rhs),
                    };
                    match right {
                        Ok(r) => Ok(compared(op, left, r)),
                        Err(error) => Err(error),
                    }
                },
                Err(error) => Err(error),
            },
            Expr::ArithExpr { op, lhs, rhs } => match self.expression(*lhs) {
                Ok(left) => match self.expression(*rhs) {
                    Ok(right) => Ok(
                        ExprModel::binary(
                            arithmetic(op),
                            parenthesized(left, op, true),
                            parenthesized(right, op, false),
                        ),
                    ),
                    Err(error) => Err(error),
                },
                Err(error) => Err(error),
            },
            Expr::BinExpr { op, lhs, rhs } => match self.expression(*lhs) {
                Ok(left) => match self.expression(*rhs) {
                    Ok(right) => Ok(ExprModel::binary(set_operation(op), left, right)),
                    Err(error) => Err(error),
                },
                Err(error) => Err(error),
            },
            Expr::Var { value } => match string_of_value(value, Fault::VariableName) {
                Ok(name) => self.variable(name),
                Err(error) => Err(error),
            },
            Expr::RefDot { refr, field } => match input_path(e) {
                Ok(Some(path)) => self.input_value(path),
                Ok(None) => match self.reference_parts(e) {
                    Ok((base, keys)) => Ok(json_path(base, keys)),
                    Err(error) => Err(error),
                },
                Err(error) => Err(error),
            },
            Expr::String { value } => match string_of_value(value, Fault::StringValue) {
                Ok(s) => Ok(text_literal(s)),
                Err(error) => Err(error),
            },
            Expr::Number { value } => match value {
                Value::Number(n) => Ok(ExprModel::Literal(number_literal(n))),
                _ => rejected(Fault::NumberValue),
            },
            Expr::Bool { value } => match value {
                Value::Bool(b) => Ok(ExprModel::Literal(LiteralModel::Boolean(b))),
                _ => rejected(Fault::BooleanValue),
            },
            Expr::Null => Ok(null()),
            Expr::UnaryExpr { expr } => match self.expression(*expr) {
                Ok(operand) => Ok(
                    ExprModel::Unary { op: SqlUnaryOp::Negate, operand: Box::new(operand) },
                ),
                Err(error) => Err(error),
            },
            Expr::Call { fcn, params } => match function_name(*fcn) {
                Ok(name) => match self.expressions(params@) {
                    Ok(args) => self.function_call(name, args),
                    Err(error) => Err(error),
                },
                Err(error) => Err(error),
            },
            Expr::RefBrack { refr, index } => match input_path(e) {
                Ok(Some(path)) => self.input_value(path),
                Ok(None) => match self.expression(*refr) {
                    Ok(array) => match self.expression(*index) {
                        Ok(position) => match one_based(position) {
                            Ok(sql_index) => Ok(
                                ExprModel::ArrayIndex {
                                    expr: Box::new(array),
                                    index: Box::new(sql_index),
                                },
                            ),
                            Err(error) => Err(error),
                        },
                        Err(error) => Err(error),
                    },
                    Err(error) => Err(error),
                },
                Err(error) => Err(error),
            },
            Expr::Array { items } => match self.expressions(items@) {
                Ok(list) => Ok(ExprModel::Array(list)),
                Err(error) => Err(error),
            },
            Expr::SetExpr { items } => match self.expressions(items@) {
                Ok(list) => Ok(ExprModel::Array(list)),
                Err(error) => Err(error),
            },
            Expr::Object { fields } => rejected(Fault::ObjectLiteral),
            _ => Err(ErrorModel::Unsupported(expr_text(e))),
        }
    }

    /// The SQL expressions for a sequence of Rego expressions; where any cannot
    /// be translated, the reason of the first.
    pub open spec fn expressions(self, es: Seq<Expr>) -> Result<Seq<ExprModel>, ErrorModel>
        decreases es, 0int,
    {
        if es.len() == 0 {
            Ok(Seq::empty())
        } else {
            match self.expressions(es.drop_last()) {
                Ok(earlier) => match self.expression(es.last()) {
                    Ok(last) => Ok(earlier.push(last)),
                    Err(error) => Err(error),
                },
                Err(error) => Err(error),
            }
        }
    }

    /// Where the first `n` expressions cannot be translated, all of them cannot,
    /// for the same reason.
    pub proof fn lemma_first_failure(self, es: Seq<Expr>, n: int)
        requires
            0 <= n <= es.len(),
            self.expressions(es.take(n)) is Err,
        ensures
            self.expressions(es) == self.expressions(es.take(n)),
        decreases es.len(),
    {
        if n < es.len() {
            assert(es.drop_last().take(n) =~= es.take(n));
            self.lemma_first_failure(es.drop_last(), n);
        } else {
            assert(es.take(n) =~= es);
        }
    }

    /// Whether an expression is a column that holds an array.
    pub open spec fn is_array(self, e: ExprModel) -> bool {
        match e {
            ExprModel::Column(name) => self.array_columns.contains(after_last(name, '.')),
            _ => false,
        }
    }

    /// The SQL expression for a call. A built-in that is not called in SQL as it
    /// is in Rego has its own form; any other function is called as it is.
    pub open spec fn function_call(self, name: Seq<char>, args: Seq<ExprModel>) -> Result<
        ExprModel,
        ErrorModel,
    > {
        let builtin = if args.len() == 1 {
            unary_builtin(name, args[0], self.is_array(args[0]))
        } else if args.len() == 2 {
            binary_builtin(name, args[0], args[1])
        } else {
            None
        };
        if args.len() == 3 && name == "array.slice"@ {
            match inclusive_end(args[2]) {
                Ok(end) => Ok(call("ARRAY_SLICE"@, seq![args[0], args[1], end])),
                Err(error) => Err(error),
            }
        } else {
            match builtin {
                Some(e) => Ok(e),
                None => Ok(call(sql_function_name(name), args)),
            }
        }
    }

    /// The columns that an assigned value projects: one for each field of an
    /// object, none otherwise.
    pub open spec fn value_columns(self, value: Expr) -> Result<Seq<ColumnModel>, ErrorModel> {
        match value {
            Expr::Object { fields } => self.field_columns(fields@),
            _ => Ok(Seq::empty()),
        }
    }

    /// The columns that the fields of an object project.
    pub open spec fn field_columns(self, fields: Seq<(Expr, Expr)>) -> Result<
        Seq<ColumnModel>,
        ErrorModel,
    >
        decreases fields.len(),
    {
        if fields.len() == 0 {
            Ok(Seq::empty())
        } else {
            match self.field_columns(fields.drop_last()) {
                Ok(earlier) => match self.field_column(fields.last()) {
                    Ok(column) => Ok(earlier.push(column)),
                    Err(error) => Err(error),
                },
                Err(error) => Err(error),
            }
        }
    }

    /// Where the first `n` fields fail, all of them fail for the same reason.
    pub proof fn lemma_first_field_failure(self, fields: Seq<(Expr, Expr)>, n: int)
        requires
            0 <= n <= fields.len(),
            self.field_columns(fields.take(n)) is Err,
        ensures
            self.field_columns(fields) == self.field_columns(fields.take(n)),
        decreases fields.len(),
    {
        if n < fields.len() {
            assert(fields.drop_last().take(n) =~= fields.take(n));
            self.lemma_first_field_failure(fields.drop_last(), n);
        } else {
            assert(fields.take(n) =~= fields);
        }
    }

    /// The column that a field of an object projects.
    pub open spec fn field_column(self, field: (Expr, Expr)) -> Result<ColumnModel, ErrorModel> {
        let name = match field.0 {
            Expr::String { value } => string_of_value(value, Fault::ProjectionName),
            _ => rejected(Fault::ProjectionKey),
        };
        match name {
            Ok(n) => match self.expression(field.1) {
                Ok(e) => Ok(projected(n, e)),
                Err(error) => Err(error),
            },
            Err(error) => Err(error),
        }
    }

    /// The columns of the fields before the first that fails; of all fields where
    /// none fails.
    pub open spec fn field_columns_added(self, fields: Seq<(Expr, Expr)>) -> Seq<ColumnModel>
        decreases fields.len(),
    {
        if fields.len() == 0 {
            Seq::empty()
        } else {
            let earlier = self.field_columns_added(fields.drop_last());
            match (self.field_columns(fields.drop_last()), self.field_column(fields.last())) {
                (Ok(_), Ok(column)) => earlier.push(column),
                _ => earlier,
            }
        }
    }

    /// The columns that an assigned value adds, up to the first field that fails.
    pub open spec fn value_columns_added(self, value: Expr) -> Seq<ColumnModel> {
        match value {
            Expr::Object { fields } => self.field_columns_added(fields@),
            _ => Seq::empty(),
        }
    }

    /// The columns that a statement adds, also where it fails: those of the value
    /// of an assignment, and none for any other statement.
    pub open spec fn columns_added(self, literal: Literal) -> Seq<ColumnModel> {
        match literal {
            Literal::Expr { expr } => match expr {
                Expr::AssignExpr { lhs, rhs } => self.value_columns_added(*rhs),
                _ => Seq::empty(),
            },
            _ => Seq::empty(),
        }
    }

    /// Where all fields can be translated, the columns of all of them are added.
    pub proof fn lemma_all_columns_added(self, fields: Seq<(Expr, Expr)>)
        ensures
            match self.field_columns(fields) {
                Ok(columns) => self.field_columns_added(fields) == columns,
                Err(_) => true,
            },
        decreases fields.len(),
    {
        if fields.len() > 0 {
            self.lemma_all_columns_added(fields.drop_last());
        }
    }

    /// No column is added behind a field that fails.
    pub proof fn lemma_no_columns_after_failure(self, fields: Seq<(Expr, Expr)>, n: int)
        requires
            0 <= n <= fields.len(),
            self.field_columns(fields.take(n)) is Err,
        ensures
            self.field_columns_added(fields) == self.field_columns_added(fields.take(n)),
        decreases fields.len(),
    {
        if n < fields.len() {
            assert(fields.drop_last().take(n) =~= fields.take(n));
            self.lemma_no_columns_after_failure(fields.drop_last(), n);
            self.lemma_first_field_failure(fields.drop_last(), n);
        } else {
            assert(fields.take(n) =~= fields);
        }
    }

    /// The translator with one more condition.
    pub open spec fn with_condition(self, e: ExprModel) -> TranslatorModel {
        TranslatorModel { conditions: self.conditions.push(e), ..self }
    }

    /// What a statement adds: the translator after it, and the columns that it
    /// projects. Tables have been found before.
    pub open spec fn statement(self, literal: Literal) -> Result<
        (TranslatorModel, Seq<ColumnModel>),
        ErrorModel,
    > {
        match literal {
            Literal::SomeIn { value, collection } => Ok((self, Seq::empty())),
            Literal::SomeVars => Ok((self, Seq::empty())),
            Literal::Every => rejected(Fault::Every),
            Literal::Expr { expr } => match expr {
                Expr::AssignExpr { lhs, rhs } => match self.value_columns(*rhs) {
                    Ok(columns) => match (*lhs, *rhs) {
                        (Expr::Var { value }, _) if !(*rhs is Object) => match string_of_value(
                            value,
                            Fault::VariableName,
                        ) {
                            Ok(name) => match self.expression(*rhs) {
                                Ok(e) => Ok(
                                    (
                                        TranslatorModel {
                                            variable_assignments: self.variable_assignments.insert(
                                                name,
                                                e,
                                            ),
                                            ..self
                                        },
                                        columns,
                                    ),
                                ),
                                Err(error) => Err(error),
                            },
                            Err(error) => Err(error),
                        },
                        _ => Ok((self, columns)),
                    },
                    Err(error) => Err(error),
                },
                _ => match self.expression(expr) {
                    Ok(e) => Ok((self.with_condition(condition(e)), Seq::empty())),
                    Err(error) => Err(error),
                },
            },
            Literal::NotExpr { expr } => match self.expression(expr) {
                Ok(e) => Ok(
                    (
                        self.with_condition(
                            ExprModel::Unary { op: SqlUnaryOp::Not, operand: Box::new(e) },
                        ),
                        Seq::empty(),
                    ),
                ),
                Err(error) => Err(error),
            },
        }
    }

    /// What the statements of a body add, in order. The second part is the
    /// columns they project, or the reason why the first failing statement fails;
    /// the first part is the translator as it then stands.
    pub open spec fn statements(self, stmts: Seq<LiteralStmt>) -> (
        TranslatorModel,
        Result<Seq<ColumnModel>, ErrorModel>,
    )
        decreases stmts.len(),
    {
        if stmts.len() == 0 {
            (self, Ok(Seq::empty()))
        } else {
            let (earlier, outcome) = self.statements(stmts.drop_last());
            match outcome {
                Ok(columns) => match earlier.statement(stmts.last().literal) {
                    Ok((next, more)) => (next, Ok(columns + more)),
                    Err(error) => (earlier, Err(error)),
                },
                Err(error) => (earlier, Err(error)),
            }
        }
    }

    /// Where the first `n` statements fail, all of them fail at the same place.
    pub proof fn lemma_first_statement_failure(self, stmts: Seq<LiteralStmt>, n: int)
        requires
            0 <= n <= stmts.len(),
            self.statements(stmts.take(n)).1 is Err,
        ensures
            self.statements(stmts) == self.statements(stmts.take(n)),
        decreases stmts.len(),
    {
        if n < stmts.len() {
            assert(stmts.drop_last().take(n) =~= stmts.take(n));
            self.lemma_first_statement_failure(stmts.drop_last(), n);
        } else {
            assert(stmts.take(n) =~= stmts);
        }
    }

    /// The translator after a statement that ranges over a table.
    pub open spec fn table_statement(self, literal: Literal) -> Result<TranslatorModel, ErrorModel> {
        match literal {
            Literal::SomeIn { value, collection } => match variable_name(value) {
                Ok(var) => match table_name(collection) {
                    Ok(table) => Ok(
                        TranslatorModel {
                            table_variables: self.table_variables.push(var),
                            variables: self.variables.push(var),
                            tables_seen: self.tables_seen.push((table, var)),
                            ..self
                        },
                    ),
                    Err(error) => Err(error),
                },
                Err(error) => Err(error),
            },
            _ => Ok(self),
        }
    }

    /// The translator once the tables of a body are found.
    pub open spec fn tables_found(self, stmts: Seq<LiteralStmt>) -> (
        TranslatorModel,
        Result<(), ErrorModel>,
    )
        decreases stmts.len(),
    {
        if stmts.len() == 0 {
            (self, Ok(()))
        } else {
            let (earlier, outcome) = self.tables_found(stmts.drop_last());
            match outcome {
                Ok(()) => match earlier.table_statement(stmts.last().literal) {
                    Ok(next) => (next, Ok(())),
                    Err(error) => (earlier, Err(error)),
                },
                Err(error) => (earlier, Err(error)),
            }
        }
    }

    /// Where the search for tables fails in the first `n` statements, it fails
    /// there in all of them.
    pub proof fn lemma_first_table_failure(self, stmts: Seq<LiteralStmt>, n: int)
        requires
            0 <= n <= stmts.len(),
            self.tables_found(stmts.take(n)).1 is Err,
        ensures
            self.tables_found(stmts) == self.tables_found(stmts.take(n)),
        decreases stmts.len(),
    {
        if n < stmts.len() {
            assert(stmts.drop_last().take(n) =~= stmts.take(n));
            self.lemma_first_table_failure(stmts.drop_last(), n);
        } else {
            assert(stmts.take(n) =~= stmts);
        }
    }

    /// The table to select from.
    pub open spec fn source(self) -> Result<Seq<char>, ErrorModel> {
        let found = first_table(self.tables_seen);
        if found.len() > 0 {
            Ok(found)
        } else {
            match self.default_table {
                Some(table) => Ok(table),
                None => rejected(Fault::NoSource),
            }
        }
    }

    /// The query for a body: its tables are found first, then its array columns,
    /// and only then its statements and its assigned value are translated.
    pub open spec fn body(self, body: RuleBody) -> (TranslatorModel, Result<QueryModel, ErrorModel>) {
        let (scanned, tables) = self.tables_found(body.query.stmts@);
        match tables {
            Ok(()) => {
                let ready = TranslatorModel {
                    array_columns: indexed_columns_of_body(body),
                    ..scanned
                };
                let (done, outcome) = ready.statements(body.query.stmts@);
                let columns = match outcome {
                    Ok(columns) => match body.assign {
                        Some(assign) => match done.value_columns(assign.value) {
                            Ok(more) => Ok(columns + more),
                            Err(error) => Err(error),
                        },
                        None => Ok(columns),
                    },
                    Err(error) => Err(error),
                };
                (
                    done,
                    match columns {
                        Ok(cs) => match done.source() {
                            Ok(source) => Ok(
                                assembled(
                                    done.tables_seen,
                                    aliases_of(done.tables_seen),
                                    done.conditions,
                                    source,
                                    cs,
                                ),
                            ),
                            Err(error) => Err(error),
                        },
                        Err(error) => Err(error),
                    },
                )
            },
            Err(error) => (scanned, Err(error)),
        }
    }

    /// The query for the bodies of a rule. What was found out about an earlier
    /// rule is forgotten first.
    pub open spec fn bodies(self, bodies: Seq<RuleBody>) -> (
        TranslatorModel,
        Result<QueryModel, ErrorModel>,
    ) {
        let fresh = TranslatorModel::initial(self.default_table, self.input_bindings);
        if bodies.len() != 1 {
            (fresh, rejected(Fault::BodyCount))
        } else {
            fresh.body(bodies[0])
        }
    }

    /// The query for a rule, or why there is none, and the translator afterwards.
    pub open spec fn rule(self, rule: Rule) -> (TranslatorModel, Result<QueryModel, ErrorModel>) {
        match rule {
            Rule::Spec { head, bodies } => match rule_pattern(head, bodies@) {
                Ok(()) => self.bodies(bodies@),
                Err(error) => (self, Err(error)),
            },
            Rule::Default => (self, rejected(Fault::DefaultRule)),
        }
    }
}

} // verus!
