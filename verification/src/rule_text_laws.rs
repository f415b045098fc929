//! Laws from end to end: which SQL text the parts of a rule have.

use crate::ast::{ArithOp, BoolOp, Expr, Literal, Value};
use crate::errors::ErrorModel;
use crate::meaning_laws::{compares, is_judgement, looks_up_text};
use crate::model::{ExprModel, LiteralModel};
use crate::render::{binary_op_text, Style};
use crate::rendering_laws::{decimal_read, integer_literal_reads_back};
use crate::sql_ir::{SqlBinaryOp, SqlUnaryOp};
use crate::text::digits;
use crate::translation::{
    alias_of, aliases_of, compared, input_path, one_based, TranslatorModel,
};
use crate::wording_laws::{
    comparison_signs_hold, in_parentheses, operator_holds, operator_read, operators_read_back,
    sign_holds,
};
use vstd::prelude::*;

verus! {

/// A sign between two texts.
pub open spec fn between(left: Seq<char>, sign: Seq<char>, right: Seq<char>) -> Seq<char> {
    left + seq![' '] + sign + seq![' '] + right
}

/// A comparison is written as its left operand, a sign that holds between two numbers
/// exactly where the comparison does, and its right operand.
pub proof fn comparisons_are_written_as_they_stand(
    style: Style,
    t: TranslatorModel,
    op: BoolOp,
    lhs: Expr,
    rhs: Expr,
    l: ExprModel,
    r: ExprModel,
)
    requires
        t.expression(lhs) == Ok::<ExprModel, ErrorModel>(l),
        t.expression(rhs) == Ok::<ExprModel, ErrorModel>(r),
        l != ExprModel::Literal(LiteralModel::Null),
        r != ExprModel::Literal(LiteralModel::Null),
        !(looks_up_text(l) && rhs is Bool),
    ensures
        match t.expression((Expr::BoolExpr { op, lhs: Box::new(lhs), rhs: Box::new(rhs) })) {
            Ok(e) => exists|sign: Seq<char>|
                style.expr(e) == #[trigger] between(style.expr(l), sign, style.expr(r))
                    && forall|a: int, b: int| #[trigger]
                    sign_holds(sign, a, b) == compares(op, a - b),
            Err(_) => false,
        },
{
    let e = Expr::BoolExpr { op, lhs: Box::new(lhs), rhs: Box::new(rhs) };
    assert(t.expression(e) == Ok::<ExprModel, ErrorModel>(compared(op, l, r)));
    let sql_op = compared(op, l, r)->Binary_op;
    comparison_signs_hold(style, sql_op, l, r);
    let sign = binary_op_text(sql_op);
    assert(style.expr(compared(op, l, r)) == between(style.expr(l), sign, style.expr(r)));
    assert forall|a: int, b: int| #[trigger] sign_holds(sign, a, b) == compares(op, a - b) by {
        assert(sign_holds(sign, a, b) == operator_holds(sql_op, a, b));
    }
}

/// A statement is written as its expression where that is true or false, and with
/// `IS NOT NULL` behind it otherwise; a negated one is written in parentheses behind
/// `NOT`.
pub proof fn statements_are_written_as_they_stand(
    style: Style,
    t: TranslatorModel,
    expr: Expr,
    e: ExprModel,
)
    requires
        !(expr is AssignExpr),
        t.expression(expr) == Ok::<ExprModel, ErrorModel>(e),
    ensures
        match (t.statement((Literal::Expr { expr })), t.statement((Literal::NotExpr { expr }))) {
            (Ok((plain, _)), Ok((negated, _))) => {
                &&& style.expr(plain.conditions.last()) == if is_judgement(e) {
                    style.expr(e)
                } else {
                    style.expr(e) + " IS NOT NULL"@
                }
                &&& style.expr(negated.conditions.last()) == in_parentheses(
                    "NOT "@,
                    style.expr(e),
                )
            },
            _ => false,
        },
{
    reveal_strlit("NOT ");
    reveal_strlit("NOT (");
    reveal_strlit(")");
    let negated = ExprModel::Unary { op: SqlUnaryOp::Not, operand: Box::new(e) };
    assert(style.expr(negated) =~= in_parentheses("NOT "@, style.expr(e)));
    let present = ExprModel::Binary {
        op: SqlBinaryOp::IsNotNull,
        left: Box::new(e),
        right: Box::new(ExprModel::Literal(LiteralModel::Null)),
    };
    assert(style.expr(present) == style.expr(e) + " IS NOT NULL"@);
}

/// How tightly an arithmetic operator binds.
pub open spec fn rank(op: SqlBinaryOp) -> int {
    match op {
        SqlBinaryOp::Add | SqlBinaryOp::Subtract => 1,
        SqlBinaryOp::Multiply | SqlBinaryOp::Divide | SqlBinaryOp::Modulo => 2,
        _ => 3,
    }
}

/// How tightly an arithmetic operator of Rego binds.
pub open spec fn arith_rank(op: ArithOp) -> int {
    match op {
        ArithOp::Add | ArithOp::Sub => 1,
        ArithOp::Mul | ArithOp::Div | ArithOp::Mod => 2,
    }
}

/// The text of an operand, in parentheses where `wrapped`.
pub open spec fn operand_text(style: Style, e: ExprModel, wrapped: bool) -> Seq<char> {
    if wrapped {
        in_parentheses(Seq::empty(), style.expr(e))
    } else {
        style.expr(e)
    }
}

/// How tightly an expression binds: only an operation binds less than a name.
pub open spec fn expr_rank(e: ExprModel) -> int {
    match e {
        ExprModel::Binary { op, left, right } => rank(op),
        _ => 3,
    }
}

/// An arithmetic operation is written with its left operand first. An operand that
/// binds less tightly than the operation stands in parentheses, and so does one on the
/// right that binds as tightly, unless the operation is a sum; no other does.
pub proof fn parentheses_follow_precedence(
    style: Style,
    t: TranslatorModel,
    op: ArithOp,
    lhs: Expr,
    rhs: Expr,
    l: ExprModel,
    r: ExprModel,
)
    requires
        t.expression(lhs) == Ok::<ExprModel, ErrorModel>(l),
        t.expression(rhs) == Ok::<ExprModel, ErrorModel>(r),
    ensures
        match t.expression((Expr::ArithExpr { op, lhs: Box::new(lhs), rhs: Box::new(rhs) })) {
            Ok(e) => exists|sign: Seq<char>|
                style.expr(e) == between(
                    operand_text(style, l, expr_rank(l) < arith_rank(op)),
                    sign,
                    operand_text(
                        style,
                        r,
                        expr_rank(r) < arith_rank(op) || expr_rank(r) == arith_rank(op) && op
                            != ArithOp::Add,
                    ),
                ) && #[trigger] operator_read(sign) == Some(
                    match op {
                        ArithOp::Add => SqlBinaryOp::Add,
                        ArithOp::Sub => SqlBinaryOp::Subtract,
                        ArithOp::Mul => SqlBinaryOp::Multiply,
                        ArithOp::Div => SqlBinaryOp::Divide,
                        ArithOp::Mod => SqlBinaryOp::Modulo,
                    },
                ),
            Err(_) => false,
        },
{
    reveal_strlit("(");
    reveal_strlit(")");
    reveal_strlit(" ");
    assert(" "@ =~= seq![' ']);
    let e = Expr::ArithExpr { op, lhs: Box::new(lhs), rhs: Box::new(rhs) };
    let x = t.expression(e)->Ok_0;
    let sql_op = x->Binary_op;
    let left = *x->Binary_left;
    let right = *x->Binary_right;
    operators_read_back(sql_op);
    let l_wrapped = ExprModel::Parenthesized(Box::new(l));
    let r_wrapped = ExprModel::Parenthesized(Box::new(r));
    assert(style.expr(l_wrapped) =~= in_parentheses(Seq::empty(), style.expr(l)));
    assert(style.expr(r_wrapped) =~= in_parentheses(Seq::empty(), style.expr(r)));
    assert(left == if expr_rank(l) < arith_rank(op) {
        l_wrapped
    } else {
        l
    });
    assert(right == if expr_rank(r) < arith_rank(op) || expr_rank(r) == arith_rank(op) && op
        != ArithOp::Add {
        r_wrapped
    } else {
        r
    });
    let sign = binary_op_text(sql_op);
    assert(x == ExprModel::Binary { op: sql_op, left: Box::new(left), right: Box::new(right) });
    assert(style.expr(x) == between(style.expr(left), sign, style.expr(right)));
}

/// An element of an array is written with its position in brackets behind the array,
/// one more than in the rule: a number that reads back, or a sum.
pub proof fn subscripts_are_written_one_further(
    style: Style,
    t: TranslatorModel,
    refr: Expr,
    index: Expr,
    a: ExprModel,
    i: ExprModel,
)
    requires
        t.expression(refr) == Ok::<ExprModel, ErrorModel>(a),
        t.expression(index) == Ok::<ExprModel, ErrorModel>(i),
        input_path((Expr::RefBrack { refr: Box::new(refr), index: Box::new(index) })) == Ok::<
            Option<Seq<Seq<char>>>,
            ErrorModel,
        >(None),
        i != ExprModel::Literal(LiteralModel::Integer(i64::MAX)),
    ensures
        match t.expression(
            (Expr::RefBrack { refr: Box::new(refr), index: Box::new(index) }),
        ) {
            Ok(e) => exists|position: Seq<char>|
                style.expr(e) == style.expr(a) + #[trigger] in_brackets(position) && match i {
                    ExprModel::Literal(LiteralModel::Integer(n)) => decimal_read(position) == n + 1,
                    _ => position == style.expr(i) + " + 1"@,
                },
            Err(_) => false,
        },
{
    reveal_strlit("[");
    reveal_strlit("]");
    reveal_strlit(" ");
    reveal_strlit("+");
    reveal_strlit(" + 1");
    let e = Expr::RefBrack { refr: Box::new(refr), index: Box::new(index) };
    let next = one_based(i)->Ok_0;
    let position = style.expr(next);
    let x = ExprModel::ArrayIndex { expr: Box::new(a), index: Box::new(next) };
    assert(t.expression(e) == Ok::<ExprModel, ErrorModel>(x));
    assert(style.expr(x) =~= style.expr(a) + in_brackets(position));
    let one = ExprModel::Literal(LiteralModel::Integer(1));
    match i {
        ExprModel::Literal(LiteralModel::Integer(n)) => {
            integer_literal_reads_back(style, (n + 1) as i64);
        },
        _ => {
            reveal_with_fuel(digits, 2);
            assert(style.expr(one) =~= seq!['1']);
            assert(position =~= style.expr(i) + " + 1"@);
        },
    }
}

/// A text in brackets.
pub open spec fn in_brackets(text: Seq<char>) -> Seq<char> {
    seq!['['] + text + seq![']']
}

/// Whether an expression is a path that starts from `input`.
pub open spec fn starts_from_input(e: Expr) -> bool
    decreases e,
{
    match e {
        Expr::Var { value: Value::String(name) } => name@ == "input"@,
        Expr::RefDot { refr, field } => starts_from_input(*refr),
        Expr::RefBrack { refr, index } => starts_from_input(*refr),
        _ => false,
    }
}

/// Whether an expression starts from a variable without a name.
pub open spec fn starts_from_nameless(e: Expr) -> bool
    decreases e,
{
    match e {
        Expr::Var { value } => !(value is String),
        Expr::RefDot { refr, field } => starts_from_nameless(*refr),
        Expr::RefBrack { refr, index } => starts_from_nameless(*refr),
        _ => false,
    }
}

/// Only what starts from `input` is looked up among the bound values.
pub proof fn only_input_is_looked_up(e: Expr)
    requires
        !starts_from_input(e),
        !starts_from_nameless(e),
    ensures
        input_path(e) == Ok::<Option<Seq<Seq<char>>>, ErrorModel>(None),
    decreases e,
{
    match e {
        Expr::RefDot { refr, field } => {
            only_input_is_looked_up(*refr);
        },
        Expr::RefBrack { refr, index } => {
            only_input_is_looked_up(*refr);
        },
        _ => {},
    }
}

/// The short name of a table comes from the variable that ranges over it, not from the
/// name of the table: one table may stand in a query more than once.
pub proof fn short_names_come_from_variables(tables: Seq<(Seq<char>, Seq<char>)>, i: int)
    requires
        0 <= i < tables.len(),
    ensures
        aliases_of(tables).len() == tables.len(),
        aliases_of(tables)[i] == alias_of(tables[i].1),
{
}

} // verus!
