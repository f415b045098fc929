//! Laws of operator precedence: arithmetic keeps its meaning in the SQL text.
//!
//! The text of an arithmetic expression is a row of operands with operators
//! between them. SQL reads such a row by precedence: `*`, `/` and `%` before `+`
//! and `-`, from left to right among equals, and a minus sign before all of them.
//! What it reads is what the expression means, because the translator puts
//! parentheses where they matter between two operators.
//!
//! Two things are left out. A minus sign has no parentheses behind it: `-(a + b)`
//! is written `-a + b`, and SQL reads something else. And the text of an operand
//! has to be a unit: a comparison, a JSON lookup or a `BETWEEN` inside arithmetic
//! is written without parentheses too.

use crate::ast::{ArithOp, Expr, Literal};
use crate::errors::ErrorModel;
use crate::model::{ExprModel, LiteralModel};
use crate::render::{binary_op_text, Style};
use crate::sql_ir::{SqlBinaryOp, SqlUnaryOp};
use crate::text::{concatenated, lemma_concatenated_add, lemma_concatenated_single};
use crate::translation::{
    arithmetic, inclusive_end, integer, is_additive, is_multiplicative, one_based, parenthesized,
    TranslatorModel,
};
use vstd::prelude::*;

verus! {

/// A part of the text of an arithmetic expression.
pub enum Token {
    Operand(ExprModel),
    Operator(SqlBinaryOp),
}

/// Whether the operator is an arithmetic one.
pub open spec fn is_arithmetic(op: SqlBinaryOp) -> bool {
    is_additive(op) || is_multiplicative(op)
}

/// A negated expression.
pub open spec fn negated(e: ExprModel) -> ExprModel {
    ExprModel::Unary { op: SqlUnaryOp::Negate, operand: Box::new(e) }
}

/// A row with a minus sign before its first operand.
pub open spec fn minus_first(ts: Seq<Token>) -> Seq<Token> {
    ts.update(
        0,
        match ts[0] {
            Token::Operand(e) => Token::Operand(negated(e)),
            Token::Operator(op) => Token::Operator(op),
        },
    )
}

/// The operands and operators of an arithmetic expression as they stand in its
/// text. A minus sign stands before the first operand of what it negates.
/// Anything else is an operand by itself.
pub open spec fn tokens(e: ExprModel) -> Seq<Token>
    decreases e,
{
    match e {
        ExprModel::Binary { op, left, right } => if is_arithmetic(op) {
            tokens(*left) + seq![Token::Operator(op)] + tokens(*right)
        } else {
            seq![Token::Operand(e)]
        },
        ExprModel::Unary { op, operand } => if op == SqlUnaryOp::Negate {
            minus_first(tokens(*operand))
        } else {
            seq![Token::Operand(e)]
        },
        _ => seq![Token::Operand(e)],
    }
}

/// A row has an odd number of parts, operands first.
proof fn lemma_tokens_length(e: ExprModel)
    ensures
        tokens(e).len() > 0,
        tokens(e).len() % 2 == 1,
        tokens(e)[0] is Operand,
    decreases e,
{
    match e {
        ExprModel::Binary { op, left, right } if is_arithmetic(op) => {
            lemma_tokens_length(*left);
            lemma_tokens_length(*right);
        },
        ExprModel::Unary { op, operand } if op == SqlUnaryOp::Negate => {
            lemma_tokens_length(*operand);
        },
        _ => {},
    }
}

/// The texts of operands and operators.
pub open spec fn token_texts(style: Style, ts: Seq<Token>) -> Seq<Seq<char>> {
    ts.map_values(
        |t: Token|
            match t {
                Token::Operand(e) => style.expr(e),
                Token::Operator(op) => " "@ + binary_op_text(op) + " "@,
            },
    )
}

/// The text of an expression is the row of its operands and operators.
#[verifier::rlimit(40)]
pub proof fn text_is_row_of_tokens(style: Style, e: ExprModel)
    ensures
        style.expr(e) == concatenated(token_texts(style, tokens(e))),
    decreases e,
{
    match e {
        ExprModel::Binary { op, left, right } if is_arithmetic(op) => {
            text_is_row_of_tokens(style, *left);
            text_is_row_of_tokens(style, *right);
            let sign = " "@ + binary_op_text(op) + " "@;
            let first = token_texts(style, tokens(*left));
            let second = token_texts(style, tokens(*right));
            assert(token_texts(style, tokens(e)) =~= first + seq![sign] + second);
            lemma_concatenated_add(first + seq![sign], second);
            lemma_concatenated_add(first, seq![sign]);
            lemma_concatenated_single(sign);
            assert(style.expr(e) =~= style.expr(*left) + sign + style.expr(*right));
        },
        ExprModel::Unary { op, operand } if op == SqlUnaryOp::Negate => {
            text_is_row_of_tokens(style, *operand);
            lemma_tokens_length(*operand);
            let inner = token_texts(style, tokens(*operand));
            let outer = token_texts(style, tokens(e));
            let rest = inner.skip(1);
            let first = tokens(*operand)[0]->Operand_0;
            assert(style.expr(negated(first)) == "-"@ + style.expr(first));
            assert(inner =~= seq![inner[0]] + rest);
            assert(outer =~= seq!["-"@ + inner[0]] + rest);
            lemma_concatenated_add(seq![inner[0]], rest);
            lemma_concatenated_add(seq!["-"@ + inner[0]], rest);
            lemma_concatenated_single(inner[0]);
            lemma_concatenated_single("-"@ + inner[0]);
            assert(concatenated(outer) =~= "-"@ + concatenated(inner));
        },
        _ => {
            assert(token_texts(style, tokens(e)) =~= seq![style.expr(e)]);
            lemma_concatenated_single(style.expr(e));
        },
    }
}

/// What has been read of a row: the sum of the terms that are complete, and the
/// term that may still grow.
pub struct Reading {
    pub sum: int,
    pub minus: bool,
    pub term: int,
}

impl Reading {
    /// The value of what has been read.
    pub open spec fn value(self) -> int {
        if self.minus {
            self.sum - self.term
        } else {
            self.sum + self.term
        }
    }
}

/// A way to compute: what operands are worth, and what `*`, `/` and `%` do.
pub struct Arithmetic {
    pub operand: spec_fn(ExprModel) -> int,
    pub product: spec_fn(SqlBinaryOp, int, int) -> int,
}

impl Arithmetic {
    /// What an operator makes of two numbers.
    pub open spec fn apply(self, op: SqlBinaryOp, a: int, b: int) -> int {
        match op {
            SqlBinaryOp::Add => a + b,
            SqlBinaryOp::Subtract => a - b,
            _ => (self.product)(op, a, b),
        }
    }

    /// What an operand is worth.
    pub open spec fn worth(self, t: Token) -> int {
        match t {
            Token::Operand(e) => (self.operand)(e),
            Token::Operator(_) => 0,
        }
    }

    /// Reads a row of operands and operators by precedence: an additive operator
    /// completes the term before it, a multiplicative one extends it.
    pub open spec fn reading(self, ts: Seq<Token>) -> Reading
        decreases ts.len(),
    {
        if ts.len() < 3 {
            Reading { sum: 0, minus: false, term: self.worth(ts[0]) }
        } else {
            let earlier = self.reading(ts.take(ts.len() - 2));
            let last = self.worth(ts.last());
            match ts[ts.len() - 2] {
                Token::Operator(op) => if is_multiplicative(op) {
                    Reading { term: (self.product)(op, earlier.term, last), ..earlier }
                } else {
                    Reading {
                        sum: earlier.value(),
                        minus: op == SqlBinaryOp::Subtract,
                        term: last,
                    }
                },
                Token::Operand(_) => earlier,
            }
        }
    }

    /// What SQL computes for the text of an expression.
    pub open spec fn read(self, e: ExprModel) -> int {
        self.reading(tokens(e)).value()
    }

    /// What an expression means: each operator is applied to the meanings of its
    /// own two operands.
    pub open spec fn meaning(self, e: ExprModel) -> int
        decreases e,
    {
        match e {
            ExprModel::Binary { op, left, right } => if is_arithmetic(op) {
                self.apply(op, self.meaning(*left), self.meaning(*right))
            } else {
                (self.operand)(e)
            },
            ExprModel::Unary { op, operand } => if op == SqlUnaryOp::Negate {
                -self.meaning(*operand)
            } else {
                (self.operand)(e)
            },
            ExprModel::Parenthesized(inner) => self.meaning(*inner),
            _ => (self.operand)(e),
        }
    }

    /// What stands in parentheses is worth what is read of it by itself.
    pub open spec fn reads_parentheses(self) -> bool {
        forall|x: ExprModel|
            (#[trigger] (self.operand)(ExprModel::Parenthesized(Box::new(x)))) == self.read(x)
    }

    /// An operand behind a minus sign is worth the opposite.
    pub open spec fn reads_minus(self) -> bool {
        forall|x: ExprModel| (#[trigger] (self.operand)(negated(x))) == -(self.operand)(x)
    }
}

/// Whether an expression is a sum or a difference.
pub open spec fn is_sum(e: ExprModel) -> bool {
    match e {
        ExprModel::Binary { op, left, right } => is_additive(op),
        _ => false,
    }
}

/// Whether an expression is an arithmetic operation.
pub open spec fn is_operation(e: ExprModel) -> bool {
    match e {
        ExprModel::Binary { op, left, right } => is_arithmetic(op),
        _ => false,
    }
}

/// Whether an arithmetic expression has parentheses wherever its text would be
/// read differently without them.
pub open spec fn well_grouped(e: ExprModel) -> bool
    decreases e,
{
    match e {
        ExprModel::Binary { op, left, right } => is_arithmetic(op) ==> {
            &&& well_grouped(*left)
            &&& well_grouped(*right)
            &&& is_multiplicative(op) ==> !is_sum(*left) && !is_operation(*right)
            &&& op == SqlBinaryOp::Subtract ==> !is_sum(*right)
        },
        ExprModel::Unary { op, operand } => op == SqlUnaryOp::Negate ==> well_grouped(*operand),
        ExprModel::Parenthesized(inner) => well_grouped(*inner),
        _ => true,
    }
}

/// Whether the text of a call has an operator in it.
pub open spec fn is_infix_call(name: Seq<char>, args: Seq<ExprModel>) -> bool {
    args.len() == 2 && (name == "json_extract"@ || name == "json_extract_text"@ || name
        == "contains"@ || name == "startswith"@ || name == "endswith"@)
}

/// Whether the text of an operand is read as a unit, whatever arithmetic stands
/// around it.
pub open spec fn is_unit(e: ExprModel) -> bool
    decreases e,
{
    match e {
        ExprModel::Binary { op, left, right } => op == SqlBinaryOp::Or,
        ExprModel::Unary { op, operand } => op == SqlUnaryOp::Exists,
        ExprModel::Function { name, args } => !is_infix_call(name, args),
        ExprModel::Between { .. } => false,
        ExprModel::ArrayIndex { expr, index } => is_unit(*expr),
        _ => true,
    }
}

/// Whether the text of an operand begins with a minus sign.
pub open spec fn begins_with_minus(e: ExprModel) -> bool {
    match e {
        ExprModel::Literal(LiteralModel::Integer(i)) => i < 0,
        ExprModel::Literal(LiteralModel::Float(f)) => f.len() > 0 && f[0] == '-',
        ExprModel::Unary { op, operand } => op == SqlUnaryOp::Negate,
        _ => false,
    }
}

/// Whether all operands of an arithmetic expression are read as units, and minus
/// signs stand before single operands without a minus sign of their own.
pub open spec fn is_plain(e: ExprModel) -> bool
    decreases e,
{
    match e {
        ExprModel::Binary { op, left, right } => if is_arithmetic(op) {
            is_plain(*left) && is_plain(*right)
        } else {
            is_unit(e)
        },
        ExprModel::Unary { op, operand } => if op == SqlUnaryOp::Negate {
            !is_operation(*operand) && !begins_with_minus(*operand) && is_plain(*operand)
        } else {
            is_unit(e)
        },
        ExprModel::Parenthesized(inner) => is_plain(*inner),
        _ => is_unit(e),
    }
}

/// Whether a row is a single term.
spec fn is_term(ts: Seq<Token>) -> bool {
    forall|i: int|
        0 <= i < ts.len() ==> match #[trigger] ts[i] {
            Token::Operator(op) => is_multiplicative(op),
            Token::Operand(_) => true,
        }
}

proof fn lemma_single_token(e: ExprModel)
    requires
        is_plain(e),
        !is_operation(e),
    ensures
        tokens(e) == seq![Token::Operand(e)],
    decreases e,
{
    match e {
        ExprModel::Unary { op, operand } if op == SqlUnaryOp::Negate => {
            lemma_single_token(*operand);
            assert(tokens(e) =~= seq![Token::Operand(e)]);
        },
        _ => {},
    }
}

proof fn lemma_term_tokens(e: ExprModel)
    requires
        well_grouped(e),
        is_plain(e),
        !is_sum(e),
    ensures
        is_term(tokens(e)),
    decreases e,
{
    match e {
        ExprModel::Binary { op, left, right } if is_arithmetic(op) => {
            lemma_term_tokens(*left);
            lemma_single_token(*right);
        },
        _ => {
            lemma_single_token(e);
        },
    }
}

impl Arithmetic {
    proof fn lemma_term_reading(self, ts: Seq<Token>)
        requires
            is_term(ts),
        ensures
            self.reading(ts).sum == 0,
            !self.reading(ts).minus,
        decreases ts.len(),
    {
        if ts.len() >= 3 {
            let shorter = ts.take(ts.len() - 2);
            assert forall|i: int| 0 <= i < shorter.len() implies match #[trigger] shorter[i] {
                Token::Operator(op) => is_multiplicative(op),
                Token::Operand(_) => true,
            } by {
                assert(shorter[i] == ts[i]);
            }
            self.lemma_term_reading(shorter);
            assert(match ts[ts.len() - 2] {
                Token::Operator(op) => is_multiplicative(op),
                Token::Operand(_) => true,
            });
        }
    }

    proof fn lemma_reading_after_plus(self, a: Seq<Token>, b: Seq<Token>)
        requires
            a.len() > 0,
            a.len() % 2 == 1,
            b.len() > 0,
            b.len() % 2 == 1,
        ensures
            self.reading(a + seq![Token::Operator(SqlBinaryOp::Add)] + b) == (Reading {
                sum: self.reading(a).value() + self.reading(b).sum,
                ..self.reading(b)
            }),
        decreases b.len(),
    {
        let row = a + seq![Token::Operator(SqlBinaryOp::Add)] + b;
        if b.len() == 1 {
            assert(row.take(row.len() - 2) =~= a);
        } else {
            let shorter = b.take(b.len() - 2);
            self.lemma_reading_after_plus(a, shorter);
            assert(row.take(row.len() - 2) =~= a + seq![Token::Operator(SqlBinaryOp::Add)]
                + shorter);
            assert(row[row.len() - 2] == b[b.len() - 2]);
            assert(row.last() == b.last());
        }
    }

    proof fn lemma_reading_after_minus(self, a: Seq<Token>, b: Seq<Token>)
        requires
            a.len() > 0,
            a.len() % 2 == 1,
            b.len() > 0,
            b.len() % 2 == 1,
            is_term(b),
        ensures
            self.reading(a + seq![Token::Operator(SqlBinaryOp::Subtract)] + b) == (Reading {
                sum: self.reading(a).value(),
                minus: true,
                term: self.reading(b).term,
            }),
        decreases b.len(),
    {
        let row = a + seq![Token::Operator(SqlBinaryOp::Subtract)] + b;
        if b.len() == 1 {
            assert(row.take(row.len() - 2) =~= a);
        } else {
            let shorter = b.take(b.len() - 2);
            assert forall|i: int| 0 <= i < shorter.len() implies match #[trigger] shorter[i] {
                Token::Operator(op) => is_multiplicative(op),
                Token::Operand(_) => true,
            } by {
                assert(shorter[i] == b[i]);
            }
            self.lemma_reading_after_minus(a, shorter);
            assert(row.take(row.len() - 2) =~= a + seq![Token::Operator(SqlBinaryOp::Subtract)]
                + shorter);
            assert(row[row.len() - 2] == b[b.len() - 2]);
            assert(row.last() == b.last());
            assert(match b[b.len() - 2] {
                Token::Operator(op) => is_multiplicative(op),
                Token::Operand(_) => true,
            });
        }
    }
}

/// What SQL reads in the text of a well grouped, plain expression is what the
/// expression means.
pub proof fn grouped_text_keeps_meaning(arith: Arithmetic, e: ExprModel)
    requires
        arith.reads_parentheses(),
        arith.reads_minus(),
        well_grouped(e),
        is_plain(e),
    ensures
        arith.read(e) == arith.meaning(e),
    decreases e,
{
    match e {
        ExprModel::Binary { op, left, right } if is_arithmetic(op) => {
            grouped_text_keeps_meaning(arith, *left);
            grouped_text_keeps_meaning(arith, *right);
            lemma_tokens_length(*left);
            lemma_tokens_length(*right);
            let a = tokens(*left);
            let b = tokens(*right);
            if is_multiplicative(op) {
                lemma_term_tokens(*left);
                lemma_single_token(*right);
                arith.lemma_term_reading(a);
                let row = a + seq![Token::Operator(op)] + b;
                assert(row.take(row.len() - 2) =~= a);
                assert(row[row.len() - 2] == Token::Operator(op));
                assert(arith.reading(b).term == arith.worth(b[0]));
            } else if op == SqlBinaryOp::Subtract {
                lemma_term_tokens(*right);
                arith.lemma_term_reading(b);
                arith.lemma_reading_after_minus(a, b);
            } else {
                arith.lemma_reading_after_plus(a, b);
            }
        },
        ExprModel::Parenthesized(inner) => {
            grouped_text_keeps_meaning(arith, *inner);
            assert((arith.operand)(ExprModel::Parenthesized(Box::new(*inner))) == arith.read(
                *inner,
            ));
        },
        ExprModel::Unary { op, operand } if op == SqlUnaryOp::Negate => {
            grouped_text_keeps_meaning(arith, *operand);
            lemma_single_token(*operand);
            lemma_single_token(e);
            assert((arith.operand)(negated(*operand)) == -(arith.operand)(*operand));
        },
        _ => {},
    }
}

/// The parentheses of the translator group an operation of grouped operands.
proof fn lemma_parenthesized(l: ExprModel, r: ExprModel, op: ArithOp)
    requires
        well_grouped(l),
        well_grouped(r),
    ensures
        well_grouped(
            ExprModel::binary(
                arithmetic(op),
                parenthesized(l, op, true),
                parenthesized(r, op, false),
            ),
        ),
{
    assert(well_grouped(parenthesized(l, op, true)));
    assert(well_grouped(parenthesized(r, op, false)));
}

/// Whether every variable that stands for an expression stands for a well grouped
/// one.
pub open spec fn grouped_assignments(t: TranslatorModel) -> bool {
    forall|name: Seq<char>| #[trigger]
        t.variable_assignments.contains_key(name) ==> well_grouped(t.variable_assignments[name])
}

proof fn lemma_reference_is_operand(t: TranslatorModel, e: Expr)
    requires
        e is RefDot,
    ensures
        match t.reference_parts(e) {
            Ok((base, keys)) => keys.len() > 0 || base is Column,
            Err(_) => true,
        },
{
}

/// Every expression that the translator makes is well grouped.
pub proof fn translated_is_grouped(t: TranslatorModel, e: Expr)
    requires
        grouped_assignments(t),
    ensures
        match t.expression(e) {
            Ok(x) => well_grouped(x),
            Err(_) => true,
        },
    decreases e,
{
    match e {
        Expr::ArithExpr { op, lhs, rhs } => {
            translated_is_grouped(t, *lhs);
            translated_is_grouped(t, *rhs);
            match (t.expression(*lhs), t.expression(*rhs)) {
                (Ok(l), Ok(r)) => {
                    lemma_parenthesized(l, r, op);
                },
                _ => {},
            }
        },
        Expr::UnaryExpr { expr } => {
            translated_is_grouped(t, *expr);
        },
        Expr::RefDot { refr, field } => {
            lemma_reference_is_operand(t, e);
        },
        _ => {},
    }
}

/// Variables keep standing for well grouped expressions, whatever the statement.
pub proof fn assignments_stay_grouped(t: TranslatorModel, literal: Literal)
    requires
        grouped_assignments(t),
    ensures
        match t.statement(literal) {
            Ok((next, _)) => grouped_assignments(next),
            Err(_) => true,
        },
{
    match literal {
        Literal::Expr { expr } => match expr {
            Expr::AssignExpr { lhs, rhs } => {
                translated_is_grouped(t, *rhs);
            },
            _ => {},
        },
        _ => {},
    }
}

/// An arithmetic expression of Rego with plain operands keeps its meaning: what
/// SQL reads in its text is its operator applied to what SQL reads in the texts of
/// its operands. The operands may not hold a negated operation or an operand that
/// is no unit, such as a JSON lookup.
pub proof fn arithmetic_keeps_meaning(
    t: TranslatorModel,
    arith: Arithmetic,
    op: ArithOp,
    lhs: Expr,
    rhs: Expr,
    l: ExprModel,
    r: ExprModel,
)
    requires
        grouped_assignments(t),
        arith.reads_parentheses(),
        arith.reads_minus(),
        is_plain(l),
        is_plain(r),
        t.expression(lhs) == Ok::<ExprModel, ErrorModel>(l),
        t.expression(rhs) == Ok::<ExprModel, ErrorModel>(r),
    ensures
        match t.expression(
            (Expr::ArithExpr { op, lhs: Box::new(lhs), rhs: Box::new(rhs) }),
        ) {
            Ok(x) => arith.read(x) == arith.apply(arithmetic(op), arith.read(l), arith.read(r)),
            Err(_) => false,
        },
{
    let e = Expr::ArithExpr { op, lhs: Box::new(lhs), rhs: Box::new(rhs) };
    translated_is_grouped(t, lhs);
    translated_is_grouped(t, rhs);
    translated_is_grouped(t, e);
    grouped_text_keeps_meaning(arith, l);
    grouped_text_keeps_meaning(arith, r);
    let left = parenthesized(l, op, true);
    let right = parenthesized(r, op, false);
    let x = ExprModel::binary(arithmetic(op), left, right);
    assert(t.expression(e) == Ok::<ExprModel, ErrorModel>(x));
    assert(is_plain(left) && is_plain(right));
    grouped_text_keeps_meaning(arith, x);
    assert(arith.meaning(left) == arith.meaning(l));
    assert(arith.meaning(right) == arith.meaning(r));
}

/// A negated expression of Rego keeps its meaning where its operand is plain and
/// no operation: `-(a + b)` is written `-a + b`.
pub proof fn negation_keeps_meaning(
    t: TranslatorModel,
    arith: Arithmetic,
    operand: Expr,
    x: ExprModel,
)
    requires
        grouped_assignments(t),
        arith.reads_parentheses(),
        arith.reads_minus(),
        is_plain(negated(x)),
        t.expression(operand) == Ok::<ExprModel, ErrorModel>(x),
    ensures
        match t.expression((Expr::UnaryExpr { expr: Box::new(operand) })) {
            Ok(e) => arith.read(e) == -arith.read(x),
            Err(_) => false,
        },
{
    translated_is_grouped(t, operand);
    grouped_text_keeps_meaning(arith, x);
    grouped_text_keeps_meaning(arith, negated(x));
    let e = Expr::UnaryExpr { expr: Box::new(operand) };
    assert(t.expression(e) == Ok::<ExprModel, ErrorModel>(negated(x)));
}

/// A shifted array position is still well grouped.
pub proof fn shifted_position_is_grouped(position: ExprModel)
    requires
        well_grouped(position),
    ensures
        match one_based(position) {
            Ok(x) => well_grouped(x),
            Err(_) => true,
        },
        match inclusive_end(position) {
            Ok(x) => well_grouped(x),
            Err(_) => true,
        },
{
    assert(well_grouped(integer(1)));
}

} // verus!
