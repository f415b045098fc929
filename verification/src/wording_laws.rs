//! Laws of wording: the words of SQL text say what the query asks for, and can be read
//! back.

use crate::model::{
    AggregateModel, ColumnModel, CteModel, ExprModel, JoinConditionModel, JoinSourceModel,
    LiteralModel, OperationModel, OrderModel, QueryModel,
};
use crate::render::{
    binary_op_text, direction_text, first_index, is_aggregate, is_project, join_kind_text,
    lemma_first_index, null_order_text, Style,
};
use crate::rendering_laws::{decimal_read, digits_read, integer_literal_reads_back};
use crate::sql_codegen::SqlDialect;
use crate::sql_ir::{
    SqlAggregateFunction, SqlBinaryOp, SqlDataType, SqlJoinKind, SqlNullOrder, SqlSortDirection,
    SqlUnaryOp,
};
use crate::text::{
    concatenated, digits, joined, quotes_doubled, quotes_trimmed, uppercase_of,
    without_leading_quotes, without_trailing_quotes,
};
use vstd::prelude::*;

verus! {

/// The operator that a sign or word stands for in SQL.
pub open spec fn operator_read(word: Seq<char>) -> Option<SqlBinaryOp> {
    if word == "="@ {
        Some(SqlBinaryOp::Equal)
    } else if word == "!="@ {
        Some(SqlBinaryOp::NotEqual)
    } else if word == "<"@ {
        Some(SqlBinaryOp::LessThan)
    } else if word == "<="@ {
        Some(SqlBinaryOp::LessThanOrEqual)
    } else if word == ">"@ {
        Some(SqlBinaryOp::GreaterThan)
    } else if word == ">="@ {
        Some(SqlBinaryOp::GreaterThanOrEqual)
    } else if word == "+"@ {
        Some(SqlBinaryOp::Add)
    } else if word == "-"@ {
        Some(SqlBinaryOp::Subtract)
    } else if word == "*"@ {
        Some(SqlBinaryOp::Multiply)
    } else if word == "/"@ {
        Some(SqlBinaryOp::Divide)
    } else if word == "%"@ {
        Some(SqlBinaryOp::Modulo)
    } else if word == "AND"@ {
        Some(SqlBinaryOp::And)
    } else if word == "OR"@ {
        Some(SqlBinaryOp::Or)
    } else if word == "LIKE"@ {
        Some(SqlBinaryOp::Like)
    } else if word == "NOT LIKE"@ {
        Some(SqlBinaryOp::NotLike)
    } else if word == "ILIKE"@ {
        Some(SqlBinaryOp::ILike)
    } else if word == "NOT ILIKE"@ {
        Some(SqlBinaryOp::NotILike)
    } else if word == "IN"@ {
        Some(SqlBinaryOp::In)
    } else if word == "NOT IN"@ {
        Some(SqlBinaryOp::NotIn)
    } else if word == "IS NULL"@ {
        Some(SqlBinaryOp::IsNull)
    } else if word == "IS NOT NULL"@ {
        Some(SqlBinaryOp::IsNotNull)
    } else if word == "SIMILAR TO"@ {
        Some(SqlBinaryOp::SimilarTo)
    } else if word == "NOT SIMILAR TO"@ {
        Some(SqlBinaryOp::NotSimilarTo)
    } else if word == "||"@ {
        Some(SqlBinaryOp::Concat)
    } else if word == "~"@ {
        Some(SqlBinaryOp::RegexMatch)
    } else {
        None
    }
}

proof fn lemma_signs_differ()
    ensures
        "="@.len() == 1,
        "="@[0] == '=',
        "!="@.len() == 2,
        "!="@[0] == '!',
        "<"@.len() == 1,
        "<"@[0] == '<',
        "<="@.len() == 2,
        "<="@[0] == '<',
        ">"@.len() == 1,
        ">"@[0] == '>',
        ">="@.len() == 2,
        ">="@[0] == '>',
        "+"@.len() == 1,
        "+"@[0] == '+',
        "-"@.len() == 1,
        "-"@[0] == '-',
        "*"@.len() == 1,
        "*"@[0] == '*',
        "/"@.len() == 1,
        "/"@[0] == '/',
        "%"@.len() == 1,
        "%"@[0] == '%',
        "AND"@.len() == 3,
        "OR"@.len() == 2,
        "OR"@[0] == 'O',
        "LIKE"@.len() == 4,
        "NOT LIKE"@.len() == 8,
        "ILIKE"@.len() == 5,
        "NOT ILIKE"@.len() == 9,
        "IN"@.len() == 2,
        "IN"@[0] == 'I',
        "NOT IN"@.len() == 6,
        "IS NULL"@.len() == 7,
        "IS NOT NULL"@.len() == 11,
        "SIMILAR TO"@.len() == 10,
        "NOT SIMILAR TO"@.len() == 14,
        "||"@.len() == 2,
        "||"@[0] == '|',
        "~"@.len() == 1,
        "~"@[0] == '~',
{
    reveal_strlit("=");
    reveal_strlit("!=");
    reveal_strlit("<");
    reveal_strlit("<=");
    reveal_strlit(">");
    reveal_strlit(">=");
    reveal_strlit("+");
    reveal_strlit("-");
    reveal_strlit("*");
    reveal_strlit("/");
    reveal_strlit("%");
    reveal_strlit("AND");
    reveal_strlit("OR");
    reveal_strlit("LIKE");
    reveal_strlit("NOT LIKE");
    reveal_strlit("ILIKE");
    reveal_strlit("NOT ILIKE");
    reveal_strlit("IN");
    reveal_strlit("NOT IN");
    reveal_strlit("IS NULL");
    reveal_strlit("IS NOT NULL");
    reveal_strlit("SIMILAR TO");
    reveal_strlit("NOT SIMILAR TO");
    reveal_strlit("||");
    reveal_strlit("~");
}

/// The sign or word of an operator reads back as that operator.
pub proof fn operators_read_back(op: SqlBinaryOp)
    ensures
        operator_read(binary_op_text(op)) == Some(op),
{
    lemma_signs_differ();
}

/// The data type that a name stands for in a dialect.
pub open spec fn type_read(d: SqlDialect, name: Seq<char>) -> Option<SqlDataType>
    decreases name.len(),
{
    if name.len() >= 2 && name[name.len() - 2] == '[' && name[name.len() - 1] == ']' {
        match type_read(d, name.take(name.len() - 2)) {
            Some(inner) => Some(SqlDataType::Array(Box::new(inner))),
            None => None,
        }
    } else if name.len() >= 9 && name.take(8) == "VARCHAR("@ && name.last() == ')' {
        Some(SqlDataType::Varchar(Some(digits_read(name.subrange(8, name.len() - 1)) as usize)))
    } else if name == "VARCHAR"@ {
        Some(SqlDataType::Varchar(None))
    } else if name == "BOOLEAN"@ && d != SqlDialect::MySQL && d != SqlDialect::TSQL || name
        == "BIT"@ && d == SqlDialect::TSQL || name == "TINYINT(1)"@ && d == SqlDialect::MySQL {
        Some(SqlDataType::Boolean)
    } else if name == "INTEGER"@ {
        Some(SqlDataType::Integer)
    } else if name == "BIGINT"@ {
        Some(SqlDataType::BigInt)
    } else if name == "SMALLINT"@ {
        Some(SqlDataType::SmallInt)
    } else if name == "DECIMAL"@ {
        Some(SqlDataType::Decimal)
    } else if name == "REAL"@ {
        Some(SqlDataType::Real)
    } else if name == "DOUBLE PRECISION"@ {
        Some(SqlDataType::DoublePrecision)
    } else if name == "TEXT"@ {
        Some(SqlDataType::Text)
    } else if name == "DATE"@ {
        Some(SqlDataType::Date)
    } else if name == "TIME"@ {
        Some(SqlDataType::Time)
    } else if name == "TIMESTAMP"@ {
        Some(SqlDataType::Timestamp)
    } else if name == "TIMESTAMP WITH TIME ZONE"@ {
        Some(SqlDataType::Timestamptz)
    } else if name == "INTERVAL"@ {
        Some(SqlDataType::Interval)
    } else if name == "JSON"@ {
        Some(SqlDataType::Json)
    } else if name == "JSONB"@ {
        Some(SqlDataType::Jsonb)
    } else if name == "NUMERIC"@ {
        Some(SqlDataType::Numeric)
    } else {
        None
    }
}

/// A data type as a dialect tells it from others: only PostgreSQL has binary JSON.
pub open spec fn told_type(d: SqlDialect, t: SqlDataType) -> SqlDataType
    decreases t,
{
    match t {
        SqlDataType::Jsonb => if d == SqlDialect::PostgreSQL {
            SqlDataType::Jsonb
        } else {
            SqlDataType::Json
        },
        SqlDataType::Array(inner) => SqlDataType::Array(Box::new(told_type(d, *inner))),
        _ => t,
    }
}

proof fn lemma_type_names_differ()
    ensures
        "INTEGER"@.len() == 7,
        "INTEGER"@[0] == 'I',
        "INTEGER"@[6] == 'R',
        "BIGINT"@.len() == 6,
        "BIGINT"@[5] == 'T',
        "SMALLINT"@.len() == 8,
        "SMALLINT"@[0] == 'S',
        "SMALLINT"@[7] == 'T',
        "DECIMAL"@.len() == 7,
        "DECIMAL"@[0] == 'D',
        "DECIMAL"@[6] == 'L',
        "REAL"@.len() == 4,
        "REAL"@[0] == 'R',
        "REAL"@[3] == 'L',
        "DOUBLE PRECISION"@.len() == 16,
        "DOUBLE PRECISION"@[15] == 'N',
        "TEXT"@.len() == 4,
        "TEXT"@[0] == 'T',
        "TEXT"@[1] == 'E',
        "TEXT"@[3] == 'T',
        "DATE"@.len() == 4,
        "DATE"@[0] == 'D',
        "DATE"@[3] == 'E',
        "TIME"@.len() == 4,
        "TIME"@[0] == 'T',
        "TIME"@[1] == 'I',
        "TIME"@[3] == 'E',
        "TIMESTAMP"@.len() == 9,
        "TIMESTAMP"@[8] == 'P',
        "TIMESTAMP WITH TIME ZONE"@.len() == 24,
        "TIMESTAMP WITH TIME ZONE"@[23] == 'E',
        "INTERVAL"@.len() == 8,
        "INTERVAL"@[0] == 'I',
        "INTERVAL"@[7] == 'L',
        "JSON"@.len() == 4,
        "JSON"@[0] == 'J',
        "JSON"@[3] == 'N',
        "JSONB"@.len() == 5,
        "JSONB"@[4] == 'B',
        "NUMERIC"@.len() == 7,
        "NUMERIC"@[0] == 'N',
        "NUMERIC"@[6] == 'C',
        "VARCHAR"@.len() == 7,
        "VARCHAR"@[0] == 'V',
        "VARCHAR"@[6] == 'R',
        "BOOLEAN"@.len() == 7,
        "BOOLEAN"@[0] == 'B',
        "BOOLEAN"@[6] == 'N',
        "BIT"@.len() == 3,
        "BIT"@[2] == 'T',
        "TINYINT(1)"@.len() == 10,
        "TINYINT(1)"@[9] == ')',
        "VARCHAR("@.len() == 8,
        "VARCHAR("@[0] == 'V',
        "VARCHAR("@[7] == '(',
{
    reveal_strlit("INTEGER");
    reveal_strlit("BIGINT");
    reveal_strlit("SMALLINT");
    reveal_strlit("DECIMAL");
    reveal_strlit("REAL");
    reveal_strlit("DOUBLE PRECISION");
    reveal_strlit("TEXT");
    reveal_strlit("DATE");
    reveal_strlit("TIME");
    reveal_strlit("TIMESTAMP");
    reveal_strlit("TIMESTAMP WITH TIME ZONE");
    reveal_strlit("INTERVAL");
    reveal_strlit("JSON");
    reveal_strlit("JSONB");
    reveal_strlit("NUMERIC");
    reveal_strlit("VARCHAR");
    reveal_strlit("BOOLEAN");
    reveal_strlit("BIT");
    reveal_strlit("TINYINT(1)");
    reveal_strlit("VARCHAR(");
}

/// The name of a data type reads back as that type.
pub proof fn data_types_read_back(style: Style, t: SqlDataType)
    ensures
        type_read(style.dialect, style.data_type(t)) == Some(told_type(style.dialect, t)),
    decreases t,
{
    lemma_type_names_differ();
    let d = style.dialect;
    let name = style.data_type(t);
    match t {
        SqlDataType::Array(inner) => {
            data_types_read_back(style, *inner);
            reveal_strlit("[]");
            assert(name.take(name.len() - 2) =~= style.data_type(*inner));
        },
        SqlDataType::Varchar(Some(n)) => {
            lemma_digits(n as nat);
            reveal_strlit(")");
            reveal_strlit("VARCHAR(");
            assert(name.take(8) =~= "VARCHAR("@);
            assert(name.subrange(8, name.len() - 1) =~= digits(n as nat));
        },
        _ => {
            if name.len() >= 9 {
                assert(name.take(8)[7] == name[7]);
                reveal_strlit("DOUBLE PRECISION");
                reveal_strlit("TIMESTAMP");
                reveal_strlit("TIMESTAMP WITH TIME ZONE");
                reveal_strlit("TINYINT(1)");
                assert("TINYINT(1)"@[0] == 'T');
                assert(name.take(8)[0] == name[0]);
                assert("VARCHAR("@[0] == 'V') by {
                    reveal_strlit("VARCHAR(");
                }
            }
        },
    }
}

proof fn lemma_digits(n: nat)
    ensures
        digits_read(digits(n)) == n,
        digits(n).len() > 0,
    decreases n,
{
    if n < 10 {
        reveal_with_fuel(digits_read, 2);
        assert(digits(n).drop_last() =~= Seq::empty());
    } else {
        lemma_digits(n / 10);
        assert(digits(n).drop_last() =~= digits(n / 10));
    }
}

/// Whether a comparison sign of SQL holds between two numbers: `<`, `>` and `=` each
/// allow one case, and `!` forbids equality alone.
pub open spec fn sign_holds(sign: Seq<char>, a: int, b: int) -> bool {
    if sign.contains('!') {
        a != b
    } else {
        sign.contains('<') && a < b || sign.contains('>') && a > b || sign.contains('=') && a == b
    }
}

/// Whether a comparison holds between two numbers.
pub open spec fn operator_holds(op: SqlBinaryOp, a: int, b: int) -> bool {
    match op {
        SqlBinaryOp::Equal => a == b,
        SqlBinaryOp::NotEqual => a != b,
        SqlBinaryOp::LessThan => a < b,
        SqlBinaryOp::LessThanOrEqual => a <= b,
        SqlBinaryOp::GreaterThan => a > b,
        SqlBinaryOp::GreaterThanOrEqual => a >= b,
        _ => false,
    }
}

/// Whether an operator is a comparison.
pub open spec fn is_comparison(op: SqlBinaryOp) -> bool {
    op == SqlBinaryOp::Equal || op == SqlBinaryOp::NotEqual || op == SqlBinaryOp::LessThan || op
        == SqlBinaryOp::LessThanOrEqual || op == SqlBinaryOp::GreaterThan || op
        == SqlBinaryOp::GreaterThanOrEqual
}

/// A comparison is written with its left side first, and a sign that holds where the
/// operator does.
pub proof fn comparison_signs_hold(style: Style, op: SqlBinaryOp, left: ExprModel, right: ExprModel)
    requires
        is_comparison(op),
    ensures
        style.expr(ExprModel::Binary { op, left: Box::new(left), right: Box::new(right) })
            == style.expr(left) + seq![' '] + binary_op_text(op) + seq![' '] + style.expr(right),
        forall|a: int, b: int|
            #[trigger] sign_holds(binary_op_text(op), a, b) == operator_holds(op, a, b),
{
    reveal_strlit("=");
    reveal_strlit("!=");
    reveal_strlit("<");
    reveal_strlit("<=");
    reveal_strlit(">");
    reveal_strlit(">=");
    reveal_strlit(" ");
    assert(" "@ =~= seq![' ']);
    let sign = binary_op_text(op);
    assert(forall|c: char| sign.contains(c) ==> sign[0] == c || sign[1] == c);
    assert(sign[0] == '=' || sign[0] == '!' || sign[0] == '<' || sign[0] == '>');
    if op == SqlBinaryOp::NotEqual || op == SqlBinaryOp::LessThanOrEqual || op
        == SqlBinaryOp::GreaterThanOrEqual {
        assert(sign[1] == '=');
        assert(sign.contains(sign[0]) && sign.contains(sign[1]));
    } else {
        assert(sign.len() == 1);
        assert(sign.contains(sign[0]));
    }
}

/// How an operator is written between the texts of its operands, in every dialect: the
/// left one first, then the word that reads back as the operator, then the right one.
/// A test for null has nothing on its right, `OR` stands in parentheses, and a
/// comparison without regard to case is one of lower-case texts where the dialect has
/// no word for it.
pub proof fn operators_stand_between_operands(
    style: Style,
    op: SqlBinaryOp,
    left: ExprModel,
    right: ExprModel,
)
    requires
        op != SqlBinaryOp::In,
        op != SqlBinaryOp::NotIn,
    ensures
        ({
            let text = style.expr(
                (ExprModel::Binary { op, left: Box::new(left), right: Box::new(right) }),
            );
            let l = style.expr(left);
            let r = style.expr(right);
            let blank = seq![' '];
            exists|word: Seq<char>| #[trigger]
                operator_read(word) == Some(op) && match op {
                    SqlBinaryOp::IsNull | SqlBinaryOp::IsNotNull => text == l + blank + word,
                    SqlBinaryOp::Or => text == seq!['('] + l + blank + word + blank + r + seq![')'],
                    SqlBinaryOp::ILike | SqlBinaryOp::NotILike => if style.dialect
                        == SqlDialect::PostgreSQL {
                        text == l + blank + word + blank + r
                    } else {
                        text == lowered(l) + blank + binary_op_text(
                            if op == SqlBinaryOp::ILike {
                                SqlBinaryOp::Like
                            } else {
                                SqlBinaryOp::NotLike
                            },
                        ) + blank + lowered(r)
                    },
                    _ => text == l + blank + word + blank + r,
                }
        }),
{
    operators_read_back(op);
    let word = binary_op_text(op);
    let text = style.expr(
        (ExprModel::Binary { op, left: Box::new(left), right: Box::new(right) }),
    );
    let l = style.expr(left);
    let r = style.expr(right);
    let blank = seq![' '];
    reveal_strlit(" ");
    reveal_strlit("(");
    reveal_strlit(")");
    reveal_strlit(" OR ");
    reveal_strlit("OR");
    reveal_strlit(" IS NULL");
    reveal_strlit("IS NULL");
    reveal_strlit(" IS NOT NULL");
    reveal_strlit("IS NOT NULL");
    reveal_strlit(" ILIKE ");
    reveal_strlit("ILIKE");
    reveal_strlit(" NOT ILIKE ");
    reveal_strlit("NOT ILIKE");
    reveal_strlit("LIKE");
    reveal_strlit("NOT LIKE");
    reveal_strlit(") LIKE LOWER(");
    reveal_strlit(") NOT LIKE LOWER(");
    reveal_strlit("LOWER(");
    reveal_strlit("LOWER");
    assert(" "@ =~= blank);
    match op {
        SqlBinaryOp::IsNull => {
            assert(text =~= l + blank + word);
        },
        SqlBinaryOp::IsNotNull => {
            assert(text =~= l + blank + word);
        },
        SqlBinaryOp::Or => {
            assert(text =~= seq!['('] + l + blank + word + blank + r + seq![')']);
        },
        SqlBinaryOp::ILike => {
            if style.dialect == SqlDialect::PostgreSQL {
                assert(text =~= l + blank + word + blank + r);
            } else {
                assert(text =~= lowered(l) + blank + "LIKE"@ + blank + lowered(r));
            }
        },
        SqlBinaryOp::NotILike => {
            if style.dialect == SqlDialect::PostgreSQL {
                assert(text =~= l + blank + word + blank + r);
            } else {
                assert(text =~= lowered(l) + blank + "NOT LIKE"@ + blank + lowered(r));
            }
        },
        _ => {
            assert(text =~= l + blank + word + blank + r);
        },
    }
}

/// A text in lower case.
pub open spec fn lowered(text: Seq<char>) -> Seq<char> {
    "LOWER"@ + seq!['('] + text + seq![')']
}

/// A negated operator is written as its opposite with `NOT` before it.
pub proof fn negated_operators_are_written_with_not()
    ensures
        binary_op_text(SqlBinaryOp::NotLike) == "NOT "@ + binary_op_text(SqlBinaryOp::Like),
        binary_op_text(SqlBinaryOp::NotILike) == "NOT "@ + binary_op_text(SqlBinaryOp::ILike),
        binary_op_text(SqlBinaryOp::NotIn) == "NOT "@ + binary_op_text(SqlBinaryOp::In),
        binary_op_text(SqlBinaryOp::NotSimilarTo) == "NOT "@ + binary_op_text(
            SqlBinaryOp::SimilarTo,
        ),
{
    reveal_strlit("NOT ");
    reveal_strlit("LIKE");
    reveal_strlit("NOT LIKE");
    reveal_strlit("ILIKE");
    reveal_strlit("NOT ILIKE");
    reveal_strlit("IN");
    reveal_strlit("NOT IN");
    reveal_strlit("SIMILAR TO");
    reveal_strlit("NOT SIMILAR TO");
    assert("NOT LIKE"@ =~= "NOT "@ + "LIKE"@);
    assert("NOT ILIKE"@ =~= "NOT "@ + "ILIKE"@);
    assert("NOT IN"@ =~= "NOT "@ + "IN"@);
    assert("NOT SIMILAR TO"@ =~= "NOT "@ + "SIMILAR TO"@);
}

/// The operator that a word before an operand stands for in SQL.
pub open spec fn prefix_read(word: Seq<char>) -> Option<SqlUnaryOp> {
    if word == "NOT"@ {
        Some(SqlUnaryOp::Not)
    } else if word == "-"@ {
        Some(SqlUnaryOp::Negate)
    } else if word == "EXISTS"@ {
        Some(SqlUnaryOp::Exists)
    } else {
        None
    }
}

/// An operator of one operand stands before it as a word that reads back; `NOT` and
/// `EXISTS` have the operand in parentheses.
pub proof fn prefixes_read_back(style: Style, op: SqlUnaryOp, operand: ExprModel)
    ensures
        ({
            let text = style.expr((ExprModel::Unary { op, operand: Box::new(operand) }));
            exists|word: Seq<char>| #[trigger]
                prefix_read(word) == Some(op) && text == if op == SqlUnaryOp::Negate {
                    word + style.expr(operand)
                } else {
                    word + seq![' ', '('] + style.expr(operand) + seq![')']
                }
        }),
{
    reveal_strlit("NOT");
    reveal_strlit("EXISTS");
    reveal_strlit("-");
    reveal_strlit("NOT (");
    reveal_strlit("EXISTS (");
    reveal_strlit(")");
    assert("NOT"@.len() == 3 && "EXISTS"@.len() == 6 && "-"@.len() == 1);
    let text = style.expr((ExprModel::Unary { op, operand: Box::new(operand) }));
    let inner = style.expr(operand);
    match op {
        SqlUnaryOp::Not => {
            assert(prefix_read("NOT"@) == Some(op));
            assert(text =~= "NOT"@ + seq![' ', '('] + inner + seq![')']);
        },
        SqlUnaryOp::Negate => {
            assert(prefix_read("-"@) == Some(op));
        },
        SqlUnaryOp::Exists => {
            assert(prefix_read("EXISTS"@) == Some(op));
            assert(text =~= "EXISTS"@ + seq![' ', '('] + inner + seq![')']);
        },
    }
}

/// The sum of numbers.
pub open spec fn total(values: Seq<int>) -> int
    decreases values.len(),
{
    if values.len() == 0 {
        0
    } else {
        total(values.drop_last()) + values.last()
    }
}

/// Whether an aggregate function gives a result for some numbers.
pub open spec fn gives(f: SqlAggregateFunction, values: Seq<int>, result: int) -> bool {
    match f {
        SqlAggregateFunction::Count => result == values.len(),
        SqlAggregateFunction::Sum => result == total(values),
        SqlAggregateFunction::Avg => result * values.len() == total(values),
        SqlAggregateFunction::Min => values.contains(result) && forall|i: int|
            0 <= i < values.len() ==> result <= #[trigger] values[i],
        SqlAggregateFunction::Max => values.contains(result) && forall|i: int|
            0 <= i < values.len() ==> result >= #[trigger] values[i],
        _ => false,
    }
}

/// Whether a word of SQL gives a result for some numbers.
pub open spec fn word_gives(word: Seq<char>, values: Seq<int>, result: int) -> bool {
    if word == "COUNT"@ {
        result == values.len()
    } else if word == "SUM"@ {
        result == total(values)
    } else if word == "AVG"@ {
        result * values.len() == total(values)
    } else if word == "MIN"@ {
        values.contains(result) && forall|i: int|
            0 <= i < values.len() ==> result <= #[trigger] values[i]
    } else if word == "MAX"@ {
        values.contains(result) && forall|i: int|
            0 <= i < values.len() ==> result >= #[trigger] values[i]
    } else {
        false
    }
}

/// Whether a function counts, adds up, averages or takes the least or the greatest.
pub open spec fn is_basic(f: SqlAggregateFunction) -> bool {
    f is Count || f is Sum || f is Avg || f is Min || f is Max
}

/// Whether a function minds whether its values are distinct.
pub open spec fn minds_distinct(f: SqlAggregateFunction) -> bool {
    f is Count || f is Sum || f is Avg
}

/// A word with something in parentheses behind it.
pub open spec fn in_parentheses(word: Seq<char>, inner: Seq<char>) -> Seq<char> {
    word + seq!['('] + inner + seq![')']
}

proof fn lemma_basic_words()
    ensures
        "COUNT"@.len() == 5,
        "SUM"@.len() == 3,
        "SUM"@[0] == 'S',
        "AVG"@.len() == 3,
        "AVG"@[0] == 'A',
        "MIN"@.len() == 3,
        "MIN"@[0] == 'M',
        "MIN"@[1] == 'I',
        "MAX"@.len() == 3,
        "MAX"@[0] == 'M',
        "MAX"@[1] == 'A',
{
    reveal_strlit("COUNT");
    reveal_strlit("SUM");
    reveal_strlit("AVG");
    reveal_strlit("MIN");
    reveal_strlit("MAX");
}

/// The word of a basic aggregate gives what the function gives, for all numbers, and
/// it is the same word whether or not there is an argument. The argument stands in the
/// parentheses behind it, with `DISTINCT` before it where that was asked for and the
/// function minds it; `*` stands there where there is none.
pub proof fn basic_aggregates_keep_meaning(
    style: Style,
    f: SqlAggregateFunction,
    argument: Seq<char>,
    distinct: bool,
)
    requires
        is_basic(f),
    ensures
        exists|word: Seq<char>|
            {
                &&& #[trigger] in_parentheses(word, seq!['*']) == style.aggregate_call(
                    f.model(),
                    None,
                    distinct,
                )
                &&& style.aggregate_call(f.model(), Some(argument), distinct) == in_parentheses(
                    word,
                    (if distinct && minds_distinct(f) {
                        "DISTINCT "@
                    } else {
                        Seq::empty()
                    }) + argument,
                )
                &&& forall|values: Seq<int>, result: int| #[trigger]
                    word_gives(word, values, result) == gives(f, values, result)
            },
{
    lemma_basic_words();
    reveal_strlit(")");
    reveal_strlit("DISTINCT ");
    reveal_strlit("COUNT");
    reveal_strlit("COUNT(");
    reveal_strlit("COUNT(*)");
    reveal_strlit("COUNT(DISTINCT ");
    reveal_strlit("SUM");
    reveal_strlit("SUM(");
    reveal_strlit("SUM(*)");
    reveal_strlit("SUM(DISTINCT ");
    reveal_strlit("AVG");
    reveal_strlit("AVG(");
    reveal_strlit("AVG(*)");
    reveal_strlit("AVG(DISTINCT ");
    reveal_strlit("MIN");
    reveal_strlit("MIN(");
    reveal_strlit("MIN(*)");
    reveal_strlit("MAX");
    reveal_strlit("MAX(");
    reveal_strlit("MAX(*)");
    let word = match f {
        SqlAggregateFunction::Count => "COUNT"@,
        SqlAggregateFunction::Sum => "SUM"@,
        SqlAggregateFunction::Avg => "AVG"@,
        SqlAggregateFunction::Min => "MIN"@,
        _ => "MAX"@,
    };
    let asked = (if distinct && minds_distinct(f) {
        "DISTINCT "@
    } else {
        Seq::empty()
    }) + argument;
    assert(in_parentheses(word, seq!['*']) =~= style.aggregate_call(f.model(), None, distinct));
    assert(style.aggregate_call(f.model(), Some(argument), distinct) =~= in_parentheses(
        word,
        asked,
    ));
    assert forall|values: Seq<int>, result: int| #[trigger]
        word_gives(word, values, result) == gives(f, values, result) by {}
}

/// How the words of the other aggregate functions are spelled: the dialects differ.
pub open spec fn is_word_of(d: SqlDialect, word: Seq<char>, f: SqlAggregateFunction) -> bool {
    let own = d == SqlDialect::PostgreSQL || d == SqlDialect::MySQL;
    match f {
        SqlAggregateFunction::StdDev => word == if own {
            "STDDEV"@
        } else {
            "STDEV"@
        },
        SqlAggregateFunction::Variance => word == if own {
            "VARIANCE"@
        } else {
            "VAR"@
        },
        SqlAggregateFunction::ArrayAgg => word == "ARRAY_AGG"@,
        SqlAggregateFunction::StringAgg => word == if d == SqlDialect::MySQL {
            "GROUP_CONCAT"@
        } else {
            "STRING_AGG"@
        },
        SqlAggregateFunction::Percentile(_) => word == if d == SqlDialect::PostgreSQL {
            "PERCENTILE_CONT"@
        } else {
            "PERCENTILE"@
        },
        _ => false,
    }
}

/// The other aggregates: the word of the dialect, and in the parentheses the argument.
/// Joined texts are separated by a comma, and a percentile names its fraction.
pub proof fn other_aggregates_are_spelled(
    style: Style,
    f: SqlAggregateFunction,
    argument: Seq<char>,
    distinct: bool,
)
    requires
        !is_basic(f),
    ensures
        exists|word: Seq<char>|
            #[trigger] is_word_of(style.dialect, word, f) && style.aggregate_call(
                f.model(),
                Some(argument),
                distinct,
            ) == match f {
                SqlAggregateFunction::StringAgg => in_parentheses(
                    word,
                    if style.dialect == SqlDialect::MySQL {
                        argument
                    } else {
                        argument + seq![',', ' ', '\'', ',', '\'']
                    },
                ),
                SqlAggregateFunction::Percentile(p) => if style.dialect
                    == SqlDialect::PostgreSQL {
                    in_parentheses(word, p@) + in_parentheses(
                        " WITHIN GROUP "@,
                        "ORDER BY "@ + argument,
                    )
                } else {
                    in_parentheses(word, argument + seq![',', ' '] + p@)
                },
                _ => in_parentheses(word, argument),
            },
{
    reveal_strlit(")");
    reveal_strlit("STDDEV");
    reveal_strlit("STDDEV(");
    reveal_strlit("STDEV");
    reveal_strlit("STDEV(");
    reveal_strlit("VARIANCE");
    reveal_strlit("VARIANCE(");
    reveal_strlit("VAR");
    reveal_strlit("VAR(");
    reveal_strlit("ARRAY_AGG");
    reveal_strlit("ARRAY_AGG(");
    reveal_strlit("GROUP_CONCAT");
    reveal_strlit("GROUP_CONCAT(");
    reveal_strlit("STRING_AGG");
    reveal_strlit("STRING_AGG(");
    reveal_strlit(", ',')");
    reveal_strlit(", ");
    reveal_strlit("PERCENTILE_CONT");
    reveal_strlit("PERCENTILE_CONT(");
    reveal_strlit("PERCENTILE");
    reveal_strlit("PERCENTILE(");
    reveal_strlit(") WITHIN GROUP (ORDER BY ");
    reveal_strlit(" WITHIN GROUP ");
    reveal_strlit("ORDER BY ");
    let own = style.dialect == SqlDialect::PostgreSQL || style.dialect == SqlDialect::MySQL;
    let text = style.aggregate_call(f.model(), Some(argument), distinct);
    match f {
        SqlAggregateFunction::StdDev => {
            let word = if own {
                "STDDEV"@
            } else {
                "STDEV"@
            };
            assert(is_word_of(style.dialect, word, f));
            assert(text =~= in_parentheses(word, argument));
        },
        SqlAggregateFunction::Variance => {
            let word = if own {
                "VARIANCE"@
            } else {
                "VAR"@
            };
            assert(is_word_of(style.dialect, word, f));
            assert(text =~= in_parentheses(word, argument));
        },
        SqlAggregateFunction::ArrayAgg => {
            assert(is_word_of(style.dialect, "ARRAY_AGG"@, f));
            assert(text =~= in_parentheses("ARRAY_AGG"@, argument));
        },
        SqlAggregateFunction::StringAgg => {
            if style.dialect == SqlDialect::MySQL {
                assert(is_word_of(style.dialect, "GROUP_CONCAT"@, f));
                assert(text =~= in_parentheses("GROUP_CONCAT"@, argument));
            } else {
                assert(is_word_of(style.dialect, "STRING_AGG"@, f));
                assert(text =~= in_parentheses(
                    "STRING_AGG"@,
                    argument + seq![',', ' ', '\'', ',', '\''],
                ));
            }
        },
        SqlAggregateFunction::Percentile(p) => {
            if style.dialect == SqlDialect::PostgreSQL {
                assert(is_word_of(style.dialect, "PERCENTILE_CONT"@, f));
                assert(text =~= in_parentheses("PERCENTILE_CONT"@, p@) + in_parentheses(
                    " WITHIN GROUP "@,
                    "ORDER BY "@ + argument,
                ));
            } else {
                assert(is_word_of(style.dialect, "PERCENTILE"@, f));
                assert(text =~= in_parentheses("PERCENTILE"@, argument + seq![',', ' '] + p@));
            }
        },
        _ => {},
    }
}

/// An aggregate without an argument has `*` where the argument would stand.
pub proof fn aggregates_of_everything_are_spelled(
    style: Style,
    f: SqlAggregateFunction,
    distinct: bool,
)
    requires
        !is_basic(f),
    ensures
        style.aggregate_call(f.model(), None, distinct) == match f {
            SqlAggregateFunction::StdDev => in_parentheses("STDEV"@, seq!['*']),
            SqlAggregateFunction::Variance => in_parentheses("VARIANCE"@, seq!['*']),
            SqlAggregateFunction::ArrayAgg => in_parentheses("ARRAY_AGG"@, seq!['*']),
            SqlAggregateFunction::StringAgg => in_parentheses("STRING_AGG"@, seq!['*']),
            SqlAggregateFunction::Percentile(p) => in_parentheses("PERCENTILE_CONT"@, p@)
                + in_parentheses(" WITHIN GROUP "@, "ORDER BY *"@),
            _ => Seq::empty(),
        },
{
    reveal_strlit("STDEV");
    reveal_strlit("STDEV(*)");
    reveal_strlit("VARIANCE");
    reveal_strlit("VARIANCE(*)");
    reveal_strlit("ARRAY_AGG");
    reveal_strlit("ARRAY_AGG(*)");
    reveal_strlit("STRING_AGG");
    reveal_strlit("STRING_AGG(*)");
    reveal_strlit("PERCENTILE_CONT");
    reveal_strlit("PERCENTILE_CONT(");
    reveal_strlit(") WITHIN GROUP (ORDER BY *)");
    reveal_strlit(" WITHIN GROUP ");
    reveal_strlit("ORDER BY *");
    let text = style.aggregate_call(f.model(), None, distinct);
    match f {
        SqlAggregateFunction::StdDev => {
            assert(text =~= in_parentheses("STDEV"@, seq!['*']));
        },
        SqlAggregateFunction::Variance => {
            assert(text =~= in_parentheses("VARIANCE"@, seq!['*']));
        },
        SqlAggregateFunction::ArrayAgg => {
            assert(text =~= in_parentheses("ARRAY_AGG"@, seq!['*']));
        },
        SqlAggregateFunction::StringAgg => {
            assert(text =~= in_parentheses("STRING_AGG"@, seq!['*']));
        },
        SqlAggregateFunction::Percentile(p) => {
            assert(text =~= in_parentheses("PERCENTILE_CONT"@, p@) + in_parentheses(
                " WITHIN GROUP "@,
                "ORDER BY *"@,
            ));
        },
        _ => {},
    }
}

/// The first letters of an aggregate, by which its function is known.
pub open spec fn first_letters(d: SqlDialect, f: SqlAggregateFunction) -> Seq<char> {
    match f {
        SqlAggregateFunction::Count => seq!['C', 'O', 'U'],
        SqlAggregateFunction::Sum => seq!['S', 'U', 'M'],
        SqlAggregateFunction::Avg => seq!['A', 'V', 'G'],
        SqlAggregateFunction::Min => seq!['M', 'I', 'N'],
        SqlAggregateFunction::Max => seq!['M', 'A', 'X'],
        SqlAggregateFunction::StdDev => seq!['S', 'T', 'D'],
        SqlAggregateFunction::Variance => seq!['V', 'A', 'R'],
        SqlAggregateFunction::Percentile(_) => seq!['P', 'E', 'R'],
        SqlAggregateFunction::ArrayAgg => seq!['A', 'R', 'R'],
        SqlAggregateFunction::StringAgg => if d == SqlDialect::MySQL {
            seq!['G', 'R', 'O']
        } else {
            seq!['S', 'T', 'R']
        },
    }
}

proof fn lemma_first_letters(
    style: Style,
    f: SqlAggregateFunction,
    argument: Seq<char>,
    distinct: bool,
)
    ensures
        style.aggregate_call(f.model(), Some(argument), distinct).len() > 3,
        style.aggregate_call(f.model(), Some(argument), distinct).take(3) == first_letters(
            style.dialect,
            f,
        ),
{
    reveal_strlit(")");
    reveal_strlit("COUNT(");
    reveal_strlit("COUNT(DISTINCT ");
    reveal_strlit("SUM(");
    reveal_strlit("SUM(DISTINCT ");
    reveal_strlit("AVG(");
    reveal_strlit("AVG(DISTINCT ");
    reveal_strlit("MIN(");
    reveal_strlit("MAX(");
    reveal_strlit("STDDEV(");
    reveal_strlit("STDEV(");
    reveal_strlit("VARIANCE(");
    reveal_strlit("VAR(");
    reveal_strlit("ARRAY_AGG(");
    reveal_strlit("GROUP_CONCAT(");
    reveal_strlit("STRING_AGG(");
    reveal_strlit("PERCENTILE_CONT(");
    reveal_strlit("PERCENTILE(");
    let text = style.aggregate_call(f.model(), Some(argument), distinct);
    assert(text.take(3) =~= first_letters(style.dialect, f));
}

/// Two aggregates of the same argument have the same text only where they are the same
/// function, with the same fraction for a percentile, and where those that mind it
/// agree on whether their values are distinct.
pub proof fn aggregates_read_back(
    style: Style,
    f: SqlAggregateFunction,
    g: SqlAggregateFunction,
    argument: Seq<char>,
    f_distinct: bool,
    g_distinct: bool,
)
    requires
        style.aggregate_call(f.model(), Some(argument), f_distinct) == style.aggregate_call(
            g.model(),
            Some(argument),
            g_distinct,
        ),
    ensures
        minds_distinct(f) ==> f_distinct == g_distinct,
        match (f, g) {
            (SqlAggregateFunction::Percentile(p), SqlAggregateFunction::Percentile(q)) => p@ == q@,
            (SqlAggregateFunction::Percentile(_), _) => false,
            (_, SqlAggregateFunction::Percentile(_)) => false,
            _ => f == g,
        },
{
    lemma_first_letters(style, f, argument, f_distinct);
    lemma_first_letters(style, g, argument, g_distinct);
    let a = first_letters(style.dialect, f);
    let b = first_letters(style.dialect, g);
    assert(a[0] == b[0] && a[1] == b[1] && a[2] == b[2]);
    reveal_strlit("COUNT(");
    reveal_strlit("COUNT(DISTINCT ");
    reveal_strlit("SUM(");
    reveal_strlit("SUM(DISTINCT ");
    reveal_strlit("AVG(");
    reveal_strlit("AVG(DISTINCT ");
    match (f, g) {
        (SqlAggregateFunction::Percentile(p), SqlAggregateFunction::Percentile(q)) => {
            let text = style.aggregate_call(f.model(), Some(argument), f_distinct);
            let same = style.aggregate_call(g.model(), Some(argument), g_distinct);
            assert(p@.len() == q@.len());
            let start: int = if style.dialect == SqlDialect::PostgreSQL {
                "PERCENTILE_CONT("@.len() as int
            } else {
                ("PERCENTILE("@.len() + argument.len() + ", "@.len()) as int
            };
            assert(text.subrange(start, start + p@.len()) =~= p@);
            assert(same.subrange(start, start + q@.len()) =~= q@);
        },
        _ => {},
    }
}

/// Which rows a join keeps beside those that match: those of the left side and those of
/// the right side that match nothing, as its words say. `CROSS JOIN` matches all.
pub open spec fn join_read(words: Seq<char>) -> Option<(bool, bool, bool)> {
    if words == "INNER JOIN"@ {
        Some((false, false, false))
    } else if words == "LEFT OUTER JOIN"@ || words == "LEFT JOIN"@ {
        Some((true, false, false))
    } else if words == "RIGHT OUTER JOIN"@ || words == "RIGHT JOIN"@ {
        Some((false, true, false))
    } else if words == "FULL OUTER JOIN"@ {
        Some((true, true, false))
    } else if words == "CROSS JOIN"@ {
        Some((false, false, true))
    } else {
        None
    }
}

/// The words of a join say which rows without a match it keeps. An anti-join is written
/// as the outer join it filters, a semi-join as an inner join.
pub proof fn join_words_read_back(kind: SqlJoinKind)
    ensures
        join_read(join_kind_text(kind)) == Some(
            (
                kind == SqlJoinKind::LeftOuter || kind == SqlJoinKind::FullOuter || kind
                    == SqlJoinKind::LeftAnti,
                kind == SqlJoinKind::RightOuter || kind == SqlJoinKind::FullOuter || kind
                    == SqlJoinKind::RightAnti,
                kind == SqlJoinKind::Cross,
            ),
        ),
{
    reveal_strlit("INNER JOIN");
    reveal_strlit("LEFT OUTER JOIN");
    reveal_strlit("LEFT JOIN");
    reveal_strlit("RIGHT OUTER JOIN");
    reveal_strlit("RIGHT JOIN");
    reveal_strlit("FULL OUTER JOIN");
    reveal_strlit("CROSS JOIN");
    assert("INNER JOIN"@[0] == 'I' && "RIGHT JOIN"@[0] == 'R' && "CROSS JOIN"@[0] == 'C');
    assert("LEFT OUTER JOIN"@[0] == 'L' && "FULL OUTER JOIN"@[0] == 'F');
    assert("LEFT JOIN"@.len() == 9 && "RIGHT OUTER JOIN"@.len() == 16);
}

/// Whether a row may stand before another where a sort key has the words behind it: `a`
/// and `b` are the values of the key, none for null. Without words on nulls they may
/// stand anywhere.
pub open spec fn words_allow(words: Seq<char>, a: Option<int>, b: Option<int>) -> bool {
    let nulls_first = words.len() >= 12 && words.skip(words.len() - 12) == " NULLS FIRST"@;
    let nulls_last = words.len() >= 11 && words.skip(words.len() - 11) == " NULLS LAST"@;
    match (a, b) {
        (Some(x), Some(y)) => if words.len() >= 4 && words.take(4) == "DESC"@ {
            x >= y
        } else {
            x <= y
        },
        (Some(_), None) => !nulls_first,
        (None, Some(_)) => !nulls_last,
        (None, None) => true,
    }
}

/// Whether a row may stand before another by a sort key.
pub open spec fn key_allows(
    direction: SqlSortDirection,
    nulls: Option<SqlNullOrder>,
    a: Option<int>,
    b: Option<int>,
) -> bool {
    match (a, b) {
        (Some(x), Some(y)) => match direction {
            SqlSortDirection::Ascending => x <= y,
            SqlSortDirection::Descending => x >= y,
        },
        (Some(_), None) => nulls != Some(SqlNullOrder::NullsFirst),
        (None, Some(_)) => nulls != Some(SqlNullOrder::NullsLast),
        (None, None) => true,
    }
}

/// The words behind a sort key allow the orders that the key allows.
pub proof fn sort_words_keep_meaning(
    direction: SqlSortDirection,
    nulls: Option<SqlNullOrder>,
    a: Option<int>,
    b: Option<int>,
)
    ensures
        words_allow(direction_text(direction) + null_order_text(nulls), a, b) == key_allows(
            direction,
            nulls,
            a,
            b,
        ),
{
    reveal_strlit("ASC");
    reveal_strlit("DESC");
    reveal_strlit(" NULLS FIRST");
    reveal_strlit(" NULLS LAST");
    reveal_strlit("");
    let words = direction_text(direction) + null_order_text(nulls);
    if direction == SqlSortDirection::Descending {
        assert(words.take(4) =~= "DESC"@);
    } else if words.len() >= 4 {
        assert(words.take(4)[0] == 'A');
        assert("DESC"@[0] == 'D');
    }
    match nulls {
        Some(SqlNullOrder::NullsFirst) => {
            assert(words.skip(words.len() - 12) =~= " NULLS FIRST"@);
            assert(words.skip(words.len() - 11)[0] == words[words.len() - 11]);
            assert(words[words.len() - 11] == " NULLS FIRST"@[1]);
        },
        Some(SqlNullOrder::NullsLast) => {
            assert(words.skip(words.len() - 11) =~= " NULLS LAST"@);
            assert(words.skip(words.len() - 12)[1] == words[words.len() - 11]);
            assert(words[words.len() - 11] == " NULLS LAST"@[0]);
            assert(" NULLS FIRST"@[1] == 'N');
        },
        None => {},
    }
}

/// A sort key is written behind its expression; several are separated by commas, the
/// first one first.
pub proof fn sort_keys_stand_in_order(style: Style, keys: Seq<OrderModel>)
    ensures
        style.operation(OperationModel::Order(keys)) == style.gap() + "ORDER BY "@ + joined(
            Seq::new(
                keys.len(),
                |i: int|
                    style.expr(keys[i].expression) + seq![' '] + direction_text(keys[i].direction)
                        + null_order_text(keys[i].null_order),
            ),
            ", "@,
        ),
{
    reveal_strlit(" ");
    assert(" "@ =~= seq![' ']);
    let texts = Seq::new(
        keys.len(),
        |i: int|
            style.expr(keys[i].expression) + seq![' '] + direction_text(keys[i].direction)
                + null_order_text(keys[i].null_order),
    );
    assert(style.orders(keys) =~= texts);
}

/// The truth value that a word stands for.
pub open spec fn truth_read(word: Seq<char>) -> Option<bool> {
    if word == "TRUE"@ || word == "1"@ {
        Some(true)
    } else if word == "FALSE"@ || word == "0"@ {
        Some(false)
    } else {
        None
    }
}

/// A boolean reads back; the dialects without a word for it write a digit. `NULL` is no
/// truth value.
pub proof fn booleans_read_back(style: Style, b: bool)
    ensures
        truth_read(style.literal(LiteralModel::Boolean(b))) == Some(b),
        style.literal(LiteralModel::Boolean(b)).len() == 1 <==> style.dialect == SqlDialect::MySQL
            || style.dialect == SqlDialect::TSQL,
        style.literal(LiteralModel::Null) == "NULL"@,
        truth_read("NULL"@) is None,
{
    reveal_strlit("TRUE");
    reveal_strlit("FALSE");
    reveal_strlit("1");
    reveal_strlit("0");
    reveal_strlit("NULL");
    assert("1"@[0] == '1' && "0"@[0] == '0');
    assert("TRUE"@[0] == 'T' && "NULL"@[0] == 'N');
}

/// Points in time and intervals stand between quotes as they are, whatever the dialect
/// puts around them; the two are told apart where the dialect has a word for intervals.
pub proof fn times_stand_between_quotes(style: Style, s: Seq<char>)
    ensures
        exists|before: Seq<char>, after: Seq<char>|
            style.literal(LiteralModel::DateTime(s)) == #[trigger] (before + seq!['\''] + s + seq![
                '\'',
            ] + after) && match style.dialect {
                SqlDialect::PostgreSQL => before.len() == 0 && after == "::timestamp"@,
                SqlDialect::MySQL | SqlDialect::TSQL => before == "CAST("@ && after
                    == " AS DATETIME)"@,
                SqlDialect::SQLite => before == "datetime("@ && after == ")"@,
                SqlDialect::Standard => before == "CAST("@ && after == " AS TIMESTAMP)"@,
            },
        style.literal(LiteralModel::Interval(s)) == (if style.dialect == SqlDialect::PostgreSQL
            || style.dialect == SqlDialect::Standard {
            "INTERVAL "@
        } else {
            Seq::empty()
        }) + seq!['\''] + s + seq!['\''],
{
    reveal_strlit("'");
    reveal_strlit("'::timestamp");
    reveal_strlit("::timestamp");
    reveal_strlit("CAST('");
    reveal_strlit("CAST(");
    reveal_strlit("' AS DATETIME)");
    reveal_strlit(" AS DATETIME)");
    reveal_strlit("datetime('");
    reveal_strlit("datetime(");
    reveal_strlit("')");
    reveal_strlit(")");
    reveal_strlit("' AS TIMESTAMP)");
    reveal_strlit(" AS TIMESTAMP)");
    reveal_strlit("INTERVAL '");
    reveal_strlit("INTERVAL ");
    let text = style.literal(LiteralModel::DateTime(s));
    let (before, after): (Seq<char>, Seq<char>) = match style.dialect {
        SqlDialect::PostgreSQL => (Seq::empty(), "::timestamp"@),
        SqlDialect::MySQL | SqlDialect::TSQL => ("CAST("@, " AS DATETIME)"@),
        SqlDialect::SQLite => ("datetime("@, ")"@),
        SqlDialect::Standard => ("CAST("@, " AS TIMESTAMP)"@),
    };
    assert(text =~= before + seq!['\''] + s + seq!['\''] + after);
    let interval = style.literal(LiteralModel::Interval(s));
    if style.dialect == SqlDialect::PostgreSQL || style.dialect == SqlDialect::Standard {
        assert(interval =~= "INTERVAL "@ + seq!['\''] + s + seq!['\'']);
    } else {
        assert(interval =~= Seq::empty() + seq!['\''] + s + seq!['\'']);
    }
}

/// The mark that closes what a mark opens.
pub open spec fn closing_mark(c: char) -> char {
    if c == '[' {
        ']'
    } else {
        c
    }
}

/// A quoted identifier is the identifier between an opening mark of the dialect and the
/// mark that closes it.
pub proof fn quoted_identifiers_read_back(style: Style, name: Seq<char>)
    ensures
        ({
            let text = style.quoted(name);
            &&& text.len() == name.len() + 2
            &&& text.subrange(1, text.len() - 1) == name
            &&& text.last() == closing_mark(text[0])
            &&& text[0] == match style.dialect {
                SqlDialect::MySQL => '`',
                SqlDialect::TSQL => '[',
                _ => '"',
            }
        }),
{
    reveal_strlit("`");
    reveal_strlit("[");
    reveal_strlit("]");
    reveal_strlit("\"");
    let text = style.quoted(name);
    assert(text.subrange(1, text.len() - 1) =~= name);
}

/// An identifier is quoted exactly where it has a blank or a hyphen, or is a word that
/// the text of queries is made of. A column is written as an identifier, a host
/// variable as it is.
pub proof fn words_of_queries_are_quoted(style: Style, name: Seq<char>)
    ensures
        style.identifier(name) == if name.contains(' ') || name.contains('-')
            || is_word_of_queries(uppercase_of(name)) {
            style.quoted(name)
        } else {
            name
        },
        style.expr(ExprModel::Column(name)) == style.identifier(name),
        style.expr(ExprModel::InjectedVariable(name)) == name,
{
}

/// Whether a word is one that queries are written with.
pub open spec fn is_word_of_queries(word: Seq<char>) -> bool {
    ||| word == "SELECT"@ || word == "DISTINCT"@ || word == "FROM"@ || word == "AS"@
    ||| word == "WHERE"@ || word == "AND"@ || word == "OR"@ || word == "NOT"@ || word == "IN"@
    ||| word == "IS"@ || word == "NULL"@ || word == "LIKE"@ || word == "BETWEEN"@
    ||| word == "EXISTS"@ || word == "TRUE"@ || word == "FALSE"@
    ||| word == "INNER"@ || word == "LEFT"@ || word == "RIGHT"@ || word == "FULL"@
    ||| word == "OUTER"@ || word == "CROSS"@ || word == "JOIN"@ || word == "ON"@
    ||| word == "GROUP"@ || word == "BY"@ || word == "HAVING"@ || word == "ORDER"@
    ||| word == "ASC"@ || word == "DESC"@ || word == "LIMIT"@ || word == "UNION"@
    ||| word == "CASE"@ || word == "WHEN"@ || word == "THEN"@ || word == "ELSE"@
    ||| word == "END"@ || word == "CAST"@ || word == "WITH"@
    ||| word == "INTERSECT"@ || word == "EXCEPT"@ || word == "OFFSET"@ || word == "RECURSIVE"@
}

/// A range test has its bounds in the order lower, upper, and `NOT` only where it is
/// negated.
pub proof fn ranges_name_their_bounds(
    style: Style,
    x: ExprModel,
    lower: ExprModel,
    upper: ExprModel,
    not: bool,
)
    ensures
        style.expr(
            (ExprModel::Between {
                expression: Box::new(x),
                lower: Box::new(lower),
                upper: Box::new(upper),
                not,
            }),
        ) == style.expr(x) + (if not {
            " NOT"@
        } else {
            Seq::empty()
        }) + " BETWEEN "@ + style.expr(lower) + " AND "@ + style.expr(upper),
{
    reveal_strlit(" NOT");
    reveal_strlit(" BETWEEN ");
    reveal_strlit(" NOT BETWEEN ");
    let e = ExprModel::Between {
        expression: Box::new(x),
        lower: Box::new(lower),
        upper: Box::new(upper),
        not,
    };
    assert(style.expr(e) =~= style.expr(x) + (if not {
        " NOT"@
    } else {
        Seq::empty()
    }) + " BETWEEN "@ + style.expr(lower) + " AND "@ + style.expr(upper));
}

/// A choice with one more branch has that branch behind the others, the condition
/// behind `WHEN` and the result behind `THEN`; the default stands behind `ELSE`.
pub proof fn branches_stand_in_order(
    style: Style,
    branches: Seq<(ExprModel, ExprModel)>,
    condition: ExprModel,
    result: ExprModel,
    default: ExprModel,
)
    ensures
        concatenated(style.branches(branches.push((condition, result)))) == concatenated(
            style.branches(branches),
        ) + " WHEN "@ + style.expr(condition) + " THEN "@ + style.expr(result),
        style.expr((ExprModel::Case { conditions: branches, default: None })) == "CASE"@
            + concatenated(style.branches(branches)) + " END"@,
        style.expr(
            (ExprModel::Case { conditions: branches, default: Some(Box::new(default)) }),
        ) == "CASE"@ + concatenated(style.branches(branches)) + " ELSE "@ + style.expr(default)
            + " END"@,
{
    let more = branches.push((condition, result));
    let texts = style.branches(more);
    assert(texts.drop_last() =~= style.branches(branches));
    assert(texts.last() == " WHEN "@ + style.expr(condition) + " THEN "@ + style.expr(result));
    assert(concatenated(texts) =~= concatenated(style.branches(branches)) + " WHEN "@ + style.expr(
        condition,
    ) + " THEN "@ + style.expr(result));
    reveal_strlit("");
    assert("CASE"@ + concatenated(style.branches(branches)) + ""@ =~= "CASE"@ + concatenated(
        style.branches(branches),
    ));
    let e = ExprModel::Case { conditions: branches, default: Some(Box::new(default)) };
    assert(style.expr(e) =~= "CASE"@ + concatenated(style.branches(branches)) + " ELSE "@
        + style.expr(default) + " END"@);
}

/// A cast names what is cast and then the type that reads back; a subscript stands in
/// brackets behind the array; a nested query stands in parentheses.
pub proof fn casts_and_subscripts_name_their_parts(
    style: Style,
    x: ExprModel,
    y: ExprModel,
    t: SqlDataType,
    q: QueryModel,
)
    ensures
        style.expr((ExprModel::Cast { expression: Box::new(x), target_type: t }))
            == in_parentheses("CAST"@, style.expr(x) + " AS "@ + style.data_type(t)),
        style.expr((ExprModel::ArrayIndex { expr: Box::new(x), index: Box::new(y) }))
            == style.expr(x) + seq!['['] + style.expr(y) + seq![']'],
        style.expr(ExprModel::Parenthesized(Box::new(x))) == in_parentheses(
            Seq::empty(),
            style.expr(x),
        ),
        style.expr(ExprModel::Subquery(Box::new(q))) == in_parentheses(Seq::empty(), style.query(q)),
{
    reveal_strlit("CAST(");
    reveal_strlit("CAST");
    reveal_strlit("(");
    reveal_strlit(")");
    reveal_strlit("[");
    reveal_strlit("]");
    let cast = ExprModel::Cast { expression: Box::new(x), target_type: t };
    assert(style.expr(cast) =~= in_parentheses(
        "CAST"@,
        style.expr(x) + " AS "@ + style.data_type(t),
    ));
    let index = ExprModel::ArrayIndex { expr: Box::new(x), index: Box::new(y) };
    assert(style.expr(index) =~= style.expr(x) + seq!['['] + style.expr(y) + seq![']']);
    let wrapped = ExprModel::Parenthesized(Box::new(x));
    assert(style.expr(wrapped) =~= in_parentheses(Seq::empty(), style.expr(x)));
    let nested = ExprModel::Subquery(Box::new(q));
    assert(style.expr(nested) =~= in_parentheses(Seq::empty(), style.query(q)));
}

/// A membership test lists its items in parentheses, with `NOT` only where it is
/// negated; an array by itself lists them in brackets, in the same order.
pub proof fn lists_name_their_items(style: Style, x: ExprModel, items: Seq<ExprModel>)
    ensures
        ({
            let list = joined(Seq::new(items.len(), |i: int| style.expr(items[i])), ", "@);
            &&& style.expr(ExprModel::binary(SqlBinaryOp::In, x, ExprModel::Array(items)))
                == style.expr(x) + in_parentheses(" IN "@, list)
            &&& style.expr(ExprModel::binary(SqlBinaryOp::NotIn, x, ExprModel::Array(items)))
                == style.expr(x) + in_parentheses(" NOT IN "@, list)
            &&& style.expr(ExprModel::Array(items)) == seq!['['] + list + seq![']']
        }),
{
    reveal_strlit(" IN (");
    reveal_strlit(" IN ");
    reveal_strlit(" NOT IN (");
    reveal_strlit(" NOT IN ");
    reveal_strlit(")");
    reveal_strlit("[");
    reveal_strlit("]");
    let list = joined(Seq::new(items.len(), |i: int| style.expr(items[i])), ", "@);
    assert(style.exprs(items) =~= Seq::new(items.len(), |i: int| style.expr(items[i])));
    let array = ExprModel::Array(items);
    assert(style.list_items(array) == list);
    let inside = ExprModel::binary(SqlBinaryOp::In, x, array);
    let outside = ExprModel::binary(SqlBinaryOp::NotIn, x, array);
    assert(style.expr(inside) =~= style.expr(x) + in_parentheses(" IN "@, list));
    assert(style.expr(outside) =~= style.expr(x) + in_parentheses(" NOT IN "@, list));
    assert(style.expr(array) =~= seq!['['] + list + seq![']']);
}

/// A function is called by its name on its arguments, in their order.
pub proof fn calls_name_their_arguments(style: Style, name: Seq<char>, args: Seq<ExprModel>)
    requires
        args.len() != 2 || name != "json_extract"@ && name != "json_extract_text"@ && name
            != "contains"@ && name != "startswith"@ && name != "endswith"@,
    ensures
        style.expr((ExprModel::Function { name, args })) == in_parentheses(
            name,
            joined(Seq::new(args.len(), |i: int| style.expr(args[i])), ", "@),
        ),
{
    reveal_strlit("(");
    reveal_strlit(")");
    assert("("@ =~= seq!['('] && ")"@ =~= seq![')']);
    assert(style.exprs(args) =~= Seq::new(args.len(), |i: int| style.expr(args[i])));
}

/// Parts are joined in their order: what is joined of two sequences stands one behind
/// the other with the separator between.
pub proof fn joined_parts_stand_in_order(a: Seq<Seq<char>>, b: Seq<Seq<char>>, sep: Seq<char>)
    ensures
        a.len() > 0 && b.len() > 0 ==> joined(a + b, sep) == joined(a, sep) + sep + joined(b, sep),
        a.len() == 1 ==> joined(a, sep) == a[0],
        a.len() == 0 ==> joined(a, sep).len() == 0,
    decreases b.len(),
{
    if a.len() > 0 && b.len() > 0 {
        assert((a + b).drop_last() =~= a + b.drop_last());
        if b.len() == 1 {
            assert(a + b.drop_last() =~= a);
        } else {
            joined_parts_stand_in_order(a, b.drop_last(), sep);
            assert(joined(a + b, sep) =~= joined(a, sep) + sep + joined(b, sep));
        }
    }
}

/// The number behind `LIMIT` reads back.
pub proof fn limits_read_back(style: Style, count: i64)
    ensures
        exists|number: Seq<char>|
            style.operation(OperationModel::Limit(count)) == #[trigger] (style.gap() + "LIMIT "@
                + number) && decimal_read(number) == count,
{
    integer_literal_reads_back(style, count);
    let number = style.literal(LiteralModel::Integer(count));
    assert(style.operation(OperationModel::Limit(count)) == style.gap() + "LIMIT "@ + number);
}

/// The clauses of a query each begin with their word and hold what was asked for.
/// Projections, computed columns and `DISTINCT` have no clause of their own.
pub proof fn clauses_hold_what_was_asked_for(
    style: Style,
    e: ExprModel,
    keys: Seq<ExprModel>,
    aggregates: Seq<AggregateModel>,
    q: QueryModel,
    columns: Seq<ColumnModel>,
)
    requires
        keys.len() > 0,
    ensures
        style.operation(OperationModel::Where(e)) == style.gap() + "WHERE "@ + style.expr(e),
        style.operation(OperationModel::Union(Box::new(q))) == style.gap() + "UNION"@ + style.gap()
            + style.query(q),
        style.operation(
            (OperationModel::Aggregate { group_by: keys, aggregates, having: Some(e) }),
        ) == style.gap() + "GROUP BY "@ + joined(
            Seq::new(keys.len(), |i: int| style.expr(keys[i])),
            ", "@,
        ) + style.gap() + "HAVING "@ + style.expr(e),
        style.operation(
            (OperationModel::Aggregate { group_by: keys, aggregates, having: None }),
        ) == style.gap() + "GROUP BY "@ + joined(
            Seq::new(keys.len(), |i: int| style.expr(keys[i])),
            ", "@,
        ),
        style.operation(
            (OperationModel::Aggregate { group_by: Seq::empty(), aggregates, having: Some(e) }),
        ) == style.gap() + "HAVING "@ + style.expr(e),
        style.operation(OperationModel::Project(columns)).len() == 0,
        style.operation(OperationModel::Extend(columns)).len() == 0,
        style.operation(OperationModel::Distinct(keys)).len() == 0,
{
    reveal_strlit("");
    assert(style.exprs(keys) =~= Seq::new(keys.len(), |i: int| style.expr(keys[i])));
    let list = joined(style.exprs(keys), ", "@);
    let grouped = OperationModel::Aggregate { group_by: keys, aggregates, having: Some(e) };
    assert(style.operation(grouped) =~= style.gap() + "GROUP BY "@ + list + style.gap()
        + "HAVING "@ + style.expr(e));
    let plain = OperationModel::Aggregate { group_by: keys, aggregates, having: None };
    assert(style.operation(plain) =~= style.gap() + "GROUP BY "@ + list);
    let filtered = OperationModel::Aggregate {
        group_by: Seq::empty(),
        aggregates,
        having: Some(e),
    };
    assert(style.operation(filtered) =~= style.gap() + "HAVING "@ + style.expr(e));
}

/// A join names its kind, the table, and its conditions behind `ON`, each with the left
/// side first and the operator that was asked for; without conditions there is no `ON`.
pub proof fn joins_name_their_conditions(
    style: Style,
    kind: SqlJoinKind,
    table: Seq<char>,
    on: Seq<JoinConditionModel>,
)
    requires
        !style.pretty,
    ensures
        style.operation(
            (OperationModel::Join { kind, source: JoinSourceModel::Table(table), on }),
        ) == seq![' '] + join_kind_text(kind) + seq![' '] + table + (if on.len() == 0 {
            Seq::empty()
        } else {
            " ON "@ + joined(
                Seq::new(
                    on.len(),
                    |i: int|
                        style.expr(on[i].left) + seq![' '] + binary_op_text(on[i].operator) + seq![
                            ' ',
                        ] + style.expr(on[i].right),
                ),
                " AND "@,
            )
        }),
{
    reveal_strlit(" ");
    reveal_strlit("");
    assert(" "@ =~= seq![' ']);
    assert(""@ =~= Seq::empty());
    let texts = Seq::new(
        on.len(),
        |i: int|
            style.expr(on[i].left) + seq![' '] + binary_op_text(on[i].operator) + seq![' ']
                + style.expr(on[i].right),
    );
    assert(style.join_conditions(on) =~= texts);
}

/// A filtered table of a join keeps its filters, all of them asked for together.
pub proof fn filtered_tables_keep_their_filters(
    style: Style,
    table: Seq<char>,
    filters: Seq<ExprModel>,
    q: QueryModel,
)
    ensures
        style.join_source((JoinSourceModel::Filtered { table, filters })) == if filters.len()
            == 0 {
            table
        } else {
            in_parentheses(
                Seq::empty(),
                table + " WHERE "@ + joined(
                    Seq::new(filters.len(), |i: int| style.expr(filters[i])),
                    " AND "@,
                ),
            )
        },
        !style.pretty ==> style.join_source(JoinSourceModel::Subquery(q)) == in_parentheses(
            Seq::empty(),
            style.query(q),
        ),
{
    reveal_strlit("(");
    reveal_strlit(")");
    assert(style.exprs(filters) =~= Seq::new(filters.len(), |i: int| style.expr(filters[i])));
    let list = joined(style.exprs(filters), " AND "@);
    if filters.len() > 0 {
        assert(style.join_source((JoinSourceModel::Filtered { table, filters }))
            =~= in_parentheses(Seq::empty(), table + " WHERE "@ + list));
    }
    if !style.pretty {
        assert(style.join_source(JoinSourceModel::Subquery(q)) =~= in_parentheses(
            Seq::empty(),
            style.query(q),
        ));
    }
}

/// A column is written with its alias behind `AS`, unless the alias says the same.
pub proof fn columns_show_their_aliases(style: Style, c: ColumnModel)
    ensures
        ({
            let text = style.aliased(style.expr(c.expression), c.alias);
            match c.alias {
                Some(alias) => text == if alias == style.expr(c.expression) {
                    style.expr(c.expression)
                } else {
                    style.expr(c.expression) + " AS "@ + style.identifier(alias)
                },
                None => text == style.expr(c.expression),
            }
        }),
        forall|cs: Seq<ColumnModel>, i: int|
            0 <= i < cs.len() ==> #[trigger] style.columns(cs)[i] == style.aliased(
                style.expr(cs[i].expression),
                cs[i].alias,
            ),
{
}

/// An aggregate column is its call, of the argument as it is written elsewhere, and its
/// quoted alias behind `AS`.
pub proof fn aggregate_columns_show_their_aliases(style: Style, a: AggregateModel)
    ensures
        style.aggregate(a) == style.aggregate_call(
            a.function,
            match a.expression {
                Some(e) => Some(style.expr(e)),
                None => None,
            },
            a.distinct,
        ) + " AS "@ + style.quoted(a.alias),
{
}

/// What a pipeline selects: the columns of its first projection, else the group keys
/// and the aggregates of its first aggregation, else everything; the computed columns
/// of all extensions follow in their order. `DISTINCT` stands before it exactly where
/// an operation asks for it.
#[verifier::rlimit(50)]
pub proof fn selections_hold_what_was_asked_for(
    style: Style,
    pipeline: Seq<OperationModel>,
    k: int,
    op: OperationModel,
)
    ensures
        (forall|i: int| 0 <= i < pipeline.len() ==> !((#[trigger] pipeline[i]) is Project) && !(
        pipeline[i] is Aggregate)) ==> style.base_selection(pipeline) == "*"@,
        0 <= k < pipeline.len() && (forall|i: int|
            0 <= i < k ==> !((#[trigger] pipeline[i]) is Project)) ==> match pipeline[k] {
            OperationModel::Project(columns) => style.base_selection(pipeline) == joined(
                style.columns(columns),
                ", "@,
            ),
            _ => true,
        },
        0 <= k < pipeline.len() && (forall|i: int|
            0 <= i < k ==> !((#[trigger] pipeline[i]) is Aggregate)) && (forall|i: int|
            0 <= i < pipeline.len() ==> !((#[trigger] pipeline[i]) is Project))
            ==> match pipeline[k] {
            OperationModel::Aggregate { group_by, aggregates, having } => style.base_selection(
                pipeline,
            ) == joined(style.exprs(group_by) + style.aggregates(aggregates), ", "@),
            _ => true,
        },
        style.extensions(pipeline.push(op)) == style.extensions(pipeline) + (match op {
            OperationModel::Extend(columns) => if columns.len() == 0 {
                Seq::empty()
            } else {
                ", "@ + joined(style.columns(columns), ", "@)
            },
            _ => Seq::empty(),
        }),
        style.select_clause(pipeline) == "SELECT "@ + (if exists|i: int|
            0 <= i < pipeline.len() && (#[trigger] pipeline[i]) is Distinct {
            "DISTINCT "@
        } else {
            Seq::empty()
        }) + (style.base_selection(pipeline) + style.extensions(pipeline)),
{
    reveal_strlit("");
    assert(""@ =~= Seq::empty());
    let project = |op: OperationModel| is_project(op);
    let aggregate = |op: OperationModel| is_aggregate(op);
    lemma_first_index(pipeline, project);
    lemma_first_index(pipeline, aggregate);
    let p = first_index(pipeline, project);
    let a = first_index(pipeline, aggregate);
    if 0 <= p < pipeline.len() {
        assert(project(pipeline[p]));
        assert(pipeline[p] is Project);
    }
    if 0 <= a < pipeline.len() {
        assert(aggregate(pipeline[a]));
        assert(pipeline[a] is Aggregate);
    }
    if 0 <= k < pipeline.len() {
        if k < p {
            assert(!project(pipeline[k]));
        }
        if k < a {
            assert(!aggregate(pipeline[k]));
        }
    }
    let more = pipeline.push(op);
    assert(more.drop_last() =~= pipeline);
    assert(style.extension(op) == match op {
        OperationModel::Extend(columns) => if columns.len() == 0 {
            Seq::empty()
        } else {
            ", "@ + joined(style.columns(columns), ", "@)
        },
        _ => Seq::empty(),
    });
    assert(style.extensions(more) == style.extensions(pipeline) + style.extension(op));
}

/// A query is what it selects, the table it selects from and the clauses of its
/// operations, in that order. Its common table expressions stand before all of it. In
/// compact text a blank stands between two clauses.
pub proof fn queries_stand_in_order(style: Style, q: QueryModel, ctes: Seq<CteModel>)
    requires
        q.ctes.len() == 0,
    ensures
        style.query(q) == style.select_clause(q.pipeline) + style.gap() + "FROM "@ + q.source
            + concatenated(Seq::new(q.pipeline.len(), |i: int| style.operation(q.pipeline[i]))),
        style.query((QueryModel { ctes, ..q })) == style.with_clause(ctes) + style.query(q),
        !style.pretty ==> style.gap() == seq![' '],
{
    reveal_strlit("");
    reveal_strlit(" ");
    assert(" "@ =~= seq![' ']);
    let texts = Seq::new(q.pipeline.len(), |i: int| style.operation(q.pipeline[i]));
    assert(style.operations(q.pipeline) =~= texts);
    assert(style.with_clause(q.ctes) =~= Seq::empty());
    let selected = style.select_clause(q.pipeline);
    let end = concatenated(texts);
    let gap = style.gap();
    assert(Seq::<char>::empty() + selected + gap + "FROM "@ + q.source + end =~= selected + gap
        + "FROM "@ + q.source + end);
    let with = style.with_clause(ctes);
    assert(with + selected + gap + "FROM "@ + q.source + end =~= with + (selected + gap + "FROM "@
        + q.source + end));
}

/// A common table expression is its name and its query in parentheses; they follow
/// each other in their order behind `WITH`.
pub proof fn common_tables_stand_in_order(style: Style, ctes: Seq<CteModel>, cte: CteModel)
    requires
        !style.pretty,
    ensures
        style.with_clause(ctes.push(cte)) == (if ctes.len() == 0 {
            "WITH "@
        } else {
            style.with_clause(ctes) + (",\n"@ + style.margin)
        }) + (cte.name + " AS "@ + in_parentheses(Seq::empty(), style.query(*cte.query))),
{
    reveal_strlit("");
    reveal_strlit("(");
    reveal_strlit(")");
    let more = ctes.push(cte);
    let entry = cte.name + " AS "@ + in_parentheses(Seq::empty(), style.query(*cte.query));
    assert(style.nested(*cte.query) =~= in_parentheses(Seq::empty(), style.query(*cte.query)));
    let texts = style.ctes(more);
    let before = style.ctes(ctes);
    assert(texts.drop_last() =~= before);
    assert(texts.last() == entry);
    let sep = ",\n"@ + style.margin;
    if ctes.len() == 0 {
        assert(joined(texts, sep) == texts[0]);
        assert("WITH "@ + entry + ""@ =~= "WITH "@ + entry);
    } else {
        assert(joined(texts, sep) == joined(before, sep) + sep + entry);
        assert("WITH "@ + (joined(before, sep) + sep + entry) + ""@ =~= ("WITH "@ + joined(
            before,
            sep,
        ) + ""@) + sep + entry);
    }
}

/// A search function that is called by name on a literal is written as the pattern that
/// finds the literal. The literal has no quotes.
pub proof fn searches_are_written_as_patterns(style: Style, x: ExprModel, s: Seq<char>)
    requires
        !s.contains('\''),
    ensures
        ({
            let needle = ExprModel::Literal(LiteralModel::String(s));
            let pattern = |p: Seq<char>|
                ExprModel::binary(
                    SqlBinaryOp::Like,
                    x,
                    ExprModel::Literal(LiteralModel::String(p)),
                );
            &&& style.expr((ExprModel::Function { name: "contains"@, args: seq![x, needle] }))
                == style.expr(pattern(seq!['%'] + s + seq!['%']))
            &&& style.expr((ExprModel::Function { name: "startswith"@, args: seq![x, needle] }))
                == style.expr(pattern(s + seq!['%']))
            &&& style.expr((ExprModel::Function { name: "endswith"@, args: seq![x, needle] }))
                == style.expr(pattern(seq!['%'] + s))
        }),
{
    let both = seq!['%'] + s + seq!['%'];
    let behind = s + seq!['%'];
    let before = seq!['%'] + s;
    assert(!both.contains('\'') && !behind.contains('\'') && !before.contains('\'')) by {
        assert(forall|i: int| 0 <= i < s.len() ==> s[i] != '\'');
    }
    lemma_like_text(style, x, both);
    lemma_like_text(style, x, behind);
    lemma_like_text(style, x, before);
    lemma_search_texts(style, x, s);
    let l = style.expr(x);
    assert(" LIKE '%"@ =~= " LIKE '"@ + seq!['%'] && "%'"@ =~= seq!['%'] + "'"@) by {
        reveal_strlit(" LIKE '%");
        reveal_strlit(" LIKE '");
        reveal_strlit("%'");
        reveal_strlit("'");
    }
    assert(l + " LIKE '%"@ + s + "%'"@ =~= l + (" LIKE '"@ + both + "'"@));
    assert(l + " LIKE '"@ + s + "%'"@ =~= l + (" LIKE '"@ + behind + "'"@));
    assert(l + " LIKE '%"@ + s + "'"@ =~= l + (" LIKE '"@ + before + "'"@));
}

proof fn lemma_like_text(style: Style, x: ExprModel, p: Seq<char>)
    requires
        !p.contains('\''),
    ensures
        style.expr(
            ExprModel::binary(SqlBinaryOp::Like, x, ExprModel::Literal(LiteralModel::String(p))),
        ) == style.expr(x) + (" LIKE '"@ + p + "'"@),
{
    lemma_no_quotes(p);
    let literal = ExprModel::Literal(LiteralModel::String(p));
    assert(style.expr(literal) == "'"@ + p + "'"@);
    let l = style.expr(x);
    assert(l + " "@ + "LIKE"@ + " "@ + ("'"@ + p + "'"@) =~= l + (" LIKE '"@ + p + "'"@)) by {
        reveal_strlit(" ");
        reveal_strlit("LIKE");
        reveal_strlit("'");
        reveal_strlit(" LIKE '");
    }
}

proof fn lemma_search_texts(style: Style, x: ExprModel, s: Seq<char>)
    requires
        !s.contains('\''),
    ensures
        ({
            let args = seq![x, ExprModel::Literal(LiteralModel::String(s))];
            let l = style.expr(x);
            &&& style.expr((ExprModel::Function { name: "contains"@, args })) == l + " LIKE '%"@ + s
                + "%'"@
            &&& style.expr((ExprModel::Function { name: "startswith"@, args })) == l + " LIKE '"@
                + s + "%'"@
            &&& style.expr((ExprModel::Function { name: "endswith"@, args })) == l + " LIKE '%"@ + s
                + "'"@
        }),
{
    reveal_strlit("contains");
    reveal_strlit("startswith");
    reveal_strlit("endswith");
    reveal_strlit("json_extract");
    reveal_strlit("json_extract_text");
    assert("contains"@.len() == 8 && "startswith"@.len() == 10 && "endswith"@.len() == 8);
    assert("contains"@[0] == 'c' && "endswith"@[0] == 'e');
    assert("json_extract"@.len() == 12 && "json_extract_text"@.len() == 17);
    let needle = ExprModel::Literal(LiteralModel::String(s));
    let args = seq![x, needle];
    let texts = style.exprs(args);
    assert(texts[0] == style.expr(x));
    assert(texts[1] == style.expr(needle));
    lemma_no_quotes(s);
    lemma_trimmed(s);
    assert(style.expr(needle) == seq!['\''] + s + seq!['\'']) by {
        reveal_strlit("'");
        assert("'"@ =~= seq!['\'']);
    }
    assert(quotes_trimmed(texts[1]) == s);
    let a = ExprModel::Function { name: "contains"@, args };
    let b = ExprModel::Function { name: "startswith"@, args };
    let c = ExprModel::Function { name: "endswith"@, args };
    assert(style.expr(a) == style.call("contains"@, texts));
    assert(style.expr(b) == style.call("startswith"@, texts));
    assert(style.expr(c) == style.call("endswith"@, texts));
}

proof fn lemma_no_quotes(s: Seq<char>)
    requires
        !s.contains('\''),
    ensures
        quotes_doubled(s) == s,
    decreases s.len(),
{
    if s.len() > 0 {
        assert(s[s.len() - 1] != '\'');
        assert(forall|i: int| 0 <= i < s.len() - 1 ==> s.drop_last()[i] == s[i]);
        lemma_no_quotes(s.drop_last());
        assert(s.drop_last().push(s.last()) =~= s);
    } else {
        assert(s =~= Seq::empty());
    }
}

proof fn lemma_trimmed(s: Seq<char>)
    requires
        !s.contains('\''),
    ensures
        quotes_trimmed(seq!['\''] + s + seq!['\'']) == s,
{
    let quoted = seq!['\''] + s + seq!['\''];
    reveal_with_fuel(without_leading_quotes, 3);
    reveal_with_fuel(without_trailing_quotes, 3);
    if s.len() == 0 {
        assert(s =~= Seq::empty());
        assert(quotes_trimmed(quoted) =~= s);
    } else {
        assert(s[0] != '\'');
        assert(s[s.len() - 1] != '\'');
        assert(quoted.drop_first() =~= s + seq!['\'']);
        assert((s + seq!['\'']).drop_last() =~= s);
    }
}

/// In pretty text every clause begins a line behind the margin. A nested query stands on
/// lines of its own, each of them four blanks further in than the line with its opening
/// parenthesis, and the closing parenthesis is back at the margin.
pub proof fn nested_queries_are_indented(style: Style, q: QueryModel)
    requires
        style.pretty,
        q.ctes.len() == 0,
    ensures
        style.gap() == seq!['\n'] + style.margin,
        style.nested(q) == seq!['(', '\n'] + style.margin + seq![' ', ' ', ' ', ' '] + (Style {
            margin: style.margin + seq![' ', ' ', ' ', ' '],
            ..style
        }).query(q) + seq!['\n'] + style.margin + seq![')'],
{
    reveal_strlit("\n");
    reveal_strlit("(\n");
    reveal_strlit(")");
    reveal_strlit("    ");
    reveal_strlit("");
    assert("    "@ =~= seq![' ', ' ', ' ', ' ']);
    assert("\n"@ =~= seq!['\n']);
    assert(")"@ =~= seq![')']);
    assert("(\n"@ =~= seq!['(', '\n']);
    let inner = style.deeper();
    assert(inner == Style { margin: style.margin + seq![' ', ' ', ' ', ' '], ..style });
    assert(inner.with_clause(q.ctes) =~= Seq::empty());
    let selected = inner.select_clause(q.pipeline);
    let end = concatenated(inner.operations(q.pipeline));
    let m = inner.margin;
    assert(inner.query(q) == Seq::empty() + selected + ("\n"@ + m) + "FROM "@ + q.source + end);
    assert(style.indented_query(q) =~= m + inner.query(q));
    let body = inner.query(q);
    assert("(\n"@ + (m + body) + "\n"@ + style.margin + ")"@ =~= seq!['(', '\n'] + style.margin
        + seq![' ', ' ', ' ', ' '] + body + seq!['\n'] + style.margin + seq![')']);
}

/// In pretty text too the common table expressions follow each other in their order
/// behind `WITH`, and the query begins a new line behind them.
pub proof fn pretty_common_tables_stand_in_order(style: Style, ctes: Seq<CteModel>, cte: CteModel)
    requires
        style.pretty,
    ensures
        style.with_clause(ctes.push(cte)) == (if ctes.len() == 0 {
            "WITH "@
        } else {
            style.with_clause(ctes).take(style.with_clause(ctes).len() - style.gap().len()) + (seq![',', '\n'] + style.margin)
        }) + (cte.name + " AS "@ + style.nested(*cte.query)) + style.gap(),
{
    reveal_strlit(",\n");
    reveal_strlit("\n");
    assert(",\n"@ =~= seq![',', '\n']);
    let more = ctes.push(cte);
    let entry = cte.name + " AS "@ + style.nested(*cte.query);
    let texts = style.ctes(more);
    let before = style.ctes(ctes);
    assert(texts.drop_last() =~= before);
    assert(texts.last() == entry);
    let sep = ",\n"@ + style.margin;
    if ctes.len() == 0 {
        assert(joined(texts, sep) == texts[0]);
    } else {
        assert(joined(texts, sep) == joined(before, sep) + sep + entry);
        let start = "WITH "@ + joined(before, sep);
        let whole = style.with_clause(ctes);
        assert(whole == start + style.gap());
        assert(whole.take(whole.len() - style.gap().len()) =~= start);
        assert("WITH "@ + (joined(before, sep) + sep + entry) + style.gap() =~= start + sep + entry
            + style.gap());
    }
}

/// A join in pretty text is the join of compact text on lines of its own: its conditions
/// stand behind `ON` on the next line, two blanks further in.
pub proof fn pretty_joins_name_their_conditions(
    style: Style,
    kind: SqlJoinKind,
    source: JoinSourceModel,
    on: Seq<JoinConditionModel>,
)
    requires
        style.pretty,
    ensures
        style.operation((OperationModel::Join { kind, source, on })) == style.gap()
            + join_kind_text(kind) + seq![' '] + style.join_source(source) + (if on.len() == 0 {
            Seq::empty()
        } else {
            style.gap() + "  ON "@ + joined(
                Seq::new(
                    on.len(),
                    |i: int|
                        style.expr(on[i].left) + seq![' '] + binary_op_text(on[i].operator) + seq![
                            ' ',
                        ] + style.expr(on[i].right),
                ),
                " AND "@,
            )
        }),
{
    reveal_strlit(" ");
    reveal_strlit("");
    assert(" "@ =~= seq![' ']);
    assert(""@ =~= Seq::empty());
    let texts = Seq::new(
        on.len(),
        |i: int|
            style.expr(on[i].left) + seq![' '] + binary_op_text(on[i].operator) + seq![' ']
                + style.expr(on[i].right),
    );
    assert(style.join_conditions(on) =~= texts);
}

} // verus!
