//! Expressions as text, for messages.

use crate::ast::{ArithOp, BinOp, BoolOp, Expr, Number, Value};
use crate::text::{
    cat3, cat5, chars_of, decimal, digits, join, joined, signed_text, texts, unsigned_text,
};
use vstd::prelude::*;

verus! {

/// A string with a backslash before each backslash and each double quote.
pub open spec fn escaped(s: Seq<char>) -> Seq<char>
    decreases s.len(),
{
    if s.len() == 0 {
        Seq::empty()
    } else if s.last() == '\\' || s.last() == '"' {
        escaped(s.drop_last()).push('\\').push(s.last())
    } else {
        escaped(s.drop_last()).push(s.last())
    }
}

/// The text of a number.
pub open spec fn number_text(n: Number) -> Seq<char> {
    match n {
        Number::UInt(u) => digits(u as nat),
        Number::Int(i) => decimal(i as int),
        Number::Float(f) => f@,
        Number::Big(big) => match (big.as_i64, big.as_f64) {
            (Some(i), _) => decimal(i as int),
            (None, Some(f)) => f@,
            (None, None) => "?"@,
        },
    }
}

/// The text of a value.
pub open spec fn value_text(value: Value) -> Seq<char> {
    match value {
        Value::Null => "Null"@,
        Value::Bool(b) => if b {
            "Bool(true)"@
        } else {
            "Bool(false)"@
        },
        Value::Number(n) => "Number("@ + number_text(n) + ")"@,
        Value::String(s) => "String(\""@ + escaped(s@) + "\")"@,
        Value::Other => "Other"@,
    }
}

/// The name of a comparison operator.
pub open spec fn bool_op_name(op: BoolOp) -> Seq<char> {
    match op {
        BoolOp::Lt => "Lt"@,
        BoolOp::Le => "Le"@,
        BoolOp::Eq => "Eq"@,
        BoolOp::Ge => "Ge"@,
        BoolOp::Gt => "Gt"@,
        BoolOp::Ne => "Ne"@,
    }
}

/// The name of an arithmetic operator.
pub open spec fn arith_op_name(op: ArithOp) -> Seq<char> {
    match op {
        ArithOp::Add => "Add"@,
        ArithOp::Sub => "Sub"@,
        ArithOp::Mul => "Mul"@,
        ArithOp::Div => "Div"@,
        ArithOp::Mod => "Mod"@,
    }
}

/// The name of a set operator.
pub open spec fn bin_op_name(op: BinOp) -> Seq<char> {
    match op {
        BinOp::Intersection => "Intersection"@,
        BinOp::Union => "Union"@,
    }
}

/// The text of an expression: its form and its parts, by name.
pub open spec fn expr_text(e: Expr) -> Seq<char>
    decreases e,
{
    match e {
        Expr::String { value } => "String { value: "@ + value_text(value) + " }"@,
        Expr::RawString { value } => "RawString { value: "@ + value_text(value) + " }"@,
        Expr::Number { value } => "Number { value: "@ + value_text(value) + " }"@,
        Expr::Bool { value } => "Bool { value: "@ + value_text(value) + " }"@,
        Expr::Null => "Null"@,
        Expr::Var { value } => "Var { value: "@ + value_text(value) + " }"@,
        Expr::Array { items } => "Array { items: ["@ + joined(expr_texts(items@), ", "@) + "] }"@,
        Expr::SetExpr { items } => "Set { items: ["@ + joined(expr_texts(items@), ", "@) + "] }"@,
        Expr::Object { fields } => "Object { fields: ["@ + joined(field_texts(fields@), ", "@)
            + "] }"@,
        Expr::ArrayCompr => "ArrayCompr"@,
        Expr::SetCompr => "SetCompr"@,
        Expr::ObjectCompr => "ObjectCompr"@,
        Expr::Call { fcn, params } => "Call { fcn: "@ + expr_text(*fcn) + ", params: ["@ + joined(
            expr_texts(params@),
            ", "@,
        ) + "] }"@,
        Expr::UnaryExpr { expr } => "UnaryExpr { expr: "@ + expr_text(*expr) + " }"@,
        Expr::RefDot { refr, field } => "RefDot { refr: "@ + expr_text(*refr) + ", field: "@
            + value_text(field) + " }"@,
        Expr::RefBrack { refr, index } => "RefBrack { refr: "@ + expr_text(*refr) + ", index: "@
            + expr_text(*index) + " }"@,
        Expr::BinExpr { op, lhs, rhs } => "BinExpr { op: "@ + bin_op_name(op) + ", lhs: "@
            + expr_text(*lhs) + ", rhs: "@ + expr_text(*rhs) + " }"@,
        Expr::BoolExpr { op, lhs, rhs } => "BoolExpr { op: "@ + bool_op_name(op) + ", lhs: "@
            + expr_text(*lhs) + ", rhs: "@ + expr_text(*rhs) + " }"@,
        Expr::ArithExpr { op, lhs, rhs } => "ArithExpr { op: "@ + arith_op_name(op) + ", lhs: "@
            + expr_text(*lhs) + ", rhs: "@ + expr_text(*rhs) + " }"@,
        Expr::AssignExpr { lhs, rhs } => "AssignExpr { lhs: "@ + expr_text(*lhs) + ", rhs: "@
            + expr_text(*rhs) + " }"@,
        Expr::Membership { value, collection } => "Membership { value: "@ + expr_text(*value)
            + ", collection: "@ + expr_text(*collection) + " }"@,
        Expr::OrExpr => "OrExpr"@,
    }
}

/// The texts of a sequence of expressions.
pub open spec fn expr_texts(es: Seq<Expr>) -> Seq<Seq<char>>
    decreases es,
{
    Seq::new(
        es.len(),
        |i: int|
            if 0 <= i < es.len() {
                expr_text(es[i])
            } else {
                arbitrary()
            },
    )
}

/// The texts of the fields of an object.
pub open spec fn field_texts(fields: Seq<(Expr, Expr)>) -> Seq<Seq<char>>
    decreases fields,
{
    Seq::new(
        fields.len(),
        |i: int|
            if 0 <= i < fields.len() {
                "("@ + expr_text(fields[i].0) + ", "@ + expr_text(fields[i].1) + ")"@
            } else {
                arbitrary()
            },
    )
}

fn write_escaped(s: &str) -> (r: String)
    ensures
        r@ == escaped(s@),
{
    let chars = chars_of(s);
    let mut r: String = String::new();
    for i in 0..chars.len()
        invariant
            chars@ == s@,
            r@ == escaped(s@.take(i as int)),
    {
        let c: char = chars[i];
        if c == '\\' || c == '"' {
            r.push('\\');
        }
        r.push(c);
        proof {
            assert(s@.take(i + 1).drop_last() =~= s@.take(i as int));
        }
    }
    proof {
        assert(s@.take(s@.len() as int) =~= s@);
    }
    r
}

fn write_number(n: &Number) -> (r: String)
    ensures
        r@ == number_text(*n),
{
    match n {
        Number::UInt(u) => unsigned_text(*u),
        Number::Int(i) => signed_text(*i),
        Number::Float(f) => f.text().to_string(),
        Number::Big(big) => match big.as_i64 {
            Some(i) => signed_text(i),
            None => match &big.as_f64 {
                Some(f) => f.text().to_string(),
                None => "?".to_string(),
            },
        },
    }
}

fn write_value(value: &Value) -> (r: String)
    ensures
        r@ == value_text(*value),
{
    match value {
        Value::Null => "Null".to_string(),
        Value::Bool(b) => if *b {
            "Bool(true)".to_string()
        } else {
            "Bool(false)".to_string()
        },
        Value::Number(n) => cat3("Number(", write_number(n).as_str(), ")"),
        Value::String(s) => cat3("String(\"", write_escaped(s.as_str()).as_str(), "\")"),
        Value::Other => "Other".to_string(),
    }
}

fn write_bool_op(op: BoolOp) -> (r: &'static str)
    ensures
        r@ == bool_op_name(op),
{
    match op {
        BoolOp::Lt => "Lt",
        BoolOp::Le => "Le",
        BoolOp::Eq => "Eq",
        BoolOp::Ge => "Ge",
        BoolOp::Gt => "Gt",
        BoolOp::Ne => "Ne",
    }
}

fn write_arith_op(op: ArithOp) -> (r: &'static str)
    ensures
        r@ == arith_op_name(op),
{
    match op {
        ArithOp::Add => "Add",
        ArithOp::Sub => "Sub",
        ArithOp::Mul => "Mul",
        ArithOp::Div => "Div",
        ArithOp::Mod => "Mod",
    }
}

fn write_bin_op(op: BinOp) -> (r: &'static str)
    ensures
        r@ == bin_op_name(op),
{
    match op {
        BinOp::Intersection => "Intersection",
        BinOp::Union => "Union",
    }
}

/// The text of an operation with its operator and its two operands.
fn write_operation(head: &str, op: &str, lhs: &str, rhs: &str) -> (r: String)
    ensures
        r@ == head@ + op@ + ", lhs: "@ + lhs@ + ", rhs: "@ + rhs@ + " }"@,
{
    let first: String = cat5(head, op, ", lhs: ", lhs, ", rhs: ");
    cat3(first.as_str(), rhs, " }")
}

/// Writes an expression: its form and its parts, by name.
pub fn write_expr(e: &Expr) -> (r: String)
    ensures
        r@ == expr_text(*e),
    decreases e, 0int,
{
    match e {
        Expr::String { value } => cat3("String { value: ", write_value(value).as_str(), " }"),
        Expr::RawString { value } => cat3("RawString { value: ", write_value(value).as_str(), " }"),
        Expr::Number { value } => cat3("Number { value: ", write_value(value).as_str(), " }"),
        Expr::Bool { value } => cat3("Bool { value: ", write_value(value).as_str(), " }"),
        Expr::Null => "Null".to_string(),
        Expr::Var { value } => cat3("Var { value: ", write_value(value).as_str(), " }"),
        Expr::Array { items } => cat3("Array { items: [", write_list(items).as_str(), "] }"),
        Expr::SetExpr { items } => cat3("Set { items: [", write_list(items).as_str(), "] }"),
        Expr::Object { fields } => cat3("Object { fields: [", write_fields(fields).as_str(), "] }"),
        Expr::ArrayCompr => "ArrayCompr".to_string(),
        Expr::SetCompr => "SetCompr".to_string(),
        Expr::ObjectCompr => "ObjectCompr".to_string(),
        Expr::Call { fcn, params } => cat5(
            "Call { fcn: ",
            write_expr(fcn).as_str(),
            ", params: [",
            write_list(params).as_str(),
            "] }",
        ),
        Expr::UnaryExpr { expr } => cat3("UnaryExpr { expr: ", write_expr(expr).as_str(), " }"),
        Expr::RefDot { refr, field } => cat5(
            "RefDot { refr: ",
            write_expr(refr).as_str(),
            ", field: ",
            write_value(field).as_str(),
            " }",
        ),
        Expr::RefBrack { refr, index } => cat5(
            "RefBrack { refr: ",
            write_expr(refr).as_str(),
            ", index: ",
            write_expr(index).as_str(),
            " }",
        ),
        Expr::BinExpr { op, lhs, rhs } => write_operation(
            "BinExpr { op: ",
            write_bin_op(*op),
            write_expr(lhs).as_str(),
            write_expr(rhs).as_str(),
        ),
        Expr::BoolExpr { op, lhs, rhs } => write_operation(
            "BoolExpr { op: ",
            write_bool_op(*op),
            write_expr(lhs).as_str(),
            write_expr(rhs).as_str(),
        ),
        Expr::ArithExpr { op, lhs, rhs } => write_operation(
            "ArithExpr { op: ",
            write_arith_op(*op),
            write_expr(lhs).as_str(),
            write_expr(rhs).as_str(),
        ),
        Expr::AssignExpr { lhs, rhs } => cat5(
            "AssignExpr { lhs: ",
            write_expr(lhs).as_str(),
            ", rhs: ",
            write_expr(rhs).as_str(),
            " }",
        ),
        Expr::Membership { value, collection } => cat5(
            "Membership { value: ",
            write_expr(value).as_str(),
            ", collection: ",
            write_expr(collection).as_str(),
            " }",
        ),
        Expr::OrExpr => "OrExpr".to_string(),
    }
}

fn write_list(items: &Vec<Expr>) -> (r: String)
    ensures
        r@ == joined(expr_texts(items@), ", "@),
    decreases items, 0int,
{
    let mut parts: Vec<String> = Vec::new();
    for i in 0..items.len()
        invariant
            parts@.len() == i,
            forall|j: int| 0 <= j < i ==> (#[trigger] parts@[j])@ == expr_texts(items@)[j],
    {
        parts.push(write_expr(&items[i]));
    }
    proof {
        assert(texts(parts@) =~= expr_texts(items@));
    }
    join(&parts, ", ")
}

fn write_fields(fields: &Vec<(Expr, Expr)>) -> (r: String)
    ensures
        r@ == joined(field_texts(fields@), ", "@),
    decreases fields, 0int,
{
    let mut parts: Vec<String> = Vec::new();
    for i in 0..fields.len()
        invariant
            parts@.len() == i,
            forall|j: int| 0 <= j < i ==> (#[trigger] parts@[j])@ == field_texts(fields@)[j],
    {
        let key: String = write_expr(&fields[i].0);
        let value: String = write_expr(&fields[i].1);
        parts.push(cat5("(", key.as_str(), ", ", value.as_str(), ")"));
    }
    proof {
        assert(texts(parts@) =~= field_texts(fields@));
    }
    join(&parts, ", ")
}

} // verus!
