//! Laws of messages: what a message says can be read back.

use crate::ast::{ArithOp, BinOp, BoolOp, Expr};
use crate::ast_text::{
    arith_op_name, bin_op_name, bool_op_name, escaped, expr_text, expr_texts, field_texts,
    value_text,
};
use crate::errors::{error_text, ErrorModel, Fault};
use crate::text::joined;
use vstd::prelude::*;

verus! {

/// The fault that a message names.
pub open spec fn fault_read(text: Seq<char>) -> Option<Fault> {
    if text == "Default rules not supported in SQL translation"@ {
        Some(Fault::DefaultRule)
    } else if text == "SQL translation requires at least one 'some var in table' statement"@ {
        Some(Fault::NoTable)
    } else if text == "Only 'rule_name contains var if { ... }' rule patterns are supported for SQL translation"@ {
        Some(Fault::RulePattern)
    } else if text == "Only single-body rules are supported for SQL translation"@ {
        Some(Fault::BodyCount)
    } else if text == "No table found in rule and no default table specified"@ {
        Some(Fault::NoSource)
    } else if text == "Field name must be a string"@ {
        Some(Fault::FieldName)
    } else if text == "Invalid variable name"@ {
        Some(Fault::VariableName)
    } else if text == "Invalid input field name"@ {
        Some(Fault::InputFieldName)
    } else if text == "input indexing requires a string literal key"@ {
        Some(Fault::InputIndex)
    } else if text == "global `input` is not supported directly; bind a specific input path"@ {
        Some(Fault::InputNotBound)
    } else if text == "Invalid function name"@ {
        Some(Fault::FunctionName)
    } else if text == "Function field name must be a string"@ {
        Some(Fault::FunctionField)
    } else if text == "Function name must be a simple identifier"@ {
        Some(Fault::FunctionForm)
    } else if text == "Only equality conditions are supported for JOINs"@ {
        Some(Fault::JoinCondition)
    } else if text == "'every' statements are not supported in SQL translation"@ {
        Some(Fault::Every)
    } else if text == "Invalid field name"@ {
        Some(Fault::ProjectionName)
    } else if text == "Projection field name must be a string literal"@ {
        Some(Fault::ProjectionKey)
    } else if text == "Collection must be of the form 'data.table_name'"@ {
        Some(Fault::Collection)
    } else if text == "IN operation requires an array/set on the right side"@ {
        Some(Fault::InRightSide)
    } else if text == "Invalid string value"@ {
        Some(Fault::StringValue)
    } else if text == "Invalid number value"@ {
        Some(Fault::NumberValue)
    } else if text == "Invalid boolean value"@ {
        Some(Fault::BooleanValue)
    } else if text == "Object literals in expressions are not yet supported for SQL translation"@ {
        Some(Fault::ObjectLiteral)
    } else if text == "Array position out of range"@ {
        Some(Fault::IndexRange)
    } else {
        None
    }
}

proof fn lemma_messages_differ()
    ensures
        "Default rules not supported in SQL translation"@.len() == 46,
        "Default rules not supported in SQL translation"@[0] == 'D',
        "SQL translation requires at least one 'some var in table' statement"@.len() == 67,
        "Only 'rule_name contains var if { ... }' rule patterns are supported for SQL translation"@.len() == 88,
        "Only single-body rules are supported for SQL translation"@.len() == 56,
        "No table found in rule and no default table specified"@.len() == 53,
        "Field name must be a string"@.len() == 27,
        "Field name must be a string"@[0] == 'F',
        "Invalid variable name"@.len() == 21,
        "Invalid variable name"@[8] == 'v',
        "Invalid input field name"@.len() == 24,
        "input indexing requires a string literal key"@.len() == 44,
        "global `input` is not supported directly; bind a specific input path"@.len() == 68,
        "Invalid function name"@.len() == 21,
        "Invalid function name"@[8] == 'f',
        "Function field name must be a string"@.len() == 36,
        "Function name must be a simple identifier"@.len() == 41,
        "Only equality conditions are supported for JOINs"@.len() == 48,
        "Only equality conditions are supported for JOINs"@[0] == 'O',
        "'every' statements are not supported in SQL translation"@.len() == 55,
        "Invalid field name"@.len() == 18,
        "Projection field name must be a string literal"@.len() == 46,
        "Projection field name must be a string literal"@[0] == 'P',
        "Collection must be of the form 'data.table_name'"@.len() == 48,
        "Collection must be of the form 'data.table_name'"@[0] == 'C',
        "IN operation requires an array/set on the right side"@.len() == 52,
        "Invalid string value"@.len() == 20,
        "Invalid string value"@[8] == 's',
        "Invalid number value"@.len() == 20,
        "Invalid number value"@[8] == 'n',
        "Invalid boolean value"@.len() == 21,
        "Invalid boolean value"@[8] == 'b',
        "Object literals in expressions are not yet supported for SQL translation"@.len() == 72,
        "Array position out of range"@.len() == 27,
        "Array position out of range"@[0] == 'A',
{
    assert(
        "Default rules not supported in SQL translation"@.len() == 46
            && "Default rules not supported in SQL translation"@[0] == 'D'
    ) by {
        reveal_strlit("Default rules not supported in SQL translation");
    }
    assert("SQL translation requires at least one 'some var in table' statement"@.len() == 67) by {
        reveal_strlit("SQL translation requires at least one 'some var in table' statement");
    }
    assert(
        "Only 'rule_name contains var if { ... }' rule patterns are supported for SQL translation"@.len() == 88
    ) by {
        reveal_strlit("Only 'rule_name contains var if { ... }' rule patterns are supported for SQL translation");
    }
    assert("Only single-body rules are supported for SQL translation"@.len() == 56) by {
        reveal_strlit("Only single-body rules are supported for SQL translation");
    }
    assert("No table found in rule and no default table specified"@.len() == 53) by {
        reveal_strlit("No table found in rule and no default table specified");
    }
    assert(
        "Field name must be a string"@.len() == 27
            && "Field name must be a string"@[0] == 'F'
    ) by {
        reveal_strlit("Field name must be a string");
    }
    assert("Invalid variable name"@.len() == 21 && "Invalid variable name"@[8] == 'v') by {
        reveal_strlit("Invalid variable name");
    }
    assert("Invalid input field name"@.len() == 24) by {
        reveal_strlit("Invalid input field name");
    }
    assert("input indexing requires a string literal key"@.len() == 44) by {
        reveal_strlit("input indexing requires a string literal key");
    }
    assert("global `input` is not supported directly; bind a specific input path"@.len() == 68) by {
        reveal_strlit("global `input` is not supported directly; bind a specific input path");
    }
    assert("Invalid function name"@.len() == 21 && "Invalid function name"@[8] == 'f') by {
        reveal_strlit("Invalid function name");
    }
    assert("Function field name must be a string"@.len() == 36) by {
        reveal_strlit("Function field name must be a string");
    }
    assert("Function name must be a simple identifier"@.len() == 41) by {
        reveal_strlit("Function name must be a simple identifier");
    }
    assert(
        "Only equality conditions are supported for JOINs"@.len() == 48
            && "Only equality conditions are supported for JOINs"@[0] == 'O'
    ) by {
        reveal_strlit("Only equality conditions are supported for JOINs");
    }
    assert("'every' statements are not supported in SQL translation"@.len() == 55) by {
        reveal_strlit("'every' statements are not supported in SQL translation");
    }
    assert("Invalid field name"@.len() == 18) by {
        reveal_strlit("Invalid field name");
    }
    assert(
        "Projection field name must be a string literal"@.len() == 46
            && "Projection field name must be a string literal"@[0] == 'P'
    ) by {
        reveal_strlit("Projection field name must be a string literal");
    }
    assert(
        "Collection must be of the form 'data.table_name'"@.len() == 48
            && "Collection must be of the form 'data.table_name'"@[0] == 'C'
    ) by {
        reveal_strlit("Collection must be of the form 'data.table_name'");
    }
    assert("IN operation requires an array/set on the right side"@.len() == 52) by {
        reveal_strlit("IN operation requires an array/set on the right side");
    }
    assert("Invalid string value"@.len() == 20 && "Invalid string value"@[8] == 's') by {
        reveal_strlit("Invalid string value");
    }
    assert("Invalid number value"@.len() == 20 && "Invalid number value"@[8] == 'n') by {
        reveal_strlit("Invalid number value");
    }
    assert("Invalid boolean value"@.len() == 21 && "Invalid boolean value"@[8] == 'b') by {
        reveal_strlit("Invalid boolean value");
    }
    assert(
        "Object literals in expressions are not yet supported for SQL translation"@.len() == 72
    ) by {
        reveal_strlit("Object literals in expressions are not yet supported for SQL translation");
    }
    assert(
        "Array position out of range"@.len() == 27
            && "Array position out of range"@[0] == 'A'
    ) by {
        reveal_strlit("Array position out of range");
    }
}

/// A message of a fault reads back as that fault.
pub proof fn messages_read_back(fault: Fault)
    ensures
        fault_read(error_text(ErrorModel::Rejected(fault))) == Some(fault),
{
    lemma_messages_differ();
}

/// A message on a missing binding names the path, a message on an expression ends in its
/// text; the three are told apart by their first letter.
pub proof fn messages_name_what_failed(s: Seq<char>)
    ensures
        ({
            let missing = error_text(ErrorModel::MissingInputBinding(s));
            let expected = error_text(ErrorModel::ExpectedVariable(s));
            let unsupported = error_text(ErrorModel::Unsupported(s));
            &&& missing == "missing SQL input binding for `input."@ + s + seq!['`']
            &&& expected.skip(expected.len() - s.len()) == s
            &&& unsupported.skip(unsupported.len() - s.len()) == s
            &&& expected.len() >= 22
            &&& expected.take(22) == "Expected variable name"@
            &&& unsupported.len() >= 27
            &&& unsupported.take(27) == "Unsupported expression type"@
        }),
{
    reveal_strlit("missing SQL input binding for `input.");
    reveal_strlit("`");
    reveal_strlit("Expected variable name, got ");
    reveal_strlit("Expected variable name");
    reveal_strlit("Unsupported expression type: ");
    reveal_strlit("Unsupported expression type");
    let missing = error_text(ErrorModel::MissingInputBinding(s));
    let expected = error_text(ErrorModel::ExpectedVariable(s));
    let unsupported = error_text(ErrorModel::Unsupported(s));
    assert(missing =~= "missing SQL input binding for `input."@ + s + seq!['`']);
    assert(expected.skip(expected.len() - s.len()) =~= s);
    assert(unsupported.skip(unsupported.len() - s.len()) =~= s);
    assert(expected.take(22) =~= "Expected variable name"@);
    assert(unsupported.take(27) =~= "Unsupported expression type"@);
}

/// Whether a comparison that a message names holds between two numbers: the first letter
/// says which side is meant (`L` less, `G` greater, `E` equal, `N` not), the second
/// whether equality is.
pub open spec fn name_holds(name: Seq<char>, a: int, b: int) -> bool {
    if name[0] == 'E' {
        a == b
    } else if name[0] == 'N' {
        a != b
    } else if name[0] == 'L' {
        a < b || name[1] == 'e' && a == b
    } else {
        name[0] == 'G' && (a > b || name[1] == 'e' && a == b)
    }
}

/// The name of a comparison in a message holds where the comparison does.
pub proof fn comparison_names_hold(op: BoolOp, a: int, b: int)
    ensures
        name_holds(bool_op_name(op), a, b) == match op {
            BoolOp::Lt => a < b,
            BoolOp::Le => a <= b,
            BoolOp::Eq => a == b,
            BoolOp::Ge => a >= b,
            BoolOp::Gt => a > b,
            BoolOp::Ne => a != b,
        },
{
    reveal_strlit("Lt");
    reveal_strlit("Le");
    reveal_strlit("Eq");
    reveal_strlit("Ge");
    reveal_strlit("Gt");
    reveal_strlit("Ne");
}

/// The operator that a name in a message stands for.
pub open spec fn operation_read(name: Seq<char>) -> Option<ArithOp> {
    if name == "Add"@ {
        Some(ArithOp::Add)
    } else if name == "Sub"@ {
        Some(ArithOp::Sub)
    } else if name == "Mul"@ {
        Some(ArithOp::Mul)
    } else if name == "Div"@ {
        Some(ArithOp::Div)
    } else if name == "Mod"@ {
        Some(ArithOp::Mod)
    } else {
        None
    }
}

/// The names of arithmetic and set operators in messages read back.
pub proof fn operator_names_read_back(op: ArithOp, set_op: BinOp)
    ensures
        operation_read(arith_op_name(op)) == Some(op),
        bin_op_name(set_op) == "Union"@ <==> set_op == BinOp::Union,
        bin_op_name(set_op) == "Intersection"@ <==> set_op == BinOp::Intersection,
{
    reveal_strlit("Add");
    reveal_strlit("Sub");
    reveal_strlit("Mul");
    reveal_strlit("Div");
    reveal_strlit("Mod");
    reveal_strlit("Union");
    reveal_strlit("Intersection");
    assert("Add"@[0] == 'A' && "Sub"@[0] == 'S' && "Div"@[0] == 'D');
    assert("Mul"@[0] == 'M' && "Mul"@[1] == 'u' && "Mod"@[0] == 'M' && "Mod"@[1] == 'o');
    assert("Union"@.len() == 5 && "Intersection"@.len() == 12);
}

proof fn lemma_one_part(a: Seq<char>)
    ensures
        joined(seq![a], ", "@) == a,
{
}

proof fn lemma_two_parts(a: Seq<char>, b: Seq<char>)
    ensures
        joined(seq![a, b], ", "@) == a + ", "@ + b,
{
    assert(seq![a, b].drop_last() =~= seq![a]);
    lemma_one_part(a);
}

proof fn lemma_three_parts(a: Seq<char>, b: Seq<char>, c: Seq<char>)
    ensures
        joined(seq![a, b, c], ", "@) == a + ", "@ + b + ", "@ + c,
{
    assert(seq![a, b, c].drop_last() =~= seq![a, b]);
    lemma_two_parts(a, b);
}

/// A part of an expression with its label before it.
pub open spec fn labelled(label: Seq<char>, text: Seq<char>) -> Seq<char> {
    label + ": "@ + text
}

/// The name of the form of an expression.
pub open spec fn form_name(e: Expr) -> Seq<char> {
    match e {
        Expr::String { value } => "String"@,
        Expr::RawString { value } => "RawString"@,
        Expr::Number { value } => "Number"@,
        Expr::Bool { value } => "Bool"@,
        Expr::Var { value } => "Var"@,
        Expr::Array { items } => "Array"@,
        Expr::SetExpr { items } => "Set"@,
        Expr::Object { fields } => "Object"@,
        Expr::Call { fcn, params } => "Call"@,
        Expr::UnaryExpr { expr } => "UnaryExpr"@,
        Expr::RefDot { refr, field } => "RefDot"@,
        Expr::RefBrack { refr, index } => "RefBrack"@,
        Expr::BinExpr { op, lhs, rhs } => "BinExpr"@,
        Expr::BoolExpr { op, lhs, rhs } => "BoolExpr"@,
        Expr::ArithExpr { op, lhs, rhs } => "ArithExpr"@,
        Expr::AssignExpr { lhs, rhs } => "AssignExpr"@,
        Expr::Membership { value, collection } => "Membership"@,
        Expr::Null => "Null"@,
        Expr::ArrayCompr => "ArrayCompr"@,
        Expr::SetCompr => "SetCompr"@,
        Expr::ObjectCompr => "ObjectCompr"@,
        Expr::OrExpr => "OrExpr"@,
    }
}

/// Expressions in brackets, with commas between them.
pub open spec fn shown_items(items: Seq<Expr>) -> Seq<char> {
    seq!['['] + joined(Seq::new(items.len(), |i: int| expr_text(items[i])), ", "@) + seq![']']
}

/// Keys with their values in brackets, with commas between them.
pub open spec fn shown_fields(fields: Seq<(Expr, Expr)>) -> Seq<char> {
    seq!['['] + joined(
        Seq::new(
            fields.len(),
            |i: int|
                seq!['('] + expr_text(fields[i].0) + ", "@ + expr_text(fields[i].1) + seq![')'],
        ),
        ", "@,
    ) + seq![']']
}

/// The parts of an expression, each with its label, in their order.
pub open spec fn labelled_parts(e: Expr) -> Seq<Seq<char>> {
    match e {
        Expr::String { value } => seq![labelled("value"@, value_text(value))],
        Expr::RawString { value } => seq![labelled("value"@, value_text(value))],
        Expr::Number { value } => seq![labelled("value"@, value_text(value))],
        Expr::Bool { value } => seq![labelled("value"@, value_text(value))],
        Expr::Var { value } => seq![labelled("value"@, value_text(value))],
        Expr::Array { items } => seq![labelled("items"@, shown_items(items@))],
        Expr::SetExpr { items } => seq![labelled("items"@, shown_items(items@))],
        Expr::Object { fields } => seq![labelled("fields"@, shown_fields(fields@))],
        Expr::Call { fcn, params } => seq![
            labelled("fcn"@, expr_text(*fcn)),
            labelled("params"@, shown_items(params@)),
        ],
        Expr::UnaryExpr { expr } => seq![labelled("expr"@, expr_text(*expr))],
        Expr::RefDot { refr, field } => seq![
            labelled("refr"@, expr_text(*refr)),
            labelled("field"@, value_text(field)),
        ],
        Expr::RefBrack { refr, index } => seq![
            labelled("refr"@, expr_text(*refr)),
            labelled("index"@, expr_text(*index)),
        ],
        Expr::BinExpr { op, lhs, rhs } => seq![
            labelled("op"@, bin_op_name(op)),
            labelled("lhs"@, expr_text(*lhs)),
            labelled("rhs"@, expr_text(*rhs)),
        ],
        Expr::BoolExpr { op, lhs, rhs } => seq![
            labelled("op"@, bool_op_name(op)),
            labelled("lhs"@, expr_text(*lhs)),
            labelled("rhs"@, expr_text(*rhs)),
        ],
        Expr::ArithExpr { op, lhs, rhs } => seq![
            labelled("op"@, arith_op_name(op)),
            labelled("lhs"@, expr_text(*lhs)),
            labelled("rhs"@, expr_text(*rhs)),
        ],
        Expr::AssignExpr { lhs, rhs } => seq![
            labelled("lhs"@, expr_text(*lhs)),
            labelled("rhs"@, expr_text(*rhs)),
        ],
        Expr::Membership { value, collection } => seq![
            labelled("value"@, expr_text(*value)),
            labelled("collection"@, expr_text(*collection)),
        ],
        _ => Seq::empty(),
    }
}

proof fn lemma_shown_string(e: Expr)
    requires
        e is String,
    ensures
        expr_text(e) == form_name(e) + " { "@ + joined(labelled_parts(e), ", "@) + " }"@,
{
    let parts = labelled_parts(e);
    match e {
        Expr::String { value } => {
            assert("String { value: "@ =~= "String"@ + " { "@ + "value"@ + ": "@) by {
                reveal_strlit("String { value: ");
                reveal_strlit("String");
                reveal_strlit(" { ");
                reveal_strlit("value");
                reveal_strlit(": ");
            }
            lemma_one_part(parts[0]);
            assert(parts =~= seq![parts[0]]);
            assert(expr_text(e) =~= form_name(e) + " { "@ + joined(parts, ", "@) + " }"@);
        },
        _ => {},
    }
}

proof fn lemma_shown_raw_string(e: Expr)
    requires
        e is RawString,
    ensures
        expr_text(e) == form_name(e) + " { "@ + joined(labelled_parts(e), ", "@) + " }"@,
{
    let parts = labelled_parts(e);
    match e {
        Expr::RawString { value } => {
            assert("RawString { value: "@ =~= "RawString"@ + " { "@ + "value"@ + ": "@) by {
                reveal_strlit("RawString { value: ");
                reveal_strlit("RawString");
                reveal_strlit(" { ");
                reveal_strlit("value");
                reveal_strlit(": ");
            }
            lemma_one_part(parts[0]);
            assert(parts =~= seq![parts[0]]);
            assert(expr_text(e) =~= form_name(e) + " { "@ + joined(parts, ", "@) + " }"@);
        },
        _ => {},
    }
}

proof fn lemma_shown_number(e: Expr)
    requires
        e is Number,
    ensures
        expr_text(e) == form_name(e) + " { "@ + joined(labelled_parts(e), ", "@) + " }"@,
{
    let parts = labelled_parts(e);
    match e {
        Expr::Number { value } => {
            assert("Number { value: "@ =~= "Number"@ + " { "@ + "value"@ + ": "@) by {
                reveal_strlit("Number { value: ");
                reveal_strlit("Number");
                reveal_strlit(" { ");
                reveal_strlit("value");
                reveal_strlit(": ");
            }
            lemma_one_part(parts[0]);
            assert(parts =~= seq![parts[0]]);
            assert(expr_text(e) =~= form_name(e) + " { "@ + joined(parts, ", "@) + " }"@);
        },
        _ => {},
    }
}

proof fn lemma_shown_bool(e: Expr)
    requires
        e is Bool,
    ensures
        expr_text(e) == form_name(e) + " { "@ + joined(labelled_parts(e), ", "@) + " }"@,
{
    let parts = labelled_parts(e);
    match e {
        Expr::Bool { value } => {
            assert("Bool { value: "@ =~= "Bool"@ + " { "@ + "value"@ + ": "@) by {
                reveal_strlit("Bool { value: ");
                reveal_strlit("Bool");
                reveal_strlit(" { ");
                reveal_strlit("value");
                reveal_strlit(": ");
            }
            lemma_one_part(parts[0]);
            assert(parts =~= seq![parts[0]]);
            assert(expr_text(e) =~= form_name(e) + " { "@ + joined(parts, ", "@) + " }"@);
        },
        _ => {},
    }
}

proof fn lemma_shown_var(e: Expr)
    requires
        e is Var,
    ensures
        expr_text(e) == form_name(e) + " { "@ + joined(labelled_parts(e), ", "@) + " }"@,
{
    let parts = labelled_parts(e);
    match e {
        Expr::Var { value } => {
            assert("Var { value: "@ =~= "Var"@ + " { "@ + "value"@ + ": "@) by {
                reveal_strlit("Var { value: ");
                reveal_strlit("Var");
                reveal_strlit(" { ");
                reveal_strlit("value");
                reveal_strlit(": ");
            }
            lemma_one_part(parts[0]);
            assert(parts =~= seq![parts[0]]);
            assert(expr_text(e) =~= form_name(e) + " { "@ + joined(parts, ", "@) + " }"@);
        },
        _ => {},
    }
}

proof fn lemma_shown_array(e: Expr)
    requires
        e is Array,
    ensures
        expr_text(e) == form_name(e) + " { "@ + joined(labelled_parts(e), ", "@) + " }"@,
{
    let parts = labelled_parts(e);
    match e {
        Expr::Array { items } => {
            assert("Array { items: ["@ =~= "Array"@ + " { "@ + "items"@ + ": "@ + seq!['[']) by {
                reveal_strlit("Array { items: [");
                reveal_strlit("Array");
                reveal_strlit(" { ");
                reveal_strlit("items");
                reveal_strlit(": ");
            }
            assert("] }"@ =~= seq![']'] + " }"@) by {
                reveal_strlit("] }");
                reveal_strlit(" }");
            }
            assert(expr_texts(items@) =~= Seq::new(items@.len(), |i: int| expr_text(items@[i])));
            lemma_one_part(parts[0]);
            assert(parts =~= seq![parts[0]]);
            assert(expr_text(e) =~= form_name(e) + " { "@ + joined(parts, ", "@) + " }"@);
        },
        _ => {},
    }
}

proof fn lemma_shown_set_expr(e: Expr)
    requires
        e is SetExpr,
    ensures
        expr_text(e) == form_name(e) + " { "@ + joined(labelled_parts(e), ", "@) + " }"@,
{
    let parts = labelled_parts(e);
    match e {
        Expr::SetExpr { items } => {
            assert("Set { items: ["@ =~= "Set"@ + " { "@ + "items"@ + ": "@ + seq!['[']) by {
                reveal_strlit("Set { items: [");
                reveal_strlit("Set");
                reveal_strlit(" { ");
                reveal_strlit("items");
                reveal_strlit(": ");
            }
            assert("] }"@ =~= seq![']'] + " }"@) by {
                reveal_strlit("] }");
                reveal_strlit(" }");
            }
            assert(expr_texts(items@) =~= Seq::new(items@.len(), |i: int| expr_text(items@[i])));
            lemma_one_part(parts[0]);
            assert(parts =~= seq![parts[0]]);
            assert(expr_text(e) =~= form_name(e) + " { "@ + joined(parts, ", "@) + " }"@);
        },
        _ => {},
    }
}

proof fn lemma_shown_object(e: Expr)
    requires
        e is Object,
    ensures
        expr_text(e) == form_name(e) + " { "@ + joined(labelled_parts(e), ", "@) + " }"@,
{
    let parts = labelled_parts(e);
    match e {
        Expr::Object { fields } => {
            assert("Object { fields: ["@ =~= "Object"@ + " { "@ + "fields"@ + ": "@ + seq!['[']) by {
                reveal_strlit("Object { fields: [");
                reveal_strlit("Object");
                reveal_strlit(" { ");
                reveal_strlit("fields");
                reveal_strlit(": ");
            }
            assert("] }"@ =~= seq![']'] + " }"@) by {
                reveal_strlit("] }");
                reveal_strlit(" }");
            }
            assert("("@ =~= seq!['('] && ")"@ =~= seq![')']) by {
                reveal_strlit("(");
                reveal_strlit(")");
            }
            assert(field_texts(fields@) =~= Seq::new(
                fields@.len(),
                |i: int|
                    seq!['('] + expr_text(fields@[i].0) + ", "@ + expr_text(fields@[i].1) + seq![')'],
            ));
            lemma_one_part(parts[0]);
            assert(parts =~= seq![parts[0]]);
            assert(expr_text(e) =~= form_name(e) + " { "@ + joined(parts, ", "@) + " }"@);
        },
        _ => {},
    }
}

proof fn lemma_shown_call(e: Expr)
    requires
        e is Call,
    ensures
        expr_text(e) == form_name(e) + " { "@ + joined(labelled_parts(e), ", "@) + " }"@,
{
    let parts = labelled_parts(e);
    match e {
        Expr::Call { fcn, params } => {
            assert("Call { fcn: "@ =~= "Call"@ + " { "@ + "fcn"@ + ": "@) by {
                reveal_strlit("Call { fcn: ");
                reveal_strlit("Call");
                reveal_strlit(" { ");
                reveal_strlit("fcn");
                reveal_strlit(": ");
            }
            assert(", params: ["@ =~= ", "@ + "params"@ + ": "@ + seq!['[']) by {
                reveal_strlit(", params: [");
                reveal_strlit(", ");
                reveal_strlit("params");
                reveal_strlit(": ");
            }
            assert("] }"@ =~= seq![']'] + " }"@) by {
                reveal_strlit("] }");
                reveal_strlit(" }");
            }
            assert(expr_texts(params@) =~= Seq::new(params@.len(), |i: int| expr_text(params@[i])));
            lemma_two_parts(parts[0], parts[1]);
            assert(parts =~= seq![parts[0], parts[1]]);
            assert(expr_text(e) =~= form_name(e) + " { "@ + joined(parts, ", "@) + " }"@);
        },
        _ => {},
    }
}

proof fn lemma_shown_unary_expr(e: Expr)
    requires
        e is UnaryExpr,
    ensures
        expr_text(e) == form_name(e) + " { "@ + joined(labelled_parts(e), ", "@) + " }"@,
{
    let parts = labelled_parts(e);
    match e {
        Expr::UnaryExpr { expr } => {
            assert("UnaryExpr { expr: "@ =~= "UnaryExpr"@ + " { "@ + "expr"@ + ": "@) by {
                reveal_strlit("UnaryExpr { expr: ");
                reveal_strlit("UnaryExpr");
                reveal_strlit(" { ");
                reveal_strlit("expr");
                reveal_strlit(": ");
            }
            lemma_one_part(parts[0]);
            assert(parts =~= seq![parts[0]]);
            assert(expr_text(e) =~= form_name(e) + " { "@ + joined(parts, ", "@) + " }"@);
        },
        _ => {},
    }
}

proof fn lemma_shown_ref_dot(e: Expr)
    requires
        e is RefDot,
    ensures
        expr_text(e) == form_name(e) + " { "@ + joined(labelled_parts(e), ", "@) + " }"@,
{
    let parts = labelled_parts(e);
    match e {
        Expr::RefDot { refr, field } => {
            assert("RefDot { refr: "@ =~= "RefDot"@ + " { "@ + "refr"@ + ": "@) by {
                reveal_strlit("RefDot { refr: ");
                reveal_strlit("RefDot");
                reveal_strlit(" { ");
                reveal_strlit("refr");
                reveal_strlit(": ");
            }
            assert(", field: "@ =~= ", "@ + "field"@ + ": "@) by {
                reveal_strlit(", field: ");
                reveal_strlit(", ");
                reveal_strlit("field");
                reveal_strlit(": ");
            }
            lemma_two_parts(parts[0], parts[1]);
            assert(parts =~= seq![parts[0], parts[1]]);
            assert(expr_text(e) =~= form_name(e) + " { "@ + joined(parts, ", "@) + " }"@);
        },
        _ => {},
    }
}

proof fn lemma_shown_ref_brack(e: Expr)
    requires
        e is RefBrack,
    ensures
        expr_text(e) == form_name(e) + " { "@ + joined(labelled_parts(e), ", "@) + " }"@,
{
    let parts = labelled_parts(e);
    match e {
        Expr::RefBrack { refr, index } => {
            assert("RefBrack { refr: "@ =~= "RefBrack"@ + " { "@ + "refr"@ + ": "@) by {
                reveal_strlit("RefBrack { refr: ");
                reveal_strlit("RefBrack");
                reveal_strlit(" { ");
                reveal_strlit("refr");
                reveal_strlit(": ");
            }
            assert(", index: "@ =~= ", "@ + "index"@ + ": "@) by {
                reveal_strlit(", index: ");
                reveal_strlit(", ");
                reveal_strlit("index");
                reveal_strlit(": ");
            }
            lemma_two_parts(parts[0], parts[1]);
            assert(parts =~= seq![parts[0], parts[1]]);
            assert(expr_text(e) =~= form_name(e) + " { "@ + joined(parts, ", "@) + " }"@);
        },
        _ => {},
    }
}

proof fn lemma_shown_bin_expr(e: Expr)
    requires
        e is BinExpr,
    ensures
        expr_text(e) == form_name(e) + " { "@ + joined(labelled_parts(e), ", "@) + " }"@,
{
    let parts = labelled_parts(e);
    match e {
        Expr::BinExpr { op, lhs, rhs } => {
            assert("BinExpr { op: "@ =~= "BinExpr"@ + " { "@ + "op"@ + ": "@) by {
                reveal_strlit("BinExpr { op: ");
                reveal_strlit("BinExpr");
                reveal_strlit(" { ");
                reveal_strlit("op");
                reveal_strlit(": ");
            }
            assert(", lhs: "@ =~= ", "@ + "lhs"@ + ": "@) by {
                reveal_strlit(", lhs: ");
                reveal_strlit(", ");
                reveal_strlit("lhs");
                reveal_strlit(": ");
            }
            assert(", rhs: "@ =~= ", "@ + "rhs"@ + ": "@) by {
                reveal_strlit(", rhs: ");
                reveal_strlit(", ");
                reveal_strlit("rhs");
                reveal_strlit(": ");
            }
            lemma_three_parts(parts[0], parts[1], parts[2]);
            assert(parts =~= seq![parts[0], parts[1], parts[2]]);
            assert(expr_text(e) =~= form_name(e) + " { "@ + joined(parts, ", "@) + " }"@);
        },
        _ => {},
    }
}

proof fn lemma_shown_bool_expr(e: Expr)
    requires
        e is BoolExpr,
    ensures
        expr_text(e) == form_name(e) + " { "@ + joined(labelled_parts(e), ", "@) + " }"@,
{
    let parts = labelled_parts(e);
    match e {
        Expr::BoolExpr { op, lhs, rhs } => {
            assert("BoolExpr { op: "@ =~= "BoolExpr"@ + " { "@ + "op"@ + ": "@) by {
                reveal_strlit("BoolExpr { op: ");
                reveal_strlit("BoolExpr");
                reveal_strlit(" { ");
                reveal_strlit("op");
                reveal_strlit(": ");
            }
            assert(", lhs: "@ =~= ", "@ + "lhs"@ + ": "@) by {
                reveal_strlit(", lhs: ");
                reveal_strlit(", ");
                reveal_strlit("lhs");
                reveal_strlit(": ");
            }
            assert(", rhs: "@ =~= ", "@ + "rhs"@ + ": "@) by {
                reveal_strlit(", rhs: ");
                reveal_strlit(", ");
                reveal_strlit("rhs");
                reveal_strlit(": ");
            }
            lemma_three_parts(parts[0], parts[1], parts[2]);
            assert(parts =~= seq![parts[0], parts[1], parts[2]]);
            assert(expr_text(e) =~= form_name(e) + " { "@ + joined(parts, ", "@) + " }"@);
        },
        _ => {},
    }
}

proof fn lemma_shown_arith_expr(e: Expr)
    requires
        e is ArithExpr,
    ensures
        expr_text(e) == form_name(e) + " { "@ + joined(labelled_parts(e), ", "@) + " }"@,
{
    let parts = labelled_parts(e);
    match e {
        Expr::ArithExpr { op, lhs, rhs } => {
            assert("ArithExpr { op: "@ =~= "ArithExpr"@ + " { "@ + "op"@ + ": "@) by {
                reveal_strlit("ArithExpr { op: ");
                reveal_strlit("ArithExpr");
                reveal_strlit(" { ");
                reveal_strlit("op");
                reveal_strlit(": ");
            }
            assert(", lhs: "@ =~= ", "@ + "lhs"@ + ": "@) by {
                reveal_strlit(", lhs: ");
                reveal_strlit(", ");
                reveal_strlit("lhs");
                reveal_strlit(": ");
            }
            assert(", rhs: "@ =~= ", "@ + "rhs"@ + ": "@) by {
                reveal_strlit(", rhs: ");
                reveal_strlit(", ");
                reveal_strlit("rhs");
                reveal_strlit(": ");
            }
            lemma_three_parts(parts[0], parts[1], parts[2]);
            assert(parts =~= seq![parts[0], parts[1], parts[2]]);
            assert(expr_text(e) =~= form_name(e) + " { "@ + joined(parts, ", "@) + " }"@);
        },
        _ => {},
    }
}

proof fn lemma_shown_assign_expr(e: Expr)
    requires
        e is AssignExpr,
    ensures
        expr_text(e) == form_name(e) + " { "@ + joined(labelled_parts(e), ", "@) + " }"@,
{
    let parts = labelled_parts(e);
    match e {
        Expr::AssignExpr { lhs, rhs } => {
            assert("AssignExpr { lhs: "@ =~= "AssignExpr"@ + " { "@ + "lhs"@ + ": "@) by {
                reveal_strlit("AssignExpr { lhs: ");
                reveal_strlit("AssignExpr");
                reveal_strlit(" { ");
                reveal_strlit("lhs");
                reveal_strlit(": ");
            }
            assert(", rhs: "@ =~= ", "@ + "rhs"@ + ": "@) by {
                reveal_strlit(", rhs: ");
                reveal_strlit(", ");
                reveal_strlit("rhs");
                reveal_strlit(": ");
            }
            lemma_two_parts(parts[0], parts[1]);
            assert(parts =~= seq![parts[0], parts[1]]);
            assert(expr_text(e) =~= form_name(e) + " { "@ + joined(parts, ", "@) + " }"@);
        },
        _ => {},
    }
}

proof fn lemma_shown_membership(e: Expr)
    requires
        e is Membership,
    ensures
        expr_text(e) == form_name(e) + " { "@ + joined(labelled_parts(e), ", "@) + " }"@,
{
    let parts = labelled_parts(e);
    match e {
        Expr::Membership { value, collection } => {
            assert("Membership { value: "@ =~= "Membership"@ + " { "@ + "value"@ + ": "@) by {
                reveal_strlit("Membership { value: ");
                reveal_strlit("Membership");
                reveal_strlit(" { ");
                reveal_strlit("value");
                reveal_strlit(": ");
            }
            assert(", collection: "@ =~= ", "@ + "collection"@ + ": "@) by {
                reveal_strlit(", collection: ");
                reveal_strlit(", ");
                reveal_strlit("collection");
                reveal_strlit(": ");
            }
            lemma_two_parts(parts[0], parts[1]);
            assert(parts =~= seq![parts[0], parts[1]]);
            assert(expr_text(e) =~= form_name(e) + " { "@ + joined(parts, ", "@) + " }"@);
        },
        _ => {},
    }
}

/// An expression is shown in messages by the name of its form and, in braces, its parts
/// with their labels, in their order.
pub proof fn expressions_are_shown_by_form(e: Expr)
    ensures
        expr_text(e) == if labelled_parts(e).len() == 0 {
            form_name(e)
        } else {
            form_name(e) + " { "@ + joined(labelled_parts(e), ", "@) + " }"@
        },
{
    match e {
        Expr::String { value } => {
            lemma_shown_string(e);
        },
        Expr::RawString { value } => {
            lemma_shown_raw_string(e);
        },
        Expr::Number { value } => {
            lemma_shown_number(e);
        },
        Expr::Bool { value } => {
            lemma_shown_bool(e);
        },
        Expr::Var { value } => {
            lemma_shown_var(e);
        },
        Expr::Array { items } => {
            lemma_shown_array(e);
        },
        Expr::SetExpr { items } => {
            lemma_shown_set_expr(e);
        },
        Expr::Object { fields } => {
            lemma_shown_object(e);
        },
        Expr::Call { fcn, params } => {
            lemma_shown_call(e);
        },
        Expr::UnaryExpr { expr } => {
            lemma_shown_unary_expr(e);
        },
        Expr::RefDot { refr, field } => {
            lemma_shown_ref_dot(e);
        },
        Expr::RefBrack { refr, index } => {
            lemma_shown_ref_brack(e);
        },
        Expr::BinExpr { op, lhs, rhs } => {
            lemma_shown_bin_expr(e);
        },
        Expr::BoolExpr { op, lhs, rhs } => {
            lemma_shown_bool_expr(e);
        },
        Expr::ArithExpr { op, lhs, rhs } => {
            lemma_shown_arith_expr(e);
        },
        Expr::AssignExpr { lhs, rhs } => {
            lemma_shown_assign_expr(e);
        },
        Expr::Membership { value, collection } => {
            lemma_shown_membership(e);
        },
        _ => {},
    }
}

/// Reads a text in which a backslash stands before a character that is meant as it is.
pub open spec fn unescaped(t: Seq<char>) -> Seq<char>
    decreases t.len(),
{
    if t.len() == 0 {
        Seq::empty()
    } else if t[0] == '\\' && t.len() >= 2 {
        seq![t[1]] + unescaped(t.skip(2))
    } else {
        seq![t[0]] + unescaped(t.skip(1))
    }
}

proof fn lemma_escaped_add(a: Seq<char>, b: Seq<char>)
    ensures
        escaped(a + b) == escaped(a) + escaped(b),
    decreases b.len(),
{
    if b.len() == 0 {
        assert(a + b =~= a);
        assert(escaped(a) + escaped(b) =~= escaped(a));
    } else {
        lemma_escaped_add(a, b.drop_last());
        assert((a + b).drop_last() =~= a + b.drop_last());
        assert((a + b).last() == b.last());
        assert(escaped(a + b) =~= escaped(a) + escaped(b));
    }
}

/// A string in a message reads back: a quote and a backslash in it have a backslash
/// before them, so that no quote in it is taken for its end.
pub proof fn escaped_strings_read_back(s: Seq<char>)
    ensures
        unescaped(escaped(s)) == s,
        forall|i: int|
            0 <= i < escaped(s).len() && #[trigger] escaped(s)[i] == '"' ==> i > 0 && escaped(
                s,
            )[i - 1] == '\\',
    decreases s.len(),
{
    if s.len() > 0 {
        let first = seq![s[0]];
        let later = s.skip(1);
        escaped_strings_read_back(later);
        assert(s =~= first + later);
        lemma_escaped_add(first, later);
        reveal_with_fuel(escaped, 2);
        assert(first.drop_last() =~= Seq::empty());
        let t = escaped(s);
        let rest = escaped(later);
        if s[0] == '"' || s[0] == '\\' {
            assert(escaped(first) =~= seq!['\\', s[0]]);
            assert(t.skip(2) =~= rest);
            assert(forall|i: int| 2 <= i < t.len() ==> t[i] == rest[i - 2]);
        } else {
            assert(escaped(first) =~= first);
            assert(t.skip(1) =~= rest);
            assert(forall|i: int| 1 <= i < t.len() ==> t[i] == rest[i - 1]);
        }
        assert(unescaped(t) =~= first + later);
    } else {
        assert(s =~= Seq::empty());
        assert(unescaped(escaped(s)) =~= s);
    }
}

} // verus!
