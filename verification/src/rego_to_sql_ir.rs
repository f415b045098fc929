//! Translation of Rego rules into the SQL intermediate representation.
//!
//! A rule of the form `rule contains var if { ... }` becomes a query over the
//! tables that its `some var in data.table` statements name.

use crate::ast::{
    ArithOp, BinOp, BoolOp, Expr, Literal, LiteralStmt, Number, Rule, RuleBody, RuleHead, Value,
};
use crate::ast_text::write_expr;
use crate::calls::{
    call2, call3, make_inclusive, shift_index, translate_binary_call, translate_function_name,
    translate_unary_call,
};
use crate::errors::{reject, ErrorModel, Fault, TranslateError};
use crate::floats::FloatText;
use crate::joining::{assemble_query, has_name, is_empty, make_table_column, name_pairs};
use crate::model::{column_models, expr_models, optional_text, ColumnModel, ExprModel, InputModel};
use crate::sql_ir::{
    SqlBinaryOp, SqlColumn, SqlExpression, SqlInputValue, SqlLiteral, SqlQuery, SqlUnaryOp,
};
use crate::string_map::StringMap;
use crate::text::{
    all_ascii, ascii_lower, cat3, initials, join, last_segment, piece_initials, same_text, texts,
    to_lowercase,
};
use crate::translation::{
    alias_of, aliases_of, arithmetic, compared, comparison, condition, expr_outcome, first_table,
    function_name, has_some_in, indexed_columns, indexed_columns_of, indexed_columns_of_body,
    indexed_columns_of_fields, indexed_columns_of_statements, input_path, is_boolean,
    json_extracted, json_path, last_field, null, number_literal, parenthesized, projected,
    query_outcome, rule_pattern, set_operation, string_of_value, table_name, text_outcome,
    unit_outcome, variable_name, TranslatorModel,
};
use vstd::prelude::*;

verus! {

/// The content of a string value.
fn string_value(value: &Value, fault: Fault) -> (r: Result<String, TranslateError>)
    ensures
        text_outcome(r) == string_of_value(*value, fault),
{
    match value {
        Value::String(s) => Ok(s.clone()),
        _ => reject(fault),
    }
}

/// Derives the short name of a table from the variable that ranges over it:
/// `user` gives `u`, `role_assignment` gives `ra`.
pub fn derive_alias(var_name: &str) -> (r: String)
    ensures
        r@ == alias_of(var_name@),
        all_ascii(var_name@) ==> r@ == initials(var_name@).map_values(
            |c: char| ascii_lower(c),
        ),
{
    proof {
        lemma_ascii_initials(var_name@);
    }
    to_lowercase(piece_initials(var_name).as_str())
}

/// The initials of an ASCII text are ASCII.
proof fn lemma_ascii_initials(s: Seq<char>)
    ensures
        all_ascii(s) ==> all_ascii(initials(s)),
    decreases s.len(),
{
    if s.len() > 0 {
        lemma_ascii_initials(s.drop_last());
    }
}

/// Reads the path under `input` that an expression names, if it names one.
fn extract_input_path(expr: &Expr) -> (r: Result<Option<Vec<String>>, TranslateError>)
    ensures
        match (r, input_path(*expr)) {
            (Ok(Some(path)), Ok(Some(names))) => texts(path@) == names,
            (Ok(None), Ok(None)) => true,
            (Err(error), Err(reason)) => error@ == reason,
            _ => false,
        },
    decreases expr,
{
    match expr {
        Expr::Var { value } => {
            let name: String = string_value(value, Fault::VariableName)?;
            if same_text(name.as_str(), "input") {
                let path: Vec<String> = Vec::new();
                proof {
                    assert(texts(path@) =~= Seq::empty());
                }
                Ok(Some(path))
            } else {
                Ok(None)
            }
        },
        Expr::RefDot { refr, field } => match extract_input_path(refr)? {
            Some(found) => {
                let mut path: Vec<String> = found;
                let ghost names = texts(path@);
                let name: String = string_value(field, Fault::FieldName)?;
                path.push(name);
                proof {
                    assert(texts(path@) =~= names.push(name@));
                }
                Ok(Some(path))
            },
            None => Ok(None),
        },
        Expr::RefBrack { refr, index } => match extract_input_path(refr)? {
            Some(found) => {
                let mut path: Vec<String> = found;
                let ghost names = texts(path@);
                let name: String = match &**index {
                    Expr::String { value } => string_value(value, Fault::InputFieldName)?,
                    _ => {
                        return reject(Fault::InputIndex);
                    },
                };
                path.push(name);
                proof {
                    assert(texts(path@) =~= names.push(name@));
                }
                Ok(Some(path))
            },
            None => Ok(None),
        },
        _ => Ok(None),
    }
}

/// Reads the name of a called function, with its namespaces.
fn extract_function_name(fcn: &Expr) -> (r: Result<String, TranslateError>)
    ensures
        text_outcome(r) == function_name(*fcn),
    decreases fcn,
{
    match fcn {
        Expr::Var { value } => string_value(value, Fault::FunctionName),
        Expr::RefDot { refr, field } => {
            let namespace: String = extract_function_name(refr)?;
            let name: String = string_value(field, Fault::FunctionField)?;
            Ok(cat3(namespace.as_str(), ".", name.as_str()))
        },
        _ => reject(Fault::FunctionForm),
    }
}

/// Reads the name of a variable.
fn extract_var_name(expr: &Expr) -> (r: Result<String, TranslateError>)
    ensures
        text_outcome(r) == variable_name(*expr),
{
    match expr {
        Expr::Var { value } => string_value(value, Fault::VariableName),
        _ => Err(TranslateError::ExpectedVariable(write_expr(expr))),
    }
}

/// Reads the table that a collection names.
fn extract_table_name(expr: &Expr) -> (r: Result<String, TranslateError>)
    ensures
        text_outcome(r) == table_name(*expr),
{
    match expr {
        Expr::RefDot { refr, field } => {
            if let Expr::Var { value } = &**refr {
                let name: String = string_value(value, Fault::VariableName)?;
                if !same_text(name.as_str(), "data") {
                    return reject(Fault::Collection);
                }
            }
            string_value(field, Fault::FieldName)
        },
        _ => reject(Fault::Collection),
    }
}

/// The last field that a chain of references names: `tags` for `user.tags` and
/// for `user.tags[0]`.
fn extract_last_field_name(expr: &Expr) -> (r: Option<String>)
    ensures
        optional_text(r) == last_field(*expr),
    decreases expr,
{
    match expr {
        Expr::RefDot { field, .. } => match field {
            Value::String(s) => Some(s.clone()),
            _ => None,
        },
        Expr::RefBrack { refr, .. } => extract_last_field_name(refr),
        _ => None,
    }
}

/// Adds the columns that an expression indexes by a number.
pub fn collect_array_columns_in_expr(expr: &Expr, result: &mut StringMap<()>)
    ensures
        final(result)@.dom() == old(result)@.dom().union(indexed_columns(*expr)),
    decreases expr, 0int,
{
    match expr {
        Expr::RefBrack { refr, index } => {
            if let Expr::Number { .. } = &**index {
                if let Some(name) = extract_last_field_name(refr) {
                    result.insert(name, ());
                }
            }
            collect_array_columns_in_expr(refr, result);
            collect_array_columns_in_expr(index, result);
        },
        Expr::BoolExpr { lhs, rhs, .. } => {
            collect_array_columns_in_expr(lhs, result);
            collect_array_columns_in_expr(rhs, result);
        },
        Expr::ArithExpr { lhs, rhs, .. } => {
            collect_array_columns_in_expr(lhs, result);
            collect_array_columns_in_expr(rhs, result);
        },
        Expr::BinExpr { lhs, rhs, .. } => {
            collect_array_columns_in_expr(lhs, result);
            collect_array_columns_in_expr(rhs, result);
        },
        Expr::AssignExpr { lhs, rhs } => {
            collect_array_columns_in_expr(lhs, result);
            collect_array_columns_in_expr(rhs, result);
        },
        Expr::Object { fields } => {
            for i in 0..fields.len()
                invariant
                    decreases_to!(*expr => fields@),
                    result@.dom() == old(result)@.dom().union(
                        indexed_columns_of_fields(fields@.take(i as int)),
                    ),
            {
                proof {
                    assert(fields@.take(i + 1).drop_last() =~= fields@.take(i as int));
                }
                collect_array_columns_in_expr(&fields[i].0, result);
                collect_array_columns_in_expr(&fields[i].1, result);
            }
            proof {
                assert(fields@.take(fields@.len() as int) =~= fields@);
            }
        },
        Expr::Array { items } => collect_array_columns_in_list(items, result),
        Expr::SetExpr { items } => collect_array_columns_in_list(items, result),
        Expr::Call { fcn, params } => {
            collect_array_columns_in_expr(fcn, result);
            collect_array_columns_in_list(params, result);
        },
        Expr::Membership { value, collection } => {
            collect_array_columns_in_expr(value, result);
            collect_array_columns_in_expr(collection, result);
        },
        Expr::RefDot { refr, .. } => collect_array_columns_in_expr(refr, result),
        Expr::UnaryExpr { expr: inner } => collect_array_columns_in_expr(inner, result),
        _ => {},
    }
}

/// Adds the columns that any of the expressions indexes by a number.
fn collect_array_columns_in_list(items: &Vec<Expr>, result: &mut StringMap<()>)
    ensures
        final(result)@.dom() == old(result)@.dom().union(indexed_columns_of(items@)),
    decreases items, 0int,
{
    for i in 0..items.len()
        invariant
            result@.dom() == old(result)@.dom().union(indexed_columns_of(items@.take(i as int))),
    {
        proof {
            assert(items@.take(i + 1).drop_last() =~= items@.take(i as int));
        }
        collect_array_columns_in_expr(&items[i], result);
    }
    proof {
        assert(items@.take(items@.len() as int) =~= items@);
    }
}

/// Whether a SQL expression is already a predicate.
pub fn is_boolean_expression(expr: &SqlExpression) -> (r: bool)
    ensures
        r == is_boolean(expr@),
{
    match expr {
        SqlExpression::Binary { op, .. } => match op {
            SqlBinaryOp::Add
            | SqlBinaryOp::Subtract
            | SqlBinaryOp::Multiply
            | SqlBinaryOp::Divide
            | SqlBinaryOp::Modulo
            | SqlBinaryOp::Concat => false,
            _ => true,
        },
        SqlExpression::Unary { op, .. } => match op {
            SqlUnaryOp::Not | SqlUnaryOp::Exists => true,
            SqlUnaryOp::Negate => false,
        },
        SqlExpression::Literal(literal) => match literal {
            SqlLiteral::Boolean(_) => true,
            _ => false,
        },
        _ => false,
    }
}

/// Puts an operand in parentheses where the meaning would change without them.
pub fn parenthesize_if_lower_precedence(
    expr: SqlExpression,
    parent_op: ArithOp,
    is_left: bool,
) -> (r: SqlExpression)
    ensures
        r@ == parenthesized(expr@, parent_op, is_left),
{
    let parent_is_high = match parent_op {
        ArithOp::Mul | ArithOp::Div | ArithOp::Mod => true,
        ArithOp::Add | ArithOp::Sub => false,
    };
    let wrap = match &expr {
        SqlExpression::Binary { op, .. } => {
            let child_is_high = match op {
                SqlBinaryOp::Multiply | SqlBinaryOp::Divide | SqlBinaryOp::Modulo => true,
                _ => false,
            };
            let child_is_low = match op {
                SqlBinaryOp::Add | SqlBinaryOp::Subtract => true,
                _ => false,
            };
            (parent_is_high && child_is_low) || (parent_is_high && child_is_high && !is_left) || (
            parent_op == ArithOp::Sub && child_is_low && !is_left)
        },
        _ => false,
    };
    if wrap {
        SqlExpression::Parenthesized(Box::new(expr))
    } else {
        expr
    }
}

/// Whether an expression is the null literal.
fn is_null_literal(expr: &SqlExpression) -> (r: bool)
    ensures
        r == (expr@ == null()),
{
    match expr {
        SqlExpression::Literal(literal) => match literal {
            SqlLiteral::Null => true,
            _ => false,
        },
        _ => false,
    }
}

/// A comparison. Equality with null on either side becomes a test for null.
pub fn make_comparison(op: BoolOp, left: SqlExpression, right: SqlExpression) -> (r: SqlExpression)
    ensures
        r@ == compared(op, left@, right@),
{
    let test: Option<SqlBinaryOp> = match op {
        BoolOp::Eq => Some(SqlBinaryOp::IsNull),
        BoolOp::Ne => Some(SqlBinaryOp::IsNotNull),
        _ => None,
    };
    if let Some(null_test) = test {
        if is_null_literal(&right) {
            return SqlExpression::binary(null_test, left, SqlExpression::null_literal());
        }
        if is_null_literal(&left) {
            return SqlExpression::binary(null_test, right, SqlExpression::null_literal());
        }
    }
    SqlExpression::binary(translate_bool_op(op), left, right)
}

/// The comparison operator of SQL.
fn translate_bool_op(op: BoolOp) -> (r: SqlBinaryOp)
    ensures
        r == comparison(op),
{
    match op {
        BoolOp::Eq => SqlBinaryOp::Equal,
        BoolOp::Ne => SqlBinaryOp::NotEqual,
        BoolOp::Lt => SqlBinaryOp::LessThan,
        BoolOp::Le => SqlBinaryOp::LessThanOrEqual,
        BoolOp::Gt => SqlBinaryOp::GreaterThan,
        BoolOp::Ge => SqlBinaryOp::GreaterThanOrEqual,
    }
}

/// The arithmetic operator of SQL.
fn translate_arith_op(op: ArithOp) -> (r: SqlBinaryOp)
    ensures
        r == arithmetic(op),
{
    match op {
        ArithOp::Add => SqlBinaryOp::Add,
        ArithOp::Sub => SqlBinaryOp::Subtract,
        ArithOp::Mul => SqlBinaryOp::Multiply,
        ArithOp::Div => SqlBinaryOp::Divide,
        ArithOp::Mod => SqlBinaryOp::Modulo,
    }
}

/// The operator of SQL for a set operator.
fn translate_bin_op(op: BinOp) -> (r: SqlBinaryOp)
    ensures
        r == set_operation(op),
{
    match op {
        BinOp::Intersection => SqlBinaryOp::In,
        BinOp::Union => SqlBinaryOp::Or,
    }
}

/// The literal for a number.
fn translate_number(n: &Number) -> (r: SqlLiteral)
    ensures
        r.model() == number_literal(*n),
{
    match n {
        Number::Float(f) => SqlLiteral::Float(f.clone()),
        Number::UInt(u) => if *u <= i64::MAX as u64 {
            SqlLiteral::Integer(*u as i64)
        } else {
            SqlLiteral::Integer(0)
        },
        Number::Int(i) => SqlLiteral::Integer(*i),
        Number::Big(big) => if big.integral {
            match big.as_i64 {
                Some(i) => SqlLiteral::Integer(i),
                None => SqlLiteral::Integer(0),
            }
        } else {
            match &big.as_f64 {
                Some(f) => SqlLiteral::Float(f.clone()),
                None => SqlLiteral::Float(FloatText::zero()),
            }
        },
    }
}

/// Translator from Rego to the SQL intermediate representation.
#[derive(Debug)]
pub struct RegoToSqlIrTranslator {
    /// Default table name to use when none is found
    pub default_table: Option<String>,
    /// Variables in scope for the current rule
    variables: Vec<String>,
    /// Variables that range over a table
    table_variables: Vec<String>,
    /// Tables of the current rule, each with its variable
    tables_seen: Vec<(String, String)>,
    /// Conditions collected so far
    conditions: Vec<SqlExpression>,
    /// Variables that stand for an expression, as `t` after `t := role.age + 10`
    variable_assignments: StringMap<SqlExpression>,
    /// Columns known to be arrays
    array_columns: StringMap<()>,
    /// Values bound to paths under the global `input`
    input_bindings: StringMap<SqlInputValue>,
}

impl View for RegoToSqlIrTranslator {
    type V = TranslatorModel;

    closed spec fn view(&self) -> TranslatorModel {
        TranslatorModel {
            default_table: optional_text(self.default_table),
            input_bindings: input_models(self.input_bindings@),
            variables: texts(self.variables@),
            table_variables: texts(self.table_variables@),
            tables_seen: name_pairs(self.tables_seen@),
            conditions: expr_models(self.conditions@),
            variable_assignments: self.variable_assignments@.map_values(|e: SqlExpression| e@),
            array_columns: self.array_columns@.dom(),
        }
    }
}

/// The models of bound values.
pub open spec fn input_models(m: Map<Seq<char>, SqlInputValue>) -> Map<Seq<char>, InputModel> {
    m.map_values(|v: SqlInputValue| v.model())
}

impl RegoToSqlIrTranslator {
    /// A translator that has seen no rule.
    pub fn new(default_table: Option<String>) -> (r: Self)
        ensures
            r@ == TranslatorModel::initial(optional_text(default_table), Map::empty()),
    {
        let r = RegoToSqlIrTranslator {
            default_table,
            variables: Vec::new(),
            table_variables: Vec::new(),
            tables_seen: Vec::new(),
            conditions: Vec::new(),
            variable_assignments: StringMap::new(),
            array_columns: StringMap::new(),
            input_bindings: StringMap::new(),
        };
        proof {
            assert(r@ =~= TranslatorModel::initial(optional_text(default_table), Map::empty()));
        }
        r
    }

    /// Sets the default table.
    pub fn with_default_table(self, table: String) -> (r: Self)
        ensures
            r@ == (TranslatorModel { default_table: Some(table@), ..self@ }),
    {
        RegoToSqlIrTranslator { default_table: Some(table), ..self }
    }

    /// Sets the values bound to paths under `input`.
    pub fn with_input_bindings(self, bindings: StringMap<SqlInputValue>) -> (r: Self)
        ensures
            r@ == (TranslatorModel { input_bindings: input_models(bindings@), ..self@ }),
    {
        RegoToSqlIrTranslator { input_bindings: bindings, ..self }
    }

    /// Binds a value to a path under `input`.
    pub fn with_input_binding(self, path: String, value: SqlInputValue) -> (r: Self)
        ensures
            r@ == (TranslatorModel {
                input_bindings: self@.input_bindings.insert(path@, value.model()),
                ..self@
            }),
    {
        let mut bindings: StringMap<SqlInputValue> = self.input_bindings;
        let ghost before = bindings@;
        bindings.insert(path, value);
        proof {
            assert(input_models(bindings@) =~= input_models(before).insert(path@, value.model()));
        }
        RegoToSqlIrTranslator {
            default_table: self.default_table,
            variables: self.variables,
            table_variables: self.table_variables,
            tables_seen: self.tables_seen,
            conditions: self.conditions,
            variable_assignments: self.variable_assignments,
            array_columns: self.array_columns,
            input_bindings: bindings,
        }
    }

    /// The expression for a path under `input`.
    fn resolve_input_path(&self, path: &Vec<String>) -> (r: Result<SqlExpression, TranslateError>)
        ensures
            expr_outcome(r) == self@.input_value(texts(path@)),
    {
        let key: String = join(path, ".");
        match self.input_bindings.get(key.as_str()) {
            Some(value) => match value {
                SqlInputValue::Literal(literal) => Ok(SqlExpression::Literal(literal.clone())),
                SqlInputValue::Variable(name) => Ok(SqlExpression::InjectedVariable(name.clone())),
            },
            None => if is_empty(key.as_str()) {
                reject(Fault::InputNotBound)
            } else {
                Err(TranslateError::MissingInputBinding(key))
            },
        }
    }

    /// The expression for a variable.
    fn translate_variable(&self, name: &str) -> (r: Result<SqlExpression, TranslateError>)
        ensures
            expr_outcome(r) == self@.variable(name@),
    {
        if same_text(name, "input") {
            let path: Vec<String> = Vec::new();
            proof {
                assert(texts(path@) =~= Seq::empty());
            }
            self.resolve_input_path(&path)
        } else {
            match self.variable_assignments.get(name) {
                Some(assigned) => Ok(assigned.clone()),
                None => Ok(SqlExpression::column(name)),
            }
        }
    }

    /// Takes a chain of field references apart into what it starts from and the
    /// JSON keys that are looked up in it.
    fn collect_refdot_parts(&self, expr: &Expr) -> (r: Result<
        (SqlExpression, Vec<String>),
        TranslateError,
    >)
        ensures
            match (r, self@.reference_parts(*expr)) {
                (Ok(parts), Ok(model)) => parts.0@ == model.0 && texts(parts.1@) == model.1,
                (Err(error), Err(reason)) => error@ == reason,
                _ => false,
            },
        decreases expr, 1int,
    {
        match expr {
            Expr::RefDot { refr, field } => {
                let field_name: String = string_value(field, Fault::FieldName)?;
                if let Expr::Var { value } = &**refr {
                    let var_name: String = string_value(value, Fault::VariableName)?;
                    if has_name(&self.table_variables, var_name.as_str()) {
                        let alias: String = derive_alias(var_name.as_str());
                        let column: SqlExpression = make_table_column(
                            self.tables_seen.len(),
                            alias.as_str(),
                            field_name.as_str(),
                        );
                        let keys: Vec<String> = Vec::new();
                        proof {
                            assert(texts(keys@) =~= Seq::empty());
                        }
                        return Ok((column, keys));
                    }
                }
                let (base, inner) = self.collect_refdot_parts(refr)?;
                let mut keys: Vec<String> = inner;
                let ghost before = texts(keys@);
                keys.push(field_name);
                proof {
                    assert(texts(keys@) =~= before.push(field_name@));
                }
                Ok((base, keys))
            },
            _ => {
                let base: SqlExpression = self.translate_expression_to_sql(expr)?;
                let keys: Vec<String> = Vec::new();
                proof {
                    assert(texts(keys@) =~= Seq::empty());
                }
                Ok((base, keys))
            },
        }
    }

    /// Translates a chain of field references: a column of a table, or a path
    /// of JSON keys.
    fn translate_refdot_chain(&self, expr: &Expr) -> (r: Result<SqlExpression, TranslateError>)
        requires
            expr is RefDot,
        ensures
            expr_outcome(r) == self@.expression(*expr),
        decreases expr, 2int,
    {
        if let Some(path) = extract_input_path(expr)? {
            return self.resolve_input_path(&path);
        }
        let (base, keys) = self.collect_refdot_parts(expr)?;
        Ok(make_json_path(base, &keys))
    }

    /// Translates an expression.
    pub fn translate_expression_to_sql(&self, expr: &Expr) -> (r: Result<
        SqlExpression,
        TranslateError,
    >)
        ensures
            expr_outcome(r) == self@.expression(*expr),
        decreases
            expr,
            (if expr is RefDot {
                3int
            } else {
                0int
            }),
    {
        match expr {
            Expr::Membership { value, collection } => {
                let left: SqlExpression = self.translate_expression_to_sql(value)?;
                let right: SqlExpression = self.translate_expression_to_sql(collection)?;
                match right {
                    SqlExpression::Array(_) => Ok(
                        SqlExpression::binary(SqlBinaryOp::In, left, right),
                    ),
                    _ => reject(Fault::InRightSide),
                }
            },
            Expr::BoolExpr { op, lhs, rhs } => {
                let left: SqlExpression = self.translate_expression_to_sql(lhs)?;
                let json_text = match &left {
                    SqlExpression::Function { name, .. } => same_text(
                        name.as_str(),
                        "json_extract_text",
                    ),
                    _ => false,
                };
                // Text cannot be compared with a boolean, only with its name.
                let right: SqlExpression = match (json_text, &**rhs) {
                    (true, Expr::Bool { value: Value::Bool(b) }) => SqlExpression::string_literal(
                        if *b {
                            "true"
                        } else {
                            "false"
                        },
                    ),
                    _ => self.translate_expression_to_sql(rhs)?,
                };
                Ok(make_comparison(*op, left, right))
            },
            Expr::ArithExpr { op, lhs, rhs } => {
                let left: SqlExpression = self.translate_expression_to_sql(lhs)?;
                let right: SqlExpression = self.translate_expression_to_sql(rhs)?;
                Ok(
                    SqlExpression::binary(
                        translate_arith_op(*op),
                        parenthesize_if_lower_precedence(left, *op, true),
                        parenthesize_if_lower_precedence(right, *op, false),
                    ),
                )
            },
            Expr::BinExpr { op, lhs, rhs } => {
                let left: SqlExpression = self.translate_expression_to_sql(lhs)?;
                let right: SqlExpression = self.translate_expression_to_sql(rhs)?;
                Ok(SqlExpression::binary(translate_bin_op(*op), left, right))
            },
            Expr::Var { value } => {
                let name: String = string_value(value, Fault::VariableName)?;
                self.translate_variable(name.as_str())
            },
            Expr::RefDot { .. } => self.translate_refdot_chain(expr),
            Expr::String { value } => {
                let s: String = string_value(value, Fault::StringValue)?;
                Ok(SqlExpression::Literal(SqlLiteral::String(s)))
            },
            Expr::Number { value } => match value {
                Value::Number(n) => Ok(SqlExpression::Literal(translate_number(n))),
                _ => reject(Fault::NumberValue),
            },
            Expr::Bool { value } => match value {
                Value::Bool(b) => Ok(SqlExpression::bool_literal(*b)),
                _ => reject(Fault::BooleanValue),
            },
            Expr::Null => Ok(SqlExpression::null_literal()),
            Expr::UnaryExpr { expr: inner } => {
                let operand: SqlExpression = self.translate_expression_to_sql(inner)?;
                Ok(SqlExpression::Unary { op: SqlUnaryOp::Negate, operand: Box::new(operand) })
            },
            Expr::Call { fcn, params } => {
                let name: String = extract_function_name(fcn)?;
                let args: Vec<SqlExpression> = self.translate_expressions(params)?;
                self.translate_call(name.as_str(), args)
            },
            Expr::RefBrack { refr, index } => {
                if let Some(path) = extract_input_path(expr)? {
                    return self.resolve_input_path(&path);
                }
                let array: SqlExpression = self.translate_expression_to_sql(refr)?;
                let position: SqlExpression = self.translate_expression_to_sql(index)?;
                let sql_index: SqlExpression = shift_index(position)?;
                Ok(
                    SqlExpression::ArrayIndex {
                        expr: Box::new(array),
                        index: Box::new(sql_index),
                    },
                )
            },
            Expr::Array { items } => {
                let list: Vec<SqlExpression> = self.translate_expressions(items)?;
                Ok(SqlExpression::Array(list))
            },
            Expr::SetExpr { items } => {
                let list: Vec<SqlExpression> = self.translate_expressions(items)?;
                Ok(SqlExpression::Array(list))
            },
            Expr::Object { .. } => reject(Fault::ObjectLiteral),
            _ => Err(TranslateError::Unsupported(write_expr(expr))),
        }
    }

    /// Translates a list of expressions, up to the first that cannot be.
    fn translate_expressions(&self, items: &Vec<Expr>) -> (r: Result<
        Vec<SqlExpression>,
        TranslateError,
    >)
        ensures
            match (r, self@.expressions(items@)) {
                (Ok(list), Ok(model)) => expr_models(list@) == model,
                (Err(error), Err(reason)) => error@ == reason,
                _ => false,
            },
        decreases items, 0int,
    {
        let mut list: Vec<SqlExpression> = Vec::new();
        proof {
            assert(expr_models(list@) =~= Seq::empty());
        }
        for i in 0..items.len()
            invariant
                self@.expressions(items@.take(i as int)) == Ok::<Seq<ExprModel>, ErrorModel>(
                    expr_models(list@),
                ),
        {
            let ghost before = expr_models(list@);
            proof {
                assert(items@.take(i + 1).drop_last() =~= items@.take(i as int));
            }
            match self.translate_expression_to_sql(&items[i]) {
                Ok(e) => {
                    list.push(e);
                    proof {
                        assert(expr_models(list@) =~= before.push(e@));
                    }
                },
                Err(error) => {
                    proof {
                        self@.lemma_first_failure(items@, i + 1);
                    }
                    return Err(error);
                },
            }
        }
        proof {
            assert(items@.take(items@.len() as int) =~= items@);
        }
        Ok(list)
    }

    /// Whether an expression is a column that holds an array.
    fn is_array_column(&self, expr: &SqlExpression) -> (r: bool)
        ensures
            r == self@.is_array(expr@),
    {
        match expr {
            SqlExpression::Column(name) => {
                let column: String = last_segment(name.as_str(), '.');
                match self.array_columns.get(column.as_str()) {
                    Some(_) => true,
                    None => false,
                }
            },
            _ => false,
        }
    }

    /// Translates a call.
    fn translate_call(&self, name: &str, args: Vec<SqlExpression>) -> (r: Result<
        SqlExpression,
        TranslateError,
    >)
        ensures
            expr_outcome(r) == self@.function_call(name@, expr_models(args@)),
    {
        let ghost models = expr_models(args@);
        let mut args: Vec<SqlExpression> = args;
        if args.len() == 1 {
            let x: SqlExpression = args.remove(0);
            let x_is_array = self.is_array_column(&x);
            proof {
                assert(models =~= seq![x@]);
            }
            Ok(translate_unary_call(name, x, x_is_array))
        } else if args.len() == 2 {
            let x: SqlExpression = args.remove(0);
            let y: SqlExpression = args.remove(0);
            proof {
                assert(models =~= seq![x@, y@]);
            }
            Ok(translate_binary_call(name, x, y))
        } else if args.len() == 3 && same_text(name, "array.slice") {
            let array: SqlExpression = args.remove(0);
            let start: SqlExpression = args.remove(0);
            let end: SqlExpression = args.remove(0);
            let last: SqlExpression = make_inclusive(end)?;
            Ok(call3("ARRAY_SLICE", array, start, last))
        } else {
            Ok(SqlExpression::function(translate_function_name(name).as_str(), args))
        }
    }
}

/// The value at a path of JSON keys.
fn make_json_path(base: SqlExpression, keys: &Vec<String>) -> (r: SqlExpression)
    ensures
        r@ == json_path(base@, texts(keys@)),
{
    if keys.len() == 0 {
        return base;
    }
    let ghost names = texts(keys@);
    let ghost start = base@;
    let mut result: SqlExpression = base;
    let last: usize = keys.len() - 1;
    for i in 0..last
        invariant
            names == texts(keys@),
            last == keys@.len() - 1,
            result@ == json_extracted(start, names.take(i as int)),
    {
        proof {
            assert(names.take(i + 1).drop_last() =~= names.take(i as int));
        }
        result = call2("json_extract", result, SqlExpression::string_literal(keys[i].as_str()));
    }
    proof {
        assert(names.drop_last() =~= names.take(last as int));
    }
    call2("json_extract_text", result, SqlExpression::string_literal(keys[last].as_str()))
}

/// Whether a body ranges over a table.
fn ranges_over_table(stmts: &Vec<LiteralStmt>) -> (r: bool)
    ensures
        r == has_some_in(stmts@),
{
    for i in 0..stmts.len()
        invariant
            forall|j: int| 0 <= j < i ==> !(#[trigger] stmts@[j].literal is SomeIn),
    {
        if let Literal::SomeIn { .. } = &stmts[i].literal {
            proof {
                assert(stmts@[i as int].literal is SomeIn);
            }
            return true;
        }
    }
    false
}

/// Checks that a rule has the form that can be translated: it is of the form
/// `rule contains var if { ... }` and ranges over a table.
pub fn validate_rule_pattern(head: RuleHead, bodies: &Vec<RuleBody>) -> (r: Result<
    (),
    TranslateError,
>)
    ensures
        unit_outcome(r) == rule_pattern(head, bodies@),
{
    if head != RuleHead::PartialSet {
        return reject(Fault::RulePattern);
    }
    for i in 0..bodies.len()
        invariant
            head == RuleHead::PartialSet,
            forall|j: int| 0 <= j < i ==> !has_some_in(#[trigger] bodies@[j].query.stmts@),
    {
        if ranges_over_table(&bodies[i].query.stmts) {
            proof {
                assert(has_some_in(bodies@[i as int].query.stmts@));
            }
            return Ok(());
        }
    }
    reject(Fault::NoTable)
}

/// Wraps an expression that is no predicate in a test that it is not null.
pub fn make_condition(expr: SqlExpression) -> (r: SqlExpression)
    ensures
        r@ == condition(expr@),
{
    if is_boolean_expression(&expr) {
        expr
    } else {
        SqlExpression::binary(SqlBinaryOp::IsNotNull, expr, SqlExpression::null_literal())
    }
}

/// A projected column. The alias is left out where the column has the name of
/// the field already.
pub fn make_projection(field: String, expr: SqlExpression) -> (r: SqlColumn)
    ensures
        r.model() == projected(field@, expr@),
{
    let named_already = match &expr {
        SqlExpression::Column(column) => {
            let last: String = last_segment(column.as_str(), '.');
            same_text(last.as_str(), field.as_str())
        },
        _ => false,
    };
    let alias: Option<String> = if named_already {
        None
    } else {
        Some(field.clone())
    };
    SqlColumn { name: field, expression: expr, alias }
}

impl RegoToSqlIrTranslator {
    /// Translates a field of an object into a projected column.
    fn translate_field(&self, field: &(Expr, Expr)) -> (r: Result<SqlColumn, TranslateError>)
        ensures
            match (r, self@.field_column(*field)) {
                (Ok(column), Ok(model)) => column.model() == model,
                (Err(error), Err(reason)) => error@ == reason,
                _ => false,
            },
    {
        let name: String = match &field.0 {
            Expr::String { value } => string_value(value, Fault::ProjectionName)?,
            _ => {
                return reject(Fault::ProjectionKey);
            },
        };
        let expr: SqlExpression = self.translate_expression_to_sql(&field.1)?;
        Ok(make_projection(name, expr))
    }

    /// Appends the columns that an assigned value projects, up to the first field
    /// that cannot be translated.
    pub fn process_assignment_value(&self, rhs: &Expr, projections: &mut Vec<SqlColumn>) -> (r: Result<
        (),
        TranslateError,
    >)
        ensures
            column_models(final(projections)@) == column_models(old(projections)@)
                + self@.value_columns_added(*rhs),
            match (r, self@.value_columns(*rhs)) {
                (Ok(()), Ok(more)) => self@.value_columns_added(*rhs) == more,
                (Err(error), Err(reason)) => error@ == reason,
                _ => false,
            },
    {
        let ghost start = column_models(projections@);
        match rhs {
            Expr::Object { fields } => {
                let ghost mut added: Seq<ColumnModel> = Seq::empty();
                proof {
                    assert(start + added =~= start);
                }
                for i in 0..fields.len()
                    invariant
                        *rhs matches Expr::Object { fields: all } && all == fields,
                        self@.field_columns(fields@.take(i as int)) == Ok::<
                            Seq<ColumnModel>,
                            ErrorModel,
                        >(added),
                        self@.field_columns_added(fields@.take(i as int)) == added,
                        column_models(projections@) == start + added,
                        start == column_models(old(projections)@),
                {
                    let ghost before = column_models(projections@);
                    proof {
                        assert(fields@.take(i + 1).drop_last() =~= fields@.take(i as int));
                    }
                    match self.translate_field(&fields[i]) {
                        Ok(column) => {
                            projections.push(column);
                            proof {
                                assert(column_models(projections@) =~= before.push(column.model()));
                                assert(before.push(column.model()) =~= start + added.push(
                                    column.model(),
                                ));
                                added = added.push(column.model());
                            }
                        },
                        Err(error) => {
                            proof {
                                self@.lemma_first_field_failure(fields@, i + 1);
                                self@.lemma_no_columns_after_failure(fields@, i + 1);
                            }
                            return Err(error);
                        },
                    }
                }
                proof {
                    assert(fields@.take(fields@.len() as int) =~= fields@);
                }
                Ok(())
            },
            _ => {
                proof {
                    assert(start + Seq::<ColumnModel>::empty() =~= start);
                }
                Ok(())
            },
        }
    }

    /// Adds a condition.
    fn push_condition(&mut self, cond: SqlExpression)
        ensures
            final(self)@ == old(self)@.with_condition(cond@),
    {
        let ghost before = self@;
        self.conditions.push(cond);
        proof {
            assert(self@.conditions =~= before.conditions.push(cond@));
        }
    }

    /// Lets a variable stand for an expression.
    fn assign_variable(&mut self, name: String, expr: SqlExpression)
        ensures
            final(self)@ == (TranslatorModel {
                variable_assignments: old(self)@.variable_assignments.insert(name@, expr@),
                ..old(self)@
            }),
    {
        let ghost before = self@;
        self.variable_assignments.insert(name, expr);
        proof {
            assert(self@.variable_assignments =~= before.variable_assignments.insert(
                name@,
                expr@,
            ));
        }
    }

    /// Processes a statement: collects its condition, its assigned variable or
    /// the columns that it projects.
    pub fn process_statement(
        &mut self,
        stmt: &LiteralStmt,
        projections: &mut Vec<SqlColumn>,
    ) -> (r: Result<(), TranslateError>)
        ensures
            column_models(final(projections)@) == column_models(old(projections)@)
                + old(self)@.columns_added(stmt.literal),
            match (r, old(self)@.statement(stmt.literal)) {
                (Ok(()), Ok(step)) => final(self)@ == step.0 && old(self)@.columns_added(
                    stmt.literal,
                ) == step.1,
                (Err(error), Err(reason)) => error@ == reason && final(self)@ == old(self)@,
                _ => false,
            },
    {
        proof {
            let start = column_models(projections@);
            assert(start + Seq::<ColumnModel>::empty() =~= start);
        }
        match &stmt.literal {
            Literal::SomeIn { .. } => Ok(()),
            Literal::SomeVars => Ok(()),
            Literal::Every => reject(Fault::Every),
            Literal::Expr { expr } => match expr {
                Expr::AssignExpr { lhs, rhs } => {
                    self.process_assignment_value(rhs, projections)?;
                    if let Expr::Object { .. } = &**rhs {
                        return Ok(());
                    }
                    if let Expr::Var { value } = &**lhs {
                        let name: String = string_value(value, Fault::VariableName)?;
                        let value_expr: SqlExpression = self.translate_expression_to_sql(rhs)?;
                        self.assign_variable(name, value_expr);
                    }
                    Ok(())
                },
                _ => {
                    let sql_expr: SqlExpression = self.translate_expression_to_sql(expr)?;
                    self.push_condition(make_condition(sql_expr));
                    Ok(())
                },
            },
            Literal::NotExpr { expr } => {
                let inner: SqlExpression = self.translate_expression_to_sql(expr)?;
                self.push_condition(
                    SqlExpression::Unary { op: SqlUnaryOp::Not, operand: Box::new(inner) },
                );
                Ok(())
            },
        }
    }

    /// Processes the statements of a body, up to the first that fails, and gives
    /// the columns that they project.
    fn process_statements(&mut self, stmts: &Vec<LiteralStmt>) -> (r: Result<
        Vec<SqlColumn>,
        TranslateError,
    >)
        ensures
            final(self)@ == old(self)@.statements(stmts@).0,
            match (r, old(self)@.statements(stmts@).1) {
                (Ok(columns), Ok(models)) => column_models(columns@) == models,
                (Err(error), Err(reason)) => error@ == reason,
                _ => false,
            },
    {
        let ghost start = self@;
        let mut projections: Vec<SqlColumn> = Vec::new();
        proof {
            assert(column_models(projections@) =~= Seq::empty());
        }
        for i in 0..stmts.len()
            invariant
                start == old(self)@,
                start.statements(stmts@.take(i as int)) == (
                    self@,
                    Ok::<Seq<ColumnModel>, ErrorModel>(column_models(projections@)),
                ),
        {
            proof {
                assert(stmts@.take(i + 1).drop_last() =~= stmts@.take(i as int));
            }
            match self.process_statement(&stmts[i], &mut projections) {
                Ok(()) => {},
                Err(error) => {
                    proof {
                        start.lemma_first_statement_failure(stmts@, i + 1);
                    }
                    return Err(error);
                },
            }
        }
        proof {
            assert(stmts@.take(stmts@.len() as int) =~= stmts@);
        }
        Ok(projections)
    }

    /// Notes the table that a statement ranges over, if it does.
    fn note_table(&mut self, literal: &Literal) -> (r: Result<(), TranslateError>)
        ensures
            match (r, old(self)@.table_statement(*literal)) {
                (Ok(()), Ok(next)) => final(self)@ == next,
                (Err(error), Err(reason)) => error@ == reason && final(self)@ == old(self)@,
                _ => false,
            },
    {
        if let Literal::SomeIn { value, collection } = literal {
            let var_name: String = extract_var_name(value)?;
            let table: String = extract_table_name(collection)?;
            let ghost before = self@;
            self.table_variables.push(var_name.clone());
            self.variables.push(var_name.clone());
            self.tables_seen.push((table, var_name));
            proof {
                assert(self@.table_variables =~= before.table_variables.push(var_name@));
                assert(self@.variables =~= before.variables.push(var_name@));
                assert(self@.tables_seen =~= before.tables_seen.push((table@, var_name@)));
            }
        }
        Ok(())
    }

    /// Finds the tables of a body, before any expression is translated, so that
    /// a condition that stands before the statement of its second table still
    /// names the columns of both.
    fn scan_tables(&mut self, stmts: &Vec<LiteralStmt>) -> (r: Result<(), TranslateError>)
        ensures
            (final(self)@, unit_outcome(r)) == old(self)@.tables_found(stmts@),
    {
        let ghost start = self@;
        for i in 0..stmts.len()
            invariant
                start == old(self)@,
                start.tables_found(stmts@.take(i as int)) == (self@, Ok::<(), ErrorModel>(())),
        {
            proof {
                assert(stmts@.take(i + 1).drop_last() =~= stmts@.take(i as int));
            }
            match self.note_table(&stmts[i].literal) {
                Ok(()) => {},
                Err(error) => {
                    proof {
                        start.lemma_first_table_failure(stmts@, i + 1);
                    }
                    return Err(error);
                },
            }
        }
        proof {
            assert(stmts@.take(stmts@.len() as int) =~= stmts@);
        }
        Ok(())
    }

    /// Finds the columns that a body indexes by a number.
    fn scan_array_columns(&mut self, body: &RuleBody)
        ensures
            final(self)@ == (TranslatorModel {
                array_columns: indexed_columns_of_body(*body),
                ..old(self)@
            }),
    {
        let stmts = &body.query.stmts;
        let mut columns: StringMap<()> = StringMap::new();
        proof {
            assert(columns@.dom() =~= Set::empty());
        }
        for i in 0..stmts.len()
            invariant
                columns@.dom() == indexed_columns_of_statements(stmts@.take(i as int)),
        {
            proof {
                assert(stmts@.take(i + 1).drop_last() =~= stmts@.take(i as int));
            }
            match &stmts[i].literal {
                Literal::Expr { expr } => collect_array_columns_in_expr(expr, &mut columns),
                Literal::NotExpr { expr } => collect_array_columns_in_expr(expr, &mut columns),
                _ => {},
            }
        }
        proof {
            assert(stmts@.take(stmts@.len() as int) =~= stmts@);
        }
        if let Some(assign) = &body.assign {
            collect_array_columns_in_expr(&assign.value, &mut columns);
        }
        proof {
            assert(columns@.dom() =~= indexed_columns_of_body(*body));
        }
        self.array_columns = columns;
    }

    /// Forgets the last rule.
    fn reset(&mut self)
        ensures
            final(self)@ == TranslatorModel::initial(
                old(self)@.default_table,
                old(self)@.input_bindings,
            ),
    {
        self.tables_seen.clear();
        self.conditions.clear();
        self.table_variables.clear();
        self.variables.clear();
        self.variable_assignments.clear();
        self.array_columns.clear();
        proof {
            assert(self@ =~= TranslatorModel::initial(
                old(self)@.default_table,
                old(self)@.input_bindings,
            ));
        }
    }

    /// The table to select from: the first that the rule names, or the default.
    fn find_source(&self) -> (r: Result<String, TranslateError>)
        ensures
            text_outcome(r) == self@.source(),
    {
        let ghost pairs = name_pairs(self.tables_seen@);
        let mut source: String = String::new();
        for i in 0..self.tables_seen.len()
            invariant
                pairs == name_pairs(self.tables_seen@),
                source@ == first_table(pairs.take(i as int)),
        {
            proof {
                assert(pairs.take(i + 1).drop_last() =~= pairs.take(i as int));
            }
            if is_empty(source.as_str()) {
                source = self.tables_seen[i].0.clone();
            }
        }
        proof {
            assert(pairs.take(pairs.len() as int) =~= pairs);
        }
        if is_empty(source.as_str()) {
            match &self.default_table {
                Some(table) => Ok(table.clone()),
                None => reject(Fault::NoSource),
            }
        } else {
            Ok(source)
        }
    }

    /// The short names of the tables.
    fn table_aliases(&self) -> (r: Vec<String>)
        ensures
            r@.len() == self.tables_seen@.len(),
            texts(r@) == aliases_of(self@.tables_seen),
    {
        let mut aliases: Vec<String> = Vec::new();
        for i in 0..self.tables_seen.len()
            invariant
                aliases@.len() == i,
                forall|j: int|
                    0 <= j < i ==> (#[trigger] aliases@[j])@ == alias_of(self.tables_seen@[j].1@),
        {
            aliases.push(derive_alias(self.tables_seen[i].1.as_str()));
        }
        proof {
            assert(texts(aliases@) =~= aliases_of(self@.tables_seen));
        }
        aliases
    }

    /// Translates a body: its tables are found first, its array columns next,
    /// and only then its statements and its assigned value are translated.
    fn translate_body(&mut self, body: &RuleBody) -> (r: Result<SqlQuery, TranslateError>)
        ensures
            (final(self)@, query_outcome(r)) == old(self)@.body(*body),
    {
        self.scan_tables(&body.query.stmts)?;
        self.scan_array_columns(body);
        let mut projections: Vec<SqlColumn> = self.process_statements(&body.query.stmts)?;
        if let Some(assign) = &body.assign {
            self.process_assignment_value(&assign.value, &mut projections)?;
        }
        let source: String = self.find_source()?;
        let aliases: Vec<String> = self.table_aliases();
        Ok(
            assemble_query(
                &self.tables_seen,
                &aliases,
                &self.conditions,
                source.as_str(),
                projections,
            ),
        )
    }

    /// Translates the bodies of a rule. A rule has to have one body.
    pub fn translate_rule_spec(&mut self, bodies: &Vec<RuleBody>) -> (r: Result<
        SqlQuery,
        TranslateError,
    >)
        ensures
            (final(self)@, query_outcome(r)) == old(self)@.bodies(bodies@),
    {
        self.reset();
        if bodies.len() != 1 {
            return reject(Fault::BodyCount);
        }
        self.translate_body(&bodies[0])
    }

    /// Translates a rule. What the translator has found out about an earlier
    /// rule has no bearing on it.
    pub fn translate_rule(&mut self, rule: &Rule) -> (r: Result<SqlQuery, TranslateError>)
        ensures
            (final(self)@, query_outcome(r)) == old(self)@.rule(*rule),
    {
        match rule {
            Rule::Spec { head, bodies } => {
                validate_rule_pattern(*head, bodies)?;
                self.translate_rule_spec(bodies)
            },
            Rule::Default => reject(Fault::DefaultRule),
        }
    }
}

impl Default for RegoToSqlIrTranslator {
    fn default() -> (r: Self)
        ensures
            r@ == TranslatorModel::initial(None, Map::empty()),
    {
        RegoToSqlIrTranslator::new(None)
    }
}

} // verus!
