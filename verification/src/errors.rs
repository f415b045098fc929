//! Reasons why a rule cannot be translated.

use crate::text::{cat2, cat3};
use vstd::prelude::*;

verus! {

/// A reason that needs no further words.
#[derive(Debug, Clone, Copy, PartialEq, Eq, Structural)]
pub enum Fault {
    /// A default rule
    DefaultRule,
    /// A rule without a `some var in table` statement
    NoTable,
    /// A rule that is not of the form `rule contains var if { ... }`
    RulePattern,
    /// A rule with more than one body
    BodyCount,
    /// A rule that names no table, with no default table
    NoSource,
    /// A field name that is no string
    FieldName,
    /// A variable whose name is no string
    VariableName,
    /// A key of `input` that is no string
    InputFieldName,
    /// An index into `input` that is no string literal
    InputIndex,
    /// `input` itself, without a bound value
    InputNotBound,
    /// A function whose name is no string
    FunctionName,
    /// A namespaced function whose name is no string
    FunctionField,
    /// A function that is not named by an identifier
    FunctionForm,
    /// A join condition that is no equality
    JoinCondition,
    /// An `every` statement
    Every,
    /// A projected field whose name is no string
    ProjectionName,
    /// A projected field that is not named by a literal
    ProjectionKey,
    /// A collection that is not of the form `data.table_name`
    Collection,
    /// A membership test in something that is no array or set
    InRightSide,
    /// A string literal without a string
    StringValue,
    /// A number literal without a number
    NumberValue,
    /// A boolean literal without a boolean
    BooleanValue,
    /// An object literal inside an expression
    ObjectLiteral,
    /// A position that no 64-bit integer can hold once it is shifted
    IndexRange,
}

/// Reason why a rule cannot be translated.
#[derive(Debug, PartialEq)]
pub enum TranslateError {
    /// No value is bound to this path under `input`
    MissingInputBinding(String),
    /// This expression stands where a variable is expected
    ExpectedVariable(String),
    /// This expression is of a form that has no translation
    Unsupported(String),
    /// Any other reason
    Rejected(Fault),
}

/// Model of [`TranslateError`].
pub enum ErrorModel {
    MissingInputBinding(Seq<char>),
    ExpectedVariable(Seq<char>),
    Unsupported(Seq<char>),
    Rejected(Fault),
}

impl View for TranslateError {
    type V = ErrorModel;

    open spec fn view(&self) -> ErrorModel {
        match self {
            TranslateError::MissingInputBinding(path) => ErrorModel::MissingInputBinding(path@),
            TranslateError::ExpectedVariable(expr) => ErrorModel::ExpectedVariable(expr@),
            TranslateError::Unsupported(expr) => ErrorModel::Unsupported(expr@),
            TranslateError::Rejected(fault) => ErrorModel::Rejected(*fault),
        }
    }
}

/// The failure with a given fault.
pub(crate) fn reject<T>(fault: Fault) -> (r: Result<T, TranslateError>)
    ensures
        r == Err::<T, TranslateError>(TranslateError::Rejected(fault)),
{
    Err(TranslateError::Rejected(fault))
}

/// The words of a fault.
pub open spec fn fault_text(fault: Fault) -> Seq<char> {
    match fault {
        Fault::DefaultRule => "Default rules not supported in SQL translation"@,
        Fault::NoTable => "SQL translation requires at least one 'some var in table' statement"@,
        Fault::RulePattern => "Only 'rule_name contains var if { ... }' rule patterns are supported for SQL translation"@,
        Fault::BodyCount => "Only single-body rules are supported for SQL translation"@,
        Fault::NoSource => "No table found in rule and no default table specified"@,
        Fault::FieldName => "Field name must be a string"@,
        Fault::VariableName => "Invalid variable name"@,
        Fault::InputFieldName => "Invalid input field name"@,
        Fault::InputIndex => "input indexing requires a string literal key"@,
        Fault::InputNotBound => "global `input` is not supported directly; bind a specific input path"@,
        Fault::FunctionName => "Invalid function name"@,
        Fault::FunctionField => "Function field name must be a string"@,
        Fault::FunctionForm => "Function name must be a simple identifier"@,
        Fault::JoinCondition => "Only equality conditions are supported for JOINs"@,
        Fault::Every => "'every' statements are not supported in SQL translation"@,
        Fault::ProjectionName => "Invalid field name"@,
        Fault::ProjectionKey => "Projection field name must be a string literal"@,
        Fault::Collection => "Collection must be of the form 'data.table_name'"@,
        Fault::InRightSide => "IN operation requires an array/set on the right side"@,
        Fault::StringValue => "Invalid string value"@,
        Fault::NumberValue => "Invalid number value"@,
        Fault::BooleanValue => "Invalid boolean value"@,
        Fault::ObjectLiteral => "Object literals in expressions are not yet supported for SQL translation"@,
        Fault::IndexRange => "Array position out of range"@,
    }
}

/// The message of an error.
pub open spec fn error_text(error: ErrorModel) -> Seq<char> {
    match error {
        ErrorModel::MissingInputBinding(path) => "missing SQL input binding for `input."@ + path
            + "`"@,
        ErrorModel::ExpectedVariable(expr) => "Expected variable name, got "@ + expr,
        ErrorModel::Unsupported(expr) => "Unsupported expression type: "@ + expr,
        ErrorModel::Rejected(fault) => fault_text(fault),
    }
}

fn write_fault(fault: Fault) -> (r: String)
    ensures
        r@ == fault_text(fault),
{
    match fault {
        Fault::DefaultRule => "Default rules not supported in SQL translation".to_string(),
        Fault::NoTable => "SQL translation requires at least one 'some var in table' statement".to_string(),
        Fault::RulePattern => "Only 'rule_name contains var if { ... }' rule patterns are supported for SQL translation".to_string(),
        Fault::BodyCount => "Only single-body rules are supported for SQL translation".to_string(),
        Fault::NoSource => "No table found in rule and no default table specified".to_string(),
        Fault::FieldName => "Field name must be a string".to_string(),
        Fault::VariableName => "Invalid variable name".to_string(),
        Fault::InputFieldName => "Invalid input field name".to_string(),
        Fault::InputIndex => "input indexing requires a string literal key".to_string(),
        Fault::InputNotBound => "global `input` is not supported directly; bind a specific input path".to_string(),
        Fault::FunctionName => "Invalid function name".to_string(),
        Fault::FunctionField => "Function field name must be a string".to_string(),
        Fault::FunctionForm => "Function name must be a simple identifier".to_string(),
        Fault::JoinCondition => "Only equality conditions are supported for JOINs".to_string(),
        Fault::Every => "'every' statements are not supported in SQL translation".to_string(),
        Fault::ProjectionName => "Invalid field name".to_string(),
        Fault::ProjectionKey => "Projection field name must be a string literal".to_string(),
        Fault::Collection => "Collection must be of the form 'data.table_name'".to_string(),
        Fault::InRightSide => "IN operation requires an array/set on the right side".to_string(),
        Fault::StringValue => "Invalid string value".to_string(),
        Fault::NumberValue => "Invalid number value".to_string(),
        Fault::BooleanValue => "Invalid boolean value".to_string(),
        Fault::ObjectLiteral => "Object literals in expressions are not yet supported for SQL translation".to_string(),
        Fault::IndexRange => "Array position out of range".to_string(),
    }
}

impl TranslateError {
    /// The message of the error.
    pub fn message(&self) -> (r: String)
        ensures
            r@ == error_text(self@),
    {
        match self {
            TranslateError::MissingInputBinding(path) => cat3(
                "missing SQL input binding for `input.",
                path.as_str(),
                "`",
            ),
            TranslateError::ExpectedVariable(expr) => cat2(
                "Expected variable name, got ",
                expr.as_str(),
            ),
            TranslateError::Unsupported(expr) => cat2(
                "Unsupported expression type: ",
                expr.as_str(),
            ),
            TranslateError::Rejected(fault) => write_fault(*fault),
        }
    }
}

} // verus!
