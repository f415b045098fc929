//! Abstract syntax of the Rego rules that can be translated.
//!
//! The tree holds what the translation looks at. Source positions, `with`
//! modifiers, the heads of rules and the insides of comprehensions, `every`
//! statements and default rules have no bearing on it and are not held.

use crate::floats::FloatText;
use vstd::prelude::*;

verus! {

/// A number as written in a rule.
#[derive(Debug)]
pub enum Number {
    /// An unsigned integer
    UInt(u64),
    /// A signed integer
    Int(i64),
    /// A floating-point number
    Float(FloatText),
    /// A number of any other size or precision
    Big(BigNumber),
}

/// What is known of a number that is held in none of the machine formats.
#[derive(Debug)]
pub struct BigNumber {
    /// Whether the number is an integer
    pub integral: bool,
    /// The number as a signed integer, where it fits
    pub as_i64: Option<i64>,
    /// The number as a floating-point number, where it can be held as one
    pub as_f64: Option<FloatText>,
}

/// A scalar value as written in a rule.
#[derive(Debug)]
pub enum Value {
    Null,
    Bool(bool),
    Number(Number),
    String(String),
    /// A value of any other type
    Other,
}

/// Comparison operator.
#[derive(Debug, Clone, Copy, PartialEq, Eq, Structural)]
pub enum BoolOp {
    Lt,
    Le,
    Eq,
    Ge,
    Gt,
    Ne,
}

/// Arithmetic operator.
#[derive(Debug, Clone, Copy, PartialEq, Eq, Structural)]
pub enum ArithOp {
    Add,
    Sub,
    Mul,
    Div,
    Mod,
}

/// Set operator.
#[derive(Debug, Clone, Copy, PartialEq, Eq, Structural)]
pub enum BinOp {
    Intersection,
    Union,
}

/// Expression.
#[derive(Debug)]
#[allow(inconsistent_fields)]
pub enum Expr {
    /// `"text"`
    String { value: Value },
    /// A string between backquotes
    RawString { value: Value },
    /// A number
    Number { value: Value },
    /// `true` or `false`
    Bool { value: Value },
    /// `null`
    Null,
    /// A variable
    Var { value: Value },
    /// `[a, b]`
    Array { items: Vec<Expr> },
    /// `{a, b}`
    SetExpr { items: Vec<Expr> },
    /// `{k: v}`, as pairs of key and value
    Object { fields: Vec<(Expr, Expr)> },
    /// An array comprehension
    ArrayCompr,
    /// A set comprehension
    SetCompr,
    /// An object comprehension
    ObjectCompr,
    /// `fcn(params)`
    Call { fcn: Box<Expr>, params: Vec<Expr> },
    /// `-expr`
    UnaryExpr { expr: Box<Expr> },
    /// `refr.field`
    RefDot { refr: Box<Expr>, field: Value },
    /// `refr[index]`
    RefBrack { refr: Box<Expr>, index: Box<Expr> },
    /// `lhs & rhs` or `lhs | rhs`
    BinExpr { op: BinOp, lhs: Box<Expr>, rhs: Box<Expr> },
    /// A comparison
    BoolExpr { op: BoolOp, lhs: Box<Expr>, rhs: Box<Expr> },
    /// An arithmetic operation
    ArithExpr { op: ArithOp, lhs: Box<Expr>, rhs: Box<Expr> },
    /// `lhs := rhs` or `lhs = rhs`
    AssignExpr { lhs: Box<Expr>, rhs: Box<Expr> },
    /// `value in collection`
    Membership { value: Box<Expr>, collection: Box<Expr> },
    /// `lhs or rhs`
    OrExpr,
}

/// Statement of a rule body.
#[derive(Debug)]
pub enum Literal {
    /// `some x, y`
    SomeVars,
    /// `some value in collection`
    SomeIn { value: Expr, collection: Expr },
    /// An expression that has to hold
    Expr { expr: Expr },
    /// `not expr`
    NotExpr { expr: Expr },
    /// `every x in xs { ... }`
    Every,
}

/// Statement.
#[derive(Debug)]
pub struct LiteralStmt {
    pub literal: Literal,
}

/// Statements of a rule body.
#[derive(Debug)]
pub struct Query {
    pub stmts: Vec<LiteralStmt>,
}

/// Value that a rule body assigns.
#[derive(Debug)]
pub struct RuleAssign {
    pub value: Expr,
}

/// Body of a rule.
#[derive(Debug)]
pub struct RuleBody {
    pub assign: Option<RuleAssign>,
    pub query: Query,
}

/// Head of a rule.
#[derive(Debug, Clone, Copy, PartialEq, Eq, Structural)]
pub enum RuleHead {
    /// `rule := value`
    Compr,
    /// `rule contains value`
    PartialSet,
    /// `rule(args) := value`
    Func,
}

/// Rule.
#[derive(Debug)]
pub enum Rule {
    Spec { head: RuleHead, bodies: Vec<RuleBody> },
    Default,
}

impl Number {
    /// Whether the number is an integer. A floating-point number is not asked.
    pub open spec fn integral(self) -> bool {
        match self {
            Number::Big(big) => big.integral,
            Number::Float(_) => false,
            _ => true,
        }
    }

    /// The number as a signed integer, where it fits.
    pub open spec fn signed(self) -> Option<i64> {
        match self {
            Number::UInt(n) => if n <= i64::MAX {
                Some(n as i64)
            } else {
                None
            },
            Number::Int(n) => Some(n),
            Number::Big(big) => big.as_i64,
            Number::Float(_) => None,
        }
    }
}

} // verus!
