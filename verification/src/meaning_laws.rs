//! Laws of meaning: what a Rego expression asks for is what its SQL expression
//! asks for.
//!
//! A [`World`] gives SQL expressions a value: it says what the columns of a row and
//! the host variables hold, in which order values stand, how they are added and so
//! on. Each law holds in every world. It takes the values of the parts of a Rego
//! expression as they come, and says which value the whole has.

use crate::ast::{ArithOp, BinOp, BoolOp, Expr, Literal, LiteralStmt, Value};
use crate::errors::{ErrorModel, Fault};
use crate::model::{ColumnModel, ExprModel, LiteralModel};
use crate::sql_ir::{SqlBinaryOp, SqlDataType, SqlUnaryOp};
use crate::translation::{compared, inclusive_end, input_path, one_based, TranslatorModel};
use vstd::prelude::*;

verus! {

/// A way to give SQL expressions a value in one row.
#[verifier::reject_recursive_types(V)]
pub struct World<V> {
    /// What a column holds
    pub column: spec_fn(Seq<char>) -> V,
    /// What a host variable holds
    pub host: spec_fn(Seq<char>) -> V,
    /// The value of a literal
    pub constant: spec_fn(LiteralModel) -> V,
    /// Negative where the first value comes before the second, zero where they are
    /// equal, positive where it comes after
    pub order: spec_fn(V, V) -> int,
    pub sum: spec_fn(V, V) -> V,
    pub difference: spec_fn(V, V) -> V,
    pub product: spec_fn(V, V) -> V,
    pub quotient: spec_fn(V, V) -> V,
    pub remainder: spec_fn(V, V) -> V,
    pub negative: spec_fn(V) -> V,
    /// The value of a condition
    pub truth: spec_fn(bool) -> V,
    /// Whether a value passes as a condition
    pub holds: spec_fn(V) -> bool,
    pub is_null: spec_fn(V) -> bool,
    pub list: spec_fn(Seq<V>) -> V,
    /// The element of an array at a position, counted from 1
    pub element: spec_fn(V, V) -> V,
    pub cast: spec_fn(V, SqlDataType) -> V,
    /// One value behind the other
    pub chain: spec_fn(V, V) -> V,
    /// Whether a value matches a pattern with wildcards
    pub like: spec_fn(V, V) -> bool,
    /// Whether a value matches a regular expression
    pub regex: spec_fn(V, V) -> bool,
    /// The value of a function by its name
    pub apply: spec_fn(Seq<char>, Seq<V>) -> V,
    /// The value of any other expression
    pub other: spec_fn(ExprModel) -> V,
}

impl<V> World<V> {
    /// The value of a condition passes where the condition does.
    pub open spec fn tells_truth(self) -> bool {
        forall|b: bool| (self.holds)(#[trigger] (self.truth)(b)) == b
    }

    /// Whether equality goes both ways.
    pub open spec fn is_symmetric(self) -> bool {
        forall|a: V, b: V| (#[trigger] (self.order)(a, b)) == 0 ==> (self.order)(b, a) == 0
    }

    /// Whether adding one to an integer gives the next, and taking one away the one
    /// before.
    pub open spec fn counts(self) -> bool {
        &&& forall|n: i64|
            n < i64::MAX ==> #[trigger] (self.sum)(self.integer(n), self.integer(1))
                == self.integer((n + 1) as i64)
        &&& forall|n: i64|
            n > i64::MIN ==> #[trigger] (self.difference)(self.integer(n), self.integer(1))
                == self.integer((n - 1) as i64)
    }

    /// The value of an integer literal.
    pub open spec fn integer(self, n: i64) -> V {
        (self.constant)(LiteralModel::Integer(n))
    }

    /// The value of an expression.
    pub open spec fn value(self, e: ExprModel) -> V
        decreases e,
    {
        match e {
            ExprModel::Column(name) => (self.column)(name),
            ExprModel::Literal(literal) => (self.constant)(literal),
            ExprModel::InjectedVariable(name) => (self.host)(name),
            ExprModel::Parenthesized(inner) => self.value(*inner),
            ExprModel::Unary { op, operand } => match op {
                SqlUnaryOp::Not => (self.truth)(!(self.holds)(self.value(*operand))),
                SqlUnaryOp::Negate => (self.negative)(self.value(*operand)),
                SqlUnaryOp::Exists => (self.other)(e),
            },
            ExprModel::Binary { op, left, right } => {
                let l = self.value(*left);
                match op {
                    SqlBinaryOp::In => match *right {
                        ExprModel::Array(items) => (self.truth)(self.among(l, items)),
                        _ => (self.other)(e),
                    },
                    SqlBinaryOp::NotIn => match *right {
                        ExprModel::Array(items) => (self.truth)(!self.among(l, items)),
                        _ => (self.other)(e),
                    },
                    SqlBinaryOp::IsNull => (self.truth)((self.is_null)(l)),
                    SqlBinaryOp::IsNotNull => (self.truth)(!(self.is_null)(l)),
                    _ => self.combined(op, l, self.value(*right), e),
                }
            },
            ExprModel::Function { name, args } => (self.apply)(name, self.values(args)),
            ExprModel::Array(items) => (self.list)(self.values(items)),
            ExprModel::Cast { expression, target_type } => (self.cast)(
                self.value(*expression),
                target_type,
            ),
            ExprModel::ArrayIndex { expr, index } => (self.element)(
                self.value(*expr),
                self.value(*index),
            ),
            _ => (self.other)(e),
        }
    }

    /// The value of an operator between two values; `e` is the whole expression.
    pub open spec fn combined(self, op: SqlBinaryOp, l: V, r: V, e: ExprModel) -> V {
        let order = (self.order)(l, r);
        match op {
            SqlBinaryOp::Equal => (self.truth)(order == 0),
            SqlBinaryOp::NotEqual => (self.truth)(order != 0),
            SqlBinaryOp::LessThan => (self.truth)(order < 0),
            SqlBinaryOp::LessThanOrEqual => (self.truth)(order <= 0),
            SqlBinaryOp::GreaterThan => (self.truth)(order > 0),
            SqlBinaryOp::GreaterThanOrEqual => (self.truth)(order >= 0),
            SqlBinaryOp::Add => (self.sum)(l, r),
            SqlBinaryOp::Subtract => (self.difference)(l, r),
            SqlBinaryOp::Multiply => (self.product)(l, r),
            SqlBinaryOp::Divide => (self.quotient)(l, r),
            SqlBinaryOp::Modulo => (self.remainder)(l, r),
            SqlBinaryOp::And => (self.truth)((self.holds)(l) && (self.holds)(r)),
            SqlBinaryOp::Or => (self.truth)((self.holds)(l) || (self.holds)(r)),
            SqlBinaryOp::Like => (self.truth)((self.like)(l, r)),
            SqlBinaryOp::NotLike => (self.truth)(!(self.like)(l, r)),
            SqlBinaryOp::RegexMatch => (self.truth)((self.regex)(l, r)),
            SqlBinaryOp::Concat => (self.chain)(l, r),
            _ => (self.other)(e),
        }
    }

    /// The values of a sequence of expressions.
    pub open spec fn values(self, es: Seq<ExprModel>) -> Seq<V>
        decreases es,
    {
        if es.len() == 0 {
            Seq::empty()
        } else {
            self.values(es.drop_last()).push(self.value(es.last()))
        }
    }

    /// Whether a value equals that of one of the expressions.
    pub open spec fn among(self, v: V, es: Seq<ExprModel>) -> bool
        decreases es,
    {
        es.len() > 0 && (self.among(v, es.drop_last()) || (self.order)(v, self.value(es.last()))
            == 0)
    }

    /// Whether an expression passes as a condition.
    pub open spec fn passes(self, e: ExprModel) -> bool {
        (self.holds)(self.value(e))
    }

    /// The values of a sequence stand in its order.
    pub proof fn lemma_values(self, es: Seq<ExprModel>)
        ensures
            self.values(es).len() == es.len(),
            forall|i: int| 0 <= i < es.len() ==> #[trigger] self.values(es)[i] == self.value(es[i]),
        decreases es.len(),
    {
        if es.len() > 0 {
            self.lemma_values(es.drop_last());
            assert forall|i: int| 0 <= i < es.len() implies #[trigger] self.values(es)[i]
                == self.value(es[i]) by {
                if i < es.len() - 1 {
                    assert(self.values(es)[i] == self.values(es.drop_last())[i]);
                }
            }
        }
    }

    proof fn lemma_among(self, v: V, es: Seq<ExprModel>)
        ensures
            self.among(v, es) <==> exists|i: int|
                0 <= i < es.len() && (self.order)(v, self.value(#[trigger] es[i])) == 0,
        decreases es.len(),
    {
        if es.len() > 0 {
            let shorter = es.drop_last();
            self.lemma_among(v, shorter);
            if self.among(v, shorter) {
                let i = choose|i: int|
                    0 <= i < shorter.len() && (self.order)(v, self.value(#[trigger] shorter[i]))
                        == 0;
                assert(es[i] == shorter[i]);
            }
            if exists|i: int|
                0 <= i < es.len() && (self.order)(v, self.value(#[trigger] es[i])) == 0 {
                let i = choose|i: int|
                    0 <= i < es.len() && (self.order)(v, self.value(#[trigger] es[i])) == 0;
                if i < shorter.len() {
                    assert(shorter[i] == es[i]);
                }
            }
            assert(es[es.len() - 1] == es.last());
        }
    }
}

/// Whether a comparison of Rego holds between two values in that order.
pub open spec fn compares(op: BoolOp, order: int) -> bool {
    match op {
        BoolOp::Lt => order < 0,
        BoolOp::Le => order <= 0,
        BoolOp::Eq => order == 0,
        BoolOp::Ge => order >= 0,
        BoolOp::Gt => order > 0,
        BoolOp::Ne => order != 0,
    }
}

/// Whether an expression is a JSON lookup that gives text.
pub open spec fn looks_up_text(e: ExprModel) -> bool {
    e matches ExprModel::Function { name, args } && name == "json_extract_text"@
}

/// A comparison holds exactly where its operator holds between the value of its
/// left operand and that of its right one, whatever the operands are. Left out are
/// the null literal and a boolean that looked-up text is compared with.
pub proof fn comparisons_keep_meaning<V>(
    w: World<V>,
    t: TranslatorModel,
    op: BoolOp,
    lhs: Expr,
    rhs: Expr,
    l: ExprModel,
    r: ExprModel,
)
    requires
        w.tells_truth(),
        t.expression(lhs) == Ok::<ExprModel, ErrorModel>(l),
        t.expression(rhs) == Ok::<ExprModel, ErrorModel>(r),
        l != ExprModel::Literal(LiteralModel::Null),
        r != ExprModel::Literal(LiteralModel::Null),
        !(looks_up_text(l) && rhs is Bool),
    ensures
        match t.expression((Expr::BoolExpr { op, lhs: Box::new(lhs), rhs: Box::new(rhs) })) {
            Ok(e) => w.passes(e) == compares(op, (w.order)(w.value(l), w.value(r))),
            Err(_) => false,
        },
{
    let e = Expr::BoolExpr { op, lhs: Box::new(lhs), rhs: Box::new(rhs) };
    assert(t.expression(e) is Ok);
}

/// Looked-up text is compared with a boolean as with the text that JSON has for it.
pub proof fn looked_up_booleans_keep_meaning<V>(
    w: World<V>,
    t: TranslatorModel,
    op: BoolOp,
    lhs: Expr,
    b: bool,
    l: ExprModel,
)
    requires
        w.tells_truth(),
        t.expression(lhs) == Ok::<ExprModel, ErrorModel>(l),
        looks_up_text(l),
    ensures
        match t.expression(
            (Expr::BoolExpr {
                op,
                lhs: Box::new(lhs),
                rhs: Box::new((Expr::Bool { value: Value::Bool(b) })),
            }),
        ) {
            Ok(e) => w.passes(e) == compares(
                op,
                (w.order)(
                    w.value(l),
                    (w.constant)(
                        LiteralModel::String(
                            if b {
                                "true"@
                            } else {
                                "false"@
                            },
                        ),
                    ),
                ),
            ),
            Err(_) => false,
        },
{
    let rhs = Expr::Bool { value: Value::Bool(b) };
    let e = Expr::BoolExpr { op, lhs: Box::new(lhs), rhs: Box::new(rhs) };
    let text = ExprModel::Literal(
        LiteralModel::String(
            if b {
                "true"@
            } else {
                "false"@
            },
        ),
    );
    assert(l is Function);
    assert(w.value(text) == (w.constant)(text->Literal_0));
    assert(t.expression(e) == Ok::<ExprModel, ErrorModel>(compared(op, l, text)));
}

/// An equality with the null literal on either side asks whether the other side is
/// null, an inequality whether it is not.
pub proof fn null_comparisons_keep_meaning<V>(
    w: World<V>,
    t: TranslatorModel,
    op: BoolOp,
    lhs: Expr,
    rhs: Expr,
    l: ExprModel,
    r: ExprModel,
)
    requires
        w.tells_truth(),
        op == BoolOp::Eq || op == BoolOp::Ne,
        t.expression(lhs) == Ok::<ExprModel, ErrorModel>(l),
        t.expression(rhs) == Ok::<ExprModel, ErrorModel>(r),
        !(looks_up_text(l) && rhs is Bool),
        (w.is_null)((w.constant)(LiteralModel::Null)),
    ensures
        match t.expression((Expr::BoolExpr { op, lhs: Box::new(lhs), rhs: Box::new(rhs) })) {
            Ok(e) => {
                &&& r == ExprModel::Literal(LiteralModel::Null) ==> w.passes(e) == ((op
                    == BoolOp::Eq) == (w.is_null)(w.value(l)))
                &&& l == ExprModel::Literal(LiteralModel::Null) ==> w.passes(e) == ((op
                    == BoolOp::Eq) == (w.is_null)(w.value(r)))
            },
            Err(_) => false,
        },
{
    let e = Expr::BoolExpr { op, lhs: Box::new(lhs), rhs: Box::new(rhs) };
    assert(t.expression(e) is Ok);
}

/// An arithmetic operation has the value that its operator gives to the value of
/// its left operand and that of its right one.
pub proof fn operations_keep_meaning<V>(
    w: World<V>,
    t: TranslatorModel,
    op: ArithOp,
    lhs: Expr,
    rhs: Expr,
    l: ExprModel,
    r: ExprModel,
)
    requires
        t.expression(lhs) == Ok::<ExprModel, ErrorModel>(l),
        t.expression(rhs) == Ok::<ExprModel, ErrorModel>(r),
    ensures
        match t.expression((Expr::ArithExpr { op, lhs: Box::new(lhs), rhs: Box::new(rhs) })) {
            Ok(e) => w.value(e) == match op {
                ArithOp::Add => (w.sum)(w.value(l), w.value(r)),
                ArithOp::Sub => (w.difference)(w.value(l), w.value(r)),
                ArithOp::Mul => (w.product)(w.value(l), w.value(r)),
                ArithOp::Div => (w.quotient)(w.value(l), w.value(r)),
                ArithOp::Mod => (w.remainder)(w.value(l), w.value(r)),
            },
            Err(_) => false,
        },
{
    reveal_with_fuel(World::value, 3);
    let e = Expr::ArithExpr { op, lhs: Box::new(lhs), rhs: Box::new(rhs) };
    assert(t.expression(e) is Ok);
}

/// A minus sign gives the negative value.
pub proof fn minus_keeps_meaning<V>(w: World<V>, t: TranslatorModel, operand: Expr, x: ExprModel)
    requires
        t.expression(operand) == Ok::<ExprModel, ErrorModel>(x),
    ensures
        match t.expression((Expr::UnaryExpr { expr: Box::new(operand) })) {
            Ok(e) => w.value(e) == (w.negative)(w.value(x)),
            Err(_) => false,
        },
{
    let e = Expr::UnaryExpr { expr: Box::new(operand) };
    assert(t.expression(e) is Ok);
}

/// A union holds where either side holds. An intersection with a list holds where
/// the left side equals one of its items.
pub proof fn set_operations_keep_meaning<V>(
    w: World<V>,
    t: TranslatorModel,
    op: BinOp,
    lhs: Expr,
    rhs: Expr,
    l: ExprModel,
    r: ExprModel,
)
    requires
        w.tells_truth(),
        t.expression(lhs) == Ok::<ExprModel, ErrorModel>(l),
        t.expression(rhs) == Ok::<ExprModel, ErrorModel>(r),
    ensures
        match t.expression((Expr::BinExpr { op, lhs: Box::new(lhs), rhs: Box::new(rhs) })) {
            Ok(e) => match op {
                BinOp::Union => w.passes(e) == (w.passes(l) || w.passes(r)),
                BinOp::Intersection => r matches ExprModel::Array(items) ==> (w.passes(e)
                    <==> exists|i: int|
                    0 <= i < items.len() && (w.order)(w.value(l), w.value(#[trigger] items[i]))
                        == 0),
            },
            Err(_) => false,
        },
{
    let e = Expr::BinExpr { op, lhs: Box::new(lhs), rhs: Box::new(rhs) };
    assert(t.expression(e) is Ok);
    match r {
        ExprModel::Array(items) => {
            w.lemma_among(w.value(l), items);
        },
        _ => {},
    }
}

/// Expressions are translated one by one, in their order; they cannot be translated
/// exactly where one of them cannot.
pub proof fn items_are_translated_one_by_one(t: TranslatorModel, es: Seq<Expr>)
    ensures
        match t.expressions(es) {
            Ok(list) => list.len() == es.len() && forall|i: int|
                0 <= i < es.len() ==> #[trigger] t.expression(es[i]) == Ok::<
                    ExprModel,
                    ErrorModel,
                >(list[i]),
            Err(error) => exists|i: int|
                0 <= i < es.len() && #[trigger] t.expression(es[i]) == Err::<
                    ExprModel,
                    ErrorModel,
                >(error) && forall|j: int| 0 <= j < i ==> #[trigger] t.expression(es[j]) is Ok,
        },
    decreases es.len(),
{
    if es.len() > 0 {
        let shorter = es.drop_last();
        items_are_translated_one_by_one(t, shorter);
        match t.expressions(shorter) {
            Ok(list) => {
                assert forall|i: int| 0 <= i < shorter.len() implies #[trigger] t.expression(es[i])
                    == Ok::<ExprModel, ErrorModel>(list[i]) by {
                    assert(t.expression(shorter[i]) == Ok::<ExprModel, ErrorModel>(list[i]));
                }
                let last = es.len() - 1;
                assert(es[last] == es.last());
                if t.expression(es.last()) is Err {
                    assert(t.expression(es[last]) is Err);
                }
            },
            Err(error) => {
                let i = choose|i: int|
                    0 <= i < shorter.len() && #[trigger] t.expression(shorter[i]) == Err::<
                        ExprModel,
                        ErrorModel,
                    >(error) && forall|j: int|
                        0 <= j < i ==> #[trigger] t.expression(shorter[j]) is Ok;
                assert(es[i] == shorter[i]);
                assert forall|j: int| 0 <= j < i implies #[trigger] t.expression(es[j]) is Ok by {
                    assert(t.expression(shorter[j]) is Ok);
                }
                assert(t.expression(es[i]) == Err::<ExprModel, ErrorModel>(error));
            },
        }
    }
}

/// A membership test holds exactly where the value equals that of one of the items,
/// be they in an array or in a set.
pub proof fn membership_keeps_meaning<V>(
    w: World<V>,
    t: TranslatorModel,
    value: Expr,
    collection: Expr,
    items: Vec<Expr>,
    v: ExprModel,
    list: Seq<ExprModel>,
)
    requires
        w.tells_truth(),
        t.expression(value) == Ok::<ExprModel, ErrorModel>(v),
        t.expressions(items@) == Ok::<Seq<ExprModel>, ErrorModel>(list),
        collection == (Expr::Array { items }) || collection == (Expr::SetExpr { items }),
    ensures
        match t.expression(
            (Expr::Membership { value: Box::new(value), collection: Box::new(collection) }),
        ) {
            Ok(e) => w.passes(e) <==> exists|i: int|
                0 <= i < list.len() && (w.order)(w.value(v), w.value(#[trigger] list[i])) == 0,
            Err(_) => false,
        },
{
    let e = Expr::Membership { value: Box::new(value), collection: Box::new(collection) };
    assert(t.expression(collection) == Ok::<ExprModel, ErrorModel>(ExprModel::Array(list)));
    assert(t.expression(e) is Ok);
    w.lemma_among(w.value(v), list);
}

/// A list has the values of its items, in their order.
pub proof fn lists_keep_meaning<V>(
    w: World<V>,
    t: TranslatorModel,
    items: Vec<Expr>,
    list: Seq<ExprModel>,
)
    requires
        t.expressions(items@) == Ok::<Seq<ExprModel>, ErrorModel>(list),
    ensures
        match (t.expression((Expr::Array { items })), t.expression((Expr::SetExpr { items }))) {
            (Ok(a), Ok(s)) => a == s && w.value(a) == (w.list)(
                Seq::new(list.len(), |i: int| w.value(list[i])),
            ),
            _ => false,
        },
{
    let a = Expr::Array { items };
    let s = Expr::SetExpr { items };
    assert(t.expression(a) == Ok::<ExprModel, ErrorModel>(ExprModel::Array(list)));
    assert(t.expression(s) == Ok::<ExprModel, ErrorModel>(ExprModel::Array(list)));
    w.lemma_values(list);
    assert(w.values(list) =~= Seq::new(list.len(), |i: int| w.value(list[i])));
}

proof fn lemma_next_position<V>(w: World<V>, i: ExprModel)
    requires
        w.counts(),
        i != ExprModel::Literal(LiteralModel::Integer(i64::MAX)),
    ensures
        match one_based(i) {
            Ok(next) => w.value(next) == (w.sum)(
                w.value(i),
                w.integer(1),
            ),
            Err(_) => false,
        },
{
    let one = ExprModel::Literal(LiteralModel::Integer(1));
    assert(w.value(one) == w.integer(1));
    match i {
        ExprModel::Literal(LiteralModel::Integer(n)) => {
            assert((w.sum)(w.integer(n), w.integer(1)) == w.integer((n + 1) as i64));
            assert(w.value(i) == w.integer(n));
        },
        _ => {},
    }
}

proof fn lemma_position_before<V>(w: World<V>, i: ExprModel)
    requires
        w.counts(),
        i != ExprModel::Literal(LiteralModel::Integer(i64::MIN)),
    ensures
        match inclusive_end(i) {
            Ok(last) => w.value(last) == (w.difference)(
                w.value(i),
                w.integer(1),
            ),
            Err(_) => false,
        },
{
    let one = ExprModel::Literal(LiteralModel::Integer(1));
    assert(w.value(one) == w.integer(1));
    match i {
        ExprModel::Literal(LiteralModel::Integer(n)) => {
            assert((w.difference)(w.integer(n), w.integer(1)) == w.integer((n - 1) as i64));
            assert(w.value(i) == w.integer(n));
        },
        _ => {},
    }
}

/// An array is asked for the element one further on, since SQL counts from 1.
pub proof fn subscripts_keep_meaning<V>(
    w: World<V>,
    t: TranslatorModel,
    refr: Expr,
    index: Expr,
    a: ExprModel,
    i: ExprModel,
)
    requires
        w.counts(),
        t.expression(refr) == Ok::<ExprModel, ErrorModel>(a),
        t.expression(index) == Ok::<ExprModel, ErrorModel>(i),
        input_path(
            (Expr::RefBrack { refr: Box::new(refr), index: Box::new(index) }),
        ) == Ok::<Option<Seq<Seq<char>>>, ErrorModel>(None),
        i != ExprModel::Literal(LiteralModel::Integer(i64::MAX)),
    ensures
        match t.expression(
            (Expr::RefBrack { refr: Box::new(refr), index: Box::new(index) }),
        ) {
            Ok(e) => w.value(e) == (w.element)(
                w.value(a),
                (w.sum)(w.value(i), w.integer(1)),
            ),
            Err(_) => false,
        },
{
    let e = Expr::RefBrack { refr: Box::new(refr), index: Box::new(index) };
    lemma_next_position(w, i);
    assert(t.expression(e) is Ok);
}

/// A slice of an array ends one before the end that it is given.
pub proof fn slices_keep_meaning<V>(
    w: World<V>,
    t: TranslatorModel,
    a: ExprModel,
    from: ExprModel,
    end: ExprModel,
)
    requires
        w.counts(),
        end != ExprModel::Literal(LiteralModel::Integer(i64::MIN)),
    ensures
        match t.function_call("array.slice"@, seq![a, from, end]) {
            Ok(e) => w.value(e) == (w.apply)(
                "ARRAY_SLICE"@,
                seq![
                    w.value(a),
                    w.value(from),
                    (w.difference)(w.value(end), w.integer(1)),
                ],
            ),
            Err(_) => false,
        },
{
    lemma_position_before(w, end);
    let args = t.function_call("array.slice"@, seq![a, from, end])->Ok_0->Function_args;
    w.lemma_values(args);
    assert(w.values(args) =~= seq![
        w.value(a),
        w.value(from),
        (w.difference)(w.value(end), w.integer(1)),
    ]);
}

/// The last condition of a translator, where a statement added exactly that.
pub open spec fn added_condition(before: TranslatorModel, after: TranslatorModel) -> Option<
    ExprModel,
> {
    if after.conditions.len() == before.conditions.len() + 1 && after.conditions.drop_last()
        == before.conditions {
        Some(after.conditions.last())
    } else {
        None
    }
}

/// Whether an expression is true or false, rather than a value that may be missing.
pub open spec fn is_judgement(e: ExprModel) -> bool {
    match e {
        ExprModel::Binary { op, left, right } => !(op == SqlBinaryOp::Add || op
            == SqlBinaryOp::Subtract || op == SqlBinaryOp::Multiply || op == SqlBinaryOp::Divide
            || op == SqlBinaryOp::Modulo || op == SqlBinaryOp::Concat),
        ExprModel::Unary { op, operand } => op != SqlUnaryOp::Negate,
        ExprModel::Literal(LiteralModel::Boolean(_)) => true,
        _ => false,
    }
}

/// A statement that is an expression asks for one thing: that the expression holds,
/// or that it is there where it is neither true nor false.
pub proof fn statements_keep_meaning<V>(w: World<V>, t: TranslatorModel, expr: Expr, e: ExprModel)
    requires
        w.tells_truth(),
        !(expr is AssignExpr),
        t.expression(expr) == Ok::<ExprModel, ErrorModel>(e),
    ensures
        match t.statement((Literal::Expr { expr })) {
            Ok((next, columns)) => columns.len() == 0 && match added_condition(t, next) {
                Some(c) => w.passes(c) == if is_judgement(e) {
                    w.passes(e)
                } else {
                    !(w.is_null)(w.value(e))
                },
                None => false,
            },
            Err(_) => false,
        },
{
    let next = t.statement((Literal::Expr { expr }))->Ok_0.0;
    assert(next.conditions.drop_last() =~= t.conditions);
}

/// A negated statement asks for one thing: that the expression does not hold.
pub proof fn negated_statements_keep_meaning<V>(
    w: World<V>,
    t: TranslatorModel,
    expr: Expr,
    e: ExprModel,
)
    requires
        w.tells_truth(),
        t.expression(expr) == Ok::<ExprModel, ErrorModel>(e),
    ensures
        match t.statement((Literal::NotExpr { expr })) {
            Ok((next, columns)) => columns.len() == 0 && match added_condition(t, next) {
                Some(c) => w.passes(c) == !w.passes(e),
                None => false,
            },
            Err(_) => false,
        },
{
    let next = t.statement((Literal::NotExpr { expr }))->Ok_0.0;
    assert(next.conditions.drop_last() =~= t.conditions);
}

/// A statement and its negation are never both true nor both false, where the
/// statement is true or false at all.
pub proof fn negation_is_the_opposite<V>(w: World<V>, t: TranslatorModel, expr: Expr, e: ExprModel)
    requires
        w.tells_truth(),
        !(expr is AssignExpr),
        t.expression(expr) == Ok::<ExprModel, ErrorModel>(e),
        is_judgement(e),
    ensures
        match (t.statement((Literal::Expr { expr })), t.statement((Literal::NotExpr { expr }))) {
            (Ok((plain, _)), Ok((negated, _))) => w.passes(plain.conditions.last()) == !w.passes(
                negated.conditions.last(),
            ),
            _ => false,
        },
{
    statements_keep_meaning(w, t, expr, e);
    negated_statements_keep_meaning(w, t, expr, e);
}

/// The variable that a statement gives a meaning to, if it does.
pub open spec fn assigned_name(literal: Literal) -> Option<Seq<char>> {
    match literal {
        Literal::Expr { expr: Expr::AssignExpr { lhs, rhs } } => match (*lhs, *rhs) {
            (Expr::Var { value: Value::String(name) }, Expr::Object { fields }) => None,
            (Expr::Var { value: Value::String(name) }, _) => Some(name@),
            _ => None,
        },
        _ => None,
    }
}

/// A statement changes the meaning of no variable but the one that it assigns: any
/// other variable translates to what it translated to before. Nor does it change
/// which tables, bound values and array columns there are.
pub proof fn other_variables_keep_meaning(t: TranslatorModel, literal: Literal, name: String)
    requires
        assigned_name(literal) != Some(name@),
    ensures
        match t.statement(literal) {
            Ok((next, _)) => {
                &&& next.expression((Expr::Var { value: Value::String(name) })) == t.expression(
                    (Expr::Var { value: Value::String(name) }),
                )
                &&& next.tables_seen == t.tables_seen
                &&& next.table_variables == t.table_variables
                &&& next.input_bindings == t.input_bindings
                &&& next.array_columns == t.array_columns
            },
            Err(_) => true,
        },
{
    let var = Expr::Var { value: Value::String(name) };
    match t.statement(literal) {
        Ok((next, _)) => {
            assert(next.variable(name@) == t.variable(name@));
            assert(next.expression(var) == next.variable(name@));
            assert(t.expression(var) == t.variable(name@));
        },
        Err(_) => {},
    }
}

/// A variable stands for what was assigned to it in all later statements, until it
/// is assigned again.
pub proof fn assigned_variables_last(
    t: TranslatorModel,
    stmts: Seq<LiteralStmt>,
    k: int,
    name: String,
)
    requires
        0 <= k < stmts.len(),
        t.statements(stmts).1 is Ok,
        name@ != "input"@,
        assigned_name(stmts[k].literal) == Some(name@),
        forall|i: int|
            k < i < stmts.len() ==> assigned_name((#[trigger] stmts[i]).literal) != Some(name@),
    ensures
        match stmts[k].literal {
            Literal::Expr { expr: Expr::AssignExpr { lhs, rhs } } => t.statements(
                stmts,
            ).0.expression((Expr::Var { value: Value::String(name) })) == t.statements(
                stmts.take(k),
            ).0.expression(*rhs),
            _ => false,
        },
    decreases stmts.len(),
{
    let var = Expr::Var { value: Value::String(name) };
    let shorter = stmts.drop_last();
    let (earlier, outcome) = t.statements(shorter);
    if k == stmts.len() - 1 {
        assert(stmts.take(k) =~= shorter);
        let next = t.statements(stmts).0;
        assert(next.expression(var) == next.variable(name@));
    } else {
        assert(shorter.take(k) =~= stmts.take(k));
        assert forall|i: int| k < i < shorter.len() implies assigned_name(
            (#[trigger] shorter[i]).literal,
        ) != Some(name@) by {
            assert(shorter[i] == stmts[i]);
        }
        assigned_variables_last(t, shorter, k, name);
        other_variables_keep_meaning(earlier, stmts.last().literal, name);
    }
}

/// A statement that declares variables, ranges over a table or assigns to anything but
/// a variable asks for nothing and changes nothing; `every` is refused.
pub proof fn declarations_add_nothing(t: TranslatorModel, literal: Literal, lhs: Expr, rhs: Expr)
    requires
        !(lhs is Var),
        !(rhs is Object),
    ensures
        literal is SomeIn || literal is SomeVars ==> t.statement(literal) == Ok::<
            (TranslatorModel, Seq<ColumnModel>),
            ErrorModel,
        >((t, Seq::empty())),
        literal is Every ==> t.statement(literal) == Err::<
            (TranslatorModel, Seq<ColumnModel>),
            ErrorModel,
        >(ErrorModel::Rejected(Fault::Every)),
        t.statement(
            (Literal::Expr { expr: (Expr::AssignExpr { lhs: Box::new(lhs), rhs: Box::new(rhs) }) }),
        ) == Ok::<(TranslatorModel, Seq<ColumnModel>), ErrorModel>((t, Seq::empty())),
{
    assert(t.value_columns(rhs) == Ok::<Seq<ColumnModel>, ErrorModel>(Seq::empty()));
}

/// Where a part of an expression cannot be translated, the whole cannot, for the reason
/// of the first part that cannot.
pub proof fn failures_are_passed_on(
    t: TranslatorModel,
    op: BoolOp,
    sign: ArithOp,
    set_op: BinOp,
    lhs: Expr,
    rhs: Expr,
    error: ErrorModel,
)
    requires
        t.expression(lhs) == Err::<ExprModel, ErrorModel>(error) || t.expression(lhs) is Ok && !(rhs
            is Bool) && t.expression(rhs) == Err::<ExprModel, ErrorModel>(error),
    ensures
        t.expression((Expr::BoolExpr { op, lhs: Box::new(lhs), rhs: Box::new(rhs) })) == Err::<
            ExprModel,
            ErrorModel,
        >(error),
        t.expression((Expr::ArithExpr { op: sign, lhs: Box::new(lhs), rhs: Box::new(rhs) }))
            == Err::<ExprModel, ErrorModel>(error),
        t.expression((Expr::BinExpr { op: set_op, lhs: Box::new(lhs), rhs: Box::new(rhs) }))
            == Err::<ExprModel, ErrorModel>(error),
        t.expression((Expr::Membership { value: Box::new(lhs), collection: Box::new(rhs) }))
            == Err::<ExprModel, ErrorModel>(error),
{
    let a = Expr::BoolExpr { op, lhs: Box::new(lhs), rhs: Box::new(rhs) };
    let b = Expr::ArithExpr { op: sign, lhs: Box::new(lhs), rhs: Box::new(rhs) };
    let c = Expr::BinExpr { op: set_op, lhs: Box::new(lhs), rhs: Box::new(rhs) };
    let d = Expr::Membership { value: Box::new(lhs), collection: Box::new(rhs) };
    assert(t.expression(a) is Err);
    assert(t.expression(b) is Err);
    assert(t.expression(c) is Err);
    assert(t.expression(d) is Err);
}

/// Membership in anything but a list is refused.
pub proof fn membership_needs_a_list(
    t: TranslatorModel,
    value: Expr,
    collection: Expr,
    v: ExprModel,
    c: ExprModel,
)
    requires
        t.expression(value) == Ok::<ExprModel, ErrorModel>(v),
        t.expression(collection) == Ok::<ExprModel, ErrorModel>(c),
        !(c is Array),
    ensures
        t.expression(
            (Expr::Membership { value: Box::new(value), collection: Box::new(collection) }),
        ) == Err::<ExprModel, ErrorModel>(ErrorModel::Rejected(Fault::InRightSide)),
{
    let e = Expr::Membership { value: Box::new(value), collection: Box::new(collection) };
    assert(t.expression(e) is Err);
}

} // verus!
