//! Laws of the translation of rules.

use crate::ast::{BoolOp, Expr, Literal, LiteralStmt, Number, Rule, RuleBody, RuleHead, Value};
use crate::errors::ErrorModel;
use crate::floats::FloatText;
use crate::model::{ColumnModel, CteModel, ExprModel, LiteralModel, OperationModel};
use crate::sql_ir::SqlBinaryOp;
use crate::text::after_last;
use crate::translation::{
    aliases_of, any_some_in, call, compared, conjunction, has_some_in, indexed_columns_of_body,
    indexed_columns_of_statement, indexed_columns_of_statements, input_path, integer, is_boolean,
    is_join, is_json_text, joins, lemma_on_clause_step, lemma_row_conditions_step, null,
    number_literal, on_clause, one_based, oriented, refers_to, row_conditions, rule_pattern,
    stands_on, table_column, text_literal, TranslatorModel,
};
use vstd::prelude::*;

verus! {

/// What a rule becomes depends on the rule, the default table and the bound
/// values alone: nothing that the translator found out about an earlier rule
/// has a bearing on it.
pub proof fn earlier_rules_have_no_bearing(a: TranslatorModel, b: TranslatorModel, rule: Rule)
    requires
        a.default_table == b.default_table,
        a.input_bindings == b.input_bindings,
    ensures
        a.rule(rule).1 == b.rule(rule).1,
{
}

proof fn lemma_tables_keep_settings(t: TranslatorModel, stmts: Seq<LiteralStmt>)
    ensures
        t.tables_found(stmts).0.default_table == t.default_table,
        t.tables_found(stmts).0.input_bindings == t.input_bindings,
    decreases stmts.len(),
{
    if stmts.len() > 0 {
        lemma_tables_keep_settings(t, stmts.drop_last());
    }
}

proof fn lemma_statements_keep_settings(t: TranslatorModel, stmts: Seq<LiteralStmt>)
    ensures
        t.statements(stmts).0.default_table == t.default_table,
        t.statements(stmts).0.input_bindings == t.input_bindings,
        t.statements(stmts).0.tables_seen == t.tables_seen,
    decreases stmts.len(),
{
    if stmts.len() > 0 {
        lemma_statements_keep_settings(t, stmts.drop_last());
    }
}

/// Translating a rule leaves the default table and the bound values as they are.
pub proof fn rules_keep_settings(t: TranslatorModel, rule: Rule)
    ensures
        t.rule(rule).0.default_table == t.default_table,
        t.rule(rule).0.input_bindings == t.input_bindings,
{
    match rule {
        Rule::Spec { head, bodies } => {
            if bodies@.len() == 1 {
                let fresh = TranslatorModel::initial(t.default_table, t.input_bindings);
                let stmts = bodies@[0].query.stmts@;
                lemma_tables_keep_settings(fresh, stmts);
                let ready = TranslatorModel {
                    array_columns: indexed_columns_of_body(bodies@[0]),
                    ..fresh.tables_found(stmts).0
                };
                lemma_statements_keep_settings(ready, stmts);
            }
        },
        Rule::Default => {},
    }
}

/// A rule can be translated only where it is of the form `rule contains var if
/// { ... }`, has one body, and that body ranges over a table.
pub proof fn translated_rules_have_the_form(t: TranslatorModel, rule: Rule)
    requires
        t.rule(rule).1 is Ok,
    ensures
        match rule {
            Rule::Spec { head, bodies } => head == RuleHead::PartialSet && bodies@.len() == 1
                && has_some_in(bodies@[0].query.stmts@),
            Rule::Default => false,
        },
{
    match rule {
        Rule::Spec { head, bodies } => {
            assert(any_some_in(bodies@));
            let i = choose|i: int|
                0 <= i < bodies@.len() && has_some_in(#[trigger] bodies@[i].query.stmts@);
            assert(has_some_in(bodies@[i].query.stmts@));
        },
        Rule::Default => {},
    }
}

/// The statements that range over a table.
pub open spec fn table_statements(stmts: Seq<LiteralStmt>) -> Seq<LiteralStmt> {
    stmts.filter(|s: LiteralStmt| s.literal is SomeIn)
}

/// The statements that do not range over a table.
pub open spec fn other_statements(stmts: Seq<LiteralStmt>) -> Seq<LiteralStmt> {
    stmts.filter(|s: LiteralStmt| !(s.literal is SomeIn))
}

proof fn lemma_tables_found_in_table_statements(t: TranslatorModel, stmts: Seq<LiteralStmt>)
    ensures
        t.tables_found(stmts) == t.tables_found(table_statements(stmts)),
    decreases stmts.len(),
{
    reveal(Seq::filter);
    if stmts.len() > 0 {
        lemma_tables_found_in_table_statements(t, stmts.drop_last());
        if stmts.last().literal is SomeIn {
            let fewer = table_statements(stmts.drop_last());
            assert(table_statements(stmts).drop_last() =~= fewer);
        }
    }
}

proof fn lemma_columns_in_other_statements(stmts: Seq<LiteralStmt>)
    ensures
        indexed_columns_of_statements(stmts) == indexed_columns_of_statements(
            other_statements(stmts),
        ),
    decreases stmts.len(),
{
    reveal(Seq::filter);
    if stmts.len() > 0 {
        lemma_columns_in_other_statements(stmts.drop_last());
        if !(stmts.last().literal is SomeIn) {
            let fewer = other_statements(stmts.drop_last());
            assert(other_statements(stmts).drop_last() =~= fewer);
        } else {
            let earlier = indexed_columns_of_statements(stmts.drop_last());
            assert(earlier.union(Set::empty()) =~= earlier);
        }
    }
}

proof fn lemma_statements_in_other_statements(t: TranslatorModel, stmts: Seq<LiteralStmt>)
    ensures
        t.statements(stmts) == t.statements(other_statements(stmts)),
    decreases stmts.len(),
{
    reveal(Seq::filter);
    if stmts.len() > 0 {
        lemma_statements_in_other_statements(t, stmts.drop_last());
        if !(stmts.last().literal is SomeIn) {
            let fewer = other_statements(stmts.drop_last());
            assert(other_statements(stmts).drop_last() =~= fewer);
        } else {
            match t.statements(stmts.drop_last()).1 {
                Ok(columns) => {
                    assert(columns + Seq::<ColumnModel>::empty() =~= columns);
                },
                Err(_) => {},
            }
        }
    }
}

/// It does not matter where among the other statements the statements stand that
/// range over a table: a condition on two tables may stand before both.
pub proof fn table_statements_may_come_late(
    t: TranslatorModel,
    a: Seq<RuleBody>,
    b: Seq<RuleBody>,
)
    requires
        a.len() == 1,
        b.len() == 1,
        table_statements(a[0].query.stmts@) == table_statements(b[0].query.stmts@),
        other_statements(a[0].query.stmts@) == other_statements(b[0].query.stmts@),
        a[0].assign == b[0].assign,
    ensures
        t.bodies(a) == t.bodies(b),
{
    let fresh = TranslatorModel::initial(t.default_table, t.input_bindings);
    let first = a[0].query.stmts@;
    let second = b[0].query.stmts@;
    lemma_tables_found_in_table_statements(fresh, first);
    lemma_tables_found_in_table_statements(fresh, second);
    lemma_columns_in_other_statements(first);
    lemma_columns_in_other_statements(second);
    let ready = TranslatorModel {
        array_columns: indexed_columns_of_body(a[0]),
        ..fresh.tables_found(first).0
    };
    lemma_statements_in_other_statements(ready, first);
    lemma_statements_in_other_statements(ready, second);
}

/// Whether every condition is a predicate.
pub open spec fn all_boolean(conditions: Seq<ExprModel>) -> bool {
    forall|i: int| 0 <= i < conditions.len() ==> is_boolean(#[trigger] conditions[i])
}

proof fn lemma_statements_stay_boolean(t: TranslatorModel, stmts: Seq<LiteralStmt>)
    requires
        all_boolean(t.conditions),
    ensures
        all_boolean(t.statements(stmts).0.conditions),
    decreases stmts.len(),
{
    if stmts.len() > 0 {
        lemma_statements_stay_boolean(t, stmts.drop_last());
    }
}

proof fn lemma_tables_keep_conditions(t: TranslatorModel, stmts: Seq<LiteralStmt>)
    ensures
        t.tables_found(stmts).0.conditions == t.conditions,
    decreases stmts.len(),
{
    if stmts.len() > 0 {
        lemma_tables_keep_conditions(t, stmts.drop_last());
    }
}

proof fn lemma_rows_boolean(conditions: Seq<ExprModel>, aliases: Seq<Seq<char>>)
    requires
        all_boolean(conditions),
    ensures
        all_boolean(row_conditions(conditions, aliases)),
    decreases conditions.len(),
{
    reveal(Seq::filter);
    if conditions.len() > 0 {
        let shorter = conditions.drop_last();
        assert forall|i: int| 0 <= i < shorter.len() implies is_boolean(#[trigger] shorter[i]) by {
            assert(shorter[i] == conditions[i]);
        }
        lemma_rows_boolean(shorter, aliases);
        assert(is_boolean(conditions[conditions.len() - 1]));
    }
}

proof fn lemma_conjunction_boolean(conditions: Seq<ExprModel>)
    requires
        all_boolean(conditions),
    ensures
        is_boolean(conjunction(conditions)),
{
    if conditions.len() == 1 {
        assert(is_boolean(conditions[0]));
    }
}

/// The query of a rule joins every table after the first, in order, then filters
/// at most once, by a predicate, and then projects at most once. It has no common
/// table expressions and no projection of its own.
pub proof fn queries_have_the_shape(t: TranslatorModel, rule: Rule)
    ensures
        match t.rule(rule).1 {
            Ok(q) => {
                let tables = t.rule(rule).0.tables_seen;
                &&& q.ctes == Seq::<CteModel>::empty()
                &&& q.projection is None
                &&& tables.len() > 0
                &&& tables.len() - 1 <= q.pipeline.len() <= tables.len() + 1
                &&& forall|i: int|
                    0 <= i < tables.len() - 1 ==> (#[trigger] q.pipeline[i]) is Join
                &&& forall|i: int|
                    tables.len() - 1 <= i < q.pipeline.len() ==> match #[trigger] q.pipeline[i] {
                        OperationModel::Where(e) => i == tables.len() - 1 && is_boolean(e),
                        OperationModel::Project(_) => i == q.pipeline.len() - 1,
                        _ => false,
                    }
            },
            Err(_) => true,
        },
{
    if t.rule(rule).1 is Ok {
        translated_rules_have_the_form(t, rule);
        let bodies = rule->bodies@;
        let fresh = TranslatorModel::initial(t.default_table, t.input_bindings);
        let stmts = bodies[0].query.stmts@;
        let scanned = fresh.tables_found(stmts).0;
        let ready = TranslatorModel {
            array_columns: indexed_columns_of_body(bodies[0]),
            ..scanned
        };
        let done = ready.statements(stmts).0;
        lemma_tables_keep_conditions(fresh, stmts);
        lemma_statements_stay_boolean(ready, stmts);
        lemma_statements_keep_settings(ready, stmts);
        lemma_table_per_statement(fresh, stmts);
        let aliases = aliases_of(done.tables_seen);
        lemma_rows_boolean(done.conditions, aliases);
        lemma_conjunction_boolean(row_conditions(done.conditions, aliases));
        let q = t.rule(rule).1->Ok_0;
        let joined = joins(done.tables_seen, aliases, done.conditions);
        assert forall|i: int| 0 <= i < joined.len() implies (#[trigger] q.pipeline[i]) is Join by {
            assert(q.pipeline[i] == joined[i]);
        }
    }
}

/// A body that ranges over a table has a table.
proof fn lemma_table_per_statement(t: TranslatorModel, stmts: Seq<LiteralStmt>)
    requires
        t.tables_found(stmts).1 is Ok,
    ensures
        has_some_in(stmts) ==> t.tables_found(stmts).0.tables_seen.len() > 0,
        t.tables_found(stmts).0.tables_seen.len() >= t.tables_seen.len(),
    decreases stmts.len(),
{
    if stmts.len() > 0 {
        let shorter = stmts.drop_last();
        lemma_table_per_statement(t, shorter);
        if has_some_in(stmts) && !(stmts.last().literal is SomeIn) {
            let i = choose|i: int| 0 <= i < stmts.len() && #[trigger] stmts[i].literal is SomeIn;
            assert(shorter[i].literal is SomeIn);
        }
    }
}

/// Whether a condition stands in the `ON` clause of a table after the first.
pub open spec fn is_placed(e: ExprModel, aliases: Seq<Seq<char>>) -> bool {
    exists|i: int| 1 <= i < aliases.len() && #[trigger] stands_on(e, i, aliases)
}

/// Whether a condition refers to a table after the first by its short name.
pub open spec fn names_joined_table(e: ExprModel, aliases: Seq<Seq<char>>) -> bool {
    exists|k: int|
        1 <= k < aliases.len() && aliases[k].len() > 0 && refers_to(e, #[trigger] aliases[k])
}

/// A condition stands in the `ON` clause of one table at most.
pub proof fn conditions_stand_once(e: ExprModel, aliases: Seq<Seq<char>>, i: int, j: int)
    requires
        0 <= i < aliases.len(),
        0 <= j < aliases.len(),
        stands_on(e, i, aliases),
        stands_on(e, j, aliases),
    ensures
        i == j,
{
    assert(refers_to(e, aliases[i]));
    assert(refers_to(e, aliases[j]));
}

/// A condition that joins tables and refers to a table after the first stands in
/// an `ON` clause: that of the last table it refers to.
pub proof fn join_conditions_are_placed(e: ExprModel, aliases: Seq<Seq<char>>, k: int)
    requires
        is_join(e, aliases),
        1 <= k < aliases.len(),
        aliases[k].len() > 0,
        refers_to(e, aliases[k]),
    ensures
        exists|i: int| k <= i < aliases.len() && #[trigger] stands_on(e, i, aliases),
        is_placed(e, aliases),
    decreases aliases.len() - k,
{
    if exists|j: int|
        k < j < aliases.len() && aliases[j].len() > 0 && refers_to(e, #[trigger] aliases[j]) {
        let j = choose|j: int|
            k < j < aliases.len() && aliases[j].len() > 0 && refers_to(e, #[trigger] aliases[j]);
        join_conditions_are_placed(e, aliases, j);
    } else {
        assert(stands_on(e, k, aliases));
    }
}

/// In an `ON` clause the column of the table that is joined stands on the right.
pub proof fn joined_table_stands_right(e: ExprModel, idx: int, aliases: Seq<Seq<char>>)
    requires
        0 <= idx < aliases.len(),
        stands_on(e, idx, aliases),
    ensures
        refers_to(oriented(e, aliases[idx]).right, aliases[idx]),
        oriented(e, aliases[idx]).operator == SqlBinaryOp::Equal,
{
}

/// A condition filters rows exactly where it does not join tables.
pub proof fn other_conditions_filter_rows(
    conditions: Seq<ExprModel>,
    aliases: Seq<Seq<char>>,
    e: ExprModel,
)
    ensures
        row_conditions(conditions, aliases).contains(e) <==> conditions.contains(e) && !is_join(
            e,
            aliases,
        ),
    decreases conditions.len(),
{
    lemma_row_conditions_step(conditions, aliases);
    if conditions.len() > 0 {
        let shorter = conditions.drop_last();
        other_conditions_filter_rows(shorter, aliases, e);
        let before = row_conditions(shorter, aliases);
        let rows = row_conditions(conditions, aliases);
        if conditions.contains(e) && conditions.last() != e {
            let i = choose|i: int| 0 <= i < conditions.len() && conditions[i] == e;
            assert(shorter[i] == e);
        }
        if shorter.contains(e) {
            let i = choose|i: int| 0 <= i < shorter.len() && shorter[i] == e;
            assert(conditions[i] == e);
        }
        if before.contains(e) {
            let i = choose|i: int| 0 <= i < before.len() && before[i] == e;
            assert(rows[i] == e);
        }
        if conditions.last() == e {
            assert(conditions[conditions.len() - 1] == e);
            if !is_join(e, aliases) {
                assert(rows[rows.len() - 1] == e);
            }
        }
        if rows.contains(e) && conditions.last() != e {
            let i = choose|i: int| 0 <= i < rows.len() && rows[i] == e;
            assert(before[i] == e);
        }
    }
}

/// A condition that stands in an `ON` clause is written there.
pub proof fn placed_conditions_are_written(
    conditions: Seq<ExprModel>,
    aliases: Seq<Seq<char>>,
    e: ExprModel,
    idx: int,
)
    requires
        conditions.contains(e),
        stands_on(e, idx, aliases),
    ensures
        on_clause(conditions, idx, aliases).contains(oriented(e, aliases[idx])),
    decreases conditions.len(),
{
    lemma_on_clause_step(conditions, idx, aliases);
    let i = choose|i: int| 0 <= i < conditions.len() && conditions[i] == e;
    let on = on_clause(conditions, idx, aliases);
    let shorter = conditions.drop_last();
    let before = on_clause(shorter, idx, aliases);
    if i == conditions.len() - 1 {
        assert(on[on.len() - 1] == oriented(e, aliases[idx]));
    } else {
        assert(shorter[i] == e);
        placed_conditions_are_written(shorter, aliases, e, idx);
        let j = choose|j: int| 0 <= j < before.len() && before[j] == oriented(e, aliases[idx]);
        assert(on[j] == oriented(e, aliases[idx]));
    }
}

/// A condition filters rows or stands in an `ON` clause, and not both. It does
/// neither exactly where it equates two columns of known tables and refers to no
/// table after the first: no table takes it, and the query leaves it out.
pub proof fn conditions_filter_or_join(
    conditions: Seq<ExprModel>,
    aliases: Seq<Seq<char>>,
    e: ExprModel,
)
    requires
        conditions.contains(e),
    ensures
        !(row_conditions(conditions, aliases).contains(e) && is_placed(e, aliases)),
        (row_conditions(conditions, aliases).contains(e) || is_placed(e, aliases)) <==> (!is_join(
            e,
            aliases,
        ) || names_joined_table(e, aliases)),
{
    other_conditions_filter_rows(conditions, aliases, e);
    if names_joined_table(e, aliases) && is_join(e, aliases) {
        let k = choose|k: int|
            1 <= k < aliases.len() && aliases[k].len() > 0 && refers_to(e, #[trigger] aliases[k]);
        join_conditions_are_placed(e, aliases, k);
    }
    if is_placed(e, aliases) {
        let i = choose|i: int| 1 <= i < aliases.len() && #[trigger] stands_on(e, i, aliases);
        assert(refers_to(e, aliases[i]));
    }
}

/// Whether a judgement of conditions takes `AND` for both and `TRUE` for true.
pub open spec fn judges_and(holds: spec_fn(ExprModel) -> bool) -> bool {
    &&& holds(ExprModel::Literal(LiteralModel::Boolean(true)))
    &&& forall|a: ExprModel, b: ExprModel|
        (#[trigger] holds(ExprModel::binary(SqlBinaryOp::And, a, b))) == (holds(a) && holds(b))
}

/// A conjunction holds exactly where every condition holds.
pub proof fn conjunction_asks_for_all(
    holds: spec_fn(ExprModel) -> bool,
    conditions: Seq<ExprModel>,
)
    requires
        judges_and(holds),
    ensures
        holds(conjunction(conditions)) <==> forall|i: int|
            0 <= i < conditions.len() ==> holds(#[trigger] conditions[i]),
    decreases conditions.len(),
{
    if conditions.len() >= 2 {
        let shorter = conditions.drop_last();
        conjunction_asks_for_all(holds, shorter);
        if holds(conjunction(conditions)) {
            assert forall|i: int| 0 <= i < conditions.len() implies holds(
                #[trigger] conditions[i],
            ) by {
                if i < shorter.len() {
                    assert(holds(shorter[i]));
                }
            }
        }
        if forall|i: int| 0 <= i < conditions.len() ==> holds(#[trigger] conditions[i]) {
            assert forall|i: int| 0 <= i < shorter.len() implies holds(#[trigger] shorter[i]) by {
                assert(holds(conditions[i]));
            }
            assert(holds(conditions[conditions.len() - 1]));
        }
    }
}

/// A path under `input` may be written with dots or with string keys in brackets:
/// `input.a` and `input["a"]` are the same.
pub proof fn input_paths_have_two_forms(t: TranslatorModel, refr: Expr, key: String)
    requires
        input_path(refr) matches Ok(Some(_)),
    ensures
        t.expression(
            (Expr::RefDot { refr: Box::new(refr), field: Value::String(key) }),
        ) == t.expression(
            (Expr::RefBrack {
                refr: Box::new(refr),
                index: Box::new((Expr::String { value: Value::String(key) })),
            }),
        ),
{
    let dot = Expr::RefDot { refr: Box::new(refr), field: Value::String(key) };
    let bracket = Expr::RefBrack {
        refr: Box::new(refr),
        index: Box::new((Expr::String { value: Value::String(key) })),
    };
    assert(input_path(dot) == input_path(bracket));
    assert(input_path(dot) matches Ok(Some(_)));
}

/// A set and an array with the same items become the same list.
pub proof fn sets_become_arrays(t: TranslatorModel, items: Vec<Expr>)
    ensures
        t.expression((Expr::SetExpr { items })) == t.expression((Expr::Array { items })),
{
}

/// A comparison with `null` for equality, on whichever side, is a test for null.
pub proof fn null_is_tested(t: TranslatorModel, op: BoolOp, other: Expr)
    requires
        op == BoolOp::Eq || op == BoolOp::Ne,
        t.expression(other) is Ok,
    ensures
        ({
            let tested = Ok::<ExprModel, ErrorModel>(
                ExprModel::binary(
                    if op == BoolOp::Eq {
                        SqlBinaryOp::IsNull
                    } else {
                        SqlBinaryOp::IsNotNull
                    },
                    t.expression(other)->Ok_0,
                    null(),
                ),
            );
            &&& t.expression(
                (Expr::BoolExpr { op, lhs: Box::new(other), rhs: Box::new(Expr::Null) }),
            ) == tested
            &&& t.expression(
                (Expr::BoolExpr { op, lhs: Box::new(Expr::Null), rhs: Box::new(other) }),
            ) == tested
        }),
{
    assert(t.expression(Expr::Null) == Ok::<ExprModel, ErrorModel>(null()));
}

/// No comparison equates anything with null: no row would pass that.
pub proof fn nothing_is_equated_with_null(t: TranslatorModel, op: BoolOp, lhs: Expr, rhs: Expr)
    ensures
        match t.expression((Expr::BoolExpr { op, lhs: Box::new(lhs), rhs: Box::new(rhs) })) {
            Ok(e) => match e {
                ExprModel::Binary { op: sql_op, left, right } => sql_op == SqlBinaryOp::Equal
                    || sql_op == SqlBinaryOp::NotEqual ==> *left != null() && *right != null(),
                _ => false,
            },
            Err(_) => true,
        },
{
}

/// Text that was looked up in JSON is compared with the name of a boolean, since
/// text is never equal to a boolean.
pub proof fn json_text_is_compared_as_text(t: TranslatorModel, op: BoolOp, lhs: Expr, b: bool)
    requires
        t.expression(lhs) is Ok,
    ensures
        t.expression(
            (Expr::BoolExpr {
                op,
                lhs: Box::new(lhs),
                rhs: Box::new((Expr::Bool { value: Value::Bool(b) })),
            }),
        ) == Ok::<ExprModel, ErrorModel>(
            compared(
                op,
                t.expression(lhs)->Ok_0,
                if is_json_text(t.expression(lhs)->Ok_0) {
                    text_literal(
                        if b {
                            "true"@
                        } else {
                            "false"@
                        },
                    )
                } else {
                    ExprModel::Literal(LiteralModel::Boolean(b))
                },
            ),
        ),
{
    let literal = Expr::Bool { value: Value::Bool(b) };
    assert(t.expression(literal) == Ok::<ExprModel, ErrorModel>(
        ExprModel::Literal(LiteralModel::Boolean(b)),
    ));
}

/// A membership test lists the items of the array or set behind `IN`.
pub proof fn membership_lists_items(t: TranslatorModel, value: Expr, items: Vec<Expr>)
    requires
        t.expression(value) is Ok,
        t.expressions(items@) is Ok,
    ensures
        t.expression(
            (Expr::Membership {
                value: Box::new(value),
                collection: Box::new((Expr::SetExpr { items })),
            }),
        ) == Ok::<ExprModel, ErrorModel>(
            ExprModel::binary(
                SqlBinaryOp::In,
                t.expression(value)->Ok_0,
                ExprModel::Array(t.expressions(items@)->Ok_0),
            ),
        ),
{
    let list = Expr::SetExpr { items };
    assert(t.expression(list) == Ok::<ExprModel, ErrorModel>(
        ExprModel::Array(t.expressions(items@)->Ok_0),
    ));
}

/// A floating-point number stays one, even where it is whole; a signed integer
/// stays the integer it is.
pub proof fn numbers_keep_their_kind(f: FloatText, i: i64)
    ensures
        number_literal(Number::Float(f)) == LiteralModel::Float(f@),
        number_literal(Number::Int(i)) == LiteralModel::Integer(i),
{
}

/// A rule that is refused for its form leaves the translator as it was.
pub proof fn refused_rules_leave_no_trace(t: TranslatorModel, rule: Rule)
    requires
        match rule {
            Rule::Spec { head, bodies } => rule_pattern(head, bodies@) is Err,
            Rule::Default => true,
        },
    ensures
        t.rule(rule).0 == t,
        t.rule(rule).1 is Err,
{
}

/// A variable that an expression was assigned to stands for that expression from
/// then on.
pub proof fn assigned_variables_are_replaced(t: TranslatorModel, var: String, rhs: Expr)
    requires
        var@ != "input"@,
        !(rhs is Object),
        t.expression(rhs) is Ok,
    ensures
        ({
            let name = Expr::Var { value: Value::String(var) };
            match t.statement(
                (Literal::Expr {
                    expr: Expr::AssignExpr { lhs: Box::new(name), rhs: Box::new(rhs) },
                }),
            ) {
                Ok((next, columns)) => next.expression(name) == t.expression(rhs)
                    && columns.len() == 0 && next.conditions == t.conditions,
                Err(_) => false,
            }
        }),
{
    let name = Expr::Var { value: Value::String(var) };
    let assign = Expr::AssignExpr { lhs: Box::new(name), rhs: Box::new(rhs) };
    let literal = Literal::Expr { expr: assign };
    assert(t.value_columns(rhs) == Ok::<Seq<ColumnModel>, ErrorModel>(Seq::empty()));
    assert(t.statement(literal) is Ok);
}

/// Positions are counted from 0 in Rego and from 1 in SQL.
pub proof fn positions_are_shifted(n: i64)
    requires
        n < i64::MAX,
    ensures
        one_based(integer(n)) == Ok::<ExprModel, ErrorModel>(integer((n + 1) as i64)),
{
}

/// A column that a statement of a body indexes by a number, before or after, is
/// taken for an array: `count` asks for its array length.
pub proof fn indexed_columns_are_counted_as_arrays(
    t: TranslatorModel,
    body: RuleBody,
    i: int,
    column: Seq<char>,
)
    requires
        0 <= i < body.query.stmts@.len(),
        indexed_columns_of_statement(body.query.stmts@[i].literal).contains(column),
        !column.contains('.'),
        t.array_columns == indexed_columns_of_body(body),
    ensures
        t.function_call("count"@, seq![ExprModel::Column(column)]) == Ok::<ExprModel, ErrorModel>(
            call("ARRAY_LENGTH"@, seq![ExprModel::Column(column)]),
        ),
{
    lemma_body_indexes(body.query.stmts@, i);
    lemma_undotted(column);
    reveal_strlit("count");
    reveal_strlit("is_string");
    reveal_strlit("is_number");
    reveal_strlit("is_null");
    assert("count"@.len() == 5);
}

proof fn lemma_undotted(s: Seq<char>)
    requires
        !s.contains('.'),
    ensures
        after_last(s, '.') == s,
    decreases s.len(),
{
    if s.len() > 0 {
        assert(s.last() == s[s.len() - 1]);
        assert(forall|i: int| 0 <= i < s.drop_last().len() ==> s.drop_last()[i] == s[i]);
        lemma_undotted(s.drop_last());
        assert(s.drop_last().push(s.last()) =~= s);
    } else {
        assert(s =~= Seq::empty());
    }
}

proof fn lemma_body_indexes(stmts: Seq<LiteralStmt>, i: int)
    requires
        0 <= i < stmts.len(),
    ensures
        indexed_columns_of_statement(stmts[i].literal).subset_of(
            indexed_columns_of_statements(stmts),
        ),
    decreases stmts.len(),
{
    if i < stmts.len() - 1 {
        lemma_body_indexes(stmts.drop_last(), i);
    }
}

/// Columns of tables with different short names are told apart.
pub proof fn short_names_tell_tables_apart(
    tables: nat,
    a: Seq<char>,
    b: Seq<char>,
    field: Seq<char>,
)
    requires
        tables > 1,
        table_column(tables, a, field) == table_column(tables, b, field),
    ensures
        a == b,
{
    let left = a + "."@ + field;
    let right = b + "."@ + field;
    assert(left.len() == right.len());
    assert(left.take(a.len() as int) =~= a);
    assert(right.take(b.len() as int) =~= b);
}

} // verus!
