//! Laws of joining: the joins and the filter of a query together keep the rows that
//! meet the conditions of its rule.

use crate::ast::{Expr, Literal, LiteralStmt, RuleBody, Value};
use crate::errors::ErrorModel;
use crate::meaning_laws::{
    is_judgement, negated_statements_keep_meaning, statements_keep_meaning, World,
};
use crate::model::{ColumnModel, ExprModel, JoinConditionModel, JoinSourceModel, OperationModel};
use crate::sql_ir::{SqlBinaryOp, SqlJoinKind};
use crate::text::{before_first, begins_with};
use crate::translation::{
    aliases_of, assembled, conjunction, has_known_alias, indexed_columns_of_body, input_path,
    is_equality, is_join, joins, lemma_on_clause_step, lemma_row_conditions_step, on_clause,
    oriented, refers_to, row_conditions, stands_on, TranslatorModel,
};
use crate::translation_laws::{
    join_conditions_are_placed, names_joined_table, other_conditions_filter_rows,
    placed_conditions_are_written,
};
use vstd::prelude::*;

verus! {

/// Whether a column is one of the table with the given short name: the short name
/// and a dot stand before it.
pub open spec fn is_column_of(column: Seq<char>, alias: Seq<char>) -> bool {
    column.len() > alias.len() && column.take(alias.len() as int) == alias
        && column[alias.len() as int] == '.'
}

/// Whether a column is one of the tables with the given short names.
pub open spec fn is_known_column(column: Seq<char>, aliases: Seq<Seq<char>>) -> bool {
    exists|k: int|
        0 <= k < aliases.len() && !(#[trigger] aliases[k]).contains('.') && is_column_of(
            column,
            aliases[k],
        )
}

/// Whether a column is one of a table after the first.
pub open spec fn is_joined_column(column: Seq<char>, aliases: Seq<Seq<char>>) -> bool {
    exists|k: int|
        1 <= k < aliases.len() && (#[trigger] aliases[k]).len() > 0 && is_column_of(
            column,
            aliases[k],
        )
}

/// Whether a condition is left out of a query: it equates two columns of known
/// tables, neither of them one of a table after the first.
pub open spec fn is_left_out(e: ExprModel, aliases: Seq<Seq<char>>) -> bool {
    match e {
        ExprModel::Binary { op: SqlBinaryOp::Equal, left, right } => match (*left, *right) {
            (ExprModel::Column(l), ExprModel::Column(r)) => is_known_column(l, aliases)
                && is_known_column(r, aliases) && !is_joined_column(l, aliases)
                && !is_joined_column(r, aliases),
            _ => false,
        },
        _ => false,
    }
}

/// The condition that stands in an `ON` clause.
pub open spec fn written_condition(c: JoinConditionModel) -> ExprModel {
    ExprModel::Binary { op: c.operator, left: Box::new(c.left), right: Box::new(c.right) }
}

/// Whether an operation keeps a row: a filter where its condition passes, an inner
/// join where all conditions of its `ON` clause pass.
pub open spec fn operation_keeps<V>(w: World<V>, op: OperationModel) -> bool {
    match op {
        OperationModel::Where(e) => w.passes(e),
        OperationModel::Join { kind, source, on } => kind == SqlJoinKind::Inner && forall|i: int|
            0 <= i < on.len() ==> w.passes(written_condition(#[trigger] on[i])),
        _ => true,
    }
}

/// Whether a pipeline keeps a row.
pub open spec fn pipeline_keeps<V>(w: World<V>, ops: Seq<OperationModel>) -> bool {
    forall|i: int| 0 <= i < ops.len() ==> operation_keeps(w, #[trigger] ops[i])
}

/// What stands before the first dot of a column is the name that the column is of.
pub proof fn lemma_before_first(c: Seq<char>, a: Seq<char>)
    ensures
        (c.contains('.') && before_first(c, '.') == a) <==> (!a.contains('.') && is_column_of(
            c,
            a,
        )),
    decreases c.len(),
{
    if c.len() == 0 {
    } else if c[0] == '.' {
        assert(c.contains('.'));
        if !a.contains('.') && is_column_of(c, a) && a.len() > 0 {
            assert(c.take(a.len() as int)[0] == c[0]);
            assert(a.contains('.'));
        }
        if a.len() == 0 {
            assert(a =~= Seq::empty());
            assert(c.take(0) =~= a);
        }
    } else {
        let rest = c.drop_first();
        if c.contains('.') {
            let k = choose|k: int| 0 <= k < c.len() && c[k] == '.';
            assert(rest[k - 1] == '.');
        }
        if rest.contains('.') {
            let k = choose|k: int| 0 <= k < rest.len() && rest[k] == '.';
            assert(c[k + 1] == '.');
        }
        if a.len() > 0 {
            let b = a.drop_first();
            lemma_before_first(rest, b);
            if a.contains('.') {
                let k = choose|k: int| 0 <= k < a.len() && a[k] == '.';
                if k > 0 {
                    assert(b[k - 1] == '.');
                }
            }
            if b.contains('.') {
                let k = choose|k: int| 0 <= k < b.len() && b[k] == '.';
                assert(a[k + 1] == '.');
            }
            if c.contains('.') && before_first(c, '.') == a {
                assert(b =~= before_first(rest, '.'));
                assert(a[0] == c[0]);
                assert(c.take(a.len() as int) =~= seq![c[0]] + rest.take(b.len() as int));
                assert(seq![c[0]] + b =~= a);
            }
            if is_column_of(c, a) {
                assert(c.take(a.len() as int)[0] == c[0]);
                assert(rest.take(b.len() as int) =~= c.take(a.len() as int).drop_first());
                assert(seq![c[0]] + b =~= a);
            }
        } else {
            assert((seq![c[0]] + before_first(rest, '.')).len() > 0);
        }
    }
}

proof fn lemma_known(c: Seq<char>, aliases: Seq<Seq<char>>)
    ensures
        has_known_alias(c, aliases) <==> is_known_column(c, aliases),
{
    if has_known_alias(c, aliases) {
        let k = choose|k: int| 0 <= k < aliases.len() && aliases[k] == before_first(c, '.');
        lemma_before_first(c, aliases[k]);
    }
    if is_known_column(c, aliases) {
        let k = choose|k: int|
            0 <= k < aliases.len() && !(#[trigger] aliases[k]).contains('.') && is_column_of(
                c,
                aliases[k],
            );
        lemma_before_first(c, aliases[k]);
    }
}

proof fn lemma_column_refers(c: Seq<char>, alias: Seq<char>)
    ensures
        refers_to(ExprModel::Column(c), alias) <==> is_column_of(c, alias),
{
    reveal_strlit(".");
    let prefix = alias + "."@;
    if begins_with(c, prefix) {
        assert(c.take(alias.len() as int) =~= c.take(prefix.len() as int).take(
            alias.len() as int,
        ));
        assert(prefix.take(alias.len() as int) =~= alias);
        assert(c[alias.len() as int] == c.take(prefix.len() as int)[alias.len() as int]);
    }
    if is_column_of(c, alias) {
        assert(c.take(prefix.len() as int) =~= c.take(alias.len() as int).push(
            c[alias.len() as int],
        ));
        assert(prefix =~= alias.push('.'));
    }
}

/// What is left out is what joins tables and refers to no table after the first.
proof fn lemma_left_out(e: ExprModel, aliases: Seq<Seq<char>>)
    ensures
        is_left_out(e, aliases) <==> is_join(e, aliases) && !names_joined_table(e, aliases),
{
    match e {
        ExprModel::Binary { op: SqlBinaryOp::Equal, left, right } => match (*left, *right) {
            (ExprModel::Column(l), ExprModel::Column(r)) => {
                lemma_known(l, aliases);
                lemma_known(r, aliases);
                assert forall|k: int| 0 <= k < aliases.len() implies (refers_to(
                    e,
                    #[trigger] aliases[k],
                ) <==> is_column_of(l, aliases[k]) || is_column_of(r, aliases[k])) by {
                    lemma_column_refers(l, aliases[k]);
                    lemma_column_refers(r, aliases[k]);
                }
                if names_joined_table(e, aliases) {
                    let k = choose|k: int|
                        1 <= k < aliases.len() && aliases[k].len() > 0 && refers_to(
                            e,
                            #[trigger] aliases[k],
                        );
                    assert(is_column_of(l, aliases[k]) || is_column_of(r, aliases[k]));
                }
            },
            _ => {},
        },
        _ => {},
    }
}

proof fn lemma_conjunction<V>(w: World<V>, conditions: Seq<ExprModel>)
    requires
        w.tells_truth(),
        conditions.len() > 0,
    ensures
        w.passes(conjunction(conditions)) <==> forall|i: int|
            0 <= i < conditions.len() ==> w.passes(#[trigger] conditions[i]),
    decreases conditions.len(),
{
    if conditions.len() >= 2 {
        let shorter = conditions.drop_last();
        lemma_conjunction(w, shorter);
        let last = conditions.last();
        assert(w.passes(conjunction(conditions)) == (w.passes(conjunction(shorter)) && w.passes(
            last,
        )));
        if w.passes(conjunction(conditions)) {
            assert forall|i: int| 0 <= i < conditions.len() implies w.passes(
                #[trigger] conditions[i],
            ) by {
                if i < shorter.len() {
                    assert(w.passes(shorter[i]));
                }
            }
        }
        if forall|i: int| 0 <= i < conditions.len() ==> w.passes(#[trigger] conditions[i]) {
            assert forall|i: int| 0 <= i < shorter.len() implies w.passes(#[trigger] shorter[i]) by {
                assert(w.passes(conditions[i]));
            }
            assert(w.passes(conditions[conditions.len() - 1]));
        }
    }
}

/// An equality that is turned into a join condition, for whatever table, asks for the
/// same; nothing but an equality can be.
pub proof fn turned_conditions_keep_meaning<V>(w: World<V>, e: ExprModel, alias: Seq<char>)
    requires
        w.tells_truth(),
        w.is_symmetric(),
    ensures
        is_equality(e) <==> (e matches ExprModel::Binary { op, left, right } && op
            == SqlBinaryOp::Equal),
        is_equality(e) ==> w.passes(written_condition(oriented(e, alias))) == w.passes(e),
{
    match e {
        ExprModel::Binary { op, left, right } => {
            assert((w.order)(w.value(*left), w.value(*right)) == 0 <==> (w.order)(
                w.value(*right),
                w.value(*left),
            ) == 0);
        },
        _ => {},
    }
}

/// Every condition of an `ON` clause comes from a condition that stands there.
proof fn lemma_on_clause_origin(
    conditions: Seq<ExprModel>,
    idx: int,
    aliases: Seq<Seq<char>>,
    j: int,
)
    requires
        0 <= j < on_clause(conditions, idx, aliases).len(),
    ensures
        exists|k: int|
            0 <= k < conditions.len() && stands_on(#[trigger] conditions[k], idx, aliases)
                && on_clause(conditions, idx, aliases)[j] == oriented(conditions[k], aliases[idx]),
    decreases conditions.len(),
{
    lemma_on_clause_step(conditions, idx, aliases);
    let shorter = conditions.drop_last();
    let before = on_clause(shorter, idx, aliases);
    if j < before.len() {
        lemma_on_clause_origin(shorter, idx, aliases, j);
        let k = choose|k: int|
            0 <= k < shorter.len() && stands_on(#[trigger] shorter[k], idx, aliases) && before[j]
                == oriented(shorter[k], aliases[idx]);
        assert(conditions[k] == shorter[k]);
    } else {
        assert(conditions[conditions.len() - 1] == conditions.last());
    }
}

/// The conditions of all `ON` clauses together with the filter keep a row exactly
/// where every condition passes. The exceptions are equalities within the first
/// table, which are left out.
pub proof fn query_keeps_what_conditions_ask<V>(
    w: World<V>,
    tables: Seq<(Seq<char>, Seq<char>)>,
    aliases: Seq<Seq<char>>,
    conditions: Seq<ExprModel>,
    source: Seq<char>,
    columns: Seq<ColumnModel>,
)
    requires
        w.tells_truth(),
        w.is_symmetric(),
        tables.len() == aliases.len(),
    ensures
        pipeline_keeps(w, assembled(tables, aliases, conditions, source, columns).pipeline)
            <==> forall|i: int|
            0 <= i < conditions.len() && !is_left_out(#[trigger] conditions[i], aliases)
                ==> w.passes(conditions[i]),
{
    let pipeline = assembled(tables, aliases, conditions, source, columns).pipeline;
    let first = joins(tables, aliases, conditions);
    let rows = row_conditions(conditions, aliases);
    assert forall|i: int| 0 <= i < first.len() implies #[trigger] pipeline[i] == first[i] by {}
    if rows.len() > 0 {
        assert(pipeline[first.len() as int] == OperationModel::Where(conjunction(rows)));
        lemma_conjunction(w, rows);
    }
    if pipeline_keeps(w, pipeline) {
        assert forall|i: int|
            0 <= i < conditions.len() && !is_left_out(
                #[trigger] conditions[i],
                aliases,
            ) implies w.passes(conditions[i]) by {
            let e = conditions[i];
            lemma_left_out(e, aliases);
            assert(conditions.contains(e));
            if is_join(e, aliases) {
                let k = choose|k: int|
                    1 <= k < aliases.len() && aliases[k].len() > 0 && refers_to(
                        e,
                        #[trigger] aliases[k],
                    );
                join_conditions_are_placed(e, aliases, k);
                let idx = choose|idx: int|
                    k <= idx < aliases.len() && #[trigger] stands_on(e, idx, aliases);
                placed_conditions_are_written(conditions, aliases, e, idx);
                let on = on_clause(conditions, idx, aliases);
                let j = choose|j: int| 0 <= j < on.len() && on[j] == oriented(e, aliases[idx]);
                assert(operation_keeps(w, pipeline[idx - 1]));
                assert(pipeline[idx - 1] == first[idx - 1]);
                assert(w.passes(written_condition(on[j])));
                turned_conditions_keep_meaning(w, e, aliases[idx]);
            } else {
                other_conditions_filter_rows(conditions, aliases, e);
                let j = choose|j: int| 0 <= j < rows.len() && rows[j] == e;
                assert(operation_keeps(w, pipeline[first.len() as int]));
                assert(w.passes(rows[j]));
            }
        }
    }
    if forall|i: int|
        0 <= i < conditions.len() && !is_left_out(#[trigger] conditions[i], aliases) ==> w.passes(
            conditions[i],
        ) {
        assert forall|i: int| 0 <= i < pipeline.len() implies operation_keeps(
            w,
            #[trigger] pipeline[i],
        ) by {
            if i < first.len() {
                let on = on_clause(conditions, i + 1, aliases);
                assert(pipeline[i] == first[i]);
                assert forall|j: int| 0 <= j < on.len() implies w.passes(
                    written_condition(#[trigger] on[j]),
                ) by {
                    lemma_on_clause_origin(conditions, i + 1, aliases, j);
                    let k = choose|k: int|
                        0 <= k < conditions.len() && stands_on(
                            #[trigger] conditions[k],
                            i + 1,
                            aliases,
                        ) && on[j] == oriented(conditions[k], aliases[i + 1]);
                    let e = conditions[k];
                    lemma_left_out(e, aliases);
                    assert(refers_to(e, aliases[i + 1]));
                    turned_conditions_keep_meaning(w, e, aliases[i + 1]);
                }
            } else if rows.len() > 0 && i == first.len() {
                assert forall|j: int| 0 <= j < rows.len() implies w.passes(#[trigger] rows[j]) by {
                    let e = rows[j];
                    assert(rows.contains(e));
                    other_conditions_filter_rows(conditions, aliases, e);
                    lemma_left_out(e, aliases);
                    let k = choose|k: int| 0 <= k < conditions.len() && conditions[k] == e;
                    assert(w.passes(conditions[k]));
                }
            }
        }
    }
}

/// An equality of columns of two known tables, one of them joined, stands in the `ON`
/// clause of the last table that it names, and does not filter rows. Every condition
/// of another form filters rows.
pub proof fn equalities_of_columns_join(
    conditions: Seq<ExprModel>,
    aliases: Seq<Seq<char>>,
    l: Seq<char>,
    r: Seq<char>,
    k: int,
    other: ExprModel,
)
    requires
        conditions.contains(
            (ExprModel::Binary {
                op: SqlBinaryOp::Equal,
                left: Box::new(ExprModel::Column(l)),
                right: Box::new(ExprModel::Column(r)),
            }),
        ),
        is_known_column(l, aliases),
        is_known_column(r, aliases),
        1 <= k < aliases.len(),
        aliases[k].len() > 0,
        is_column_of(l, aliases[k]) || is_column_of(r, aliases[k]),
        forall|j: int|
            k < j < aliases.len() && (#[trigger] aliases[j]).len() > 0 ==> !is_column_of(
                l,
                aliases[j],
            ) && !is_column_of(r, aliases[j]),
        conditions.contains(other),
        !(other matches ExprModel::Binary { op: SqlBinaryOp::Equal, left, right } && *left is Column
            && *right is Column),
    ensures
        ({
            let straight = JoinConditionModel {
                left: ExprModel::Column(l),
                right: ExprModel::Column(r),
                operator: SqlBinaryOp::Equal,
            };
            let turned = JoinConditionModel {
                left: ExprModel::Column(r),
                right: ExprModel::Column(l),
                operator: SqlBinaryOp::Equal,
            };
            &&& on_clause(conditions, k, aliases).contains(straight) || on_clause(
                conditions,
                k,
                aliases,
            ).contains(turned)
            &&& !row_conditions(conditions, aliases).contains(written_condition(straight))
            &&& row_conditions(conditions, aliases).contains(other)
        }),
{
    let e = ExprModel::Binary {
        op: SqlBinaryOp::Equal,
        left: Box::new(ExprModel::Column(l)),
        right: Box::new(ExprModel::Column(r)),
    };
    lemma_known(l, aliases);
    lemma_known(r, aliases);
    assert(is_join(e, aliases));
    assert forall|i: int| 0 <= i < aliases.len() implies (refers_to(e, #[trigger] aliases[i])
        <==> is_column_of(l, aliases[i]) || is_column_of(r, aliases[i])) by {
        lemma_column_refers(l, aliases[i]);
        lemma_column_refers(r, aliases[i]);
    }
    assert(stands_on(e, k, aliases));
    placed_conditions_are_written(conditions, aliases, e, k);
    other_conditions_filter_rows(conditions, aliases, e);
    other_conditions_filter_rows(conditions, aliases, other);
}

/// Conditions keep their order, in the filter and in every `ON` clause.
pub proof fn conditions_keep_their_order(
    a: Seq<ExprModel>,
    b: Seq<ExprModel>,
    idx: int,
    aliases: Seq<Seq<char>>,
)
    ensures
        row_conditions(a + b, aliases) == row_conditions(a, aliases) + row_conditions(b, aliases),
        on_clause(a + b, idx, aliases) == on_clause(a, idx, aliases) + on_clause(b, idx, aliases),
    decreases b.len(),
{
    lemma_row_conditions_step(b, aliases);
    lemma_on_clause_step(b, idx, aliases);
    if b.len() == 0 {
        assert(a + b =~= a);
        assert(row_conditions(a, aliases) + row_conditions(b, aliases) =~= row_conditions(
            a,
            aliases,
        ));
        assert(on_clause(a, idx, aliases) + on_clause(b, idx, aliases) =~= on_clause(
            a,
            idx,
            aliases,
        ));
    } else {
        conditions_keep_their_order(a, b.drop_last(), idx, aliases);
        lemma_row_conditions_step(a + b, aliases);
        lemma_on_clause_step(a + b, idx, aliases);
        assert((a + b).drop_last() =~= a + b.drop_last());
        assert((a + b).last() == b.last());
        assert(row_conditions(a + b, aliases) =~= row_conditions(a, aliases) + row_conditions(
            b,
            aliases,
        ));
        assert(on_clause(a + b, idx, aliases) =~= on_clause(a, idx, aliases) + on_clause(
            b,
            idx,
            aliases,
        ));
    }
}

/// A condition stands in an `ON` clause as it was asked for: the same operator
/// between the same two sides, and the side of the joined table on the right. The
/// clause names no table that is joined only later.
pub proof fn join_conditions_are_those_asked_for(
    conditions: Seq<ExprModel>,
    idx: int,
    aliases: Seq<Seq<char>>,
    j: int,
)
    requires
        0 <= idx < aliases.len(),
        0 <= j < on_clause(conditions, idx, aliases).len(),
    ensures
        ({
            let c = on_clause(conditions, idx, aliases)[j];
            &&& c.operator == SqlBinaryOp::Equal
            &&& conditions.contains(written_condition(c)) || conditions.contains(
                written_condition((JoinConditionModel { left: c.right, right: c.left, ..c })),
            )
            &&& match (c.left, c.right) {
                (ExprModel::Column(l), ExprModel::Column(r)) => is_column_of(r, aliases[idx])
                    && forall|k: int|
                    idx < k < aliases.len() && (#[trigger] aliases[k]).len() > 0 ==> !is_column_of(
                        l,
                        aliases[k],
                    ) && !is_column_of(r, aliases[k]),
                _ => false,
            }
        }),
{
    lemma_on_clause_origin(conditions, idx, aliases, j);
    let c = on_clause(conditions, idx, aliases)[j];
    let k = choose|k: int|
        0 <= k < conditions.len() && stands_on(#[trigger] conditions[k], idx, aliases) && c
            == oriented(conditions[k], aliases[idx]);
    let e = conditions[k];
    assert(conditions.contains(e));
    match e {
        ExprModel::Binary { op, left, right } => match (*left, *right) {
            (ExprModel::Column(l), ExprModel::Column(r)) => {
                lemma_column_refers(l, aliases[idx]);
                lemma_column_refers(r, aliases[idx]);
                assert forall|i: int|
                    idx < i < aliases.len() && (#[trigger] aliases[i]).len()
                        > 0 implies !is_column_of(l, aliases[i]) && !is_column_of(
                    r,
                    aliases[i],
                ) by {
                    lemma_column_refers(l, aliases[i]);
                    lemma_column_refers(r, aliases[i]);
                    assert(!refers_to(e, aliases[i]));
                }
                assert(e == ExprModel::Binary { op, left: Box::new(*left), right: Box::new(*right) });
            },
            _ => {},
        },
        _ => {},
    }
}

/// A table with a short name behind it, if it has one.
pub open spec fn named_table(table: Seq<char>, alias: Seq<char>) -> Seq<char> {
    if alias.len() == 0 {
        table
    } else {
        table + seq![' '] + alias
    }
}

/// Every table of a rule stands once in its query, in the order of the rule, with its
/// short name behind it where there are several. Every table after the first is joined,
/// and nothing else is.
pub proof fn tables_stand_in_order(
    tables: Seq<(Seq<char>, Seq<char>)>,
    aliases: Seq<Seq<char>>,
    conditions: Seq<ExprModel>,
    source: Seq<char>,
    columns: Seq<ColumnModel>,
)
    requires
        tables.len() == aliases.len(),
        tables.len() > 0,
    ensures
        ({
            let q = assembled(tables, aliases, conditions, source, columns);
            &&& q.source == if tables.len() == 1 {
                source
            } else {
                named_table(source, aliases[0])
            }
            &&& q.ctes.len() == 0
            &&& q.projection is None
            &&& q.pipeline.len() >= tables.len() - 1
            &&& forall|i: int|
                0 <= i < q.pipeline.len() ==> ((#[trigger] q.pipeline[i]) is Join <==> i
                    < tables.len() - 1)
            &&& forall|i: int|
                0 <= i < tables.len() - 1 ==> match #[trigger] q.pipeline[i] {
                    OperationModel::Join { kind, source, on } => kind == SqlJoinKind::Inner
                        && source == JoinSourceModel::Table(
                        named_table(tables[i + 1].0, aliases[i + 1]),
                    ) && on == on_clause(conditions, i + 1, aliases),
                    _ => false,
                }
        }),
{
    reveal_strlit(" ");
    assert(" "@ =~= seq![' ']);
    let q = assembled(tables, aliases, conditions, source, columns);
    let first = joins(tables, aliases, conditions);
    assert forall|i: int| 0 <= i < tables.len() - 1 implies #[trigger] q.pipeline[i]
        == first[i] by {}
    assert forall|i: int| 0 <= i < tables.len() - 1 implies match #[trigger] q.pipeline[i] {
        OperationModel::Join { kind, source, on } => kind == SqlJoinKind::Inner && source
            == JoinSourceModel::Table(named_table(tables[i + 1].0, aliases[i + 1])) && on
            == on_clause(conditions, i + 1, aliases),
        _ => false,
    } by {
        assert(q.pipeline[i] == first[i]);
    }
}

/// A field of a variable that ranges over a table is a column of that table: where
/// there are several tables, the short name before the column is the one that
/// stands behind the table in the query.
pub proof fn columns_name_their_table(t: TranslatorModel, i: int, var: String, field: String)
    requires
        0 <= i < t.tables_seen.len(),
        t.tables_seen[i].1 == var@,
        t.table_variables.contains(var@),
        var@ != "input"@,
    ensures
        t.expression(
            (Expr::RefDot {
                refr: Box::new((Expr::Var { value: Value::String(var) })),
                field: Value::String(field),
            }),
        ) == Ok::<ExprModel, ErrorModel>(
            ExprModel::Column(
                if t.tables_seen.len() == 1 {
                    field@
                } else {
                    aliases_of(t.tables_seen)[i] + seq!['.'] + field@
                },
            ),
        ),
{
    reveal_strlit(".");
    assert("."@ =~= seq!['.']);
    let name = Expr::Var { value: Value::String(var) };
    let e = Expr::RefDot { refr: Box::new(name), field: Value::String(field) };
    assert(input_path(name) == Ok::<Option<Seq<Seq<char>>>, ErrorModel>(None));
    assert(input_path(e) == Ok::<Option<Seq<Seq<char>>>, ErrorModel>(None));
    assert(t.reference_parts(e) is Ok);
    assert(t.reference_parts(e)->Ok_0.1.len() == 0);
}

/// Whether a row meets a statement, where the statement is translated as it stands.
pub open spec fn meets<V>(w: World<V>, t: TranslatorModel, literal: Literal) -> bool {
    match literal {
        Literal::Expr { expr } => expr is AssignExpr || match t.expression(expr) {
            Ok(e) => if is_judgement(e) {
                w.passes(e)
            } else {
                !(w.is_null)(w.value(e))
            },
            Err(_) => false,
        },
        Literal::NotExpr { expr } => match t.expression(expr) {
            Ok(e) => !w.passes(e),
            Err(_) => false,
        },
        _ => true,
    }
}

/// Whether a row meets all statements, each translated behind those before it.
pub open spec fn meets_all<V>(w: World<V>, t: TranslatorModel, stmts: Seq<LiteralStmt>) -> bool
    decreases stmts.len(),
{
    stmts.len() > 0 ==> meets_all(w, t, stmts.drop_last()) && meets(
        w,
        t.statements(stmts.drop_last()).0,
        stmts.last().literal,
    )
}

/// Whether all conditions pass.
pub open spec fn all_pass<V>(w: World<V>, conditions: Seq<ExprModel>) -> bool {
    forall|i: int| 0 <= i < conditions.len() ==> w.passes(#[trigger] conditions[i])
}

proof fn lemma_all_pass_push<V>(w: World<V>, conditions: Seq<ExprModel>, c: ExprModel)
    ensures
        all_pass(w, conditions.push(c)) == (all_pass(w, conditions) && w.passes(c)),
{
    let more = conditions.push(c);
    if all_pass(w, more) {
        assert forall|i: int| 0 <= i < conditions.len() implies w.passes(
            #[trigger] conditions[i],
        ) by {
            assert(more[i] == conditions[i]);
        }
        assert(w.passes(more[conditions.len() as int]));
    }
}

#[verifier::rlimit(40)]
proof fn lemma_statement_meets<V>(w: World<V>, t: TranslatorModel, literal: Literal)
    requires
        w.tells_truth(),
    ensures
        match t.statement(literal) {
            Ok((next, _)) => all_pass(w, next.conditions) == (all_pass(w, t.conditions) && meets(
                w,
                t,
                literal,
            )),
            Err(_) => true,
        },
{
    match t.statement(literal) {
        Ok((next, _)) => match literal {
            Literal::Expr { expr } => {
                if !(expr is AssignExpr) {
                    let e = t.expression(expr)->Ok_0;
                    statements_keep_meaning(w, t, expr, e);
                    lemma_all_pass_push(w, t.conditions, next.conditions.last());
                    assert(next.conditions =~= t.conditions.push(next.conditions.last()));
                }
            },
            Literal::NotExpr { expr } => {
                let e = t.expression(expr)->Ok_0;
                negated_statements_keep_meaning(w, t, expr, e);
                lemma_all_pass_push(w, t.conditions, next.conditions.last());
                assert(next.conditions =~= t.conditions.push(next.conditions.last()));
            },
            _ => {},
        },
        Err(_) => {},
    }
}

/// The conditions that the statements of a body add all pass exactly where a row
/// meets every statement.
#[verifier::rlimit(40)]
pub proof fn conditions_ask_for_all_statements<V>(
    w: World<V>,
    t: TranslatorModel,
    stmts: Seq<LiteralStmt>,
)
    requires
        w.tells_truth(),
        t.statements(stmts).1 is Ok,
    ensures
        all_pass(w, t.statements(stmts).0.conditions) == (all_pass(w, t.conditions) && meets_all(
            w,
            t,
            stmts,
        )),
    decreases stmts.len(),
{
    if stmts.len() > 0 {
        let shorter = stmts.drop_last();
        conditions_ask_for_all_statements(w, t, shorter);
        lemma_statement_meets(w, t.statements(shorter).0, stmts.last().literal);
    }
}

/// The query of a body keeps exactly the rows that meet all of its statements. An
/// equality within the first of several tables is left out of the query, so bodies
/// with one are left out here.
#[verifier::rlimit(50)]
pub proof fn body_keeps_rows_that_meet_it<V>(w: World<V>, t: TranslatorModel, body: RuleBody)
    requires
        w.tells_truth(),
        w.is_symmetric(),
        t.conditions.len() == 0,
        t.body(body).1 is Ok,
        forall|i: int|
            0 <= i < t.body(body).0.conditions.len() ==> !is_left_out(
                #[trigger] t.body(body).0.conditions[i],
                aliases_of(t.body(body).0.tables_seen),
            ),
    ensures
        ({
            let ready = TranslatorModel {
                array_columns: indexed_columns_of_body(body),
                ..t.tables_found(body.query.stmts@).0
            };
            pipeline_keeps(w, t.body(body).1->Ok_0.pipeline) <==> meets_all(
                w,
                ready,
                body.query.stmts@,
            )
        }),
{
    let stmts = body.query.stmts@;
    let ready = TranslatorModel {
        array_columns: indexed_columns_of_body(body),
        ..t.tables_found(stmts).0
    };
    let done = t.body(body).0;
    lemma_tables_ask_nothing(t, stmts);
    conditions_ask_for_all_statements(w, ready, stmts);
    assert(all_pass(w, ready.conditions));
    let aliases = aliases_of(done.tables_seen);
    let source = done.source()->Ok_0;
    let columns = match body.assign {
        Some(assign) => ready.statements(stmts).1->Ok_0 + done.value_columns(
            assign.value,
        )->Ok_0,
        None => ready.statements(stmts).1->Ok_0,
    };
    query_keeps_what_conditions_ask(w, done.tables_seen, aliases, done.conditions, source, columns);
    if all_pass(w, done.conditions) {
        assert forall|i: int|
            0 <= i < done.conditions.len() && !is_left_out(
                #[trigger] done.conditions[i],
                aliases,
            ) implies w.passes(done.conditions[i]) by {}
    }
}

/// The search for tables adds no condition.
proof fn lemma_tables_ask_nothing(t: TranslatorModel, stmts: Seq<LiteralStmt>)
    ensures
        t.tables_found(stmts).0.conditions == t.conditions,
    decreases stmts.len(),
{
    if stmts.len() > 0 {
        lemma_tables_ask_nothing(t, stmts.drop_last());
    }
}

} // verus!
