//! Conditions on several tables: which of them join the tables, where they
//! stand, and the query that is put together from them.

use crate::errors::{reject, ErrorModel, Fault, TranslateError};
use crate::model::{branch_models, column_models, expr_models, join_condition_models};
use crate::sql_ir::{
    BuilderModel, SqlBinaryOp, SqlColumn, SqlExpression, SqlJoinCondition, SqlJoinKind, SqlQuery,
    SqlQueryBuilder,
};
use crate::text::{cat2, cat3, first_segment, has_char, has_prefix, same_text, texts};
use crate::translation::{
    any_branch_refers_to, any_refers_to, assembled, belongs_to, conjunction, has_known_alias,
    is_equality, is_join, joins, lemma_on_clause_step, lemma_row_conditions_step,
    on_clause, oriented, refers_to, row_conditions, stands_on, table_column, with_alias,
};
use vstd::prelude::*;

verus! {

/// All of the conditions at once.
pub fn combine_conditions(conditions: &Vec<SqlExpression>) -> (r: SqlExpression)
    ensures
        r@ == conjunction(expr_models(conditions@)),
{
    if conditions.len() == 0 {
        return SqlExpression::bool_literal(true);
    }
    let ghost all = expr_models(conditions@);
    let mut result: SqlExpression = conditions[0].clone();
    proof {
        assert(all.take(1)[0] == all[0]);
    }
    for i in 1..conditions.len()
        invariant
            conditions@.len() > 0,
            all == expr_models(conditions@),
            result@ == conjunction(all.take(i as int)),
    {
        proof {
            assert(all.take(i + 1).drop_last() =~= all.take(i as int));
        }
        result = SqlExpression::and(result, conditions[i].clone());
    }
    proof {
        assert(all.take(all.len() as int) =~= all);
    }
    result
}

/// The column for a field of the table with the given short name. The table is
/// named only where it is not the only one.
pub fn make_table_column(tables: usize, alias: &str, field: &str) -> (r: SqlExpression)
    ensures
        r@ == table_column(tables as nat, alias@, field@),
{
    if tables == 1 {
        SqlExpression::column(field)
    } else {
        let name: String = cat3(alias, ".", field);
        SqlExpression::column(name.as_str())
    }
}

/// The pairs of names in a list of pairs of strings.
pub open spec fn name_pairs(v: Seq<(String, String)>) -> Seq<(Seq<char>, Seq<char>)> {
    v.map_values(|t: (String, String)| (t.0@, t.1@))
}

/// Whether a name is among the names.
pub(crate) fn has_name(names: &Vec<String>, name: &str) -> (r: bool)
    ensures
        r == texts(names@).contains(name@),
{
    for i in 0..names.len()
        invariant
            forall|j: int| 0 <= j < i ==> (#[trigger] names@[j])@ != name@,
    {
        if same_text(names[i].as_str(), name) {
            proof {
                assert(texts(names@)[i as int] == name@);
            }
            return true;
        }
    }
    false
}

/// Whether a column has one of the given short names before its first dot.
pub fn col_has_known_alias(col: &str, aliases: &Vec<String>) -> (r: bool)
    ensures
        r == has_known_alias(col@, texts(aliases@)),
{
    let prefix: String = first_segment(col, '.');
    has_char(col, '.') && has_name(aliases, prefix.as_str())
}

/// Whether a condition joins tables: it equates two columns of tables with the
/// given short names.
pub fn is_join_condition(cond: &SqlExpression, aliases: &Vec<String>) -> (r: bool)
    ensures
        r == is_join(cond@, texts(aliases@)),
{
    match cond {
        SqlExpression::Binary { op: SqlBinaryOp::Equal, left, right } => {
            proof {
                assert(left@ is Column <==> **left is Column);
                assert(right@ is Column <==> **right is Column);
            }
            match (&**left, &**right) {
                (SqlExpression::Column(l), SqlExpression::Column(r)) => col_has_known_alias(
                    l.as_str(),
                    aliases,
                ) && col_has_known_alias(r.as_str(), aliases),
                _ => false,
            }
        },
        _ => false,
    }
}

/// Whether an expression refers to a column of the table with the given short
/// name.
pub fn expression_contains_table_alias(expr: &SqlExpression, alias: &str) -> (r: bool)
    ensures
        r == refers_to(expr@, alias@),
    decreases expr, 0int,
{
    match expr {
        SqlExpression::Column(name) => {
            let prefix: String = cat2(alias, ".");
            has_prefix(name.as_str(), prefix.as_str())
        },
        SqlExpression::Binary { left, right, .. } => expression_contains_table_alias(left, alias)
            || expression_contains_table_alias(right, alias),
        SqlExpression::Unary { operand, .. } => expression_contains_table_alias(operand, alias),
        SqlExpression::Function { name, args } => any_contains_table_alias(args, alias),
        SqlExpression::Array(items) => any_contains_table_alias(items, alias),
        SqlExpression::Case { conditions, default } => any_branch_contains_table_alias(
            conditions,
            alias,
        ) || (match default {
            Some(d) => expression_contains_table_alias(d, alias),
            None => false,
        }),
        SqlExpression::Parenthesized(inner) => expression_contains_table_alias(inner, alias),
        SqlExpression::Cast { expression, .. } => expression_contains_table_alias(
            expression,
            alias,
        ),
        SqlExpression::Between { expression, lower, upper, .. } => expression_contains_table_alias(
            expression,
            alias,
        ) || expression_contains_table_alias(lower, alias) || expression_contains_table_alias(
            upper,
            alias,
        ),
        SqlExpression::ArrayIndex { expr: array, index } => expression_contains_table_alias(
            array,
            alias,
        ) || expression_contains_table_alias(index, alias),
        SqlExpression::Literal(_) => false,
        SqlExpression::InjectedVariable(_) => false,
        SqlExpression::Subquery(_) => false,
    }
}

/// Whether any of the expressions refers to a column of the table.
fn any_contains_table_alias(exprs: &Vec<SqlExpression>, alias: &str) -> (r: bool)
    ensures
        r == any_refers_to(expr_models(exprs@), alias@),
    decreases exprs, 0int,
{
    let ghost models = expr_models(exprs@);
    let mut found: bool = false;
    for i in 0..exprs.len()
        invariant
            models == expr_models(exprs@),
            found == any_refers_to(models.take(i as int), alias@),
    {
        proof {
            assert(models.take(i + 1).drop_last() =~= models.take(i as int));
        }
        found = found || expression_contains_table_alias(&exprs[i], alias);
    }
    proof {
        assert(models.take(models.len() as int) =~= models);
    }
    found
}

/// Whether any of the branches refers to a column of the table.
fn any_branch_contains_table_alias(
    branches: &Vec<(SqlExpression, SqlExpression)>,
    alias: &str,
) -> (r: bool)
    ensures
        r == any_branch_refers_to(branch_models(branches@), alias@),
    decreases branches, 0int,
{
    let ghost models = branch_models(branches@);
    let mut found: bool = false;
    for i in 0..branches.len()
        invariant
            models == branch_models(branches@),
            found == any_branch_refers_to(models.take(i as int), alias@),
    {
        proof {
            assert(models.take(i + 1).drop_last() =~= models.take(i as int));
        }
        found = found || expression_contains_table_alias(&branches[i].0, alias)
            || expression_contains_table_alias(&branches[i].1, alias);
    }
    proof {
        assert(models.take(models.len() as int) =~= models);
    }
    found
}

/// Whether a join condition stands in the `ON` clause of table number `var_idx`:
/// it refers to that table and to no table after it.
pub fn is_condition_for_var(cond: &SqlExpression, var_idx: usize, aliases: &Vec<String>) -> (r: bool)
    requires
        var_idx < aliases@.len(),
    ensures
        r == belongs_to(cond@, var_idx as int, texts(aliases@)),
{
    let ghost names = texts(aliases@);
    if is_empty(aliases[var_idx].as_str()) || !expression_contains_table_alias(
        cond,
        aliases[var_idx].as_str(),
    ) {
        return false;
    }
    let count: usize = aliases.len();
    let mut j: usize = var_idx + 1;
    while j < count
        invariant
            var_idx < j <= count,
            count == aliases@.len(),
            names == texts(aliases@),
            forall|k: int|
                var_idx < k < j && names[k].len() > 0 ==> !refers_to(cond@, #[trigger] names[k]),
        decreases aliases@.len() - j,
    {
        if !is_empty(aliases[j].as_str()) && expression_contains_table_alias(
            cond,
            aliases[j].as_str(),
        ) {
            proof {
                assert(refers_to(cond@, names[j as int]));
            }
            return false;
        }
        j = j + 1;
    }
    true
}

/// Whether a text is empty.
pub(crate) fn is_empty(s: &str) -> (r: bool)
    ensures
        r == (s@.len() == 0),
{
    proof {
        reveal_strlit("");
        if s@.len() == 0 {
            assert(s@ =~= ""@);
        }
    }
    same_text(s, "")
}

/// Turns an equality into a join condition for the table with the given short
/// name: the side of the earlier table comes to stand on the left.
pub fn extract_join_condition(cond: &SqlExpression, alias: &str) -> (r: Result<
    SqlJoinCondition,
    TranslateError,
>)
    ensures
        match r {
            Ok(join) => is_equality(cond@) && join.model() == oriented(cond@, alias@),
            Err(error) => !is_equality(cond@) && error@ == ErrorModel::Rejected(
                Fault::JoinCondition,
            ),
        },
{
    match cond {
        SqlExpression::Binary { op: SqlBinaryOp::Equal, left, right } => {
            let (first, second) = if expression_contains_table_alias(left, alias) {
                (right, left)
            } else {
                (left, right)
            };
            Ok(
                SqlJoinCondition {
                    left: (**first).clone(),
                    right: (**second).clone(),
                    operator: SqlBinaryOp::Equal,
                },
            )
        },
        _ => reject(Fault::JoinCondition),
    }
}

/// A table with its short name behind it, where it has one.
fn make_aliased(table: &str, alias: &str) -> (r: String)
    ensures
        r@ == with_alias(table@, alias@),
{
    if is_empty(alias) {
        table.to_string()
    } else {
        cat3(table, " ", alias)
    }
}

/// What a condition says in the `ON` clause of table number `idx`, if it stands
/// there.
fn make_join_condition(cond: &SqlExpression, idx: usize, aliases: &Vec<String>) -> (r: Option<
    SqlJoinCondition,
>)
    requires
        idx < aliases@.len(),
    ensures
        match r {
            Some(join) => stands_on(cond@, idx as int, texts(aliases@)) && join.model()
                == oriented(cond@, texts(aliases@)[idx as int]),
            None => !stands_on(cond@, idx as int, texts(aliases@)),
        },
{
    if is_join_condition(cond, aliases) && is_condition_for_var(cond, idx, aliases) {
        match extract_join_condition(cond, aliases[idx].as_str()) {
            Ok(join) => Some(join),
            Err(_) => None,
        }
    } else {
        None
    }
}

/// Appends what a condition says in the `ON` clause of table number `idx`.
fn push_join_condition(
    on: &mut Vec<SqlJoinCondition>,
    cond: &SqlExpression,
    idx: usize,
    aliases: &Vec<String>,
)
    requires
        idx < aliases@.len(),
    ensures
        join_condition_models(final(on)@) == if stands_on(cond@, idx as int, texts(aliases@)) {
            join_condition_models(old(on)@).push(oriented(cond@, texts(aliases@)[idx as int]))
        } else {
            join_condition_models(old(on)@)
        },
{
    if let Some(join) = make_join_condition(cond, idx, aliases) {
        on.push(join);
        proof {
            assert(join_condition_models(on@) =~= join_condition_models(old(on)@).push(
                join.model(),
            ));
        }
    }
}

/// Whether the join conditions are the `ON` clause of table number `idx` for the
/// first `n` of the conditions.
#[verifier::opaque]
spec fn holds_on_clause(
    on: Seq<SqlJoinCondition>,
    conditions: Seq<SqlExpression>,
    n: int,
    idx: int,
    aliases: Seq<Seq<char>>,
) -> bool {
    join_condition_models(on) == on_clause(expr_models(conditions).take(n), idx, aliases)
}

proof fn lemma_holds_on_clause_step(
    before: Seq<SqlJoinCondition>,
    after: Seq<SqlJoinCondition>,
    conditions: Seq<SqlExpression>,
    n: int,
    idx: int,
    aliases: Seq<Seq<char>>,
)
    requires
        0 <= n < conditions.len(),
        holds_on_clause(before, conditions, n, idx, aliases),
        join_condition_models(after) == if stands_on(conditions[n]@, idx, aliases) {
            join_condition_models(before).push(oriented(conditions[n]@, aliases[idx]))
        } else {
            join_condition_models(before)
        },
    ensures
        holds_on_clause(after, conditions, n + 1, idx, aliases),
{
    reveal(holds_on_clause);
    let all = expr_models(conditions);
    assert(all.take(n + 1).drop_last() =~= all.take(n));
    assert(all.take(n + 1).last() == conditions[n]@);
    lemma_on_clause_step(all.take(n + 1), idx, aliases);
}

/// The `ON` clause of the join with table number `idx`.
fn make_on_clause(conditions: &Vec<SqlExpression>, idx: usize, aliases: &Vec<String>) -> (r: Vec<
    SqlJoinCondition,
>)
    requires
        idx < aliases@.len(),
    ensures
        join_condition_models(r@) == on_clause(
            expr_models(conditions@),
            idx as int,
            texts(aliases@),
        ),
{
    let mut on: Vec<SqlJoinCondition> = Vec::new();
    proof {
        reveal(holds_on_clause);
        lemma_on_clause_step(expr_models(conditions@).take(0), idx as int, texts(aliases@));
        assert(join_condition_models(on@) =~= Seq::empty());
    }
    for i in 0..conditions.len()
        invariant
            idx < aliases@.len(),
            holds_on_clause(on@, conditions@, i as int, idx as int, texts(aliases@)),
    {
        let ghost before = on@;
        push_join_condition(&mut on, &conditions[i], idx, aliases);
        proof {
            lemma_holds_on_clause_step(
                before,
                on@,
                conditions@,
                i as int,
                idx as int,
                texts(aliases@),
            );
        }
    }
    proof {
        reveal(holds_on_clause);
        let all = expr_models(conditions@);
        assert(all.take(all.len() as int) =~= all);
    }
    on
}

/// The conditions that filter rows: those that do not join tables.
fn select_row_conditions(conditions: &Vec<SqlExpression>, aliases: &Vec<String>) -> (r: Vec<
    SqlExpression,
>)
    ensures
        expr_models(r@) == row_conditions(expr_models(conditions@), texts(aliases@)),
{
    let ghost all = expr_models(conditions@);
    let ghost names = texts(aliases@);
    let mut rows: Vec<SqlExpression> = Vec::new();
    proof {
        lemma_row_conditions_step(all.take(0), names);
        assert(expr_models(rows@) =~= Seq::empty());
    }
    for i in 0..conditions.len()
        invariant
            all == expr_models(conditions@),
            names == texts(aliases@),
            expr_models(rows@) == row_conditions(all.take(i as int), names),
    {
        let ghost before = expr_models(rows@);
        proof {
            assert(all.take(i + 1).drop_last() =~= all.take(i as int));
            lemma_row_conditions_step(all.take(i + 1), names);
        }
        if !is_join_condition(&conditions[i], aliases) {
            rows.push(conditions[i].clone());
            proof {
                assert(expr_models(rows@) =~= before.push(all[i as int]));
            }
        }
    }
    proof {
        assert(all.take(all.len() as int) =~= all);
    }
    rows
}

/// Adds the joins with every table after the first.
fn add_joins(
    builder: SqlQueryBuilder,
    tables: &Vec<(String, String)>,
    aliases: &Vec<String>,
    conditions: &Vec<SqlExpression>,
) -> (r: SqlQueryBuilder)
    requires
        tables@.len() == aliases@.len(),
    ensures
        r@ == (BuilderModel {
            operations: builder@.operations + joins(
                name_pairs(tables@),
                texts(aliases@),
                expr_models(conditions@),
            ),
            ..builder@
        }),
{
    let ghost all = joins(name_pairs(tables@), texts(aliases@), expr_models(conditions@));
    let ghost start = builder@;
    let mut builder: SqlQueryBuilder = builder;
    proof {
        assert(start.operations + all.take(0) =~= start.operations);
    }
    let mut i: usize = 1;
    while i < tables.len()
        invariant
            1 <= i,
            tables@.len() > 0 ==> i <= tables@.len(),
            tables@.len() == 0 ==> i == 1,
            tables@.len() == aliases@.len(),
            all == joins(name_pairs(tables@), texts(aliases@), expr_models(conditions@)),
            builder@ == (BuilderModel {
                operations: start.operations + all.take(i - 1),
                ..start
            }),
        decreases tables@.len() - i,
    {
        let on: Vec<SqlJoinCondition> = make_on_clause(conditions, i, aliases);
        let table: String = make_aliased(tables[i].0.as_str(), aliases[i].as_str());
        builder = builder.join(SqlJoinKind::Inner, table.as_str(), on);
        proof {
            assert((start.operations + all.take(i - 1)).push(all[i - 1]) =~= start.operations
                + all.take(i as int));
        }
        i = i + 1;
    }
    proof {
        assert(all.take(i - 1) =~= all);
    }
    builder
}

/// Builds the query over the tables, with the given short names, that selects
/// the rows that meet the conditions and projects the columns.
pub fn assemble_query(
    tables: &Vec<(String, String)>,
    aliases: &Vec<String>,
    conditions: &Vec<SqlExpression>,
    source: &str,
    columns: Vec<SqlColumn>,
) -> (r: SqlQuery)
    requires
        tables@.len() == aliases@.len(),
    ensures
        r@ == assembled(
            name_pairs(tables@),
            texts(aliases@),
            expr_models(conditions@),
            source@,
            column_models(columns@),
        ),
{
    let ghost model = assembled(
        name_pairs(tables@),
        texts(aliases@),
        expr_models(conditions@),
        source@,
        column_models(columns@),
    );
    let from: String = if tables.len() > 1 {
        make_aliased(source, aliases[0].as_str())
    } else {
        source.to_string()
    };
    let start: SqlQueryBuilder = SqlQueryBuilder::new().from_table(from.as_str());
    let mut builder: SqlQueryBuilder = add_joins(start, tables, aliases, conditions);
    let rows: Vec<SqlExpression> = select_row_conditions(conditions, aliases);
    if rows.len() > 0 {
        let filter: SqlExpression = combine_conditions(&rows);
        builder = builder.where_clause(filter);
    }
    if columns.len() > 0 {
        builder = builder.project(columns);
    }
    proof {
        assert(builder@.operations =~= model.pipeline);
    }
    builder.build().unwrap()
}

} // verus!
