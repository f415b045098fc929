//! Laws that span translation and text: what SQL a rule becomes.

use crate::model::{ColumnModel, ExprModel, OperationModel};
use crate::render::{first_index, has_distinct, is_aggregate, is_project, lemma_first_index, Style};
use crate::sql_ir::SqlBinaryOp;
use crate::text::{concatenated, joined, lemma_concatenated_add, lemma_concatenated_single};
use crate::translation::{assembled, conjunction, joins, row_conditions, with_alias};
use vstd::prelude::*;

verus! {

/// All conditions at once are written one after the other, with `AND` between
/// each two.
pub proof fn conjunction_text(style: Style, conditions: Seq<ExprModel>)
    requires
        conditions.len() > 0,
    ensures
        style.expr(conjunction(conditions)) == joined(style.exprs(conditions), " AND "@),
    decreases conditions.len(),
{
    let texts = style.exprs(conditions);
    if conditions.len() == 1 {
        assert(texts[0] == style.expr(conditions[0]));
    } else {
        let shorter = conditions.drop_last();
        conjunction_text(style, shorter);
        assert(texts.drop_last() =~= style.exprs(shorter));
        assert(texts.last() == style.expr(conditions.last()));
        let left = style.expr(conjunction(shorter));
        let right = style.expr(conditions.last());
        reveal_strlit(" ");
        reveal_strlit("AND");
        reveal_strlit(" AND ");
        assert(left + " "@ + "AND"@ + " "@ + right =~= left + " AND "@ + right);
        assert(style.expr(ExprModel::binary(SqlBinaryOp::And, conjunction(shorter), conditions.last()))
            == left + " "@ + "AND"@ + " "@ + right);
    }
}

/// What stands behind `SELECT` for the given columns: everything where there are
/// none.
pub open spec fn selected_text(style: Style, columns: Seq<ColumnModel>) -> Seq<char> {
    if columns.len() == 0 {
        "*"@
    } else {
        joined(style.columns(columns), ", "@)
    }
}

/// The `WHERE` clause for the given conditions, empty where there are none.
pub open spec fn where_text(style: Style, conditions: Seq<ExprModel>) -> Seq<char> {
    if conditions.len() == 0 {
        ""@
    } else {
        style.gap() + "WHERE "@ + joined(style.exprs(conditions), " AND "@)
    }
}

/// A pipeline that is not extended has no computed columns.
proof fn lemma_no_extensions(style: Style, pipeline: Seq<OperationModel>)
    requires
        forall|i: int| 0 <= i < pipeline.len() ==> !((#[trigger] pipeline[i]) is Extend),
    ensures
        style.extensions(pipeline) == ""@,
        style.base_selection(pipeline) + style.extensions(pipeline) == style.base_selection(
            pipeline,
        ),
    decreases pipeline.len(),
{
    reveal_strlit("");
    if pipeline.len() > 0 {
        let shorter = pipeline.drop_last();
        assert forall|i: int| 0 <= i < shorter.len() implies !((#[trigger] shorter[i]) is Extend) by {
            assert(shorter[i] == pipeline[i]);
        }
        lemma_no_extensions(style, shorter);
        assert(!(pipeline[pipeline.len() - 1] is Extend));
        assert(style.extension(pipeline.last()) == ""@);
        assert(style.extensions(pipeline) =~= ""@);
    }
    assert(style.base_selection(pipeline) + style.extensions(pipeline) =~= style.base_selection(
        pipeline,
    ));
}

/// A pipeline of joins, at most one filter and at most one projection selects the
/// columns of that projection.
proof fn lemma_selection(
    style: Style,
    joined_tables: Seq<OperationModel>,
    filter: Seq<OperationModel>,
    columns: Seq<ColumnModel>,
    pipeline: Seq<OperationModel>,
)
    requires
        forall|i: int| 0 <= i < joined_tables.len() ==> (#[trigger] joined_tables[i]) is Join,
        forall|i: int| 0 <= i < filter.len() ==> (#[trigger] filter[i]) is Where,
        pipeline == joined_tables + filter + (if columns.len() == 0 {
            Seq::empty()
        } else {
            seq![OperationModel::Project(columns)]
        }),
    ensures
        style.selection(pipeline) == selected_text(style, columns),
        !has_distinct(pipeline),
{
    let before = joined_tables.len() + filter.len();
    assert forall|i: int| 0 <= i < before implies (#[trigger] pipeline[i]) is Join
        || pipeline[i] is Where by {
        if i < joined_tables.len() {
            assert(pipeline[i] == joined_tables[i]);
        } else {
            assert(pipeline[i] == filter[i - joined_tables.len()]);
        }
    }
    lemma_no_extensions(style, pipeline);
    let wanted = |op: OperationModel| is_project(op);
    let grouped = |op: OperationModel| is_aggregate(op);
    lemma_first_index(pipeline, wanted);
    lemma_first_index(pipeline, grouped);
    let p = first_index(pipeline, wanted);
    let a = first_index(pipeline, grouped);
    if columns.len() == 0 {
        assert(p == pipeline.len()) by {
            if p < pipeline.len() {
                assert(is_project(pipeline[p]));
            }
        }
        assert(a == pipeline.len()) by {
            if a < pipeline.len() {
                assert(is_aggregate(pipeline[a]));
            }
        }
    } else {
        assert(pipeline[before as int] == OperationModel::Project(columns));
        assert(p == before) by {
            if p < before {
                assert(is_project(pipeline[p]));
            } else if p > before {
                assert(!wanted(pipeline[before as int]));
            }
        }
    }
}

/// The text of the query that is put together from tables, conditions and
/// columns: `SELECT` with the columns, `FROM` with the first table, a join for
/// every other table, and `WHERE` with the conditions that do not join tables.
pub proof fn assembled_query_text(
    style: Style,
    tables: Seq<(Seq<char>, Seq<char>)>,
    aliases: Seq<Seq<char>>,
    conditions: Seq<ExprModel>,
    source: Seq<char>,
    columns: Seq<ColumnModel>,
)
    ensures
        style.query(assembled(tables, aliases, conditions, source, columns)) == "SELECT "@
            + selected_text(style, columns) + style.gap() + "FROM "@ + (if tables.len() > 1 {
            with_alias(source, aliases[0])
        } else {
            source
        }) + concatenated(style.operations(joins(tables, aliases, conditions))) + where_text(
            style,
            row_conditions(conditions, aliases),
        ),
{
    let q = assembled(tables, aliases, conditions, source, columns);
    let rows = row_conditions(conditions, aliases);
    let first = joins(tables, aliases, conditions);
    let filter = if rows.len() == 0 {
        Seq::empty()
    } else {
        seq![OperationModel::Where(conjunction(rows))]
    };
    let projection = if columns.len() == 0 {
        Seq::empty()
    } else {
        seq![OperationModel::Project(columns)]
    };
    lemma_selection(style, first, filter, columns, q.pipeline);
    assert(style.operations(q.pipeline) =~= style.operations(first) + style.operations(filter)
        + style.operations(projection));
    lemma_concatenated_add(
        style.operations(first) + style.operations(filter),
        style.operations(projection),
    );
    lemma_concatenated_add(style.operations(first), style.operations(filter));
    reveal_strlit("");
    if columns.len() == 0 {
        assert(concatenated(style.operations(projection)) =~= ""@);
    } else {
        assert(style.operations(projection) =~= seq![""@]);
        lemma_concatenated_single(""@);
    }
    if rows.len() == 0 {
        assert(concatenated(style.operations(filter)) =~= ""@);
    } else {
        conjunction_text(style, rows);
        assert(style.operations(filter) =~= seq![where_text(style, rows)]);
        lemma_concatenated_single(where_text(style, rows));
    }
    assert(style.with_clause(q.ctes) == ""@);
    assert(style.select_clause(q.pipeline) =~= "SELECT "@ + selected_text(style, columns));
    assert(style.query(q) =~= "SELECT "@ + selected_text(style, columns) + style.gap() + "FROM "@
        + q.source + concatenated(style.operations(first)) + where_text(style, rows));
}

} // verus!
