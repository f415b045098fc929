//! Laws of layout: pretty and compact text differ in white space alone.

use crate::model::{
    AggregateModel, ColumnModel, ExprModel, JoinConditionModel, JoinSourceModel, OperationModel,
    OrderModel, QueryModel,
};
use crate::render::{
    first_index, is_aggregate, is_project, join_kind_text, lemma_first_index, Style,
};
use crate::sql_codegen::SqlDialect;
use crate::sql_ir::{SqlBinaryOp, SqlDataType, SqlJoinKind};
use crate::text::{
    concatenated, decimal, joined, quotes_trimmed, without_leading_quotes, without_trailing_quotes,
};
use vstd::prelude::*;

verus! {

/// Turns each line break, with the blanks and line breaks behind it, into one
/// blank. The first part of the result tells whether the text ends in such a
/// break; `broken` tells whether the text stands behind one.
pub open spec fn unbroken_from(broken: bool, s: Seq<char>) -> (bool, Seq<char>)
    decreases s.len(),
{
    if s.len() == 0 {
        (broken, Seq::empty())
    } else {
        let (b, out) = unbroken_from(broken, s.drop_last());
        if s.last() == '\n' {
            (
                true,
                if b {
                    out
                } else {
                    out.push(' ')
                },
            )
        } else if s.last() == ' ' && b {
            (true, out)
        } else {
            (false, out.push(s.last()))
        }
    }
}

/// The text on one line.
pub open spec fn unbroken(s: Seq<char>) -> Seq<char> {
    unbroken_from(false, s).1
}

proof fn lemma_unbroken_add(broken: bool, a: Seq<char>, b: Seq<char>)
    ensures
        unbroken_from(broken, a + b) == ({
            let first = unbroken_from(broken, a);
            let second = unbroken_from(first.0, b);
            (second.0, first.1 + second.1)
        }),
    decreases b.len(),
{
    let first = unbroken_from(broken, a);
    let second = unbroken_from(first.0, b);
    if b.len() == 0 {
        assert(a + b =~= a);
        assert(first.1 + second.1 =~= first.1);
    } else {
        lemma_unbroken_add(broken, a, b.drop_last());
        assert((a + b).drop_last() =~= a + b.drop_last());
        assert((a + b).last() == b.last());
        let shorter = unbroken_from(first.0, b.drop_last());
        assert(first.1 + shorter.1.push(' ') =~= (first.1 + shorter.1).push(' '));
        assert(first.1 + shorter.1.push(b.last()) =~= (first.1 + shorter.1).push(b.last()));
    }
}

proof fn lemma_unbroken_plain(s: Seq<char>)
    requires
        !s.contains('\n'),
    ensures
        unbroken_from(false, s) == (false, s),
    decreases s.len(),
{
    if s.len() > 0 {
        assert(forall|i: int| 0 <= i < s.drop_last().len() ==> s.drop_last()[i] == s[i]);
        assert(s[s.len() - 1] != '\n');
        lemma_unbroken_plain(s.drop_last());
        assert(s.drop_last().push(s.last()) =~= s);
    } else {
        assert(s =~= Seq::empty());
    }
}

/// Whether a text begins with something else than white space.
spec fn starts_dark(s: Seq<char>) -> bool {
    s.len() > 0 && s[0] != ' ' && s[0] != '\n'
}

proof fn lemma_unbroken_dark(s: Seq<char>)
    requires
        starts_dark(s),
    ensures
        unbroken_from(true, s) == unbroken_from(false, s),
    decreases s.len(),
{
    reveal_with_fuel(unbroken_from, 2);
    if s.len() > 1 {
        assert(s.drop_last()[0] == s[0]);
        lemma_unbroken_dark(s.drop_last());
    } else {
        assert(s.drop_last() =~= Seq::empty());
    }
}

proof fn lemma_broken_ends_blank(s: Seq<char>)
    ensures
        unbroken_from(false, s).0 ==> unbroken(s).len() > 0 && unbroken(s).last() == ' ',
    decreases s.len(),
{
    if s.len() > 0 {
        lemma_broken_ends_blank(s.drop_last());
    }
}

/// Whether a pretty text is the compact one but for its white space, as long as
/// the compact one is on one line.
#[verifier::opaque]
pub open spec fn agrees(p: Seq<char>, c: Seq<char>) -> bool {
    !c.contains('\n') ==> unbroken_from(false, p) == (false, c)
}

proof fn lemma_one_line_parts(a: Seq<char>, b: Seq<char>)
    requires
        !(a + b).contains('\n'),
    ensures
        !a.contains('\n'),
        !b.contains('\n'),
{
    if a.contains('\n') {
        let i = choose|i: int| 0 <= i < a.len() && a[i] == '\n';
        assert((a + b)[i] == '\n');
    }
    if b.contains('\n') {
        let i = choose|i: int| 0 <= i < b.len() && b[i] == '\n';
        assert((a + b)[i + a.len()] == '\n');
    }
}

broadcast proof fn lemma_agrees_same(s: Seq<char>)
    ensures
        #[trigger] agrees(s, s),
{
    reveal(agrees);
    if !s.contains('\n') {
        lemma_unbroken_plain(s);
    }
}

broadcast proof fn lemma_agrees_add(p1: Seq<char>, p2: Seq<char>, c1: Seq<char>, c2: Seq<char>)
    requires
        agrees(p1, c1),
        agrees(p2, c2),
    ensures
        #[trigger] agrees(p1 + p2, c1 + c2),
{
    reveal(agrees);
    if !(c1 + c2).contains('\n') {
        lemma_one_line_parts(c1, c2);
        lemma_unbroken_add(false, p1, p2);
    }
}

/// A line break before something dark agrees with a blank before it.
proof fn lemma_agrees_break(p: Seq<char>, c: Seq<char>)
    requires
        agrees(p, c),
        starts_dark(p),
    ensures
        agrees("\n"@ + p, " "@ + c),
{
    reveal(agrees);
    reveal_strlit("\n");
    reveal_strlit(" ");
    if !(" "@ + c).contains('\n') {
        lemma_one_line_parts(" "@, c);
        lemma_unbroken_add(false, "\n"@, p);
        lemma_unbroken_dark(p);
        reveal_with_fuel(unbroken_from, 2);
        assert("\n"@.drop_last() =~= Seq::empty());
        assert(unbroken_from(false, "\n"@) == (true, seq![' ']));
        assert(seq![' '] =~= " "@);
    }
}

proof fn lemma_agrees_on()
    ensures
        agrees("\n"@ + Seq::empty() + "  ON "@, " ON "@),
{
    reveal(agrees);
    reveal_strlit("\n");
    reveal_strlit("  ON ");
    reveal_strlit(" ON ");
    let p = "\n"@ + Seq::empty() + "  ON "@;
    let blanks = seq!['\n', ' ', ' '];
    let word = seq!['O', 'N', ' '];
    assert(p =~= blanks + word);
    lemma_unbroken_add(false, blanks, word);
    assert(unbroken_from(false, blanks) == (true, seq![' '])) by {
        reveal_with_fuel(unbroken_from, 4);
        assert(blanks.drop_last() =~= seq!['\n', ' ']);
        assert(seq!['\n', ' '].drop_last() =~= seq!['\n']);
        assert(seq!['\n'].drop_last() =~= Seq::empty());
        assert(Seq::<char>::empty().push(' ') =~= seq![' ']);
    }
    lemma_unbroken_dark(word);
    lemma_unbroken_plain(word);
    assert(seq![' '] + word =~= " ON "@);
}

proof fn lemma_agrees_joined(ps: Seq<Seq<char>>, cs: Seq<Seq<char>>, sep: Seq<char>)
    requires
        ps.len() == cs.len(),
        forall|i: int| 0 <= i < ps.len() ==> agrees(#[trigger] ps[i], cs[i]),
    ensures
        agrees(joined(ps, sep), joined(cs, sep)),
    decreases ps.len(),
{
    broadcast use lemma_agrees_same, lemma_agrees_add;

    if ps.len() == 1 {
        assert(agrees(ps[0], cs[0]));
    } else if ps.len() > 1 {
        let sp = ps.drop_last();
        let sc = cs.drop_last();
        assert forall|i: int| 0 <= i < sp.len() implies agrees(#[trigger] sp[i], sc[i]) by {
            assert(agrees(ps[i], cs[i]));
        }
        lemma_agrees_joined(sp, sc, sep);
        assert(agrees(ps[ps.len() - 1], cs[cs.len() - 1]));
        assert(agrees(joined(sp, sep) + sep + ps.last(), joined(sc, sep) + sep + cs.last()));
    }
}

proof fn lemma_agrees_concatenated(ps: Seq<Seq<char>>, cs: Seq<Seq<char>>)
    requires
        ps.len() == cs.len(),
        forall|i: int| 0 <= i < ps.len() ==> agrees(#[trigger] ps[i], cs[i]),
    ensures
        agrees(concatenated(ps), concatenated(cs)),
    decreases ps.len(),
{
    broadcast use lemma_agrees_same, lemma_agrees_add;

    if ps.len() > 0 {
        let sp = ps.drop_last();
        let sc = cs.drop_last();
        assert forall|i: int| 0 <= i < sp.len() implies agrees(#[trigger] sp[i], sc[i]) by {
            assert(agrees(ps[i], cs[i]));
        }
        lemma_agrees_concatenated(sp, sc);
        assert(agrees(ps[ps.len() - 1], cs[cs.len() - 1]));
        assert(agrees(concatenated(sp) + ps.last(), concatenated(sc) + cs.last()));
    }
}

proof fn lemma_leading_quotes(p: Seq<char>)
    ensures
        unbroken_from(false, without_leading_quotes(p)) == (
            unbroken_from(false, p).0,
            without_leading_quotes(unbroken(p)),
        ),
    decreases p.len(),
{
    if p.len() > 0 {
        let first = seq![p[0]];
        let rest = p.skip(1);
        assert(p =~= first + rest);
        lemma_unbroken_add(false, first, rest);
        reveal_with_fuel(unbroken_from, 2);
        assert(first.drop_last() =~= Seq::empty());
        if p[0] == '\'' {
            assert(unbroken_from(false, first) == (false, seq!['\'']));
            lemma_leading_quotes(rest);
            assert(unbroken(p).skip(1) =~= unbroken(rest));
            assert(unbroken(p).drop_first() =~= unbroken(rest));
            assert(p.drop_first() =~= rest);
        } else {
            assert(unbroken_from(false, first).1.len() == 1);
            assert(unbroken(p)[0] != '\'');
        }
    }
}

proof fn lemma_trailing_quotes(p: Seq<char>)
    ensures
        unbroken(without_trailing_quotes(p)) == without_trailing_quotes(unbroken(p)),
    decreases p.len(),
{
    if p.len() > 0 {
        lemma_broken_ends_blank(p);
        if p.last() == '\'' {
            lemma_trailing_quotes(p.drop_last());
            assert(unbroken(p).drop_last() =~= unbroken(p.drop_last()));
        } else if unbroken_from(false, p).0 {
            assert(unbroken(p).last() == ' ');
        } else {
            assert(unbroken(p).last() == p.last());
        }
    }
}

proof fn lemma_trimming_keeps_line_breaks(c: Seq<char>)
    ensures
        c.contains('\n') ==> quotes_trimmed(c).contains('\n'),
{
    lemma_leading_keeps(c);
    lemma_trailing_keeps(without_leading_quotes(c));
}

proof fn lemma_leading_keeps(c: Seq<char>)
    ensures
        c.contains('\n') ==> without_leading_quotes(c).contains('\n'),
    decreases c.len(),
{
    if c.len() > 0 && c[0] == '\'' && c.contains('\n') {
        let i = choose|i: int| 0 <= i < c.len() && c[i] == '\n';
        assert(c.drop_first()[i - 1] == '\n');
        assert(c.skip(1) =~= c.drop_first());
        lemma_leading_keeps(c.drop_first());
    }
}

proof fn lemma_trailing_keeps(c: Seq<char>)
    ensures
        c.contains('\n') ==> without_trailing_quotes(c).contains('\n'),
    decreases c.len(),
{
    if c.len() > 0 && c.last() == '\'' && c.contains('\n') {
        let i = choose|i: int| 0 <= i < c.len() && c[i] == '\n';
        assert(c.drop_last()[i] == '\n');
        lemma_trailing_keeps(c.drop_last());
    }
}

/// Texts agree also where quotes are trimmed before something dark.
proof fn lemma_agrees_trimmed(p: Seq<char>, c: Seq<char>, end: Seq<char>)
    requires
        agrees(p, c),
        starts_dark(end),
    ensures
        agrees(quotes_trimmed(p) + end, quotes_trimmed(c) + end),
{
    reveal(agrees);
    if !(quotes_trimmed(c) + end).contains('\n') {
        lemma_one_line_parts(quotes_trimmed(c), end);
        lemma_trimming_keeps_line_breaks(c);
        lemma_leading_quotes(p);
        lemma_trailing_quotes(without_leading_quotes(p));
        lemma_unbroken_add(false, quotes_trimmed(p), end);
        lemma_unbroken_dark(end);
        lemma_unbroken_plain(end);
    }
}

/// The pretty style of a dialect.
pub open spec fn pretty_style(dialect: SqlDialect) -> Style {
    Style { pretty: true, dialect, margin: Seq::empty() }
}

/// The compact style of a dialect.
pub open spec fn compact_style(dialect: SqlDialect) -> Style {
    Style { pretty: false, dialect, margin: Seq::empty() }
}

/// Whether no query in an expression has common table expressions or joins a
/// nested query.
pub open spec fn flat_expr(d: SqlDialect, e: ExprModel) -> bool
    decreases e,
{
    match e {
        ExprModel::Column(_) => true,
        ExprModel::Literal(_) => true,
        ExprModel::InjectedVariable(_) => true,
        ExprModel::Binary { op, left, right } => flat_expr(d, *left) && flat_expr(d, *right),
        ExprModel::Unary { op, operand } => flat_expr(d, *operand),
        ExprModel::Function { name, args } => flat_exprs(d, args),
        ExprModel::Array(items) => flat_exprs(d, items),
        ExprModel::Case { conditions, default } => flat_branches(d, conditions) && (match default {
            Some(e) => flat_expr(d, *e),
            None => true,
        }),
        ExprModel::Parenthesized(inner) => flat_expr(d, *inner),
        ExprModel::Subquery(query) => flat_query(d, *query),
        ExprModel::Cast { expression, target_type } => flat_expr(d, *expression),
        ExprModel::Between { expression, lower, upper, not } => flat_expr(d, *expression)
            && flat_expr(d, *lower) && flat_expr(d, *upper),
        ExprModel::ArrayIndex { expr, index } => flat_expr(d, *expr) && flat_expr(d, *index),
    }
}

/// Whether every expression is flat.
pub open spec fn flat_exprs(d: SqlDialect, es: Seq<ExprModel>) -> bool
    decreases es,
{
    es.len() > 0 ==> flat_exprs(d, es.drop_last()) && flat_expr(d, es.last())
}

/// Whether every branch is flat.
pub open spec fn flat_branches(d: SqlDialect, bs: Seq<(ExprModel, ExprModel)>) -> bool
    decreases bs,
{
    bs.len() > 0 ==> flat_branches(d, bs.drop_last()) && flat_expr(d, bs.last().0) && flat_expr(
        d,
        bs.last().1,
    )
}

/// Whether every column is flat, and its alias is the text of its expression in
/// both styles or in neither: an alias that says the same is left out.
pub open spec fn flat_columns(d: SqlDialect, cs: Seq<ColumnModel>) -> bool
    decreases cs,
{
    cs.len() > 0 ==> {
        &&& flat_columns(d, cs.drop_last())
        &&& flat_expr(d, cs.last().expression)
        &&& match cs.last().alias {
            Some(a) => (a == pretty_style(d).expr(cs.last().expression)) == (a
                == compact_style(d).expr(cs.last().expression)),
            None => true,
        }
    }
}

/// Whether every sort key is flat.
pub open spec fn flat_orders(d: SqlDialect, os: Seq<OrderModel>) -> bool
    decreases os,
{
    os.len() > 0 ==> flat_orders(d, os.drop_last()) && flat_expr(d, os.last().expression)
}

/// Whether every aggregate is flat.
pub open spec fn flat_aggregates(d: SqlDialect, aggs: Seq<AggregateModel>) -> bool
    decreases aggs,
{
    aggs.len() > 0 ==> flat_aggregates(d, aggs.drop_last()) && (match aggs.last().expression {
        Some(e) => flat_expr(d, e),
        None => true,
    })
}

/// Whether every join condition is flat.
pub open spec fn flat_conditions(d: SqlDialect, cs: Seq<JoinConditionModel>) -> bool
    decreases cs,
{
    cs.len() > 0 ==> flat_conditions(d, cs.drop_last()) && flat_expr(d, cs.last().left)
        && flat_expr(d, cs.last().right)
}

/// Whether an operation is flat.
pub open spec fn flat_operation(d: SqlDialect, op: OperationModel) -> bool
    decreases op,
{
    match op {
        OperationModel::Where(e) => flat_expr(d, e),
        OperationModel::Project(columns) => flat_columns(d, columns),
        OperationModel::Extend(columns) => flat_columns(d, columns),
        OperationModel::Limit(_) => true,
        OperationModel::Order(orders) => flat_orders(d, orders),
        OperationModel::Aggregate { group_by, aggregates, having } => flat_exprs(d, group_by)
            && flat_aggregates(d, aggregates) && (match having {
            Some(e) => flat_expr(d, e),
            None => true,
        }),
        OperationModel::Join { kind, source, on } => flat_conditions(d, on) && (match source {
            JoinSourceModel::Table(_) => true,
            JoinSourceModel::Filtered { table, filters } => flat_exprs(d, filters),
            JoinSourceModel::Subquery(_) => false,
        }),
        OperationModel::Union(query) => flat_query(d, *query),
        OperationModel::Distinct(_) => true,
    }
}

/// Whether every operation is flat.
pub open spec fn flat_operations(d: SqlDialect, ops: Seq<OperationModel>) -> bool
    decreases ops,
{
    ops.len() > 0 ==> flat_operations(d, ops.drop_last()) && flat_operation(d, ops.last())
}

/// Whether a query and every query in it have no common table expressions and
/// join no nested query, and their aliases are left out in both styles or in
/// neither.
pub open spec fn flat_query(d: SqlDialect, q: QueryModel) -> bool
    decreases q,
{
    q.ctes.len() == 0 && flat_operations(d, q.pipeline)
}

proof fn lemma_data_type(d: SqlDialect, t: SqlDataType)
    ensures
        pretty_style(d).data_type(t) == compact_style(d).data_type(t),
    decreases t,
{
    match t {
        SqlDataType::Array(inner) => {
            lemma_data_type(d, *inner);
        },
        _ => {},
    }
}

proof fn lemma_call(
    d: SqlDialect,
    name: Seq<char>,
    ps: Seq<Seq<char>>,
    cs: Seq<Seq<char>>,
)
    requires
        ps.len() == cs.len(),
        forall|i: int| 0 <= i < ps.len() ==> agrees(#[trigger] ps[i], cs[i]),
    ensures
        agrees(pretty_style(d).call(name, ps), compact_style(d).call(name, cs)),
{
    broadcast use lemma_agrees_same, lemma_agrees_add;

    reveal_strlit("%'");
    reveal_strlit("'");
    lemma_agrees_joined(ps, cs, ", "@);
    if ps.len() == 2 {
        let (p0, p1) = (ps[0], ps[1]);
        let (c0, c1) = (cs[0], cs[1]);
        assert(agrees(p0, c0));
        assert(agrees(p1, c1));
        lemma_agrees_trimmed(p1, c1, "%'"@);
        lemma_agrees_trimmed(p1, c1, "'"@);
        let (tp, tc) = (quotes_trimmed(p1), quotes_trimmed(c1));
        assert(p0 + " LIKE '%"@ + tp + "%'"@ =~= (p0 + " LIKE '%"@) + (tp + "%'"@));
        assert(c0 + " LIKE '%"@ + tc + "%'"@ =~= (c0 + " LIKE '%"@) + (tc + "%'"@));
        assert(p0 + " LIKE '"@ + tp + "%'"@ =~= (p0 + " LIKE '"@) + (tp + "%'"@));
        assert(c0 + " LIKE '"@ + tc + "%'"@ =~= (c0 + " LIKE '"@) + (tc + "%'"@));
        assert(p0 + " LIKE '%"@ + tp + "'"@ =~= (p0 + " LIKE '%"@) + (tp + "'"@));
        assert(c0 + " LIKE '%"@ + tc + "'"@ =~= (c0 + " LIKE '%"@) + (tc + "'"@));
        assert(agrees((p0 + " LIKE '%"@) + (tp + "%'"@), (c0 + " LIKE '%"@) + (tc + "%'"@)));
        assert(agrees((p0 + " LIKE '"@) + (tp + "%'"@), (c0 + " LIKE '"@) + (tc + "%'"@)));
        assert(agrees((p0 + " LIKE '%"@) + (tp + "'"@), (c0 + " LIKE '%"@) + (tc + "'"@)));
        assert(agrees(p0 + "->"@ + p1, c0 + "->"@ + c1));
        assert(agrees(p0 + "->>"@ + p1, c0 + "->>"@ + c1));
    }
    assert(agrees(
        name + "("@ + joined(ps, ", "@) + ")"@,
        name + "("@ + joined(cs, ", "@) + ")"@,
    ));
}

proof fn lemma_binary(
    d: SqlDialect,
    op: SqlBinaryOp,
    pl: Seq<char>,
    pr: Seq<char>,
    cl: Seq<char>,
    cr: Seq<char>,
)
    requires
        agrees(pl, cl),
        agrees(pr, cr),
    ensures
        agrees(pretty_style(d).binary(op, pl, pr), compact_style(d).binary(op, cl, cr)),
{
    broadcast use lemma_agrees_same, lemma_agrees_add;

}

proof fn lemma_expr(d: SqlDialect, e: ExprModel)
    requires
        flat_expr(d, e),
    ensures
        agrees(pretty_style(d).expr(e), compact_style(d).expr(e)),
    decreases e,
{
    broadcast use lemma_agrees_same, lemma_agrees_add;

    let p = pretty_style(d);
    let c = compact_style(d);
    match e {
        ExprModel::Column(_) => {},
        ExprModel::Literal(_) => {},
        ExprModel::InjectedVariable(_) => {},
        ExprModel::Binary { op, left, right } => {
            lemma_expr(d, *left);
            lemma_expr(d, *right);
            lemma_binary(d, op, p.expr(*left), p.expr(*right), c.expr(*left), c.expr(*right));
            match *right {
                ExprModel::Array(items) => {
                    assert(flat_expr(d, *right));
                    assert(flat_exprs(d, items));
                    lemma_exprs(d, items);
                    lemma_agrees_joined(p.exprs(items), c.exprs(items), ", "@);
                },
                _ => {},
            }
            assert(agrees(p.list_items(*right), c.list_items(*right)));
        },
        ExprModel::Unary { op, operand } => {
            lemma_expr(d, *operand);
        },
        ExprModel::Function { name, args } => {
            lemma_exprs(d, args);
            lemma_call(d, name, p.exprs(args), c.exprs(args));
        },
        ExprModel::Array(items) => {
            lemma_exprs(d, items);
            lemma_agrees_joined(p.exprs(items), c.exprs(items), ", "@);
        },
        ExprModel::Case { conditions, default } => {
            lemma_branches(d, conditions);
            lemma_agrees_concatenated(p.branches(conditions), c.branches(conditions));
            match default {
                Some(other) => {
                    lemma_expr(d, *other);
                },
                None => {},
            }
        },
        ExprModel::Parenthesized(inner) => {
            lemma_expr(d, *inner);
        },
        ExprModel::Subquery(query) => {
            lemma_query(d, *query);
        },
        ExprModel::Cast { expression, target_type } => {
            lemma_expr(d, *expression);
            lemma_data_type(d, target_type);
        },
        ExprModel::Between { expression, lower, upper, not } => {
            lemma_expr(d, *expression);
            lemma_expr(d, *lower);
            lemma_expr(d, *upper);
        },
        ExprModel::ArrayIndex { expr, index } => {
            lemma_expr(d, *expr);
            lemma_expr(d, *index);
        },
    }
}

proof fn lemma_exprs(d: SqlDialect, es: Seq<ExprModel>)
    requires
        flat_exprs(d, es),
    ensures
        forall|i: int|
            0 <= i < es.len() ==> agrees(
                #[trigger] pretty_style(d).exprs(es)[i],
                compact_style(d).exprs(es)[i],
            ),
    decreases es,
{
    if es.len() > 0 {
        let shorter = es.drop_last();
        lemma_exprs(d, shorter);
        lemma_expr(d, es.last());
        assert forall|i: int| 0 <= i < es.len() implies agrees(
            #[trigger] pretty_style(d).exprs(es)[i],
            compact_style(d).exprs(es)[i],
        ) by {
            if i < shorter.len() {
                assert(pretty_style(d).exprs(shorter)[i] == pretty_style(d).exprs(es)[i]);
                assert(compact_style(d).exprs(shorter)[i] == compact_style(d).exprs(es)[i]);
            }
        }
    }
}

proof fn lemma_branches(d: SqlDialect, bs: Seq<(ExprModel, ExprModel)>)
    requires
        flat_branches(d, bs),
    ensures
        forall|i: int|
            0 <= i < bs.len() ==> agrees(
                #[trigger] pretty_style(d).branches(bs)[i],
                compact_style(d).branches(bs)[i],
            ),
    decreases bs,
{
    broadcast use lemma_agrees_same, lemma_agrees_add;

    if bs.len() > 0 {
        let shorter = bs.drop_last();
        lemma_branches(d, shorter);
        lemma_expr(d, bs.last().0);
        lemma_expr(d, bs.last().1);
        assert forall|i: int| 0 <= i < bs.len() implies agrees(
            #[trigger] pretty_style(d).branches(bs)[i],
            compact_style(d).branches(bs)[i],
        ) by {
            if i < shorter.len() {
                assert(pretty_style(d).branches(shorter)[i] == pretty_style(d).branches(bs)[i]);
                assert(compact_style(d).branches(shorter)[i] == compact_style(d).branches(bs)[i]);
            }
        }
    }
}

proof fn lemma_columns(d: SqlDialect, cs: Seq<ColumnModel>)
    requires
        flat_columns(d, cs),
    ensures
        forall|i: int|
            0 <= i < cs.len() ==> agrees(
                #[trigger] pretty_style(d).columns(cs)[i],
                compact_style(d).columns(cs)[i],
            ),
    decreases cs,
{
    broadcast use lemma_agrees_same, lemma_agrees_add;

    if cs.len() > 0 {
        let shorter = cs.drop_last();
        lemma_columns(d, shorter);
        lemma_expr(d, cs.last().expression);
        assert forall|i: int| 0 <= i < cs.len() implies agrees(
            #[trigger] pretty_style(d).columns(cs)[i],
            compact_style(d).columns(cs)[i],
        ) by {
            if i < shorter.len() {
                assert(pretty_style(d).columns(shorter)[i] == pretty_style(d).columns(cs)[i]);
                assert(compact_style(d).columns(shorter)[i] == compact_style(d).columns(cs)[i]);
            }
        }
    }
}

proof fn lemma_orders(d: SqlDialect, os: Seq<OrderModel>)
    requires
        flat_orders(d, os),
    ensures
        forall|i: int|
            0 <= i < os.len() ==> agrees(
                #[trigger] pretty_style(d).orders(os)[i],
                compact_style(d).orders(os)[i],
            ),
    decreases os,
{
    broadcast use lemma_agrees_same, lemma_agrees_add;

    if os.len() > 0 {
        let shorter = os.drop_last();
        lemma_orders(d, shorter);
        lemma_expr(d, os.last().expression);
        assert forall|i: int| 0 <= i < os.len() implies agrees(
            #[trigger] pretty_style(d).orders(os)[i],
            compact_style(d).orders(os)[i],
        ) by {
            if i < shorter.len() {
                assert(pretty_style(d).orders(shorter)[i] == pretty_style(d).orders(os)[i]);
                assert(compact_style(d).orders(shorter)[i] == compact_style(d).orders(os)[i]);
            }
        }
    }
}

proof fn lemma_aggregate(d: SqlDialect, a: AggregateModel)
    requires
        match a.expression {
            Some(e) => flat_expr(d, e),
            None => true,
        },
    ensures
        agrees(pretty_style(d).aggregate(a), compact_style(d).aggregate(a)),
    decreases a,
{
    broadcast use lemma_agrees_same, lemma_agrees_add;

    match a.expression {
        Some(e) => {
            lemma_expr(d, e);
            let p = Some(pretty_style(d).expr(e));
            let c = Some(compact_style(d).expr(e));
            assert(agrees(
                pretty_style(d).aggregate_call(a.function, p, a.distinct),
                compact_style(d).aggregate_call(a.function, c, a.distinct),
            ));
        },
        None => {},
    }
}

proof fn lemma_aggregates(d: SqlDialect, aggs: Seq<AggregateModel>)
    requires
        flat_aggregates(d, aggs),
    ensures
        forall|i: int|
            0 <= i < aggs.len() ==> agrees(
                #[trigger] pretty_style(d).aggregates(aggs)[i],
                compact_style(d).aggregates(aggs)[i],
            ),
    decreases aggs,
{
    if aggs.len() > 0 {
        let shorter = aggs.drop_last();
        lemma_aggregates(d, shorter);
        lemma_aggregate(d, aggs.last());
        assert forall|i: int| 0 <= i < aggs.len() implies agrees(
            #[trigger] pretty_style(d).aggregates(aggs)[i],
            compact_style(d).aggregates(aggs)[i],
        ) by {
            if i < shorter.len() {
                assert(pretty_style(d).aggregates(shorter)[i] == pretty_style(d).aggregates(
                    aggs,
                )[i]);
                assert(compact_style(d).aggregates(shorter)[i] == compact_style(d).aggregates(
                    aggs,
                )[i]);
            }
        }
    }
}

proof fn lemma_conditions(d: SqlDialect, cs: Seq<JoinConditionModel>)
    requires
        flat_conditions(d, cs),
    ensures
        forall|i: int|
            0 <= i < cs.len() ==> agrees(
                #[trigger] pretty_style(d).join_conditions(cs)[i],
                compact_style(d).join_conditions(cs)[i],
            ),
    decreases cs,
{
    broadcast use lemma_agrees_same, lemma_agrees_add;

    if cs.len() > 0 {
        let shorter = cs.drop_last();
        lemma_conditions(d, shorter);
        lemma_expr(d, cs.last().left);
        lemma_expr(d, cs.last().right);
        assert forall|i: int| 0 <= i < cs.len() implies agrees(
            #[trigger] pretty_style(d).join_conditions(cs)[i],
            compact_style(d).join_conditions(cs)[i],
        ) by {
            if i < shorter.len() {
                assert(pretty_style(d).join_conditions(shorter)[i]
                    == pretty_style(d).join_conditions(cs)[i]);
                assert(compact_style(d).join_conditions(shorter)[i]
                    == compact_style(d).join_conditions(cs)[i]);
            }
        }
    }
}

/// A clause agrees where what stands behind its first word does.
proof fn lemma_clause(d: SqlDialect, word: Seq<char>, p: Seq<char>, c: Seq<char>)
    requires
        starts_dark(word),
        agrees(p, c),
    ensures
        agrees(pretty_style(d).gap() + word + p, compact_style(d).gap() + word + c),
{
    broadcast use lemma_agrees_same, lemma_agrees_add;

    lemma_agrees_break(word, word);
    assert(pretty_style(d).gap() =~= "\n"@);
    assert(agrees(pretty_style(d).gap() + word, compact_style(d).gap() + word));
}

proof fn lemma_join_kind_dark(kind: SqlJoinKind)
    ensures
        starts_dark(join_kind_text(kind)),
{
    reveal_strlit("INNER JOIN");
    reveal_strlit("LEFT OUTER JOIN");
    reveal_strlit("RIGHT OUTER JOIN");
    reveal_strlit("FULL OUTER JOIN");
    reveal_strlit("CROSS JOIN");
    reveal_strlit("LEFT JOIN");
    reveal_strlit("RIGHT JOIN");
}

proof fn lemma_join(
    d: SqlDialect,
    kind: SqlJoinKind,
    source: JoinSourceModel,
    on: Seq<JoinConditionModel>,
)
    requires
        flat_operation(d, (OperationModel::Join { kind, source, on })),
        agrees(pretty_style(d).join_source(source), compact_style(d).join_source(source)),
        forall|i: int|
            0 <= i < on.len() ==> agrees(
                #[trigger] pretty_style(d).join_conditions(on)[i],
                compact_style(d).join_conditions(on)[i],
            ),
    ensures
        agrees(
            pretty_style(d).operation((OperationModel::Join { kind, source, on })),
            compact_style(d).operation((OperationModel::Join { kind, source, on })),
        ),
{
    broadcast use lemma_agrees_same, lemma_agrees_add;

    let p = pretty_style(d);
    let c = compact_style(d);
    lemma_join_kind_dark(kind);
    lemma_clause(d, join_kind_text(kind), " "@, " "@);
    lemma_agrees_joined(p.join_conditions(on), c.join_conditions(on), " AND "@);
    lemma_agrees_on();
    let pl = joined(p.join_conditions(on), " AND "@);
    let cl = joined(c.join_conditions(on), " AND "@);
    assert(agrees("\n"@ + p.margin + "  ON "@ + pl, " ON "@ + cl));
    assert(agrees(
        p.gap() + join_kind_text(kind) + " "@ + p.join_source(source),
        c.gap() + join_kind_text(kind) + " "@ + c.join_source(source),
    ));
}

proof fn lemma_operation(d: SqlDialect, op: OperationModel)
    requires
        flat_operation(d, op),
    ensures
        agrees(pretty_style(d).operation(op), compact_style(d).operation(op)),
    decreases op,
{
    broadcast use lemma_agrees_same, lemma_agrees_add;

    let p = pretty_style(d);
    let c = compact_style(d);
    match op {
        OperationModel::Where(e) => {
            reveal_strlit("WHERE ");
            lemma_expr(d, e);
            lemma_clause(d, "WHERE "@, p.expr(e), c.expr(e));
        },
        OperationModel::Project(_) => {},
        OperationModel::Extend(_) => {},
        OperationModel::Limit(count) => {
            reveal_strlit("LIMIT ");
            let n = decimal(count as int);
            lemma_clause(d, "LIMIT "@, n, n);
        },
        OperationModel::Order(orders) => {
            reveal_strlit("ORDER BY ");
            lemma_orders(d, orders);
            lemma_agrees_joined(p.orders(orders), c.orders(orders), ", "@);
            lemma_clause(
                d,
                "ORDER BY "@,
                joined(p.orders(orders), ", "@),
                joined(c.orders(orders), ", "@),
            );
        },
        OperationModel::Aggregate { group_by, aggregates, having } => {
            reveal_strlit("GROUP BY ");
            reveal_strlit("HAVING ");
            lemma_exprs(d, group_by);
            lemma_agrees_joined(p.exprs(group_by), c.exprs(group_by), ", "@);
            lemma_clause(
                d,
                "GROUP BY "@,
                joined(p.exprs(group_by), ", "@),
                joined(c.exprs(group_by), ", "@),
            );
            match having {
                Some(e) => {
                    lemma_expr(d, e);
                    lemma_clause(d, "HAVING "@, p.expr(e), c.expr(e));
                },
                None => {},
            }
        },
        OperationModel::Join { kind, source, on } => {
            lemma_conditions(d, on);
            match source {
                JoinSourceModel::Filtered { table, filters } => {
                    lemma_exprs(d, filters);
                    lemma_agrees_joined(p.exprs(filters), c.exprs(filters), " AND "@);
                },
                _ => {},
            }
            assert(agrees(p.join_source(source), c.join_source(source)));
            lemma_join(d, kind, source, on);
        },
        OperationModel::Union(query) => {
            reveal_strlit("UNION");
            lemma_query(d, *query);
            lemma_clause(d, "UNION"@, Seq::empty(), Seq::empty());
            assert(p.gap() + "UNION"@ + Seq::empty() =~= p.gap() + "UNION"@);
            assert(c.gap() + "UNION"@ + Seq::empty() =~= c.gap() + "UNION"@);
            lemma_agrees_break(p.query(*query), c.query(*query));
            assert(p.gap() =~= "\n"@);
            assert(p.gap() + "UNION"@ + p.gap() + p.query(*query) =~= (p.gap() + "UNION"@) + (
            p.gap() + p.query(*query)));
            assert(c.gap() + "UNION"@ + c.gap() + c.query(*query) =~= (c.gap() + "UNION"@) + (
            c.gap() + c.query(*query)));
            assert(agrees(
                (p.gap() + "UNION"@) + (p.gap() + p.query(*query)),
                (c.gap() + "UNION"@) + (c.gap() + c.query(*query)),
            ));
        },
        OperationModel::Distinct(_) => {},
    }
}

proof fn lemma_operations(d: SqlDialect, ops: Seq<OperationModel>)
    requires
        flat_operations(d, ops),
    ensures
        forall|i: int|
            0 <= i < ops.len() ==> agrees(
                #[trigger] pretty_style(d).operations(ops)[i],
                compact_style(d).operations(ops)[i],
            ),
        agrees(pretty_style(d).extensions(ops), compact_style(d).extensions(ops)),
        forall|i: int| 0 <= i < ops.len() ==> flat_operation(d, #[trigger] ops[i]),
    decreases ops,
{
    broadcast use lemma_agrees_same, lemma_agrees_add;

    if ops.len() > 0 {
        let shorter = ops.drop_last();
        lemma_operations(d, shorter);
        lemma_operation(d, ops.last());
        assert forall|i: int| 0 <= i < ops.len() implies agrees(
            #[trigger] pretty_style(d).operations(ops)[i],
            compact_style(d).operations(ops)[i],
        ) by {
            if i < shorter.len() {
                assert(pretty_style(d).operations(shorter)[i] == pretty_style(d).operations(
                    ops,
                )[i]);
                assert(compact_style(d).operations(shorter)[i] == compact_style(d).operations(
                    ops,
                )[i]);
            }
        }
        assert forall|i: int| 0 <= i < ops.len() implies flat_operation(d, #[trigger] ops[i]) by {
            if i < shorter.len() {
                assert(flat_operation(d, shorter[i]));
            }
        }
        lemma_extension(d, ops.last());
    }
}

proof fn lemma_extension(d: SqlDialect, op: OperationModel)
    requires
        flat_operation(d, op),
    ensures
        agrees(pretty_style(d).extension(op), compact_style(d).extension(op)),
    decreases op, 0int,
{
    broadcast use lemma_agrees_same, lemma_agrees_add;

    match op {
        OperationModel::Extend(columns) => {
            lemma_columns(d, columns);
            lemma_agrees_joined(
                pretty_style(d).columns(columns),
                compact_style(d).columns(columns),
                ", "@,
            );
        },
        _ => {},
    }
}

proof fn lemma_base_selection(d: SqlDialect, ops: Seq<OperationModel>)
    requires
        forall|i: int| 0 <= i < ops.len() ==> flat_operation(d, #[trigger] ops[i]),
    ensures
        agrees(pretty_style(d).base_selection(ops), compact_style(d).base_selection(ops)),
    decreases ops, 0int,
{
    broadcast use lemma_agrees_same, lemma_agrees_add;

    let p = pretty_style(d);
    let c = compact_style(d);
    let wanted = |op: OperationModel| is_project(op);
    let grouped = |op: OperationModel| is_aggregate(op);
    lemma_first_index(ops, wanted);
    lemma_first_index(ops, grouped);
    let i = first_index(ops, wanted);
    let j = first_index(ops, grouped);
    if i < ops.len() {
        assert(is_project(ops[i]));
        assert(flat_operation(d, ops[i]));
        let columns = ops[i]->Project_0;
        lemma_columns(d, columns);
        lemma_agrees_joined(p.columns(columns), c.columns(columns), ", "@);
    } else if j < ops.len() {
        assert(is_aggregate(ops[j]));
        assert(flat_operation(d, ops[j]));
        let group_by = ops[j]->Aggregate_group_by;
        let aggregates = ops[j]->aggregates;
        lemma_exprs(d, group_by);
        lemma_aggregates(d, aggregates);
        let ps = p.exprs(group_by) + p.aggregates(aggregates);
        let cs = c.exprs(group_by) + c.aggregates(aggregates);
        assert forall|k: int| 0 <= k < ps.len() implies agrees(#[trigger] ps[k], cs[k]) by {
            if k < group_by.len() {
                assert(agrees(p.exprs(group_by)[k], c.exprs(group_by)[k]));
            } else {
                assert(agrees(
                    p.aggregates(aggregates)[k - group_by.len()],
                    c.aggregates(aggregates)[k - group_by.len()],
                ));
            }
        }
        lemma_agrees_joined(ps, cs, ", "@);
    }
}

proof fn lemma_query(d: SqlDialect, q: QueryModel)
    requires
        flat_query(d, q),
    ensures
        agrees(pretty_style(d).query(q), compact_style(d).query(q)),
        starts_dark(pretty_style(d).query(q)),
    decreases q,
{
    broadcast use lemma_agrees_same, lemma_agrees_add;

    let p = pretty_style(d);
    let c = compact_style(d);
    lemma_operations(d, q.pipeline);
    lemma_base_selection(d, q.pipeline);
    lemma_agrees_concatenated(p.operations(q.pipeline), c.operations(q.pipeline));
    let ps = p.with_clause(q.ctes) + p.select_clause(q.pipeline);
    let cs = c.with_clause(q.ctes) + c.select_clause(q.pipeline);
    assert(agrees(p.selection(q.pipeline), c.selection(q.pipeline)));
    assert(agrees(p.select_clause(q.pipeline), c.select_clause(q.pipeline)));
    assert(agrees(ps, cs));
    reveal_strlit("FROM ");
    reveal_strlit("SELECT ");
    reveal_strlit("");
    lemma_clause(d, "FROM "@, q.source, q.source);
    let pf = p.gap() + "FROM "@ + q.source;
    let cf = c.gap() + "FROM "@ + q.source;
    let pe = concatenated(p.operations(q.pipeline));
    let ce = concatenated(c.operations(q.pipeline));
    assert(agrees(ps + pf + pe, cs + cf + ce));
    assert(p.query(q) =~= ps + pf + pe);
    assert(c.query(q) =~= cs + cf + ce);
    assert(p.query(q)[0] == 'S');
}

/// Pretty text differs from compact text in white space alone: with each of its
/// line breaks, and the blanks behind it, turned into one blank, it is the compact
/// text. This is stated of queries that have no common table expressions and join
/// no nested query, which stand in brackets on lines of their own, and whose
/// compact text is on one line. No alias may be the text of its expression in one
/// style only: it would be left out there.
pub proof fn pretty_text_differs_in_white_space(d: SqlDialect, q: QueryModel)
    requires
        flat_query(d, q),
        !compact_style(d).query(q).contains('\n'),
    ensures
        unbroken(pretty_style(d).query(q)) == compact_style(d).query(q),
{
    lemma_query(d, q);
    reveal(agrees);
}

} // verus!
