//! Laws of references: what the names, paths, literals and fields of a rule stand for.

use crate::ast::{
    BigNumber, Expr, Literal, LiteralStmt, Number, Rule, RuleBody, RuleHead, Value,
};
use crate::errors::{ErrorModel, Fault};
use crate::model::{
    ColumnModel, ExprModel, InputModel, LiteralModel, OperationModel, QueryModel,
};
use crate::text::{after_last, initials, joined};
use crate::translation::{
    aliases_of, any_branch_refers_to, any_refers_to, any_some_in, assembled, first_table,
    function_name, has_some_in, indexed_columns, indexed_columns_of, indexed_columns_of_body,
    indexed_columns_of_fields, input_path, is_join, joins, json_extracted, json_path, last_field,
    refers_to, row_conditions, TranslatorModel,
};
use crate::translation_laws::other_conditions_filter_rows;
use vstd::prelude::*;

verus! {

/// The path under `input` that an expression names, with dots between its keys, and
/// whether it names `input` itself.
pub open spec fn input_key(e: Expr) -> Option<(bool, Seq<char>)>
    decreases e,
{
    match e {
        Expr::Var { value: Value::String(name) } => if name@ == "input"@ {
            Some((true, Seq::empty()))
        } else {
            None
        },
        Expr::RefDot { refr, field: Value::String(key) } => match input_key(*refr) {
            Some((root, path)) => Some((false, one_key_further(root, path, key@))),
            None => None,
        },
        Expr::RefBrack { refr, index } => match (input_key(*refr), *index) {
            (Some((root, path)), Expr::String { value: Value::String(key) }) => Some(
                (false, one_key_further(root, path, key@)),
            ),
            _ => None,
        },
        _ => None,
    }
}

/// A path with one more key.
pub open spec fn one_key_further(root: bool, path: Seq<char>, key: Seq<char>) -> Seq<char> {
    if root {
        key
    } else {
        path + seq!['.'] + key
    }
}

proof fn lemma_joined_push(path: Seq<Seq<char>>, key: Seq<char>)
    ensures
        joined(path.push(key), "."@) == one_key_further(path.len() == 0, joined(path, "."@), key),
{
    reveal_strlit(".");
    assert("."@ =~= seq!['.']);
    assert(path.push(key).drop_last() =~= path);
}

proof fn lemma_input_key(e: Expr)
    requires
        input_key(e) is Some,
    ensures
        match input_path(e) {
            Ok(Some(path)) => input_key(e) == Some((path.len() == 0, joined(path, "."@))),
            _ => false,
        },
    decreases e,
{
    match e {
        Expr::RefDot { refr, field: Value::String(key) } => {
            lemma_input_key(*refr);
            lemma_joined_push(input_path(*refr)->Ok_0->Some_0, key@);
        },
        Expr::RefBrack { refr, index } => match *index {
            Expr::String { value: Value::String(key) } => {
                lemma_input_key(*refr);
                lemma_joined_push(input_path(*refr)->Ok_0->Some_0, key@);
            },
            _ => {},
        },
        _ => {},
    }
}

/// A path under `input`, be it written with dots or with brackets, stands for what is
/// bound to it: a literal for itself, a host variable for that variable. Where nothing
/// is bound to it, the path that is missing is named.
pub proof fn input_paths_stand_for_what_is_bound(t: TranslatorModel, e: Expr)
    requires
        input_key(e) is Some,
    ensures
        ({
            let key = input_key(e)->Some_0.1;
            t.expression(e) == if t.input_bindings.contains_key(key) {
                match t.input_bindings[key] {
                    InputModel::Literal(literal) => Ok(ExprModel::Literal(literal)),
                    InputModel::Variable(name) => Ok(ExprModel::InjectedVariable(name)),
                }
            } else if key.len() == 0 {
                Err(ErrorModel::Rejected(Fault::InputNotBound))
            } else {
                Err(ErrorModel::MissingInputBinding(key))
            }
        }),
{
    lemma_input_key(e);
    let path = input_path(e)->Ok_0->Some_0;
    assert(joined(Seq::<Seq<char>>::empty(), "."@) =~= Seq::empty());
    match e {
        Expr::Var { value: Value::String(name) } => {
            assert(path =~= Seq::empty());
            assert(t.expression(e) == t.variable(name@));
        },
        _ => {
            assert(t.expression(e) == t.input_value(path));
        },
    }
}

/// A lookup of a key in JSON, as JSON or as text.
pub open spec fn looked_up(name: Seq<char>, base: ExprModel, key: Seq<char>) -> ExprModel {
    ExprModel::Function {
        name,
        args: seq![base, ExprModel::Literal(LiteralModel::String(key))],
    }
}

/// A field of anything but a table is looked up in JSON, and the lookup gives text.
pub proof fn fields_are_looked_up_as_text(
    t: TranslatorModel,
    refr: Expr,
    key: String,
    base: ExprModel,
)
    requires
        !(refr is RefDot),
        input_path(refr) == Ok::<Option<Seq<Seq<char>>>, ErrorModel>(None),
        refr matches Expr::Var { value: Value::String(var) } ==> !t.table_variables.contains(var@),
        t.expression(refr) == Ok::<ExprModel, ErrorModel>(base),
    ensures
        t.expression(
            (Expr::RefDot { refr: Box::new(refr), field: Value::String(key) }),
        ) == Ok::<ExprModel, ErrorModel>(looked_up("json_extract_text"@, base, key@)),
{
    let e = Expr::RefDot { refr: Box::new(refr), field: Value::String(key) };
    assert(input_path(e) == Ok::<Option<Seq<Seq<char>>>, ErrorModel>(None));
    assert(t.reference_parts(refr) == Ok::<(ExprModel, Seq<Seq<char>>), ErrorModel>(
        (base, Seq::empty()),
    ));
    let keys = Seq::<Seq<char>>::empty().push(key@);
    assert(t.reference_parts(e) == Ok::<(ExprModel, Seq<Seq<char>>), ErrorModel>((base, keys)));
    assert(keys.drop_last() =~= Seq::empty());
    assert(json_extracted(base, keys.drop_last()) == base);
}

/// A field of a field: what was a column is now the start of a lookup, and what was
/// looked up as text is now looked up as JSON; the new key gives the text.
pub proof fn paths_grow_key_by_key(t: TranslatorModel, refr: Expr, key: String, r: ExprModel)
    requires
        refr is RefDot,
        input_path(refr) == Ok::<Option<Seq<Seq<char>>>, ErrorModel>(None),
        t.expression(refr) == Ok::<ExprModel, ErrorModel>(r),
    ensures
        ({
            let longer = t.expression(
                (Expr::RefDot { refr: Box::new(refr), field: Value::String(key) }),
            );
            match r {
                ExprModel::Function { name, args } => {
                    &&& name == "json_extract_text"@
                    &&& longer == Ok::<ExprModel, ErrorModel>(
                        looked_up(
                            "json_extract_text"@,
                            ExprModel::Function { name: "json_extract"@, args },
                            key@,
                        ),
                    )
                },
                ExprModel::Column(_) => longer == Ok::<ExprModel, ErrorModel>(
                    looked_up("json_extract_text"@, r, key@),
                ),
                _ => false,
            }
        }),
{
    let e = Expr::RefDot { refr: Box::new(refr), field: Value::String(key) };
    assert(input_path(e) == Ok::<Option<Seq<Seq<char>>>, ErrorModel>(None));
    let (base, keys) = t.reference_parts(refr)->Ok_0;
    assert(t.reference_parts(e) == Ok::<(ExprModel, Seq<Seq<char>>), ErrorModel>(
        (base, keys.push(key@)),
    ));
    assert(keys.push(key@).drop_last() =~= keys);
    assert(r == json_path(base, keys));
    assert(t.expression(e) == Ok::<ExprModel, ErrorModel>(json_path(base, keys.push(key@))));
    if keys.len() > 0 {
        assert(json_extracted(base, keys) == looked_up(
            "json_extract"@,
            json_extracted(base, keys.drop_last()),
            keys.last(),
        ));
    } else {
        assert(json_extracted(base, keys) == base);
        lemma_direct(t, refr);
    }
}

proof fn lemma_direct(t: TranslatorModel, e: Expr)
    requires
        e is RefDot,
    ensures
        match t.reference_parts(e) {
            Ok((base, keys)) => keys.len() > 0 || base is Column,
            Err(_) => true,
        },
{
}

/// A variable that neither ranges over a table nor was assigned stands for the column
/// of its name.
pub proof fn other_variables_are_columns(t: TranslatorModel, name: String)
    requires
        name@ != "input"@,
        !t.variable_assignments.contains_key(name@),
    ensures
        t.expression((Expr::Var { value: Value::String(name) })) == Ok::<ExprModel, ErrorModel>(
            ExprModel::Column(name@),
        ),
{
    let e = Expr::Var { value: Value::String(name) };
    assert(t.expression(e) == t.variable(name@));
}

/// A literal stands for itself. An integer keeps its value where SQL can hold it.
pub proof fn literals_stand_for_themselves(
    t: TranslatorModel,
    s: String,
    b: bool,
    u: u64,
    i: i64,
    big: BigNumber,
)
    ensures
        t.expression((Expr::String { value: Value::String(s) })) == Ok::<ExprModel, ErrorModel>(
            ExprModel::Literal(LiteralModel::String(s@)),
        ),
        t.expression((Expr::Bool { value: Value::Bool(b) })) == Ok::<ExprModel, ErrorModel>(
            ExprModel::Literal(LiteralModel::Boolean(b)),
        ),
        t.expression(Expr::Null) == Ok::<ExprModel, ErrorModel>(
            ExprModel::Literal(LiteralModel::Null),
        ),
        match t.expression((Expr::Number { value: Value::Number(Number::UInt(u)) })) {
            Ok(ExprModel::Literal(LiteralModel::Integer(n))) => u <= i64::MAX ==> n == u,
            _ => false,
        },
        match t.expression((Expr::Number { value: Value::Number(Number::Int(i)) })) {
            Ok(ExprModel::Literal(LiteralModel::Integer(n))) => n == i,
            _ => false,
        },
        match t.expression((Expr::Number { value: Value::Number(Number::Big(big)) })) {
            Ok(ExprModel::Literal(LiteralModel::Integer(n))) => big.integral && (big.as_i64
                matches Some(k) ==> n == k),
            Ok(ExprModel::Literal(LiteralModel::Float(f))) => !big.integral && (big.as_f64
                matches Some(k) ==> f == k@),
            _ => false,
        },
{
    let unsigned = Expr::Number { value: Value::Number(Number::UInt(u)) };
    let signed = Expr::Number { value: Value::Number(Number::Int(i)) };
    let large = Expr::Number { value: Value::Number(Number::Big(big)) };
    assert(t.expression(unsigned) is Ok);
    assert(t.expression(signed) is Ok);
    assert(t.expression(large) is Ok);
    let text = Expr::String { value: Value::String(s) };
    let truth = Expr::Bool { value: Value::Bool(b) };
    assert(t.expression(text) is Ok);
    assert(t.expression(truth) is Ok);
}

/// The name of a function with its namespaces, a dot between each two.
pub open spec fn dotted_name(e: Expr) -> Option<Seq<char>>
    decreases e,
{
    match e {
        Expr::Var { value: Value::String(name) } => Some(name@),
        Expr::RefDot { refr, field: Value::String(name) } => match dotted_name(*refr) {
            Some(space) => Some(space + seq!['.'] + name@),
            None => None,
        },
        _ => None,
    }
}

proof fn lemma_dotted_name(e: Expr)
    requires
        dotted_name(e) is Some,
    ensures
        function_name(e) == Ok::<Seq<char>, ErrorModel>(dotted_name(e)->Some_0),
    decreases e,
{
    reveal_strlit(".");
    assert("."@ =~= seq!['.']);
    match e {
        Expr::RefDot { refr, field } => {
            lemma_dotted_name(*refr);
        },
        _ => {},
    }
}

/// A call is a call of the function that it names, on its arguments in their order.
pub proof fn calls_pass_their_arguments(
    t: TranslatorModel,
    fcn: Expr,
    params: Vec<Expr>,
    args: Seq<ExprModel>,
)
    requires
        dotted_name(fcn) is Some,
        t.expressions(params@) == Ok::<Seq<ExprModel>, ErrorModel>(args),
    ensures
        t.expression((Expr::Call { fcn: Box::new(fcn), params })) == t.function_call(
            dotted_name(fcn)->Some_0,
            args,
        ),
{
    lemma_dotted_name(fcn);
    let e = Expr::Call { fcn: Box::new(fcn), params };
    assert(t.expression(e) == t.function_call(dotted_name(fcn)->Some_0, args));
}

/// The name under which a column shows in the result: its alias, or the part of the
/// column behind the last dot.
pub open spec fn shows_as(c: ColumnModel, name: Seq<char>) -> bool {
    match c.alias {
        Some(alias) => alias == name,
        None => match c.expression {
            ExprModel::Column(column) => column == name || !name.contains('.')
                && column.len() > name.len() && column.skip(column.len() - name.len()) == name
                && column[column.len() - name.len() - 1] == '.',
            _ => false,
        },
    }
}

/// What stands behind the last dot of a text has no dot, and a dot stands before it.
pub proof fn lemma_after_last(s: Seq<char>)
    ensures
        !after_last(s, '.').contains('.'),
        after_last(s, '.').len() <= s.len(),
        s.skip(s.len() - after_last(s, '.').len()) == after_last(s, '.'),
        after_last(s, '.').len() < s.len() ==> s[s.len() - after_last(s, '.').len() - 1] == '.',
    decreases s.len(),
{
    let end = after_last(s, '.');
    if s.len() == 0 || s.last() == '.' {
        assert(s.skip(s.len() as int) =~= end);
    } else {
        let shorter = s.drop_last();
        lemma_after_last(shorter);
        let before = after_last(shorter, '.');
        assert(s.skip(s.len() - end.len()) =~= shorter.skip(shorter.len() - before.len()).push(
            s.last(),
        ));
        if end.contains('.') {
            let k = choose|k: int| 0 <= k < end.len() && end[k] == '.';
            if k < before.len() {
                assert(before[k] == '.');
            }
        }
    }
}

/// A field of a result object is a column with the value of the field that shows under
/// the name of the field.
pub proof fn fields_show_under_their_names(
    t: TranslatorModel,
    name: String,
    value: Expr,
    e: ExprModel,
)
    requires
        t.expression(value) == Ok::<ExprModel, ErrorModel>(e),
    ensures
        match t.field_column(((Expr::String { value: Value::String(name) }), value)) {
            Ok(c) => c.expression == e && c.name == name@ && shows_as(c, name@),
            Err(_) => false,
        },
{
    match e {
        ExprModel::Column(column) => {
            lemma_after_last(column);
            if column.len() == after_last(column, '.').len() {
                assert(column.skip(0) =~= column);
            }
        },
        _ => {},
    }
}

/// The fields of a result object become columns one by one, in their order.
pub proof fn fields_become_columns_one_by_one(t: TranslatorModel, fields: Seq<(Expr, Expr)>)
    ensures
        match t.field_columns(fields) {
            Ok(columns) => columns.len() == fields.len() && forall|i: int|
                0 <= i < fields.len() ==> #[trigger] t.field_column(fields[i]) == Ok::<
                    ColumnModel,
                    ErrorModel,
                >(columns[i]),
            Err(error) => exists|i: int|
                0 <= i < fields.len() && #[trigger] t.field_column(fields[i]) == Err::<
                    ColumnModel,
                    ErrorModel,
                >(error),
        },
    decreases fields.len(),
{
    if fields.len() > 0 {
        let shorter = fields.drop_last();
        fields_become_columns_one_by_one(t, shorter);
        let last = fields.len() - 1;
        assert(fields[last] == fields.last());
        match t.field_columns(shorter) {
            Ok(columns) => {
                assert forall|i: int| 0 <= i < shorter.len() implies #[trigger] t.field_column(
                    fields[i],
                ) == Ok::<ColumnModel, ErrorModel>(columns[i]) by {
                    assert(t.field_column(shorter[i]) == Ok::<ColumnModel, ErrorModel>(
                        columns[i],
                    ));
                }
                if t.field_column(fields.last()) is Err {
                    assert(t.field_column(fields[last]) is Err);
                }
            },
            Err(error) => {
                let i = choose|i: int|
                    0 <= i < shorter.len() && #[trigger] t.field_column(shorter[i]) == Err::<
                        ColumnModel,
                        ErrorModel,
                    >(error);
                assert(t.field_column(fields[i]) == Err::<ColumnModel, ErrorModel>(error));
            },
        }
    }
}

/// A query projects the columns that it is given, behind everything else, and only
/// where there are any. It filters only where a condition does not join tables.
pub proof fn projection_stands_last(
    tables: Seq<(Seq<char>, Seq<char>)>,
    aliases: Seq<Seq<char>>,
    conditions: Seq<ExprModel>,
    source: Seq<char>,
    columns: Seq<ColumnModel>,
)
    ensures
        ({
            let pipeline = assembled(tables, aliases, conditions, source, columns).pipeline;
            &&& columns.len() > 0 ==> pipeline.len() > 0 && pipeline.last()
                == OperationModel::Project(columns)
            &&& forall|i: int|
                0 <= i < pipeline.len() ==> ((#[trigger] pipeline[i]) is Project ==> columns.len()
                    > 0 && i == pipeline.len() - 1)
            &&& forall|i: int|
                0 <= i < pipeline.len() ==> ((#[trigger] pipeline[i]) is Where ==> exists|j: int|
                    0 <= j < conditions.len() && !is_join(#[trigger] conditions[j], aliases))
        }),
{
    let pipeline = assembled(tables, aliases, conditions, source, columns).pipeline;
    let first = joins(tables, aliases, conditions);
    let rows = row_conditions(conditions, aliases);
    assert forall|i: int| 0 <= i < first.len() implies (#[trigger] pipeline[i]) is Join by {
        assert(pipeline[i] == first[i]);
    }
    if rows.len() > 0 {
        let e = rows[0];
        assert(rows.contains(e));
        other_conditions_filter_rows(conditions, aliases, e);
        let j = choose|j: int| 0 <= j < conditions.len() && conditions[j] == e;
        assert(!is_join(conditions[j], aliases));
    }
}

/// The initials of a name in several parts are those of its parts, one behind the
/// other.
pub proof fn initials_are_those_of_the_parts(a: Seq<char>, b: Seq<char>)
    ensures
        initials(a + seq!['_'] + b) == initials(a) + initials(b),
    decreases b.len(),
{
    let whole = a + seq!['_'] + b;
    if b.len() == 0 {
        assert(whole.drop_last() =~= a);
        assert(whole.last() == '_');
        assert(initials(a) + initials(b) =~= initials(a));
    } else {
        initials_are_those_of_the_parts(a, b.drop_last());
        assert(whole.drop_last() =~= a + seq!['_'] + b.drop_last());
        assert(whole.last() == b.last());
        assert(whole[whole.len() - 2] == if b.len() == 1 {
            '_'
        } else {
            b[b.len() - 2]
        });
        assert(initials(whole) =~= initials(a) + initials(b));
    }
}

/// The initial of a single word is its first letter.
pub proof fn initial_is_the_first_letter(word: Seq<char>)
    requires
        word.len() > 0,
        !word.contains('_'),
    ensures
        initials(word) == seq![word[0]],
    decreases word.len(),
{
    assert(word[word.len() - 1] != '_');
    if word.len() == 1 {
        reveal_with_fuel(initials, 2);
        assert(word.drop_last() =~= Seq::empty());
        assert(initials(word) =~= seq![word[0]]);
    } else {
        assert(word[word.len() - 2] != '_');
        assert(forall|i: int| 0 <= i < word.len() - 1 ==> word.drop_last()[i] == word[i]);
        initial_is_the_first_letter(word.drop_last());
    }
}

/// A query selects from the first table that has a name, and from the default table
/// only where none has.
pub proof fn first_named_table_is_the_source(t: TranslatorModel)
    ensures
        match t.source() {
            Ok(source) => (exists|i: int|
                0 <= i < t.tables_seen.len() && (#[trigger] t.tables_seen[i]).0 == source
                    && source.len() > 0 && forall|j: int|
                    0 <= j < i ==> (#[trigger] t.tables_seen[j]).0.len() == 0) || t.default_table
                == Some(source) && forall|j: int|
                0 <= j < t.tables_seen.len() ==> (#[trigger] t.tables_seen[j]).0.len() == 0,
            Err(_) => t.default_table is None && forall|j: int|
                0 <= j < t.tables_seen.len() ==> (#[trigger] t.tables_seen[j]).0.len() == 0,
        },
{
    lemma_first_table(t.tables_seen);
}

proof fn lemma_first_table(tables: Seq<(Seq<char>, Seq<char>)>)
    ensures
        ({
            let found = first_table(tables);
            if found.len() > 0 {
                exists|i: int|
                    0 <= i < tables.len() && (#[trigger] tables[i]).0 == found && forall|j: int|
                        0 <= j < i ==> (#[trigger] tables[j]).0.len() == 0
            } else {
                forall|j: int| 0 <= j < tables.len() ==> (#[trigger] tables[j]).0.len() == 0
            }
        }),
    decreases tables.len(),
{
    if tables.len() > 0 {
        let shorter = tables.drop_last();
        lemma_first_table(shorter);
        let earlier = first_table(shorter);
        assert(forall|j: int| 0 <= j < shorter.len() ==> shorter[j] == tables[j]);
        if earlier.len() > 0 {
            let i = choose|i: int|
                0 <= i < shorter.len() && (#[trigger] shorter[i]).0 == earlier && forall|j: int|
                    0 <= j < i ==> (#[trigger] shorter[j]).0.len() == 0;
            assert(tables[i].0 == earlier);
        } else {
            let last = tables.len() - 1;
            assert(tables[last].0 == tables.last().0);
            assert forall|j: int| 0 <= j < last implies (#[trigger] tables[j]).0.len() == 0 by {
                assert(shorter[j].0.len() == 0);
            }
        }
    }
}

/// A statement that ranges over a table adds that table, with the variable, behind
/// the others; no other statement adds a table.
pub proof fn table_statements_add_tables(t: TranslatorModel, literal: Literal)
    ensures
        match t.table_statement(literal) {
            Ok(next) => next.conditions == t.conditions && next.variable_assignments
                == t.variable_assignments && (if literal is SomeIn {
                next.tables_seen.len() == t.tables_seen.len() + 1 && next.tables_seen.drop_last()
                    == t.tables_seen && next.table_variables == t.table_variables.push(
                    next.tables_seen.last().1,
                )
            } else {
                next == t
            }),
            Err(_) => literal is SomeIn,
        },
{
    match t.table_statement(literal) {
        Ok(next) => {
            if literal is SomeIn {
                assert(next.tables_seen.drop_last() =~= t.tables_seen);
            }
        },
        Err(_) => {},
    }
}

/// `some var in data.table` ranges over the table of that name.
pub proof fn tables_are_named_under_data(
    t: TranslatorModel,
    root: String,
    var: String,
    table: String,
)
    requires
        root@ == "data"@,
    ensures
        match t.table_statement(
            (Literal::SomeIn {
                value: (Expr::Var { value: Value::String(var) }),
                collection: (Expr::RefDot {
                    refr: Box::new((Expr::Var { value: Value::String(root) })),
                    field: Value::String(table),
                }),
            }),
        ) {
            Ok(next) => next.tables_seen == t.tables_seen.push((table@, var@))
                && next.table_variables == t.table_variables.push(var@),
            Err(_) => false,
        },
{
}

/// The expressions that an expression is made of.
pub open spec fn parts(e: Expr) -> Seq<Expr> {
    match e {
        Expr::RefBrack { refr, index } => seq![*refr, *index],
        Expr::BoolExpr { op, lhs, rhs } => seq![*lhs, *rhs],
        Expr::ArithExpr { op, lhs, rhs } => seq![*lhs, *rhs],
        Expr::BinExpr { op, lhs, rhs } => seq![*lhs, *rhs],
        Expr::AssignExpr { lhs, rhs } => seq![*lhs, *rhs],
        Expr::Membership { value, collection } => seq![*value, *collection],
        Expr::Object { fields } => fields@.map_values(|f: (Expr, Expr)| f.0) + fields@.map_values(
            |f: (Expr, Expr)| f.1,
        ),
        Expr::Array { items } => items@,
        Expr::SetExpr { items } => items@,
        Expr::Call { fcn, params } => seq![*fcn] + params@,
        Expr::RefDot { refr, field } => seq![*refr],
        Expr::UnaryExpr { expr } => seq![*expr],
        _ => Seq::empty(),
    }
}

/// Whether an expression is a field, or an element of one, indexed by a number.
pub open spec fn indexes_field(e: Expr, column: Seq<char>) -> bool {
    match e {
        Expr::RefBrack { refr, index } => *index is Number && names_field(*refr, column),
        _ => false,
    }
}

/// Whether an expression is a field of the given name, or an element of one.
pub open spec fn names_field(e: Expr, column: Seq<char>) -> bool
    decreases e,
{
    match e {
        Expr::RefDot { refr, field: Value::String(name) } => name@ == column,
        Expr::RefBrack { refr, index } => names_field(*refr, column),
        _ => false,
    }
}

proof fn lemma_names_field(e: Expr, column: Seq<char>)
    ensures
        names_field(e, column) <==> last_field(e) == Some(column),
    decreases e,
{
    match e {
        Expr::RefBrack { refr, index } => {
            lemma_names_field(*refr, column);
        },
        _ => {},
    }
}

proof fn lemma_indexed_in_items(es: Seq<Expr>, column: Seq<char>)
    ensures
        indexed_columns_of(es).contains(column) <==> exists|i: int|
            0 <= i < es.len() && indexed_columns(#[trigger] es[i]).contains(column),
    decreases es.len(),
{
    if es.len() > 0 {
        let shorter = es.drop_last();
        lemma_indexed_in_items(shorter, column);
        let last = es.len() - 1;
        assert(es[last] == es.last());
        if indexed_columns_of(shorter).contains(column) {
            let i = choose|i: int|
                0 <= i < shorter.len() && indexed_columns(#[trigger] shorter[i]).contains(column);
            assert(es[i] == shorter[i]);
        }
        if exists|i: int|
            0 <= i < es.len() && indexed_columns(#[trigger] es[i]).contains(column) {
            let i = choose|i: int|
                0 <= i < es.len() && indexed_columns(#[trigger] es[i]).contains(column);
            if i < last {
                assert(shorter[i] == es[i]);
            }
        }
    }
}

proof fn lemma_indexed_in_fields(fields: Seq<(Expr, Expr)>, column: Seq<char>)
    ensures
        indexed_columns_of_fields(fields).contains(column) <==> exists|i: int|
            0 <= i < fields.len() && (indexed_columns((#[trigger] fields[i]).0).contains(column)
                || indexed_columns(fields[i].1).contains(column)),
    decreases fields.len(),
{
    if fields.len() > 0 {
        let shorter = fields.drop_last();
        lemma_indexed_in_fields(shorter, column);
        let last = fields.len() - 1;
        assert(fields[last] == fields.last());
        if indexed_columns_of_fields(shorter).contains(column) {
            let i = choose|i: int|
                0 <= i < shorter.len() && (indexed_columns((#[trigger] shorter[i]).0).contains(
                    column,
                ) || indexed_columns(shorter[i].1).contains(column));
            assert(fields[i] == shorter[i]);
        }
        if exists|i: int|
            0 <= i < fields.len() && (indexed_columns((#[trigger] fields[i]).0).contains(column)
                || indexed_columns(fields[i].1).contains(column)) {
            let i = choose|i: int|
                0 <= i < fields.len() && (indexed_columns((#[trigger] fields[i]).0).contains(
                    column,
                ) || indexed_columns(fields[i].1).contains(column));
            if i < last {
                assert(shorter[i] == fields[i]);
            }
        }
    }
}

/// A column is counted as an array exactly where a part of an expression, at any
/// depth, indexes a field of that name by a number.
pub proof fn indexed_columns_are_found_at_any_depth(e: Expr, column: Seq<char>)
    ensures
        indexed_columns(e).contains(column) <==> indexes_field(e, column) || exists|i: int|
            0 <= i < parts(e).len() && indexed_columns(#[trigger] parts(e)[i]).contains(column),
{
    let ps = parts(e);
    match e {
        Expr::RefBrack { refr, index } => {
            lemma_names_field(*refr, column);
            assert(ps[0] == *refr && ps[1] == *index);
        },
        Expr::BoolExpr { op, lhs, rhs } => {
            assert(ps[0] == *lhs && ps[1] == *rhs);
        },
        Expr::ArithExpr { op, lhs, rhs } => {
            assert(ps[0] == *lhs && ps[1] == *rhs);
        },
        Expr::BinExpr { op, lhs, rhs } => {
            assert(ps[0] == *lhs && ps[1] == *rhs);
        },
        Expr::AssignExpr { lhs, rhs } => {
            assert(ps[0] == *lhs && ps[1] == *rhs);
        },
        Expr::Membership { value, collection } => {
            assert(ps[0] == *value && ps[1] == *collection);
        },
        Expr::Object { fields } => {
            lemma_indexed_in_fields(fields@, column);
            let n = fields@.len();
            assert forall|i: int| 0 <= i < n implies ps[i] == (#[trigger] fields@[i]).0 && ps[i
                + n] == fields@[i].1 by {}
            if indexed_columns(e).contains(column) {
                let i = choose|i: int|
                    0 <= i < n && (indexed_columns((#[trigger] fields@[i]).0).contains(column)
                        || indexed_columns(fields@[i].1).contains(column));
                assert(ps[i] == fields@[i].0 && ps[i + n] == fields@[i].1);
            }
            if exists|i: int|
                0 <= i < ps.len() && indexed_columns(#[trigger] ps[i]).contains(column) {
                let i = choose|i: int|
                    0 <= i < ps.len() && indexed_columns(#[trigger] ps[i]).contains(column);
                let k = if i < n {
                    i
                } else {
                    i - n
                };
                assert(indexed_columns(fields@[k].0).contains(column) || indexed_columns(
                    fields@[k].1,
                ).contains(column));
            }
        },
        Expr::Array { items } => {
            lemma_indexed_in_items(items@, column);
        },
        Expr::SetExpr { items } => {
            lemma_indexed_in_items(items@, column);
        },
        Expr::Call { fcn, params } => {
            lemma_indexed_in_items(params@, column);
            assert(ps[0] == *fcn);
            assert forall|i: int| 0 <= i < params@.len() implies ps[i + 1]
                == #[trigger] params@[i] by {}
            if indexed_columns_of(params@).contains(column) {
                let i = choose|i: int|
                    0 <= i < params@.len() && indexed_columns(#[trigger] params@[i]).contains(
                        column,
                    );
                assert(ps[i + 1] == params@[i]);
            }
            if exists|i: int|
                0 <= i < ps.len() && indexed_columns(#[trigger] ps[i]).contains(column) {
                let i = choose|i: int|
                    0 <= i < ps.len() && indexed_columns(#[trigger] ps[i]).contains(column);
                if i > 0 {
                    assert(params@[i - 1] == ps[i]);
                }
            }
        },
        Expr::RefDot { refr, field } => {
            assert(ps[0] == *refr);
        },
        Expr::UnaryExpr { expr } => {
            assert(ps[0] == *expr);
        },
        _ => {},
    }
}

/// A column is known for an array by the name behind its last dot, whatever table it is
/// of.
pub proof fn arrays_are_known_by_name(t: TranslatorModel, table: Seq<char>, name: Seq<char>)
    requires
        !name.contains('.'),
    ensures
        t.is_array(ExprModel::Column(name)) == t.array_columns.contains(name),
        t.is_array(ExprModel::Column(table + seq!['.'] + name)) == t.array_columns.contains(name),
{
    let whole = table + seq!['.'] + name;
    lemma_after_last(name);
    lemma_after_last(whole);
    let a = after_last(name, '.');
    if a.len() < name.len() {
        assert(name.contains(name[name.len() - a.len() - 1]));
    }
    assert(name.skip(0) =~= name);
    assert(a == name);
    let b = after_last(whole, '.');
    if b.len() < name.len() {
        let k = whole.len() - b.len() - 1;
        assert(whole[k] == name[k - table.len() - 1]);
        assert(name.contains(name[k - table.len() - 1]));
    }
    if b.len() > name.len() {
        assert(b[b.len() - name.len() - 1] == whole[whole.len() - name.len() - 1]);
        assert(b.contains('.'));
    }
    assert(whole.skip(whole.len() - name.len()) =~= name);
}

/// Statements take effect one behind the other: what stands in two parts adds what the
/// first part adds and then what the second adds to that.
pub proof fn statements_take_effect_in_order(
    t: TranslatorModel,
    a: Seq<LiteralStmt>,
    b: Seq<LiteralStmt>,
)
    ensures
        match t.statements(a) {
            (middle, Ok(first)) => match middle.statements(b) {
                (end, Ok(second)) => t.statements(a + b) == (
                    end,
                    Ok::<Seq<ColumnModel>, ErrorModel>(first + second),
                ),
                (end, Err(error)) => t.statements(a + b) == (
                    end,
                    Err::<Seq<ColumnModel>, ErrorModel>(error),
                ),
            },
            (middle, Err(error)) => t.statements(a + b) == t.statements(a),
        },
    decreases b.len(),
{
    if b.len() == 0 {
        assert(a + b =~= a);
        match t.statements(a) {
            (middle, Ok(first)) => {
                assert(first + Seq::<ColumnModel>::empty() =~= first);
            },
            _ => {},
        }
    } else {
        statements_take_effect_in_order(t, a, b.drop_last());
        assert((a + b).drop_last() =~= a + b.drop_last());
        assert((a + b).last() == b.last());
        match t.statements(a) {
            (middle, Ok(first)) => match middle.statements(b.drop_last()) {
                (end, Ok(second)) => match end.statement(b.last().literal) {
                    Ok((next, more)) => {
                        assert(first + (second + more) =~= first + second + more);
                    },
                    Err(_) => {},
                },
                _ => {},
            },
            _ => {},
        }
    }
}

/// An object that is assigned projects its fields and changes nothing else.
pub proof fn assigned_objects_are_projected(
    t: TranslatorModel,
    lhs: Expr,
    fields: Vec<(Expr, Expr)>,
    columns: Seq<ColumnModel>,
)
    requires
        t.field_columns(fields@) == Ok::<Seq<ColumnModel>, ErrorModel>(columns),
    ensures
        t.statement(
            (Literal::Expr {
                expr: (Expr::AssignExpr {
                    lhs: Box::new(lhs),
                    rhs: Box::new((Expr::Object { fields })),
                }),
            }),
        ) == Ok::<(TranslatorModel, Seq<ColumnModel>), ErrorModel>((t, columns)),
{
    let object = Expr::Object { fields };
    assert(t.value_columns(object) == Ok::<Seq<ColumnModel>, ErrorModel>(columns));
}

/// A body projects the columns that its statements add, and behind them those of the
/// object that it assigns.
pub proof fn bodies_project_their_columns(t: TranslatorModel, body: RuleBody)
    requires
        t.body(body).1 is Ok,
    ensures
        ({
            let ready = TranslatorModel {
                array_columns: indexed_columns_of_body(body),
                ..t.tables_found(body.query.stmts@).0
            };
            let (done, added) = ready.statements(body.query.stmts@);
            let columns = added->Ok_0 + (match body.assign {
                Some(assign) => match assign.value {
                    Expr::Object { fields } => done.field_columns(fields@)->Ok_0,
                    _ => Seq::empty(),
                },
                None => Seq::empty(),
            });
            let pipeline = t.body(body).1->Ok_0.pipeline;
            &&& columns.len() > 0 ==> pipeline.len() > 0 && pipeline.last()
                == OperationModel::Project(columns)
            &&& columns.len() == 0 ==> forall|i: int|
                0 <= i < pipeline.len() ==> !((#[trigger] pipeline[i]) is Project)
        }),
{
    let ready = TranslatorModel {
        array_columns: indexed_columns_of_body(body),
        ..t.tables_found(body.query.stmts@).0
    };
    let (done, added) = ready.statements(body.query.stmts@);
    let columns = match body.assign {
        Some(assign) => added->Ok_0 + done.value_columns(assign.value)->Ok_0,
        None => added->Ok_0,
    };
    assert(added->Ok_0 + Seq::<ColumnModel>::empty() =~= added->Ok_0);
    projection_stands_last(
        done.tables_seen,
        aliases_of(done.tables_seen),
        done.conditions,
        done.source()->Ok_0,
        columns,
    );
}

/// Tables are found one behind the other: what stands in two parts has the tables of
/// the first part and then those of the second.
pub proof fn tables_are_found_in_order(
    t: TranslatorModel,
    a: Seq<LiteralStmt>,
    b: Seq<LiteralStmt>,
)
    ensures
        match t.tables_found(a) {
            (middle, Ok(())) => t.tables_found(a + b) == middle.tables_found(b),
            (middle, Err(_)) => t.tables_found(a + b) == t.tables_found(a),
        },
    decreases b.len(),
{
    if b.len() == 0 {
        assert(a + b =~= a);
    } else {
        tables_are_found_in_order(t, a, b.drop_last());
        assert((a + b).drop_last() =~= a + b.drop_last());
        assert((a + b).last() == b.last());
    }
}

/// A single statement is a body by itself.
pub proof fn single_statements_take_effect(t: TranslatorModel, stmt: LiteralStmt)
    ensures
        t.tables_found(seq![stmt]) == match t.table_statement(stmt.literal) {
            Ok(next) => (next, Ok::<(), ErrorModel>(())),
            Err(error) => (t, Err(error)),
        },
        t.statements(seq![stmt]) == match t.statement(stmt.literal) {
            Ok((next, columns)) => (next, Ok::<Seq<ColumnModel>, ErrorModel>(columns)),
            Err(error) => (t, Err(error)),
        },
{
    let one = seq![stmt];
    assert(one.drop_last() =~= Seq::empty());
    reveal_with_fuel(TranslatorModel::tables_found, 2);
    reveal_with_fuel(TranslatorModel::statements, 2);
    match t.statement(stmt.literal) {
        Ok((next, columns)) => {
            assert(Seq::<ColumnModel>::empty() + columns =~= columns);
        },
        Err(_) => {},
    }
}

/// A rule of the form `rule contains var if { ... }` that ranges over a table becomes
/// the query of its only body, translated with nothing but the settings; a rule with
/// several bodies, of another form, or without a table is refused.
pub proof fn rules_become_the_query_of_their_body(
    t: TranslatorModel,
    head: RuleHead,
    bodies: Vec<RuleBody>,
)
    ensures
        ({
            let outcome = t.rule((Rule::Spec { head, bodies })).1;
            let ranges = exists|i: int, j: int|
                0 <= i < bodies@.len() && 0 <= j < bodies@[i].query.stmts@.len()
                    && #[trigger] bodies@[i].query.stmts@[j].literal is SomeIn;
            if head != RuleHead::PartialSet {
                outcome == Err::<QueryModel, ErrorModel>(ErrorModel::Rejected(Fault::RulePattern))
            } else if !ranges {
                outcome == Err::<QueryModel, ErrorModel>(ErrorModel::Rejected(Fault::NoTable))
            } else if bodies@.len() != 1 {
                outcome == Err::<QueryModel, ErrorModel>(ErrorModel::Rejected(Fault::BodyCount))
            } else {
                outcome == (TranslatorModel {
                    default_table: t.default_table,
                    input_bindings: t.input_bindings,
                    variables: Seq::empty(),
                    table_variables: Seq::empty(),
                    tables_seen: Seq::empty(),
                    conditions: Seq::empty(),
                    variable_assignments: Map::empty(),
                    array_columns: Set::empty(),
                }).body(bodies@[0]).1
            }
        }),
        t.rule(Rule::Default).1 == Err::<QueryModel, ErrorModel>(
            ErrorModel::Rejected(Fault::DefaultRule),
        ),
{
    if any_some_in(bodies@) {
        let i = choose|i: int|
            0 <= i < bodies@.len() && has_some_in(#[trigger] bodies@[i].query.stmts@);
        let stmts = bodies@[i].query.stmts@;
        let j = choose|j: int| 0 <= j < stmts.len() && #[trigger] stmts[j].literal is SomeIn;
        assert(bodies@[i].query.stmts@[j].literal is SomeIn);
    }
    if exists|i: int, j: int|
        0 <= i < bodies@.len() && 0 <= j < bodies@[i].query.stmts@.len()
            && #[trigger] bodies@[i].query.stmts@[j].literal is SomeIn {
        let (i, j) = choose|i: int, j: int|
            0 <= i < bodies@.len() && 0 <= j < bodies@[i].query.stmts@.len()
                && #[trigger] bodies@[i].query.stmts@[j].literal is SomeIn;
        let stmts = bodies@[i].query.stmts@;
        assert(stmts[j].literal is SomeIn);
        assert(has_some_in(bodies@[i].query.stmts@));
    }
}

/// Where a field of a result object fails, the columns of the fields before it have
/// been added, and no others.
pub proof fn columns_are_added_up_to_the_failure(
    t: TranslatorModel,
    fields: Seq<(Expr, Expr)>,
    k: int,
)
    requires
        0 <= k < fields.len(),
        t.field_column(fields[k]) is Err,
        forall|i: int| 0 <= i < k ==> #[trigger] t.field_column(fields[i]) is Ok,
    ensures
        t.field_columns(fields) is Err,
        t.field_columns_added(fields).len() == k,
        forall|i: int|
            0 <= i < k ==> #[trigger] t.field_column(fields[i]) == Ok::<ColumnModel, ErrorModel>(
                t.field_columns_added(fields)[i],
            ),
{
    let before = fields.take(k);
    fields_become_columns_one_by_one(t, before);
    assert forall|i: int| 0 <= i < k implies #[trigger] t.field_column(before[i]) is Ok by {
        assert(t.field_column(fields[i]) is Ok);
    }
    assert(t.field_columns(before) is Ok);
    t.lemma_all_columns_added(before);
    let upto = fields.take(k + 1);
    assert(upto.drop_last() =~= before);
    assert(upto.last() == fields[k]);
    assert(t.field_columns(upto) is Err);
    t.lemma_first_field_failure(fields, k + 1);
    t.lemma_no_columns_after_failure(fields, k + 1);
    assert(t.field_columns_added(upto) == t.field_columns_added(before));
    assert forall|i: int| 0 <= i < k implies #[trigger] t.field_column(fields[i]) == Ok::<
        ColumnModel,
        ErrorModel,
    >(t.field_columns_added(fields)[i]) by {
        assert(t.field_column(before[i]) == Ok::<ColumnModel, ErrorModel>(
            t.field_columns(before)->Ok_0[i],
        ));
    }
}

/// The expressions that a SQL expression is made of. A nested query is none: its short
/// names are its own.
pub open spec fn sql_parts(e: ExprModel) -> Seq<ExprModel> {
    match e {
        ExprModel::Binary { op, left, right } => seq![*left, *right],
        ExprModel::Unary { op, operand } => seq![*operand],
        ExprModel::Function { name, args } => args,
        ExprModel::Array(items) => items,
        ExprModel::Case { conditions, default } => conditions.map_values(
            |b: (ExprModel, ExprModel)| b.0,
        ) + conditions.map_values(|b: (ExprModel, ExprModel)| b.1) + (match default {
            Some(d) => seq![*d],
            None => Seq::empty(),
        }),
        ExprModel::Parenthesized(inner) => seq![*inner],
        ExprModel::Cast { expression, target_type } => seq![*expression],
        ExprModel::Between { expression, lower, upper, not } => seq![*expression, *lower, *upper],
        ExprModel::ArrayIndex { expr, index } => seq![*expr, *index],
        _ => Seq::empty(),
    }
}

proof fn lemma_any_refers(es: Seq<ExprModel>, alias: Seq<char>)
    ensures
        any_refers_to(es, alias) <==> exists|i: int|
            0 <= i < es.len() && refers_to(#[trigger] es[i], alias),
    decreases es.len(),
{
    if es.len() > 0 {
        let shorter = es.drop_last();
        lemma_any_refers(shorter, alias);
        assert(es[es.len() - 1] == es.last());
        if any_refers_to(shorter, alias) {
            let i = choose|i: int| 0 <= i < shorter.len() && refers_to(#[trigger] shorter[i], alias);
            assert(es[i] == shorter[i]);
        }
        if exists|i: int| 0 <= i < es.len() && refers_to(#[trigger] es[i], alias) {
            let i = choose|i: int| 0 <= i < es.len() && refers_to(#[trigger] es[i], alias);
            if i < shorter.len() {
                assert(shorter[i] == es[i]);
            }
        }
    }
}

proof fn lemma_any_branch_refers(bs: Seq<(ExprModel, ExprModel)>, alias: Seq<char>)
    ensures
        any_branch_refers_to(bs, alias) <==> exists|i: int|
            0 <= i < bs.len() && (refers_to((#[trigger] bs[i]).0, alias) || refers_to(
                bs[i].1,
                alias,
            )),
    decreases bs.len(),
{
    if bs.len() > 0 {
        let shorter = bs.drop_last();
        lemma_any_branch_refers(shorter, alias);
        assert(bs[bs.len() - 1] == bs.last());
        if any_branch_refers_to(shorter, alias) {
            let i = choose|i: int|
                0 <= i < shorter.len() && (refers_to((#[trigger] shorter[i]).0, alias)
                    || refers_to(shorter[i].1, alias));
            assert(bs[i] == shorter[i]);
        }
        if exists|i: int|
            0 <= i < bs.len() && (refers_to((#[trigger] bs[i]).0, alias) || refers_to(
                bs[i].1,
                alias,
            )) {
            let i = choose|i: int|
                0 <= i < bs.len() && (refers_to((#[trigger] bs[i]).0, alias) || refers_to(
                    bs[i].1,
                    alias,
                ));
            if i < shorter.len() {
                assert(shorter[i] == bs[i]);
            }
        }
    }
}

/// An expression refers to a table exactly where it is a column with the short name and
/// a dot before it, or one of its parts refers to the table.
pub proof fn tables_are_referred_to_at_any_depth(e: ExprModel, alias: Seq<char>)
    ensures
        refers_to(e, alias) <==> match e {
            ExprModel::Column(name) => name.len() > alias.len() && name.take(alias.len() as int)
                == alias && name[alias.len() as int] == '.',
            _ => exists|i: int|
                0 <= i < sql_parts(e).len() && refers_to(#[trigger] sql_parts(e)[i], alias),
        },
{
    let ps = sql_parts(e);
    match e {
        ExprModel::Column(name) => {
            reveal_strlit(".");
            let prefix = alias + "."@;
            assert(prefix =~= alias.push('.'));
            if name.len() > alias.len() {
                assert(name.take(prefix.len() as int) =~= name.take(alias.len() as int).push(
                    name[alias.len() as int],
                ));
                if name.take(prefix.len() as int) == prefix {
                    assert(name.take(alias.len() as int) =~= prefix.take(alias.len() as int));
                    assert(prefix.take(alias.len() as int) =~= alias);
                    assert(name[alias.len() as int] == prefix[alias.len() as int]);
                }
            }
        },
        ExprModel::Binary { op, left, right } => {
            assert(ps[0] == *left && ps[1] == *right);
        },
        ExprModel::Unary { op, operand } => {
            assert(ps[0] == *operand);
        },
        ExprModel::Function { name, args } => {
            lemma_any_refers(args, alias);
        },
        ExprModel::Array(items) => {
            lemma_any_refers(items, alias);
        },
        ExprModel::Case { conditions, default } => {
            lemma_any_branch_refers(conditions, alias);
            let n = conditions.len();
            assert forall|i: int| 0 <= i < n implies ps[i] == (#[trigger] conditions[i]).0 && ps[i
                + n] == conditions[i].1 by {}
            match default {
                Some(d) => {
                    assert(ps[n + n as int] == *d);
                },
                None => {},
            }
            if any_branch_refers_to(conditions, alias) {
                let i = choose|i: int|
                    0 <= i < n && (refers_to((#[trigger] conditions[i]).0, alias) || refers_to(
                        conditions[i].1,
                        alias,
                    ));
                assert(ps[i] == conditions[i].0 && ps[i + n] == conditions[i].1);
            }
            if exists|i: int| 0 <= i < ps.len() && refers_to(#[trigger] ps[i], alias) {
                let i = choose|i: int| 0 <= i < ps.len() && refers_to(#[trigger] ps[i], alias);
                if i < n {
                    assert(ps[i] == conditions[i].0);
                } else if i < 2 * n {
                    assert(ps[i] == conditions[i - n].1);
                }
            }
        },
        ExprModel::Parenthesized(inner) => {
            assert(ps[0] == *inner);
        },
        ExprModel::Cast { expression, target_type } => {
            assert(ps[0] == *expression);
        },
        ExprModel::Between { expression, lower, upper, not } => {
            assert(ps[0] == *expression && ps[1] == *lower && ps[2] == *upper);
        },
        ExprModel::ArrayIndex { expr, index } => {
            assert(ps[0] == *expr && ps[1] == *index);
        },
        _ => {},
    }
}

/// A collection that is a field of anything but a variable names the table of that
/// field; a field of a variable other than `data`, and whatever is no field, is refused.
pub proof fn other_collections_name_their_last_field(
    t: TranslatorModel,
    var: String,
    refr: Expr,
    table: String,
    other: Expr,
)
    requires
        refr matches Expr::Var { value: Value::String(root) } ==> root@ != "data"@,
        refr matches Expr::Var { value } ==> value is String,
        !(other is RefDot),
    ensures
        ({
            let value = Expr::Var { value: Value::String(var) };
            let field = Expr::RefDot { refr: Box::new(refr), field: Value::String(table) };
            let refused = Err::<TranslatorModel, ErrorModel>(
                ErrorModel::Rejected(Fault::Collection),
            );
            &&& if refr is Var {
                t.table_statement((Literal::SomeIn { value, collection: field })) == refused
            } else {
                match t.table_statement((Literal::SomeIn { value, collection: field })) {
                    Ok(next) => next.tables_seen == t.tables_seen.push((table@, var@)),
                    Err(_) => false,
                }
            }
            &&& t.table_statement((Literal::SomeIn { value, collection: other })) == refused
        }),
{
}

/// A statement that fails has added the columns of an object that it assigns, up to the
/// field that failed; any other statement has added none.
pub proof fn only_objects_add_columns(t: TranslatorModel, literal: Literal)
    ensures
        t.columns_added(literal) == match literal {
            Literal::Expr { expr: Expr::AssignExpr { lhs, rhs } } => match *rhs {
                Expr::Object { fields } => t.field_columns_added(fields@),
                _ => Seq::empty(),
            },
            _ => Seq::empty(),
        },
{
}

} // verus!
