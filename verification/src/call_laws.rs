//! Laws of calls: what a built-in function asks for is what SQL is asked for.

use crate::errors::ErrorModel;
use crate::meaning_laws::World;
use crate::model::{ExprModel, LiteralModel};
use crate::sql_ir::{SqlBinaryOp, SqlDataType};
use crate::translation::{like_pattern, TranslatorModel};
use vstd::prelude::*;

verus! {

/// Whether a text matches a pattern: `%` stands for any text, `_` for any one
/// character, every other character for itself.
pub open spec fn matches_pattern(p: Seq<char>, s: Seq<char>) -> bool
    decreases p.len() + s.len(),
{
    if p.len() == 0 {
        s.len() == 0
    } else if p[0] == '%' {
        matches_pattern(p.drop_first(), s) || s.len() > 0 && matches_pattern(p, s.drop_first())
    } else {
        s.len() > 0 && (p[0] == '_' || p[0] == s[0]) && matches_pattern(
            p.drop_first(),
            s.drop_first(),
        )
    }
}

/// Whether a text has no wildcards.
pub open spec fn is_plain_text(n: Seq<char>) -> bool {
    !n.contains('%') && !n.contains('_')
}

/// Whether a text stands in another at position `k`.
pub open spec fn stands_at(n: Seq<char>, s: Seq<char>, k: int) -> bool {
    0 <= k && k + n.len() <= s.len() && s.subrange(k, k + n.len()) == n
}

/// The pattern that an expression gives where `y` has the text `n`: a literal gives
/// its text, `CONCAT` the texts of its arguments one behind the other.
pub open spec fn pattern_text(e: ExprModel, y: ExprModel, n: Seq<char>) -> Seq<char> {
    match e {
        ExprModel::Literal(LiteralModel::String(p)) => p,
        ExprModel::Function { name, args } => if name == "CONCAT"@ {
            argument_texts(args, y, n)
        } else {
            Seq::empty()
        },
        _ => Seq::empty(),
    }
}

/// The texts of arguments one behind the other, where `y` has the text `n`.
pub open spec fn argument_texts(args: Seq<ExprModel>, y: ExprModel, n: Seq<char>) -> Seq<char>
    decreases args.len(),
{
    if args.len() == 0 {
        Seq::empty()
    } else {
        argument_texts(args.drop_last(), y, n) + (if args.last() == y {
            n
        } else {
            match args.last() {
                ExprModel::Literal(LiteralModel::String(p)) => p,
                _ => Seq::empty(),
            }
        })
    }
}

proof fn lemma_anything_matches(s: Seq<char>)
    ensures
        matches_pattern(seq!['%'], s),
    decreases s.len(),
{
    reveal_with_fuel(matches_pattern, 2);
    assert(seq!['%'].drop_first() =~= Seq::empty());
    if s.len() > 0 {
        lemma_anything_matches(s.drop_first());
    }
}

proof fn lemma_plain_pattern(n: Seq<char>, s: Seq<char>)
    requires
        is_plain_text(n),
    ensures
        matches_pattern(n, s) <==> s == n,
        matches_pattern(n + seq!['%'], s) <==> stands_at(n, s, 0),
    decreases n.len(),
{
    let open = n + seq!['%'];
    if n.len() == 0 {
        lemma_anything_matches(s);
        assert(open =~= seq!['%']);
        assert(s.subrange(0, 0) =~= n);
        if s.len() == 0 {
            assert(s =~= n);
        }
    } else {
        assert(n[0] != '%' && n[0] != '_') by {
            assert(n.contains(n[0]));
        }
        let later = n.drop_first();
        assert(is_plain_text(later)) by {
            assert(forall|i: int| 0 <= i < later.len() ==> later[i] == n[i + 1]);
        }
        assert(open.drop_first() =~= later + seq!['%']);
        if s.len() > 0 {
            let rest = s.drop_first();
            lemma_plain_pattern(later, rest);
            if s[0] == n[0] {
                if rest == later {
                    assert(s =~= seq![s[0]] + rest);
                    assert(n =~= seq![n[0]] + later);
                }
                if stands_at(later, rest, 0) {
                    assert(rest.subrange(0, later.len() as int) == later);
                    assert(s.subrange(0, n.len() as int) =~= n) by {
                        assert forall|i: int| 0 <= i < n.len() implies s[i] == n[i] by {
                            if i > 0 {
                                assert(rest.subrange(0, later.len() as int)[i - 1] == later[i - 1]);
                            }
                        }
                    }
                }
                if stands_at(n, s, 0) {
                    assert(rest.subrange(0, later.len() as int) =~= later) by {
                        assert forall|i: int| 0 <= i < later.len() implies rest[i] == later[i] by {
                            assert(s.subrange(0, n.len() as int)[i + 1] == n[i + 1]);
                        }
                    }
                }
            } else {
                if stands_at(n, s, 0) {
                    assert(s.subrange(0, n.len() as int)[0] == s[0]);
                }
            }
        }
    }
}

proof fn lemma_open_start(p: Seq<char>, s: Seq<char>)
    ensures
        matches_pattern(seq!['%'] + p, s) <==> exists|k: int|
            0 <= k <= s.len() && matches_pattern(p, #[trigger] s.skip(k)),
    decreases s.len(),
{
    let open = seq!['%'] + p;
    assert(open.drop_first() =~= p);
    assert(s.skip(0) =~= s);
    if s.len() > 0 {
        let rest = s.drop_first();
        lemma_open_start(p, rest);
        if matches_pattern(open, rest) {
            let k = choose|k: int|
                0 <= k <= rest.len() && matches_pattern(p, #[trigger] rest.skip(k));
            assert(s.skip(k + 1) =~= rest.skip(k));
        }
        if exists|k: int| 0 <= k <= s.len() && matches_pattern(p, #[trigger] s.skip(k)) {
            let k = choose|k: int| 0 <= k <= s.len() && matches_pattern(p, #[trigger] s.skip(k));
            if k > 0 {
                assert(rest.skip(k - 1) =~= s.skip(k));
            }
        }
    }
}

/// A pattern with `%` on both sides finds a text anywhere, one with `%` behind it at
/// the start, one with `%` before it at the end.
proof fn lemma_patterns(n: Seq<char>, s: Seq<char>)
    requires
        is_plain_text(n),
    ensures
        matches_pattern(seq!['%'] + n + seq!['%'], s) <==> exists|k: int|
            #[trigger] stands_at(n, s, k),
        matches_pattern(n + seq!['%'], s) <==> stands_at(n, s, 0),
        matches_pattern(seq!['%'] + n, s) <==> stands_at(n, s, s.len() - n.len()),
{
    lemma_plain_pattern(n, s);
    let open = n + seq!['%'];
    assert(seq!['%'] + n + seq!['%'] =~= seq!['%'] + open);
    lemma_open_start(open, s);
    lemma_open_start(n, s);
    assert forall|k: int| 0 <= k <= s.len() implies (matches_pattern(open, #[trigger] s.skip(k))
        <==> stands_at(n, s, k)) by {
        lemma_plain_pattern(n, s.skip(k));
        if k + n.len() <= s.len() {
            assert(s.skip(k).subrange(0, n.len() as int) =~= s.subrange(k, k + n.len()));
        }
    }
    assert forall|k: int| 0 <= k <= s.len() implies (matches_pattern(n, #[trigger] s.skip(k)) <==> (k
        == s.len() - n.len() && stands_at(n, s, k))) by {
        lemma_plain_pattern(n, s.skip(k));
        if k + n.len() == s.len() {
            assert(s.skip(k) =~= s.subrange(k, k + n.len()));
        }
    }
    if exists|k: int| #[trigger] stands_at(n, s, k) {
        let k = choose|k: int| #[trigger] stands_at(n, s, k);
        assert(matches_pattern(open, s.skip(k)));
    }
    if exists|k: int| 0 <= k <= s.len() && matches_pattern(open, #[trigger] s.skip(k)) {
        let k = choose|k: int| 0 <= k <= s.len() && matches_pattern(open, #[trigger] s.skip(k));
        assert(stands_at(n, s, k));
    }
    if stands_at(n, s, s.len() - n.len()) {
        assert(matches_pattern(n, s.skip(s.len() - n.len())));
    }
}

/// The pattern that a call asks a text to match, where `y` has the text `n`. There
/// is none where the call does not ask whether `x` matches a pattern.
pub open spec fn asked_pattern(
    outcome: Result<ExprModel, ErrorModel>,
    x: ExprModel,
    y: ExprModel,
    n: Seq<char>,
) -> Option<Seq<char>> {
    match outcome {
        Ok(ExprModel::Binary { op, left, right }) => if op == SqlBinaryOp::Like && *left == x {
            Some(pattern_text(*right, y, n))
        } else {
            None
        },
        _ => None,
    }
}

proof fn lemma_search(
    t: TranslatorModel,
    name: Seq<char>,
    x: ExprModel,
    y: ExprModel,
    n: Seq<char>,
    before: bool,
    after: bool,
)
    requires
        before || after,
        name == if before && after {
            "contains"@
        } else if after {
            "startswith"@
        } else {
            "endswith"@
        },
        y matches ExprModel::Literal(LiteralModel::String(c)) ==> c == n,
    ensures
        asked_pattern(t.function_call(name, seq![x, y]), x, y, n) == Some(
            (if before {
                seq!['%']
            } else {
                Seq::empty()
            }) + n + (if after {
                seq!['%']
            } else {
                Seq::empty()
            }),
        ),
{
    reveal_strlit("%");
    reveal_strlit("");
    reveal_strlit("contains");
    reveal_strlit("startswith");
    reveal_strlit("endswith");
    reveal_strlit("trim_left");
    reveal_strlit("trim_right");
    reveal_strlit("format_int");
    reveal_strlit("pow");
    reveal_strlit("round");
    reveal_strlit("array.concat");
    reveal_strlit("regex.match");
    assert("%"@ =~= seq!['%']);
    assert(""@ =~= Seq::empty());
    let args = seq![x, y];
    assert(args[0] == x && args[1] == y);
    assert("startswith"@[0] == 's' && "endswith"@[0] == 'e' && "contains"@[0] == 'c');
    assert("trim_right"@[0] == 't' && "format_int"@[0] == 'f');
    assert(name != "trim_left"@ && name != "trim_right"@ && name != "format_int"@ && name
        != "pow"@ && name != "round"@ && name != "array.concat"@ && name != "regex.match"@);
    let pattern = like_pattern(y, before, after);
    assert(t.function_call(name, args) == Ok::<ExprModel, ErrorModel>(
        ExprModel::binary(SqlBinaryOp::Like, x, pattern),
    ));
    let any = ExprModel::Literal(LiteralModel::String(seq!['%']));
    let whole = (if before {
        seq!['%']
    } else {
        Seq::empty()
    }) + n + (if after {
        seq!['%']
    } else {
        Seq::empty()
    });
    match y {
        ExprModel::Literal(LiteralModel::String(c)) => {
            assert(pattern_text(pattern, y, n) =~= whole);
        },
        _ => {
            let parts = pattern->Function_args;
            reveal_with_fuel(argument_texts, 4);
            if before && after {
                assert(parts =~= seq![any, y, any]);
                assert(parts.drop_last() =~= seq![any, y]);
                assert(parts.drop_last().drop_last() =~= seq![any]);
                assert(parts.drop_last().drop_last().drop_last() =~= Seq::empty());
            } else if after {
                assert(parts =~= seq![y, any]);
                assert(parts.drop_last() =~= seq![y]);
                assert(parts.drop_last().drop_last() =~= Seq::empty());
            } else {
                assert(parts =~= seq![any, y]);
                assert(parts.drop_last() =~= seq![any]);
                assert(parts.drop_last().drop_last() =~= Seq::empty());
            }
            assert(pattern_text(pattern, y, n) =~= whole);
        },
    }
}

/// `contains`, `startswith` and `endswith` ask their first argument to match a
/// pattern that finds the text of the second one anywhere, at the start or at the
/// end, whether that text is a literal or computed. The text has no wildcards.
pub proof fn searches_keep_meaning(
    t: TranslatorModel,
    x: ExprModel,
    y: ExprModel,
    n: Seq<char>,
    s: Seq<char>,
)
    requires
        is_plain_text(n),
        y matches ExprModel::Literal(LiteralModel::String(c)) ==> c == n,
    ensures
        match asked_pattern(t.function_call("contains"@, seq![x, y]), x, y, n) {
            Some(p) => matches_pattern(p, s) <==> exists|k: int| #[trigger] stands_at(n, s, k),
            None => false,
        },
        match asked_pattern(t.function_call("startswith"@, seq![x, y]), x, y, n) {
            Some(p) => matches_pattern(p, s) <==> stands_at(n, s, 0),
            None => false,
        },
        match asked_pattern(t.function_call("endswith"@, seq![x, y]), x, y, n) {
            Some(p) => matches_pattern(p, s) <==> stands_at(n, s, s.len() - n.len()),
            None => false,
        },
{
    lemma_search(t, "contains"@, x, y, n, true, true);
    lemma_search(t, "startswith"@, x, y, n, false, true);
    lemma_search(t, "endswith"@, x, y, n, true, false);
    lemma_patterns(n, s);
    assert(Seq::<char>::empty() + n + seq!['%'] =~= n + seq!['%']);
    assert(seq!['%'] + n + Seq::<char>::empty() =~= seq!['%'] + n);
}

/// The names of all functions that are not called in SQL as they are in Rego are told
/// apart by their lengths and these characters.
proof fn lemma_names_differ()
    ensures
        "lower"@.len() == 5,
        "lower"@[0] == 'l',
        "upper"@.len() == 5,
        "upper"@[0] == 'u',
        "abs"@.len() == 3,
        "abs"@[0] == 'a',
        "abs"@[1] == 'b',
        "floor"@.len() == 5,
        "floor"@[0] == 'f',
        "ceil"@.len() == 4,
        "ceil"@[0] == 'c',
        "trim"@.len() == 4,
        "trim"@[0] == 't',
        "length"@.len() == 6,
        "length"@[0] == 'l',
        "replace"@.len() == 7,
        "replace"@[0] == 'r',
        "concat"@.len() == 6,
        "concat"@[0] == 'c',
        "sum"@.len() == 3,
        "sum"@[0] == 's',
        "sum"@[1] == 'u',
        "avg"@.len() == 3,
        "avg"@[0] == 'a',
        "avg"@[1] == 'v',
        "min"@.len() == 3,
        "min"@[0] == 'm',
        "min"@[1] == 'i',
        "max"@.len() == 3,
        "max"@[0] == 'm',
        "max"@[1] == 'a',
        "is_string"@.len() == 9,
        "is_string"@[0] == 'i',
        "is_string"@[3] == 's',
        "is_number"@.len() == 9,
        "is_number"@[0] == 'i',
        "is_number"@[3] == 'n',
        "is_null"@.len() == 7,
        "is_null"@[0] == 'i',
        "count"@.len() == 5,
        "count"@[0] == 'c',
        "sort"@.len() == 4,
        "sort"@[0] == 's',
        "sort"@[1] == 'o',
        "to_number"@.len() == 9,
        "to_number"@[0] == 't',
        "to_number"@[1] == 'o',
        "round"@.len() == 5,
        "round"@[0] == 'r',
        "sqrt"@.len() == 4,
        "sqrt"@[0] == 's',
        "sqrt"@[1] == 'q',
        "sin"@.len() == 3,
        "sin"@[0] == 's',
        "sin"@[1] == 'i',
        "cos"@.len() == 3,
        "cos"@[0] == 'c',
        "tan"@.len() == 3,
        "tan"@[0] == 't',
        "array.reverse"@.len() == 13,
        "array.reverse"@[0] == 'a',
        "array.length"@.len() == 12,
        "array.length"@[6] == 'l',
        "strings.reverse"@.len() == 15,
        "base64.encode"@.len() == 13,
        "base64.encode"@[0] == 'b',
        "base64.encode"@[7] == 'e',
        "base64.decode"@.len() == 13,
        "base64.decode"@[0] == 'b',
        "base64.decode"@[7] == 'd',
        "trim_left"@.len() == 9,
        "trim_left"@[0] == 't',
        "trim_left"@[1] == 'r',
        "trim_right"@.len() == 10,
        "trim_right"@[0] == 't',
        "format_int"@.len() == 10,
        "format_int"@[0] == 'f',
        "pow"@.len() == 3,
        "pow"@[0] == 'p',
        "array.concat"@.len() == 12,
        "array.concat"@[6] == 'c',
        "regex.match"@.len() == 11,
        "regex.match"@[0] == 'r',
        "contains"@.len() == 8,
        "contains"@[0] == 'c',
        "startswith"@.len() == 10,
        "startswith"@[0] == 's',
        "endswith"@.len() == 8,
        "endswith"@[0] == 'e',
        "array.slice"@.len() == 11,
        "array.slice"@[0] == 'a',
{
    reveal_strlit("lower");
    reveal_strlit("upper");
    reveal_strlit("abs");
    reveal_strlit("floor");
    reveal_strlit("ceil");
    reveal_strlit("trim");
    reveal_strlit("length");
    reveal_strlit("replace");
    reveal_strlit("concat");
    reveal_strlit("sum");
    reveal_strlit("avg");
    reveal_strlit("min");
    reveal_strlit("max");
    reveal_strlit("is_string");
    reveal_strlit("is_number");
    reveal_strlit("is_null");
    reveal_strlit("count");
    reveal_strlit("sort");
    reveal_strlit("to_number");
    reveal_strlit("round");
    reveal_strlit("sqrt");
    reveal_strlit("sin");
    reveal_strlit("cos");
    reveal_strlit("tan");
    reveal_strlit("array.reverse");
    reveal_strlit("array.length");
    reveal_strlit("strings.reverse");
    reveal_strlit("base64.encode");
    reveal_strlit("base64.decode");
    reveal_strlit("trim_left");
    reveal_strlit("trim_right");
    reveal_strlit("format_int");
    reveal_strlit("pow");
    reveal_strlit("array.concat");
    reveal_strlit("regex.match");
    reveal_strlit("contains");
    reveal_strlit("startswith");
    reveal_strlit("endswith");
    reveal_strlit("array.slice");
}

/// Whether a name is one of those that SQL writes in capitals, with the arguments as
/// they are.
pub open spec fn is_common_name(name: Seq<char>) -> bool {
    ||| name == "lower"@
    ||| name == "upper"@
    ||| name == "abs"@
    ||| name == "floor"@
    ||| name == "ceil"@
    ||| name == "trim"@
    ||| name == "length"@
    ||| name == "replace"@
    ||| name == "concat"@
    ||| name == "sum"@
    ||| name == "avg"@
    ||| name == "min"@
    ||| name == "max"@
}

/// Whether a name is that of a function of one argument that SQL writes in capitals.
pub open spec fn is_common_unary_name(name: Seq<char>) -> bool {
    ||| name == "round"@
    ||| name == "sqrt"@
    ||| name == "sin"@
    ||| name == "cos"@
    ||| name == "tan"@
}

/// Whether a name is that of a function of one argument that SQL knows by another name
/// or form.
pub open spec fn is_renamed_unary(name: Seq<char>) -> bool {
    ||| name == "is_string"@
    ||| name == "is_number"@
    ||| name == "is_null"@
    ||| name == "count"@
    ||| name == "sort"@
    ||| name == "to_number"@
    ||| name == "array.reverse"@
    ||| name == "array.length"@
    ||| name == "strings.reverse"@
    ||| name == "base64.encode"@
    ||| name == "base64.decode"@
}

/// Whether a name is that of a function of two arguments that SQL knows by another name
/// or form.
pub open spec fn is_renamed_binary(name: Seq<char>) -> bool {
    ||| name == "trim_left"@
    ||| name == "trim_right"@
    ||| name == "format_int"@
    ||| name == "pow"@
    ||| name == "array.concat"@
    ||| name == "regex.match"@
    ||| name == "contains"@
    ||| name == "startswith"@
    ||| name == "endswith"@
}

/// Whether a word is a name in capitals: letter for letter the same.
pub open spec fn is_capitals_of(word: Seq<char>, name: Seq<char>) -> bool {
    word.len() == name.len() && forall|i: int|
        0 <= i < word.len() ==> 'A' <= #[trigger] word[i] <= 'Z' && word[i] as int + 32
            == name[i] as int
}

/// A function that SQL knows by the same name is called by that name in capitals,
/// with the arguments as they are.
pub proof fn common_functions_keep_their_names(
    t: TranslatorModel,
    name: Seq<char>,
    args: Seq<ExprModel>,
)
    requires
        is_common_name(name) || is_common_unary_name(name) && args.len() == 1 || name == "round"@
            && args.len() == 2,
    ensures
        match t.function_call(name, args) {
            Ok(ExprModel::Function { name: word, args: passed }) => is_capitals_of(word, name)
                && passed == args,
            _ => false,
        },
{
    lemma_names_differ();
    reveal_strlit("lower");
    reveal_strlit("LOWER");
    reveal_strlit("upper");
    reveal_strlit("UPPER");
    reveal_strlit("abs");
    reveal_strlit("ABS");
    reveal_strlit("floor");
    reveal_strlit("FLOOR");
    reveal_strlit("ceil");
    reveal_strlit("CEIL");
    reveal_strlit("trim");
    reveal_strlit("TRIM");
    reveal_strlit("length");
    reveal_strlit("LENGTH");
    reveal_strlit("replace");
    reveal_strlit("REPLACE");
    reveal_strlit("concat");
    reveal_strlit("CONCAT");
    reveal_strlit("sum");
    reveal_strlit("SUM");
    reveal_strlit("avg");
    reveal_strlit("AVG");
    reveal_strlit("min");
    reveal_strlit("MIN");
    reveal_strlit("max");
    reveal_strlit("MAX");
    reveal_strlit("round");
    reveal_strlit("ROUND");
    reveal_strlit("sqrt");
    reveal_strlit("SQRT");
    reveal_strlit("sin");
    reveal_strlit("SIN");
    reveal_strlit("cos");
    reveal_strlit("COS");
    reveal_strlit("tan");
    reveal_strlit("TAN");
    if args.len() == 1 {
        assert(args =~= seq![args[0]]);
    }
    if args.len() == 2 {
        assert(args =~= seq![args[0], args[1]]);
    }
}

/// A function that is none of the built-in ones, or has another number of arguments, is
/// called as it is.
pub proof fn other_functions_are_called_as_they_are(
    t: TranslatorModel,
    name: Seq<char>,
    args: Seq<ExprModel>,
)
    requires
        !is_common_name(name),
        args.len() == 1 ==> !is_common_unary_name(name) && !is_renamed_unary(name),
        args.len() == 2 ==> name != "round"@ && !is_renamed_binary(name),
        args.len() == 3 ==> name != "array.slice"@,
    ensures
        t.function_call(name, args) == Ok::<ExprModel, ErrorModel>(
            ExprModel::Function { name, args },
        ),
{
}

/// The value of a function of one argument that SQL knows by another name.
pub open spec fn called<V>(w: World<V>, word: Seq<char>, x: ExprModel) -> V {
    (w.apply)(word, seq![w.value(x)])
}

proof fn lemma_one_value<V>(w: World<V>, x: ExprModel)
    ensures
        w.values(seq![x]) == seq![w.value(x)],
{
    w.lemma_values(seq![x]);
    assert(w.values(seq![x]) =~= seq![w.value(x)]);
}

proof fn lemma_two_values<V>(w: World<V>, x: ExprModel, y: ExprModel)
    ensures
        w.values(seq![x, y]) == seq![w.value(x), w.value(y)],
{
    w.lemma_values(seq![x, y]);
    assert(w.values(seq![x, y]) =~= seq![w.value(x), w.value(y)]);
}

/// The value of what a call becomes.
pub open spec fn outcome_value<V>(
    w: World<V>,
    outcome: Result<ExprModel, ErrorModel>,
) -> Option<V> {
    match outcome {
        Ok(e) => Some(w.value(e)),
        Err(_) => None,
    }
}

/// Functions of one argument that SQL knows by another name are called by that name
/// on the value of the argument.
pub proof fn renamed_functions_keep_meaning<V>(w: World<V>, t: TranslatorModel, x: ExprModel)
    ensures
        outcome_value(w, t.function_call("sort"@, seq![x])) == Some(called(w, "ARRAY_SORT"@, x)),
        outcome_value(w, t.function_call("array.reverse"@, seq![x])) == Some(
            called(w, "array_reverse"@, x),
        ),
        outcome_value(w, t.function_call("array.length"@, seq![x])) == Some(
            called(w, "ARRAY_LENGTH"@, x),
        ),
        outcome_value(w, t.function_call("strings.reverse"@, seq![x])) == Some(
            called(w, "REVERSE"@, x),
        ),
        outcome_value(w, t.function_call("to_number"@, seq![x])) == Some(
            (w.cast)(w.value(x), SqlDataType::Numeric),
        ),
{
    lemma_names_differ();
    lemma_one_value(w, x);
    assert(seq![x][0] == x);
}

/// Encoding and decoding name the coding behind the value.
pub proof fn codings_keep_meaning<V>(w: World<V>, t: TranslatorModel, x: ExprModel)
    ensures
        outcome_value(w, t.function_call("base64.encode"@, seq![x])) == Some(
            (w.apply)(
                "ENCODE"@,
                seq![w.value(x), (w.constant)(LiteralModel::String("BASE64"@))],
            ),
        ),
        outcome_value(w, t.function_call("base64.decode"@, seq![x])) == Some(
            (w.apply)(
                "DECODE"@,
                seq![w.value(x), (w.constant)(LiteralModel::String("BASE64"@))],
            ),
        ),
{
    lemma_names_differ();
    let coding = ExprModel::Literal(LiteralModel::String("BASE64"@));
    lemma_two_values(w, x, coding);
    assert(w.value(coding) == (w.constant)(LiteralModel::String("BASE64"@)));
    assert(seq![x][0] == x);
}

/// `count` asks for the length of an array where its argument is a column that the
/// rule uses as an array, and for the length of a text otherwise.
pub proof fn counts_keep_meaning<V>(w: World<V>, t: TranslatorModel, x: ExprModel)
    ensures
        outcome_value(w, t.function_call("count"@, seq![x])) == Some(
            called(
                w,
                if t.is_array(x) {
                    "ARRAY_LENGTH"@
                } else {
                    "LENGTH"@
                },
                x,
            ),
        ),
        !(x is Column) ==> !t.is_array(x),
{
    lemma_names_differ();
    lemma_one_value(w, x);
    assert(seq![x][0] == x);
}

/// Functions of two arguments take them in the order of the call, but for
/// `regex.match`, whose pattern comes first in Rego and last in SQL. Where only one
/// argument counts, it is the first.
pub proof fn binary_functions_keep_meaning<V>(
    w: World<V>,
    t: TranslatorModel,
    x: ExprModel,
    y: ExprModel,
)
    ensures
        outcome_value(w, t.function_call("pow"@, seq![x, y])) == Some(
            (w.apply)("POWER"@, seq![w.value(x), w.value(y)]),
        ),
        outcome_value(w, t.function_call("array.concat"@, seq![x, y])) == Some(
            (w.chain)(w.value(x), w.value(y)),
        ),
        outcome_value(w, t.function_call("regex.match"@, seq![x, y])) == Some(
            (w.truth)((w.regex)(w.value(y), w.value(x))),
        ),
        outcome_value(w, t.function_call("trim_left"@, seq![x, y])) == Some(
            called(w, "LTRIM"@, x),
        ),
        outcome_value(w, t.function_call("trim_right"@, seq![x, y])) == Some(
            called(w, "RTRIM"@, x),
        ),
        outcome_value(w, t.function_call("format_int"@, seq![x, y])) == Some(
            (w.cast)(w.value(x), SqlDataType::Varchar(None)),
        ),
{
    lemma_names_differ();
    lemma_one_value(w, x);
    lemma_two_values(w, x, y);
    let args = seq![x, y];
    assert(args[0] == x && args[1] == y);
}

/// Whether a value has a kind: `TYPEOF` gives a text that equals the name of that kind
/// and of no other.
pub open spec fn has_kind<V>(w: World<V>, x: ExprModel, kind: Seq<char>) -> bool {
    forall|name: Seq<char>|
        (w.order)(
            called(w, "TYPEOF"@, x),
            #[trigger] (w.constant)(LiteralModel::String(name)),
        ) == 0 <==> name == kind
}

/// A value is a string where its kind is text, a number where its kind is integer or
/// real, and null where it is null; so it is never a string and a number.
pub proof fn kind_tests_keep_meaning<V>(
    w: World<V>,
    t: TranslatorModel,
    x: ExprModel,
    kind: Seq<char>,
)
    requires
        w.tells_truth(),
        has_kind(w, x, kind),
    ensures
        match t.function_call("is_string"@, seq![x]) {
            Ok(e) => w.passes(e) == (kind == "text"@),
            Err(_) => false,
        },
        match t.function_call("is_number"@, seq![x]) {
            Ok(e) => w.passes(e) == (kind == "integer"@ || kind == "real"@),
            Err(_) => false,
        },
        match t.function_call("is_null"@, seq![x]) {
            Ok(e) => w.passes(e) == (w.is_null)(w.value(x)),
            Err(_) => false,
        },
{
    lemma_names_differ();
    lemma_one_value(w, x);
    assert(seq![x][0] == x);
    let asked = ExprModel::Function { name: "TYPEOF"@, args: seq![x] };
    let text = ExprModel::Literal(LiteralModel::String("text"@));
    let integer = ExprModel::Literal(LiteralModel::String("integer"@));
    let decimal = ExprModel::Literal(LiteralModel::String("real"@));
    assert(w.value(asked) == called(w, "TYPEOF"@, x));
    assert(w.value(text) == (w.constant)(LiteralModel::String("text"@)));
    assert(w.value(integer) == (w.constant)(LiteralModel::String("integer"@)));
    assert(w.value(decimal) == (w.constant)(LiteralModel::String("real"@)));
    let first = ExprModel::binary(SqlBinaryOp::Equal, asked, integer);
    let second = ExprModel::binary(SqlBinaryOp::Equal, asked, decimal);
    assert(w.passes(first) == (kind == "integer"@));
    assert(w.passes(second) == (kind == "real"@));
}

} // verus!
