//! Laws of the SQL text: what is written can be read back.

use crate::floats::{is_decimal, is_finite_text, is_float_text};
use crate::model::{ExprModel, LiteralModel};
use crate::render::Style;
use crate::sql_ir::SqlBinaryOp;
use crate::text::{after_last, before_first, decimal, digit, digits, joined, quotes_doubled};
use crate::translation::{call, json_extracted, json_path, like_pattern, text_literal};
use vstd::prelude::*;

verus! {

/// Reads a string literal behind its opening quote: its content, and the text
/// that follows its closing quote. Two quotes in a row stand for one, any other
/// quote closes the literal.
pub open spec fn string_read(t: Seq<char>) -> Option<(Seq<char>, Seq<char>)>
    decreases t.len(),
{
    if t.len() == 0 {
        None
    } else if t[0] != '\'' {
        match string_read(t.skip(1)) {
            Some((content, rest)) => Some((seq![t[0]] + content, rest)),
            None => None,
        }
    } else if t.len() >= 2 && t[1] == '\'' {
        match string_read(t.skip(2)) {
            Some((content, rest)) => Some((seq!['\''] + content, rest)),
            None => None,
        }
    } else {
        Some((Seq::empty(), t.skip(1)))
    }
}

/// Quotes are doubled piece by piece.
proof fn lemma_quotes_doubled_concat(a: Seq<char>, b: Seq<char>)
    ensures
        quotes_doubled(a + b) == quotes_doubled(a) + quotes_doubled(b),
    decreases b.len(),
{
    if b.len() == 0 {
        assert(a + b =~= a);
        assert(quotes_doubled(a) + quotes_doubled(b) =~= quotes_doubled(a));
    } else {
        lemma_quotes_doubled_concat(a, b.drop_last());
        assert((a + b).drop_last() =~= a + b.drop_last());
        assert(quotes_doubled(a + b) =~= quotes_doubled(a) + quotes_doubled(b));
    }
}

/// Of a single character, only a quote is doubled.
proof fn lemma_quotes_doubled_single(c: char)
    ensures
        quotes_doubled(seq![c]) == if c == '\'' {
            seq!['\'', '\'']
        } else {
            seq![c]
        },
{
    reveal_with_fuel(quotes_doubled, 2);
    assert(seq![c].drop_last() =~= Seq::empty());
    assert(quotes_doubled(seq![c]) =~= if c == '\'' {
        seq!['\'', '\'']
    } else {
        seq![c]
    });
}

proof fn lemma_string_read(s: Seq<char>, rest: Seq<char>)
    requires
        rest.len() == 0 || rest[0] != '\'',
    ensures
        string_read(quotes_doubled(s) + seq!['\''] + rest) == Some((s, rest)),
    decreases s.len(),
{
    let t = quotes_doubled(s) + seq!['\''] + rest;
    if s.len() == 0 {
        assert(t.skip(1) =~= rest);
        assert(s =~= Seq::empty());
    } else {
        let first = seq![s[0]];
        let later = s.skip(1);
        lemma_string_read(later, rest);
        assert(s =~= first + later);
        lemma_quotes_doubled_concat(first, later);
        lemma_quotes_doubled_single(s[0]);
        let tail = quotes_doubled(later) + seq!['\''] + rest;
        if s[0] == '\'' {
            assert(t.skip(2) =~= tail);
        } else {
            assert(t.skip(1) =~= tail);
        }
    }
}

/// A string literal reads back as the string it was written for, whatever text
/// follows it, as long as that text does not begin with a quote.
pub proof fn string_literal_reads_back(style: Style, s: Seq<char>, rest: Seq<char>)
    requires
        rest.len() == 0 || rest[0] != '\'',
    ensures
        style.literal(LiteralModel::String(s))[0] == '\'',
        string_read((style.literal(LiteralModel::String(s)) + rest).skip(1)) == Some((s, rest)),
{
    reveal_strlit("'");
    lemma_string_read(s, rest);
    let literal = style.literal(LiteralModel::String(s));
    assert((literal + rest).skip(1) =~= quotes_doubled(s) + seq!['\''] + rest);
}

/// Different strings have different literals.
pub proof fn string_literals_differ(style: Style, a: Seq<char>, b: Seq<char>)
    requires
        style.literal(LiteralModel::String(a)) == style.literal(LiteralModel::String(b)),
    ensures
        a == b,
{
    string_literal_reads_back(style, a, Seq::empty());
    string_literal_reads_back(style, b, Seq::empty());
}

/// The number that decimal digits stand for.
pub open spec fn digits_read(t: Seq<char>) -> int
    decreases t.len(),
{
    if t.len() == 0 {
        0
    } else {
        10 * digits_read(t.drop_last()) + (t.last() as int - '0' as int)
    }
}

/// The number that decimal digits stand for, with a minus sign before them where
/// it is negative.
pub open spec fn decimal_read(t: Seq<char>) -> int {
    if t.len() > 0 && t[0] == '-' {
        -digits_read(t.skip(1))
    } else {
        digits_read(t)
    }
}

proof fn lemma_digits_read(n: nat)
    ensures
        digits_read(digits(n)) == n,
        digits(n).len() > 0,
        '0' <= digits(n)[0] <= '9',
    decreases n,
{
    if n < 10 {
        reveal_with_fuel(digits_read, 2);
        assert(digits(n) =~= seq![digit(n)]);
        assert(digits(n).drop_last() =~= Seq::empty());
    } else {
        lemma_digits_read(n / 10);
        assert(digits(n).drop_last() =~= digits(n / 10));
    }
}

/// An integer literal reads back as the number it was written for.
pub proof fn integer_literal_reads_back(style: Style, i: i64)
    ensures
        decimal_read(style.literal(LiteralModel::Integer(i))) == i,
{
    let n: nat = if i < 0 {
        (-i) as nat
    } else {
        i as nat
    };
    lemma_digits_read(n);
    if i < 0 {
        reveal_strlit("-");
        assert(decimal(i as int).skip(1) =~= digits(n));
    }
}

/// A floating-point literal always has a decimal point, so that it is never read
/// as an integer. It is the text of the number, with `.0` behind it where that has
/// no point.
pub proof fn float_literal_has_a_point(style: Style, f: Seq<char>)
    requires
        is_float_text(f),
    ensures
        style.literal(LiteralModel::Float(f)).contains('.'),
        style.literal(LiteralModel::Float(f)) == if f.contains('.') {
            f
        } else {
            f + ".0"@
        },
{
    reveal_strlit(".0");
    reveal_strlit("NaN");
    reveal_strlit("inf");
    reveal_strlit("-inf");
    if !f.contains('.') {
        if f.len() > 0 && f[0] == '-' {
            assert(forall|i: int| 1 <= i < f.len() ==> f[i] == f.skip(1)[i - 1]);
            if f.skip(1).contains('.') {
                let k = choose|k: int| 0 <= k < f.skip(1).len() && f.skip(1)[k] == '.';
                assert(f[k + 1] == '.');
            }
        }
        if f.contains('e') {
            let k = choose|k: int| 0 <= k < f.len() && f[k] == 'e';
            if is_decimal(f) {
                assert('0' <= f[k] <= '9');
            } else if is_finite_text(f) {
                assert('0' <= f.skip(1)[k - 1] <= '9');
            }
        }
        assert((f + ".0"@)[f.len() as int] == '.');
    }
}

/// Ten to the power of `n`.
pub open spec fn ten_to_the(n: nat) -> int
    decreases n,
{
    if n == 0 {
        1
    } else {
        10 * ten_to_the((n - 1) as nat)
    }
}

/// A decimal number without a sign: its digits as a whole number, and how many of
/// them stand behind the point.
pub open spec fn magnitude_read(t: Seq<char>) -> (int, nat) {
    if t.contains('.') {
        (digits_read(before_first(t, '.') + after_last(t, '.')), after_last(t, '.').len())
    } else {
        (digits_read(t), 0)
    }
}

/// A decimal number: its digits as a whole number, and how many of them stand
/// behind the point.
pub open spec fn number_read(t: Seq<char>) -> (int, nat) {
    if t.len() > 0 && t[0] == '-' {
        (-magnitude_read(t.skip(1)).0, magnitude_read(t.skip(1)).1)
    } else {
        magnitude_read(t)
    }
}

/// Whether two decimal numbers are equal, wherever their points stand.
pub open spec fn same_number(a: (int, nat), b: (int, nat)) -> bool {
    a.0 * ten_to_the(b.1) == b.0 * ten_to_the(a.1)
}

proof fn lemma_before_point(m: Seq<char>, rest: Seq<char>)
    requires
        !m.contains('.'),
    ensures
        before_first(m + seq!['.'] + rest, '.') == m,
    decreases m.len(),
{
    let t = m + seq!['.'] + rest;
    if m.len() == 0 {
        assert(t[0] == '.');
        assert(m =~= Seq::empty());
    } else {
        assert(m[0] != '.');
        assert(forall|i: int| 0 <= i < m.len() - 1 ==> m.drop_first()[i] == m[i + 1]);
        lemma_before_point(m.drop_first(), rest);
        assert(t.drop_first() =~= m.drop_first() + seq!['.'] + rest);
        assert(seq![m[0]] + m.drop_first() =~= m);
    }
}

proof fn lemma_point_zero(m: Seq<char>)
    requires
        !m.contains('.'),
    ensures
        magnitude_read(m + ".0"@) == (10 * digits_read(m), 1nat),
        magnitude_read(m) == (digits_read(m), 0nat),
{
    reveal_strlit(".0");
    let t = m + ".0"@;
    assert(t =~= m + seq!['.'] + seq!['0']);
    assert(t[m.len() as int] == '.');
    lemma_before_point(m, seq!['0']);
    reveal_with_fuel(after_last, 3);
    assert(t.drop_last().last() == '.');
    assert(after_last(t, '.') =~= seq!['0']);
    assert((m + seq!['0']).drop_last() =~= m);
}

/// A finite floating-point literal reads back as the number it was written for.
pub proof fn float_literal_reads_back(style: Style, f: Seq<char>)
    requires
        is_finite_text(f),
    ensures
        same_number(number_read(style.literal(LiteralModel::Float(f))), number_read(f)),
{
    float_literal_has_a_point(style, f);
    if !f.contains('.') {
        reveal_with_fuel(ten_to_the, 2);
        if f[0] == '-' {
            let m = f.skip(1);
            assert(forall|i: int| 0 <= i < m.len() ==> m[i] == f[i + 1]);
            assert((f + ".0"@)[0] == '-');
            assert((f + ".0"@).skip(1) =~= m + ".0"@);
            lemma_point_zero(m);
            assert(number_read(f + ".0"@) == (-10 * digits_read(m), 1nat));
            assert(number_read(f) == (-digits_read(m), 0nat));
        } else {
            assert((f + ".0"@)[0] == f[0]);
            lemma_point_zero(f);
            assert(number_read(f + ".0"@) == (10 * digits_read(f), 1nat));
            assert(number_read(f) == (digits_read(f), 0nat));
        }
        assert(ten_to_the(0) == 1 && ten_to_the(1) == 10);
    }
}

/// An `OR` always stands in parentheses, so that no operator around it can take
/// one of its operands away.
pub proof fn or_is_parenthesized(style: Style, left: ExprModel, right: ExprModel)
    ensures
        style.expr(ExprModel::binary(SqlBinaryOp::Or, left, right)) == "("@ + style.expr(left)
            + " OR "@ + style.expr(right) + ")"@,
{
}

/// The items of a list stand in one pair of parentheses behind `IN` and behind
/// `NOT IN`.
pub proof fn in_list_is_wrapped_once(style: Style, left: ExprModel, items: Seq<ExprModel>)
    ensures
        style.expr(ExprModel::binary(SqlBinaryOp::In, left, ExprModel::Array(items)))
            == style.expr(left) + " IN ("@ + joined(style.exprs(items), ", "@) + ")"@,
        style.expr(ExprModel::binary(SqlBinaryOp::NotIn, left, ExprModel::Array(items)))
            == style.expr(left) + " NOT IN ("@ + joined(style.exprs(items), ", "@) + ")"@,
{
    let list = ExprModel::Array(items);
    assert(style.list_items(list) == joined(style.exprs(items), ", "@));
}

/// The text of a lookup of JSON keys: `->` before every key.
pub open spec fn json_text(base: Seq<char>, keys: Seq<Seq<char>>) -> Seq<char>
    decreases keys.len(),
{
    if keys.len() == 0 {
        base
    } else {
        json_text(base, keys.drop_last()) + "->"@ + ("'"@ + quotes_doubled(keys.last()) + "'"@)
    }
}

proof fn lemma_json_extracted_text(style: Style, base: ExprModel, keys: Seq<Seq<char>>)
    ensures
        style.expr(json_extracted(base, keys)) == json_text(style.expr(base), keys),
    decreases keys.len(),
{
    if keys.len() > 0 {
        lemma_json_extracted_text(style, base, keys.drop_last());
        let args = seq![json_extracted(base, keys.drop_last()), text_literal(keys.last())];
        let texts = style.exprs(args);
        assert(texts[0] == style.expr(args[0]));
        assert(texts[1] == style.expr(args[1]));
        assert(style.expr(call("json_extract"@, args)) == style.call("json_extract"@, texts));
    }
}

/// A path of JSON keys is written `base->'key1'->'key2'->>'last'`: every key but
/// the last is looked up as JSON, the last one as text.
pub proof fn json_path_text(style: Style, base: ExprModel, keys: Seq<Seq<char>>)
    requires
        keys.len() > 0,
    ensures
        style.expr(json_path(base, keys)) == json_text(style.expr(base), keys.drop_last())
            + "->>"@ + ("'"@ + quotes_doubled(keys.last()) + "'"@),
{
    lemma_json_extracted_text(style, base, keys.drop_last());
    let args = seq![json_extracted(base, keys.drop_last()), text_literal(keys.last())];
    let texts = style.exprs(args);
    assert(texts[0] == style.expr(args[0]));
    assert(texts[1] == style.expr(args[1]));
    assert(style.expr(call("json_extract_text"@, args)) == style.call(
        "json_extract_text"@,
        texts,
    ));
    reveal_strlit("json_extract");
    reveal_strlit("json_extract_text");
    assert("json_extract"@.len() != "json_extract_text"@.len());
}

/// A search for a constant text is one `LIKE` with the text between its
/// wildcards, quotes doubled as in any literal.
pub proof fn constant_pattern_text(
    style: Style,
    x: ExprModel,
    s: Seq<char>,
    before: bool,
    after: bool,
)
    ensures
        style.expr(
            ExprModel::binary(SqlBinaryOp::Like, x, like_pattern(text_literal(s), before, after)),
        ) == style.expr(x) + " "@ + "LIKE"@ + " "@ + ("'"@ + ((if before {
            "%"@
        } else {
            ""@
        }) + quotes_doubled(s) + (if after {
            "%"@
        } else {
            ""@
        })) + "'"@),
{
    let head = if before {
        "%"@
    } else {
        ""@
    };
    let tail = if after {
        "%"@
    } else {
        ""@
    };
    lemma_quotes_doubled_concat(head + s, tail);
    lemma_quotes_doubled_concat(head, s);
    reveal_strlit("%");
    reveal_strlit("");
    lemma_quotes_doubled_single('%');
    assert("%"@ =~= seq!['%']);
    assert(quotes_doubled(""@) =~= ""@);
    let pattern = like_pattern(text_literal(s), before, after);
    assert(style.expr(pattern) == style.literal(LiteralModel::String(head + s + tail)));
}

} // verus!
