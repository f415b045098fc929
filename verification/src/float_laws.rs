//! Laws of decimal texts: which texts are floating-point numbers, and when two of them
//! are equal.

use crate::floats::{
    floats_equal, is_decimal, is_finite_text, is_float_text, is_fraction, is_whole,
};
use crate::joining_laws::{is_column_of, lemma_before_first};
use crate::reference_laws::lemma_after_last;
use crate::rendering_laws::{digits_read, number_read, same_number};
use crate::text::{after_last, before_first, digits};
use vstd::prelude::*;

verus! {

proof fn lemma_digits_are_whole(n: nat)
    ensures
        forall|i: int| 0 <= i < digits(n).len() ==> '0' <= #[trigger] digits(n)[i] <= '9',
        digits(n).len() > 0,
        n > 0 ==> digits(n)[0] != '0',
        n < 10 ==> digits(n).len() == 1,
    decreases n,
{
    if n >= 10 {
        lemma_digits_are_whole(n / 10);
        let shorter = digits(n / 10);
        assert forall|i: int| 0 <= i < digits(n).len() implies '0' <= #[trigger] digits(n)[i]
            <= '9' by {
            if i < shorter.len() {
                assert(digits(n)[i] == shorter[i]);
            }
        }
        assert(digits(n)[0] == shorter[0]);
    }
}

/// The digits of a whole number are the text of a float, with a minus sign before them
/// or without; so are they with a point and further digits behind them, the last of them
/// not zero.
pub proof fn decimal_texts_are_floats(n: nat, fraction: Seq<char>)
    requires
        fraction.len() > 0,
        forall|i: int| 0 <= i < fraction.len() ==> '0' <= #[trigger] fraction[i] <= '9',
        fraction.last() != '0',
    ensures
        is_float_text(digits(n)),
        is_float_text(seq!['-'] + digits(n)),
        is_float_text(digits(n) + seq!['.'] + fraction),
        is_float_text(seq!['-'] + (digits(n) + seq!['.'] + fraction)),
{
    lemma_digits_are_whole(n);
    let whole = digits(n);
    let s = whole + seq!['.'] + fraction;
    assert(is_whole(whole));
    assert(!whole.contains('.'));
    assert(!fraction.contains('.'));
    assert(s.take(whole.len() as int) =~= whole);
    assert(s[whole.len() as int] == '.');
    lemma_before_first(s, whole);
    assert(before_first(s, '.') == whole);
    lemma_after_last(s);
    let end = after_last(s, '.');
    if end.len() > fraction.len() {
        assert(end[end.len() - fraction.len() - 1] == s[s.len() - fraction.len() - 1]);
        assert(end.contains('.'));
    }
    if end.len() < fraction.len() {
        assert(s[s.len() - end.len() - 1] == fraction[fraction.len() - end.len() - 1]);
    }
    assert(s.skip(s.len() - fraction.len()) =~= fraction);
    assert(is_fraction(fraction));
    assert(is_decimal(s));
    assert(is_decimal(whole));
    assert((seq!['-'] + whole).skip(1) =~= whole);
    assert((seq!['-'] + s).skip(1) =~= s);
}

/// The text of a finite float is made of digits, a point that stands before the last
/// digit, and a minus sign at the start.
pub proof fn finite_texts_are_decimal(s: Seq<char>, i: int)
    requires
        is_finite_text(s),
        0 <= i < s.len(),
    ensures
        '0' <= s[i] <= '9' || s[i] == '.' && 0 < i < s.len() - 1 || s[i] == '-' && i == 0,
        '0' <= s.last() <= '9',
{
    if is_decimal(s) {
        lemma_decimal_characters(s, i);
        lemma_decimal_characters(s, s.len() - 1);
    } else {
        let m = s.skip(1);
        if m.len() > 0 {
            lemma_decimal_characters(m, m.len() - 1);
        }
        if i > 0 {
            lemma_decimal_characters(m, i - 1);
        }
    }
}

proof fn lemma_decimal_characters(s: Seq<char>, i: int)
    requires
        is_decimal(s),
        0 <= i < s.len(),
    ensures
        '0' <= s[i] <= '9' || s[i] == '.' && 0 < i < s.len() - 1,
{
    if s.contains('.') {
        let whole = before_first(s, '.');
        lemma_before_first(s, whole);
        lemma_after_last(s);
        let end = after_last(s, '.');
        assert(is_column_of(s, whole));
        if i < whole.len() {
            assert(s.take(whole.len() as int)[i] == whole[i]);
        } else if i > whole.len() {
            assert(s.skip(s.len() - end.len())[i - whole.len() - 1] == s[i]);
            assert('0' <= end[i - whole.len() - 1] <= '9');
        }
    }
}

/// Equality of floats goes both ways and is passed on; every number but `NaN` equals
/// itself, and finite equal texts stand for the same number.
pub proof fn equal_floats_are_the_same_number(a: Seq<char>, b: Seq<char>, c: Seq<char>)
    ensures
        floats_equal(a, a) <==> a != "NaN"@,
        floats_equal(a, b) == floats_equal(b, a),
        floats_equal(a, b) && floats_equal(b, c) ==> floats_equal(a, c),
        floats_equal(a, b) ==> same_number(number_read(a), number_read(b)),
        floats_equal("0"@, "-0"@),
{
    reveal_strlit("0");
    reveal_strlit("-0");
    reveal_strlit("NaN");
    assert("0"@.len() == 1 && "-0"@.len() == 2 && "NaN"@.len() == 3);
    assert("0"@[0] == '0' && "-0"@[0] == '-');
    assert("-0"@.skip(1) =~= "0"@);
    assert(number_read("0"@).0 == 0 && number_read("-0"@).0 == 0) by {
        reveal_with_fuel(digits_read, 2);
        assert("0"@.drop_last() =~= Seq::empty());
    }
}

} // verus!
