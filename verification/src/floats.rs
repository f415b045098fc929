//! Floating-point numbers, held as their decimal texts.

use crate::text::{
    after_last, before_first, chars_of, first_segment, has_char, has_prefix, last_segment,
    same_text, string_of,
};
use vstd::prelude::*;

verus! {

/// Whether a text is decimal digits and nothing else.
pub open spec fn is_digits(s: Seq<char>) -> bool {
    s.len() > 0 && forall|i: int| 0 <= i < s.len() ==> '0' <= #[trigger] s[i] <= '9'
}

/// Whether a text is a whole number without leading zeros.
pub open spec fn is_whole(s: Seq<char>) -> bool {
    is_digits(s) && (s.len() == 1 || s[0] != '0')
}

/// Whether a text is the digits of a fraction without trailing zeros.
pub open spec fn is_fraction(s: Seq<char>) -> bool {
    is_digits(s) && s.last() != '0'
}

/// Whether a text is a decimal number without a sign: a whole number, or one with
/// a fraction behind its only point.
pub open spec fn is_decimal(s: Seq<char>) -> bool {
    if s.contains('.') {
        is_whole(before_first(s, '.')) && is_fraction(after_last(s, '.')) && s.len()
            == before_first(s, '.').len() + 1 + after_last(s, '.').len()
    } else {
        is_whole(s)
    }
}

/// Whether a text is that of a finite floating-point number.
pub open spec fn is_finite_text(s: Seq<char>) -> bool {
    is_decimal(s) || (s.len() > 0 && s[0] == '-' && is_decimal(s.skip(1)))
}

/// Whether a text is that of a floating-point number.
pub open spec fn is_float_text(s: Seq<char>) -> bool {
    ||| is_finite_text(s)
    ||| s == "NaN"@
    ||| s == "inf"@
    ||| s == "-inf"@
}

/// Whether two texts stand for equal floating-point numbers: zero has two signs,
/// and no number equals `NaN`.
pub open spec fn floats_equal(a: Seq<char>, b: Seq<char>) -> bool {
    a != "NaN"@ && (a == b || ((a == "0"@ || a == "-0"@) && (b == "0"@ || b == "-0"@)))
}

/// A floating-point number, held as its decimal text.
///
/// The text has no exponent, no leading zeros before its point and no trailing
/// zeros behind it: `2`, `0.5`, `-1.25`. It may also be `NaN`, `inf` or `-inf`.
#[derive(Debug)]
pub struct FloatText {
    text: String,
}

impl View for FloatText {
    type V = Seq<char>;

    closed spec fn view(&self) -> Seq<char> {
        self.text@
    }
}

impl FloatText {
    #[verifier::type_invariant]
    spec fn well_formed(self) -> bool {
        is_float_text(self.text@)
    }

    /// The number with the given text, if there is one.
    pub fn new(text: String) -> (r: Option<Self>)
        ensures
            match r {
                Some(f) => is_float_text(text@) && f@ == text@,
                None => !is_float_text(text@),
            },
    {
        if check_float(text.as_str()) {
            Some(FloatText { text })
        } else {
            None
        }
    }

    /// Zero.
    pub fn zero() -> (r: Self)
        ensures
            r@ == "0"@,
    {
        proof {
            reveal_strlit("0");
        }
        FloatText { text: "0".to_string() }
    }

    /// The text of the number.
    pub fn text(&self) -> (r: &str)
        ensures
            r@ == self@,
            is_float_text(self@),
    {
        proof {
            use_type_invariant(self);
        }
        self.text.as_str()
    }
}

impl Clone for FloatText {
    fn clone(&self) -> (r: Self)
        ensures
            r@ == self@,
    {
        proof {
            use_type_invariant(self);
        }
        FloatText { text: self.text.clone() }
    }
}

impl PartialEq for FloatText {
    fn eq(&self, other: &Self) -> (r: bool) {
        let a = self.text.as_str();
        let b = other.text.as_str();
        !same_text(a, "NaN") && (same_text(a, b) || ((same_text(a, "0") || same_text(a, "-0")) && (
        same_text(b, "0") || same_text(b, "-0"))))
    }
}

impl vstd::std_specs::cmp::PartialEqSpecImpl for FloatText {
    open spec fn obeys_eq_spec() -> bool {
        true
    }

    open spec fn eq_spec(&self, other: &Self) -> bool {
        floats_equal(self@, other@)
    }
}

fn check_digits(s: &str) -> (r: bool)
    ensures
        r == is_digits(s@),
{
    let chars = chars_of(s);
    for i in 0..chars.len()
        invariant
            chars@ == s@,
            forall|j: int| 0 <= j < i ==> '0' <= #[trigger] s@[j] <= '9',
    {
        if chars[i] < '0' || chars[i] > '9' {
            proof {
                assert(!('0' <= s@[i as int] <= '9'));
            }
            return false;
        }
    }
    chars.len() > 0
}

fn check_decimal(s: &str) -> (r: bool)
    ensures
        r == is_decimal(s@),
{
    let chars = chars_of(s);
    let whole: String = first_segment(s, '.');
    let whole_chars = chars_of(whole.as_str());
    let whole_fits = check_digits(whole.as_str()) && (whole_chars.len() == 1 || whole_chars[0]
        != '0');
    if has_char(s, '.') {
        let fraction: String = last_segment(s, '.');
        let fraction_chars = chars_of(fraction.as_str());
        whole_fits && check_digits(fraction.as_str()) && fraction_chars[fraction_chars.len() - 1]
            != '0' && chars.len() > fraction_chars.len() && chars.len() - fraction_chars.len() - 1
            == whole_chars.len()
    } else {
        proof {
            lemma_no_separator(s@, '.');
        }
        whole_fits
    }
}

/// A text without the separator is all of it before the first one.
pub proof fn lemma_no_separator(s: Seq<char>, sep: char)
    requires
        !s.contains(sep),
    ensures
        before_first(s, sep) == s,
        after_last(s, sep) == s,
    decreases s.len(),
{
    if s.len() > 0 {
        assert(s[0] != sep);
        assert(s[s.len() - 1] != sep);
        assert(forall|i: int| 0 <= i < s.len() - 1 ==> s.drop_first()[i] == s[i + 1]);
        assert(forall|i: int| 0 <= i < s.len() - 1 ==> s.drop_last()[i] == s[i]);
        lemma_no_separator(s.drop_first(), sep);
        lemma_no_separator(s.drop_last(), sep);
        assert(seq![s[0]] + s.drop_first() =~= s);
        assert(s.drop_last().push(s.last()) =~= s);
    } else {
        assert(s =~= Seq::empty());
    }
}

fn check_float(s: &str) -> (r: bool)
    ensures
        r == is_float_text(s@),
{
    if check_decimal(s) || same_text(s, "NaN") || same_text(s, "inf") || same_text(s, "-inf") {
        return true;
    }
    proof {
        reveal_strlit("-");
        assert(crate::text::begins_with(s@, "-"@) <==> s@.len() > 0 && s@[0] == '-') by {
            if s@.len() > 0 && s@[0] == '-' {
                assert(s@.take(1) =~= "-"@);
            }
            if crate::text::begins_with(s@, "-"@) {
                assert(s@.take(1)[0] == '-');
            }
        }
    }
    if has_prefix(s, "-") {
        let chars = chars_of(s);
        let end: usize = chars.len();
        let magnitude: String = string_of(&chars, 1, end);
        proof {
            assert(magnitude@ =~= s@.skip(1));
        }
        check_decimal(magnitude.as_str())
    } else {
        false
    }
}

} // verus!
