//! Text building blocks: concatenation, joining, decimal numbers and the small
//! scans that the code generator and the translator share.
//!
//! A string is modelled by the sequence of its characters.

use vstd::prelude::*;

verus! {

/// `String::push` appends one character to the string.
pub assume_specification[ std::string::String::push ](s: &mut std::string::String, c: char)
    ensures
        final(s)@ == old(s)@.push(c),
;

/// What `str::to_uppercase` makes of a text.
pub uninterp spec fn uppercase_of(s: Seq<char>) -> Seq<char>;

/// What `str::to_lowercase` makes of a text.
pub uninterp spec fn lowercase_of(s: Seq<char>) -> Seq<char>;

/// The upper-case form of an ASCII letter; every other character is kept.
pub open spec fn ascii_upper(c: char) -> char {
    if 'a' <= c <= 'z' {
        (c as u32 - 32) as char
    } else {
        c
    }
}

/// The lower-case form of an ASCII letter; every other character is kept.
pub open spec fn ascii_lower(c: char) -> char {
    if 'A' <= c <= 'Z' {
        (c as u32 + 32) as char
    } else {
        c
    }
}

/// Every character is an ASCII character.
pub open spec fn all_ascii(s: Seq<char>) -> bool {
    forall|i: int| 0 <= i < s.len() ==> (#[trigger] s[i] as u32) < 128
}

/// Calls `str::to_uppercase`. The result is a function of the text alone; on a
/// text of ASCII characters the letters `a` to `z` become `A` to `Z` and
/// nothing else changes.
#[verifier::external_body]
pub(crate) fn to_uppercase(s: &str) -> (r: String)
    ensures
        r@ == uppercase_of(s@),
        all_ascii(s@) ==> r@ == s@.map_values(|c: char| ascii_upper(c)),
{
    s.to_uppercase()
}

/// Calls `str::to_lowercase`. The result is a function of the text alone; on a
/// text of ASCII characters the letters `A` to `Z` become `a` to `z` and
/// nothing else changes.
#[verifier::external_body]
pub(crate) fn to_lowercase(s: &str) -> (r: String)
    ensures
        r@ == lowercase_of(s@),
        all_ascii(s@) ==> r@ == s@.map_values(|c: char| ascii_lower(c)),
{
    s.to_lowercase()
}

/// Whether two texts are the same.
pub(crate) fn same_text(a: &str, b: &str) -> (r: bool)
    ensures
        r == (a@ == b@),
{
    a.to_string() == b.to_string()
}

/// The contents of a sequence of strings.
pub open spec fn texts(v: Seq<String>) -> Seq<Seq<char>> {
    v.map_values(|s: String| s@)
}

/// The parts one after the other.
pub open spec fn concatenated(parts: Seq<Seq<char>>) -> Seq<char>
    decreases parts.len(),
{
    if parts.len() == 0 {
        Seq::empty()
    } else {
        concatenated(parts.drop_last()) + parts.last()
    }
}

/// Parts are put one after the other piece by piece.
pub proof fn lemma_concatenated_add(a: Seq<Seq<char>>, b: Seq<Seq<char>>)
    ensures
        concatenated(a + b) == concatenated(a) + concatenated(b),
    decreases b.len(),
{
    if b.len() == 0 {
        assert(a + b =~= a);
        assert(concatenated(a) + concatenated(b) =~= concatenated(a));
    } else {
        lemma_concatenated_add(a, b.drop_last());
        assert((a + b).drop_last() =~= a + b.drop_last());
        assert(concatenated(a + b) =~= concatenated(a) + concatenated(b));
    }
}

/// A single part is put after nothing.
pub proof fn lemma_concatenated_single(t: Seq<char>)
    ensures
        concatenated(seq![t]) == t,
{
    reveal_with_fuel(concatenated, 2);
    assert(seq![t].drop_last() =~= Seq::empty());
    assert(concatenated(seq![t]) =~= t);
}

/// The parts one after the other, with `sep` between each two neighbours.
pub open spec fn joined(parts: Seq<Seq<char>>, sep: Seq<char>) -> Seq<char>
    decreases parts.len(),
{
    if parts.len() == 0 {
        Seq::empty()
    } else if parts.len() == 1 {
        parts[0]
    } else {
        joined(parts.drop_last(), sep) + sep + parts.last()
    }
}

pub(crate) fn cat2(a: &str, b: &str) -> (r: String)
    ensures
        r@ == a@ + b@,
{
    let mut r: String = a.to_string();
    r.append(b);
    r
}

pub(crate) fn cat3(a: &str, b: &str, c: &str) -> (r: String)
    ensures
        r@ == a@ + b@ + c@,
{
    let mut r: String = cat2(a, b);
    r.append(c);
    r
}

pub(crate) fn cat4(a: &str, b: &str, c: &str, d: &str) -> (r: String)
    ensures
        r@ == a@ + b@ + c@ + d@,
{
    let mut r: String = cat3(a, b, c);
    r.append(d);
    r
}

pub(crate) fn cat5(a: &str, b: &str, c: &str, d: &str, e: &str) -> (r: String)
    ensures
        r@ == a@ + b@ + c@ + d@ + e@,
{
    let mut r: String = cat4(a, b, c, d);
    r.append(e);
    r
}

/// Joins the parts with `sep` between each two neighbours.
pub(crate) fn join(parts: &Vec<String>, sep: &str) -> (r: String)
    ensures
        r@ == joined(texts(parts@), sep@),
{
    let mut r: String = String::new();
    let ghost all = texts(parts@);
    for i in 0..parts.len()
        invariant
            all == texts(parts@),
            r@ == joined(all.take(i as int), sep@),
    {
        if i > 0 {
            r.append(sep);
        }
        r.append(parts[i].as_str());
        proof {
            assert(all.take(i + 1).drop_last() =~= all.take(i as int));
            assert(r@ =~= joined(all.take(i + 1), sep@));
        }
    }
    proof {
        assert(all.take(all.len() as int) =~= all);
    }
    r
}

/// The characters of a string as a vector.
pub(crate) fn chars_of(s: &str) -> (r: Vec<char>)
    ensures
        r@ == s@,
{
    let mut r: Vec<char> = Vec::new();
    for c in it: s.chars()
        invariant
            it.seq() == s@,
            r@ == s@.take(it.index() as int),
    {
        r.push(c);
        proof {
            assert(s@.take(it.index() + 1) =~= s@.take(it.index() as int).push(c));
        }
    }
    proof {
        assert(s@.take(s@.len() as int) =~= s@);
    }
    r
}

/// The characters from `from` up to `to` as a string.
pub(crate) fn string_of(chars: &Vec<char>, from: usize, to: usize) -> (r: String)
    requires
        from <= to <= chars@.len(),
    ensures
        r@ == chars@.subrange(from as int, to as int),
{
    let mut r: String = String::new();
    let mut i: usize = from;
    while i < to
        invariant
            from <= i <= to <= chars@.len(),
            r@ == chars@.subrange(from as int, i as int),
        decreases to - i,
    {
        r.push(chars[i]);
        proof {
            assert(chars@.subrange(from as int, i + 1) =~= chars@.subrange(
                from as int,
                i as int,
            ).push(chars@[i as int]));
        }
        i = i + 1;
    }
    r
}

/// Whether `c` occurs in the text.
pub(crate) fn has_char(s: &str, c: char) -> (r: bool)
    ensures
        r == s@.contains(c),
{
    let chars = chars_of(s);
    for i in 0..chars.len()
        invariant
            chars@ == s@,
            forall|j: int| 0 <= j < i ==> chars@[j] != c,
    {
        if chars[i] == c {
            proof {
                assert(s@[i as int] == c);
            }
            return true;
        }
    }
    false
}

/// The decimal digit with the value `d`.
pub open spec fn digit(d: nat) -> char {
    (48 + d) as char
}

/// The decimal digits of a number, without leading zeros.
pub open spec fn digits(n: nat) -> Seq<char>
    decreases n,
{
    if n < 10 {
        seq![digit(n)]
    } else {
        digits(n / 10).push(digit(n % 10))
    }
}

/// The decimal form of an integer, with `-` before a negative one.
pub open spec fn decimal(i: int) -> Seq<char> {
    if i < 0 {
        "-"@ + digits((-i) as nat)
    } else {
        digits(i as nat)
    }
}

fn push_digits(r: &mut String, n: u64)
    ensures
        final(r)@ == old(r)@ + digits(n as nat),
    decreases n,
{
    if n >= 10 {
        push_digits(r, n / 10);
    }
    let d: u8 = (n % 10) as u8;
    r.push((48u8 + d) as char);
    proof {
        assert(r@ =~= old(r)@ + digits(n as nat));
    }
}

/// The decimal form of an unsigned number.
pub(crate) fn unsigned_text(n: u64) -> (r: String)
    ensures
        r@ == digits(n as nat),
{
    let mut r: String = String::new();
    push_digits(&mut r, n);
    proof {
        assert(r@ =~= digits(n as nat));
    }
    r
}

/// The decimal form of a signed number.
pub(crate) fn signed_text(n: i64) -> (r: String)
    ensures
        r@ == decimal(n as int),
{
    if n < 0 {
        let mut r: String = "-".to_string();
        let magnitude: u64 = (-(n as i128)) as u64;
        push_digits(&mut r, magnitude);
        r
    } else {
        unsigned_text(n as u64)
    }
}

/// The text with every quote character written twice.
pub open spec fn quotes_doubled(s: Seq<char>) -> Seq<char>
    decreases s.len(),
{
    if s.len() == 0 {
        Seq::empty()
    } else if s.last() == '\'' {
        quotes_doubled(s.drop_last()).push('\'').push('\'')
    } else {
        quotes_doubled(s.drop_last()).push(s.last())
    }
}

/// Writes every quote character twice.
pub(crate) fn double_quotes(s: &str) -> (r: String)
    ensures
        r@ == quotes_doubled(s@),
{
    let chars = chars_of(s);
    let mut r: String = String::new();
    for i in 0..chars.len()
        invariant
            chars@ == s@,
            r@ == quotes_doubled(s@.take(i as int)),
    {
        let c: char = chars[i];
        if c == '\'' {
            r.push('\'');
        }
        r.push(c);
        proof {
            assert(s@.take(i + 1).drop_last() =~= s@.take(i as int));
        }
    }
    proof {
        assert(s@.take(s@.len() as int) =~= s@);
    }
    r
}

/// The text without the quote characters that it begins with.
pub open spec fn without_leading_quotes(s: Seq<char>) -> Seq<char>
    decreases s.len(),
{
    if s.len() > 0 && s[0] == '\'' {
        without_leading_quotes(s.drop_first())
    } else {
        s
    }
}

/// The text without the quote characters that it ends with.
pub open spec fn without_trailing_quotes(s: Seq<char>) -> Seq<char>
    decreases s.len(),
{
    if s.len() > 0 && s.last() == '\'' {
        without_trailing_quotes(s.drop_last())
    } else {
        s
    }
}

/// The text without the quote characters at its two ends.
pub open spec fn quotes_trimmed(s: Seq<char>) -> Seq<char> {
    without_trailing_quotes(without_leading_quotes(s))
}

/// Removes the quote characters at the two ends.
pub(crate) fn trim_quotes(s: &str) -> (r: String)
    ensures
        r@ == quotes_trimmed(s@),
{
    let chars = chars_of(s);
    let mut from: usize = 0;
    proof {
        assert(s@.skip(0) =~= s@);
    }
    while from < chars.len() && chars[from] == '\''
        invariant
            chars@ == s@,
            from <= chars@.len(),
            without_leading_quotes(s@) == without_leading_quotes(s@.skip(from as int)),
        decreases chars@.len() - from,
    {
        proof {
            assert(s@.skip(from as int).drop_first() =~= s@.skip(from + 1));
        }
        from = from + 1;
    }
    let ghost kept = s@.skip(from as int);
    let mut to: usize = chars.len();
    proof {
        assert(kept.take(to - from) =~= kept);
    }
    while to > from && chars[to - 1] == '\''
        invariant
            chars@ == s@,
            from <= to <= chars@.len(),
            kept == s@.skip(from as int),
            without_trailing_quotes(kept) == without_trailing_quotes(kept.take(to - from)),
        decreases to,
    {
        proof {
            assert(kept.take(to - from).drop_last() =~= kept.take(to - 1 - from));
        }
        to = to - 1;
    }
    proof {
        assert(kept.take(to - from) =~= s@.subrange(from as int, to as int));
    }
    string_of(&chars, from, to)
}

/// The part of the text before the first `sep`, or all of it where there is none.
pub open spec fn before_first(s: Seq<char>, sep: char) -> Seq<char>
    decreases s.len(),
{
    if s.len() == 0 || s[0] == sep {
        Seq::empty()
    } else {
        seq![s[0]] + before_first(s.drop_first(), sep)
    }
}

/// The part of the text after the last `sep`, or all of it where there is none.
pub open spec fn after_last(s: Seq<char>, sep: char) -> Seq<char>
    decreases s.len(),
{
    if s.len() == 0 || s.last() == sep {
        Seq::empty()
    } else {
        after_last(s.drop_last(), sep).push(s.last())
    }
}

/// Cuts the text before its first `sep`.
pub(crate) fn first_segment(s: &str, sep: char) -> (r: String)
    ensures
        r@ == before_first(s@, sep),
{
    let chars = chars_of(s);
    let mut to: usize = 0;
    proof {
        assert(s@.skip(0) =~= s@);
        assert(s@.take(0) + before_first(s@, sep) =~= before_first(s@, sep));
    }
    while to < chars.len() && chars[to] != sep
        invariant
            chars@ == s@,
            to <= chars@.len(),
            before_first(s@, sep) == s@.take(to as int) + before_first(s@.skip(to as int), sep),
        decreases chars@.len() - to,
    {
        proof {
            let rest = s@.skip(to as int);
            assert(rest.drop_first() =~= s@.skip(to + 1));
            assert(s@.take(to as int) + (seq![rest[0]] + before_first(s@.skip(to + 1), sep))
                =~= s@.take(to + 1) + before_first(s@.skip(to + 1), sep));
        }
        to = to + 1;
    }
    proof {
        assert(s@.take(to as int) + Seq::<char>::empty() =~= s@.subrange(0, to as int));
    }
    string_of(&chars, 0, to)
}

/// Cuts the text after its last `sep`.
pub(crate) fn last_segment(s: &str, sep: char) -> (r: String)
    ensures
        r@ == after_last(s@, sep),
{
    let chars = chars_of(s);
    let mut from: usize = chars.len();
    proof {
        assert(s@.take(from as int) =~= s@);
        assert(after_last(s@, sep) + s@.skip(from as int) =~= after_last(s@, sep));
    }
    while from > 0 && chars[from - 1] != sep
        invariant
            chars@ == s@,
            from <= chars@.len(),
            after_last(s@, sep) == after_last(s@.take(from as int), sep) + s@.skip(from as int),
        decreases from,
    {
        proof {
            let rest = s@.take(from as int);
            assert(rest.drop_last() =~= s@.take(from - 1));
            assert(after_last(s@.take(from - 1), sep).push(rest.last()) + s@.skip(from as int)
                =~= after_last(s@.take(from - 1), sep) + s@.skip(from - 1));
        }
        from = from - 1;
    }
    proof {
        assert(Seq::<char>::empty() + s@.skip(from as int) =~= s@.subrange(
            from as int,
            s@.len() as int,
        ));
    }
    let end: usize = chars.len();
    string_of(&chars, from, end)
}

/// Whether the text begins with `prefix`.
pub open spec fn begins_with(s: Seq<char>, prefix: Seq<char>) -> bool {
    prefix.len() <= s.len() && s.take(prefix.len() as int) == prefix
}

/// Whether the text begins with `prefix`.
pub(crate) fn has_prefix(s: &str, prefix: &str) -> (r: bool)
    ensures
        r == begins_with(s@, prefix@),
{
    let chars = chars_of(s);
    let wanted = chars_of(prefix);
    if wanted.len() > chars.len() {
        return false;
    }
    for i in 0..wanted.len()
        invariant
            chars@ == s@,
            wanted@ == prefix@,
            wanted@.len() <= chars@.len(),
            forall|j: int| 0 <= j < i ==> chars@[j] == wanted@[j],
    {
        if chars[i] != wanted[i] {
            proof {
                assert(s@.take(prefix@.len() as int)[i as int] != prefix@[i as int]);
            }
            return false;
        }
    }
    proof {
        assert(s@.take(prefix@.len() as int) =~= prefix@);
    }
    true
}

/// The first character of each of the non-empty pieces that `_` separates.
pub open spec fn initials(s: Seq<char>) -> Seq<char>
    decreases s.len(),
{
    if s.len() == 0 {
        Seq::empty()
    } else if s.last() != '_' && (s.len() == 1 || s[s.len() - 2] == '_') {
        initials(s.drop_last()).push(s.last())
    } else {
        initials(s.drop_last())
    }
}

/// Collects the first character of each piece that `_` separates.
pub(crate) fn piece_initials(s: &str) -> (r: String)
    ensures
        r@ == initials(s@),
{
    let chars = chars_of(s);
    let mut r: String = String::new();
    for i in 0..chars.len()
        invariant
            chars@ == s@,
            r@ == initials(s@.take(i as int)),
    {
        if chars[i] != '_' && (i == 0 || chars[i - 1] == '_') {
            r.push(chars[i]);
        }
        proof {
            assert(s@.take(i + 1).drop_last() =~= s@.take(i as int));
        }
    }
    proof {
        assert(s@.take(s@.len() as int) =~= s@);
    }
    r
}

} // verus!
