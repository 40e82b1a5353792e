use vstd::prelude::*;

verus! {

/// Whether `c` is a decimal digit.
pub open spec fn is_digit(c: char) -> bool {
    '0' <= c && c <= '9'
}

/// The value of the decimal digit `c`.
pub open spec fn digit_value(c: char) -> int {
    (c as u32) as int - ('0' as u32) as int
}

/// The value of a string of decimal digits.
pub open spec fn digits_value(s: Seq<char>) -> int
    decreases s.len(),
{
    if s.len() == 0 {
        0
    } else {
        digits_value(s.drop_last()) * 10 + digit_value(s.last())
    }
}

/// Whether `s` starts with a sign.
pub open spec fn has_sign(s: Seq<char>) -> bool {
    s.len() > 0 && (s[0] == '-' || s[0] == '+')
}

/// The digits of an integer literal, after its sign if it has one.
pub open spec fn unsigned_part(s: Seq<char>) -> Seq<char> {
    if has_sign(s) {
        s.drop_first()
    } else {
        s
    }
}

/// The value of an integer literal: an optional sign and decimal digits.
pub open spec fn int_literal_value(s: Seq<char>) -> int {
    if s.len() > 0 && s[0] == '-' {
        -digits_value(unsigned_part(s))
    } else {
        digits_value(unsigned_part(s))
    }
}

/// Whether `s` is an integer literal whose value fits in an `i64`.
pub open spec fn is_int_literal(s: Seq<char>) -> bool {
    &&& unsigned_part(s).len() > 0
    &&& forall|i: int| 0 <= i < unsigned_part(s).len() ==> is_digit(#[trigger] unsigned_part(s)[i])
    &&& i64::MIN <= int_literal_value(s) <= i64::MAX
}

/// The digits and point of a float literal, after its minus sign if it has one.
pub open spec fn float_body(s: Seq<char>) -> Seq<char> {
    if s.len() > 0 && s[0] == '-' {
        s.drop_first()
    } else {
        s
    }
}

/// Whether `s` is a float literal: an optional minus sign, then decimal
/// digits, a point and decimal digits, with at least one digit on each side.
pub open spec fn is_float_literal(s: Seq<char>) -> bool {
    exists|p: int|
        #![trigger float_body(s)[p]]
        0 < p < float_body(s).len() - 1 && float_body(s)[p] == '.' && forall|i: int|
            0 <= i < float_body(s).len() && i != p ==> is_digit(#[trigger] float_body(s)[i])
}

/// The text `true`.
pub open spec fn true_text() -> Seq<char> {
    seq!['t', 'r', 'u', 'e']
}

/// The text `false`.
pub open spec fn false_text() -> Seq<char> {
    seq!['f', 'a', 'l', 's', 'e']
}

/// Whether `s` is a boolean literal.
pub open spec fn is_bool_literal(s: Seq<char>) -> bool {
    s == true_text() || s == false_text()
}

/// A string literal without its delimiting quotes.
pub open spec fn unquoted(s: Seq<char>) -> Seq<char> {
    s.subrange(1, s.len() - 1)
}

proof fn lemma_digits_prefix(s: Seq<char>, k: int)
    requires
        0 <= k <= s.len(),
        forall|i: int| 0 <= i < s.len() ==> is_digit(#[trigger] s[i]),
    ensures
        0 <= digits_value(s.take(k)) <= digits_value(s),
    decreases s.len(),
{
    if k == s.len() {
        assert(s.take(k) =~= s);
        if s.len() > 0 {
            lemma_digits_prefix(s.drop_last(), k - 1);
            assert(s.drop_last().take(k - 1) =~= s.drop_last());
        }
    } else {
        let t = s.drop_last();
        lemma_digits_prefix(t, k);
        assert(t.take(k) =~= s.take(k));
        lemma_digits_prefix(t, t.len() as int);
        assert(t.take(t.len() as int) =~= t);
    }
}

/// Reads an integer literal.
pub fn parse_integer(text: &str) -> (r: i64)
    requires
        is_int_literal(text@),
    ensures
        r as int == int_literal_value(text@),
{
    let ghost s = text@;
    let n = text.unicode_len();
    let first = text.get_char(0);
    let negative = first == '-';
    let start: usize = if first == '-' || first == '+' { 1 } else { 0 };
    let ghost u = unsigned_part(s);
    proof {
        assert(u =~= s.subrange(start as int, n as int));
        lemma_digits_prefix(u, u.len() as int);
        assert(u.take(u.len() as int) =~= u);
    }
    let mut acc: i128 = 0;
    let mut i: usize = start;
    while i < n
        invariant
            s == text@,
            n == s.len(),
            start <= i <= n,
            u == s.subrange(start as int, n as int),
            forall|j: int| 0 <= j < u.len() ==> is_digit(#[trigger] u[j]),
            digits_value(u) <= 0x8000_0000_0000_0000,
            acc == digits_value(u.take(i - start)),
        decreases n - i,
    {
        let c = text.get_char(i);
        proof {
            assert(u[i - start] == c);
            assert(u.take(i - start + 1).drop_last() =~= u.take(i - start));
            lemma_digits_prefix(u, i - start + 1);
            lemma_digits_prefix(u, i - start);
        }
        let d = (c as u32) - ('0' as u32);
        acc = acc * 10 + d as i128;
        i = i + 1;
    }
    proof {
        assert(u.take(n - start) =~= u);
    }
    if negative {
        (-acc) as i64
    } else {
        acc as i64
    }
}

/// Reads a boolean literal.
pub fn parse_boolean(text: &str) -> (r: bool)
    requires
        is_bool_literal(text@),
    ensures
        r == (text@ == true_text()),
{
    text.unicode_len() == 4
}

/// The contents of a string literal: its text without the first and the
/// last character, with no escape processing.
pub fn strip_quotes(text: &str) -> (r: String)
    requires
        text@.len() >= 2,
    ensures
        r@ == unquoted(text@),
{
    let n = text.unicode_len();
    let inner = text.substring_char(1, n - 1);
    String::from_str(inner)
}

} // verus!
