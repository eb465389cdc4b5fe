//! Character classes and decimal text shared by the lexer, parser and
//! elaboration passes.

use vstd::prelude::*;
use vstd::std_specs::iter::IteratorSpec;

verus! {

/// Unicode `White_Space` property of a character: tab, line feed, line
/// tabulation, form feed, carriage return, space, next line, no-break
/// space, ogham space mark, the spaces from en quad to hair space, line
/// and paragraph separators, narrow no-break space, medium mathematical
/// space and ideographic space.
pub open spec fn unicode_white_space(c: char) -> bool {
    let n = c as u32;
    ||| 0x09 <= n <= 0x0D
    ||| n == 0x20
    ||| n == 0x85
    ||| n == 0xA0
    ||| n == 0x1680
    ||| 0x2000 <= n <= 0x200A
    ||| n == 0x2028
    ||| n == 0x2029
    ||| n == 0x202F
    ||| n == 0x205F
    ||| n == 0x3000
}

/// An ASCII letter.
pub open spec fn is_ascii_letter(c: char) -> bool {
    'a' <= c <= 'z' || 'A' <= c <= 'Z'
}

/// Whether a character is alphabetic: among ASCII characters the letters,
/// beyond them the Unicode `Alphabetic` property.
pub open spec fn alphabetic(c: char) -> bool {
    if (c as u32) < 128 {
        is_ascii_letter(c)
    } else {
        unicode_alphabetic(c)
    }
}

/// Whether a character is numeric: among ASCII characters the digits,
/// beyond them the Unicode numeric categories.
pub open spec fn numeric(c: char) -> bool {
    if (c as u32) < 128 {
        '0' <= c <= '9'
    } else {
        unicode_numeric(c)
    }
}

/// Unicode `Alphabetic` property of a character.
pub uninterp spec fn unicode_alphabetic(c: char) -> bool;

/// Unicode numeric character (general categories `Nd`, `Nl`, `No`).
pub uninterp spec fn unicode_numeric(c: char) -> bool;

/// `char::is_whitespace`: true exactly for characters with the Unicode
/// `White_Space` property, listed in [`unicode_white_space`].
#[verifier::external_body]
pub(crate) fn is_white_space(c: char) -> (b: bool)
    ensures
        b == unicode_white_space(c),
{
    c.is_whitespace()
}

/// `char::is_alphabetic`: true exactly for characters with the Unicode
/// `Alphabetic` property; among ASCII characters those are the letters.
#[verifier::external_body]
pub(crate) fn is_alphabetic(c: char) -> (b: bool)
    ensures
        b == alphabetic(c),
        (c as u32) >= 128 ==> (b == unicode_alphabetic(c)),
{
    c.is_alphabetic()
}

/// `char::is_numeric`: true exactly for Unicode numeric characters
/// (general categories `Nd`, `Nl`, `No`); among ASCII characters those are
/// the digits.
#[verifier::external_body]
pub(crate) fn is_numeric(c: char) -> (b: bool)
    ensures
        b == numeric(c),
        (c as u32) >= 128 ==> (b == unicode_numeric(c)),
{
    c.is_numeric()
}

/// `char::is_alphanumeric`: documented as "either `is_alphabetic()` or
/// `is_numeric()`"; among ASCII characters, the letters and digits.
#[verifier::external_body]
pub(crate) fn is_alphanumeric(c: char) -> (b: bool)
    ensures
        b == (alphabetic(c) || numeric(c)),
        (c as u32) >= 128 ==> (b == (unicode_alphabetic(c) || unicode_numeric(c))),
{
    c.is_alphanumeric()
}

/// `String::push`: appends one character.
#[verifier::external_body]
pub(crate) fn push_char(s: &mut String, c: char)
    ensures
        final(s)@ == old(s)@.push(c),
{
    s.push(c)
}

/// The ASCII digit character for `d` (0..=9).
pub open spec fn digit_char(d: int) -> char {
    (d + 48) as char
}

/// Decimal digits of a natural number, most significant first.
pub open spec fn nat_text(n: nat) -> Seq<char>
    decreases n,
{
    if n < 10 {
        seq![digit_char(n as int)]
    } else {
        nat_text(n / 10).push(digit_char((n % 10) as int))
    }
}

/// Decimal text of an integer: a leading `-` for negatives, then the digits.
pub open spec fn int_text(n: int) -> Seq<char> {
    if n < 0 {
        seq!['-'] + nat_text((-n) as nat)
    } else {
        nat_text(n as nat)
    }
}

/// The ASCII digit for `d`.
fn digit(d: u8) -> (c: char)
    requires
        d < 10,
    ensures
        c == digit_char(d as int),
{
    (48u8 + d) as char
}

/// Appends the decimal digits of `n`, most significant first.
fn push_digits(s: &mut String, n: u64)
    ensures
        final(s)@ == old(s)@ + nat_text(n as nat),
    decreases n,
{
    if n >= 10 {
        push_digits(s, n / 10);
    }
    let ghost mid = s@;
    push_char(s, digit((n % 10) as u8));
    proof {
        if n >= 10 {
            assert(mid == old(s)@ + nat_text((n / 10) as nat));
            assert(s@ =~= old(s)@ + nat_text(n as nat));
        } else {
            assert(s@ =~= old(s)@ + nat_text(n as nat));
        }
    }
}

/// The decimal text of an `i64`, as its `Display` writes it: a leading `-`
/// for negatives, then the digits.
pub(crate) fn i64_text(n: i64) -> (s: String)
    ensures
        s@ == int_text(n as int),
{
    let mut s = String::new();
    if n < 0 {
        push_char(&mut s, '-');
        let m: u64 = if n == i64::MIN {
            9223372036854775808u64
        } else {
            (-n) as u64
        };
        push_digits(&mut s, m);
        assert(s@ =~= seq!['-'] + nat_text((-n) as nat));
    } else {
        push_digits(&mut s, n as u64);
        assert(s@ =~= nat_text(n as nat));
    }
    s
}

/// The decimal text of a `u64`, as its `Display` writes it.
pub(crate) fn u64_text(n: u64) -> (s: String)
    ensures
        s@ == nat_text(n as nat),
{
    let mut s = String::new();
    push_digits(&mut s, n);
    assert(s@ =~= nat_text(n as nat));
    s
}

/// Decimal text of a `usize`.
pub fn usize_text(n: usize) -> (s: String)
    ensures
        s@ == nat_text(n as nat),
{
    u64_text(n as u64)
}

/// Decimal text of a `u32`.
pub fn u32_text(n: u32) -> (s: String)
    ensures
        s@ == nat_text(n as nat),
{
    u64_text(n as u64)
}

/// True for the ASCII digits `'0'..='9'`.
pub open spec fn is_ascii_digit_spec(c: char) -> bool {
    '0' <= c <= '9'
}

/// `char::is_ascii_digit`.
pub fn is_ascii_digit(c: char) -> (b: bool)
    ensures
        b == is_ascii_digit_spec(c),
{
    '0' <= c && c <= '9'
}

/// Numeric value of a sequence of ASCII digits.
pub open spec fn digits_value(s: Seq<char>) -> int
    decreases s.len(),
{
    if s.len() == 0 {
        0
    } else {
        digits_value(s.drop_last()) * 10 + (s.last() as int - 48)
    }
}

/// What `str::parse::<i64>` gives for text made of numeric characters:
/// the value when every character is an ASCII digit and the value fits in
/// an `i64`, and no value otherwise.
pub open spec fn parse_digits(s: Seq<char>) -> Option<i64> {
    if s.len() > 0 && (forall|i: int| 0 <= i < s.len() ==> is_ascii_digit_spec(#[trigger] s[i]))
        && digits_value(s) <= i64::MAX {
        Some(digits_value(s) as i64)
    } else {
        None
    }
}

proof fn lemma_digits_value_nonneg(s: Seq<char>)
    requires
        forall|i: int| 0 <= i < s.len() ==> is_ascii_digit_spec(#[trigger] s[i]),
    ensures
        digits_value(s) >= 0,
    decreases s.len(),
{
    if s.len() > 0 {
        assert(forall|i: int| 0 <= i < s.drop_last().len() ==> s.drop_last()[i] == s[i]);
        lemma_digits_value_nonneg(s.drop_last());
    }
}

proof fn lemma_digits_value_monotone(s: Seq<char>, k: int)
    requires
        0 <= k <= s.len(),
        forall|i: int| 0 <= i < s.len() ==> is_ascii_digit_spec(#[trigger] s[i]),
    ensures
        digits_value(s.take(k)) <= digits_value(s),
    decreases s.len() - k,
{
    if k < s.len() {
        lemma_digits_value_monotone(s, k + 1);
        assert(s.take(k + 1).drop_last() =~= s.take(k));
        let t = s.take(k + 1);
        assert(forall|i: int| 0 <= i < t.drop_last().len() ==> t.drop_last()[i] == s[i]);
        lemma_digits_value_nonneg(t.drop_last());
        assert(digits_value(t) == digits_value(t.drop_last()) * 10 + (t.last() as int - 48));
    } else {
        assert(s.take(k) =~= s);
    }
}

/// Reads decimal text made of numeric characters as `str::parse::<i64>`
/// does, giving 0 when that parse fails.
pub fn parse_digits_or_zero(s: &Vec<char>) -> (n: i64)
    ensures
        n == match parse_digits(s@) {
            Some(v) => v,
            None => 0i64,
        },
{
    if s.len() == 0 {
        return 0;
    }
    let mut acc: i64 = 0;
    let mut i: usize = 0;
    while i < s.len()
        invariant
            i <= s.len(),
            s.len() > 0,
            forall|j: int| 0 <= j < i ==> is_ascii_digit_spec(#[trigger] s@[j]),
            acc as int == digits_value(s@.take(i as int)),
            0 <= acc,
        decreases s.len() - i,
    {
        let c = s[i];
        if !is_ascii_digit(c) {
            assert(!(forall|j: int| 0 <= j < s@.len() ==> is_ascii_digit_spec(#[trigger] s@[j])));
            return 0;
        }
        let d: i64 = (c as u32 - 48) as i64;
        assert(s@.take(i + 1).drop_last() =~= s@.take(i as int));
        if acc > (i64::MAX - d) / 10 {
            // the value already exceeds i64::MAX
            proof {
                assert(acc * 10 + d > i64::MAX) by (nonlinear_arith)
                    requires acc > (i64::MAX - d) / 10, 0 <= d <= 9, acc >= 0;
                let rest = s@;
                if forall|j: int| 0 <= j < rest.len() ==> is_ascii_digit_spec(#[trigger] rest[j]) {
                    lemma_digits_value_monotone(rest, i + 1);
                }
            }
            return 0;
        }
        proof {
            assert(acc * 10 + d <= i64::MAX) by (nonlinear_arith)
                requires acc <= (i64::MAX - d) / 10, 0 <= d <= 9, acc >= 0;
        }
        acc = acc * 10 + d;
        i = i + 1;
    }
    assert(s@.take(s.len() as int) =~= s@);
    acc
}

} // verus!

verus! {

/// The characters of a string slice, in order.
pub fn chars_of(s: &str) -> (v: Vec<char>)
    ensures
        v@ == s@,
{
    let mut v: Vec<char> = Vec::new();
    let mut it = s.chars();
    proof { broadcast use vstd::string::axiom_spec_iter; }
    let ghost all = it.remaining();
    assert(all == s@);
    loop
        invariant
            v@ + it.remaining() == all,
            all == s@,
            it.obeys_prophetic_iter_laws(),
            it.decrease() is Some,
        decreases it.decrease()->0,
    {
        let ghost before = it.remaining();
        proof { broadcast use vstd::string::next_postcondition; }
        match it.next() {
            Some(c) => {
                v.push(c);
                assert(v@ + it.remaining() =~= all) by {
                    assert(before == seq![c] + it.remaining());
                }
            },
            None => {
                assert(it.remaining().len() == 0);
                assert(v@ =~= all);
                return v;
            },
        }
    }
}

} // verus!
