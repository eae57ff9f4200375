//! Verified text scanning: character classes, maximal spans, decimal number
//! parsing and string comparison, the building blocks of the tool-output
//! line grammars.

use vstd::prelude::*;

verus! {

/// An ASCII decimal digit.
pub open spec fn is_digit(c: char) -> bool {
    48 <= c as u32 <= 57
}

/// An ASCII letter.
pub open spec fn is_alpha(c: char) -> bool {
    (65 <= c as u32 <= 90) || (97 <= c as u32 <= 122)
}

/// A word character: letter, digit or underscore.
pub open spec fn is_word_char(c: char) -> bool {
    is_digit(c) || is_alpha(c) || c as u32 == 95
}

/// Exec check for [`is_digit`].
pub fn digit(c: char) -> (r: bool)
    ensures
        r == is_digit(c),
{
    let u = c as u32;
    48 <= u && u <= 57
}

/// Exec check for [`is_alpha`].
pub fn alpha(c: char) -> (r: bool)
    ensures
        r == is_alpha(c),
{
    let u = c as u32;
    (65 <= u && u <= 90) || (97 <= u && u <= 122)
}

/// Exec check for [`is_word_char`].
pub fn word_char(c: char) -> (r: bool)
    ensures
        r == is_word_char(c),
{
    digit(c) || alpha(c) || c as u32 == 95
}

/// The first index at or after `i` whose character is not a digit
/// (or the end of the text).
pub open spec fn span_digits(s: Seq<char>, i: int) -> int
    recommends
        0 <= i <= s.len(),
    decreases s.len() - i,
{
    if i < s.len() && 0 <= i && is_digit(s[i]) {
        span_digits(s, i + 1)
    } else {
        i
    }
}

/// The first index at or after `i` whose character is not a word character.
pub open spec fn span_word(s: Seq<char>, i: int) -> int
    recommends
        0 <= i <= s.len(),
    decreases s.len() - i,
{
    if i < s.len() && 0 <= i && is_word_char(s[i]) {
        span_word(s, i + 1)
    } else {
        i
    }
}

/// The first index at or after `i` whose character is not a letter.
pub open spec fn span_alpha(s: Seq<char>, i: int) -> int
    recommends
        0 <= i <= s.len(),
    decreases s.len() - i,
{
    if i < s.len() && 0 <= i && is_alpha(s[i]) {
        span_alpha(s, i + 1)
    } else {
        i
    }
}

/// The bounds of a digit span: it stays inside the text, covers only digits,
/// and stops only at the end or at a non-digit.
pub proof fn lemma_span_digits(s: Seq<char>, i: int)
    requires
        0 <= i <= s.len(),
    ensures
        i <= span_digits(s, i) <= s.len(),
        forall|j: int| i <= j < span_digits(s, i) ==> is_digit(s[j]),
        span_digits(s, i) < s.len() ==> !is_digit(s[span_digits(s, i)]),
    decreases s.len() - i,
{
    if i < s.len() && is_digit(s[i]) {
        lemma_span_digits(s, i + 1);
    }
}

/// The bounds of a letter span.
pub proof fn lemma_span_alpha(s: Seq<char>, i: int)
    requires
        0 <= i <= s.len(),
    ensures
        i <= span_alpha(s, i) <= s.len(),
        forall|j: int| i <= j < span_alpha(s, i) ==> is_alpha(s[j]),
        span_alpha(s, i) < s.len() ==> !is_alpha(s[span_alpha(s, i)]),
    decreases s.len() - i,
{
    if i < s.len() && is_alpha(s[i]) {
        lemma_span_alpha(s, i + 1);
    }
}

/// Scans the maximal run of digits starting at `from`.
pub fn scan_digits(s: &str, from: usize) -> (j: usize)
    requires
        from <= s@.len(),
    ensures
        j == span_digits(s@, from as int),
        from <= j <= s@.len(),
{
    let n = s.unicode_len();
    let mut j = from;
    while j < n && digit(s.get_char(j))
        invariant
            from <= j <= n,
            n == s@.len(),
            span_digits(s@, from as int) == span_digits(s@, j as int),
        decreases n - j,
    {
        j = j + 1;
    }
    j
}

/// Scans the maximal run of word characters starting at `from`.
pub fn scan_word(s: &str, from: usize) -> (j: usize)
    requires
        from <= s@.len(),
    ensures
        j == span_word(s@, from as int),
        from <= j <= s@.len(),
{
    let n = s.unicode_len();
    let mut j = from;
    while j < n && word_char(s.get_char(j))
        invariant
            from <= j <= n,
            n == s@.len(),
            span_word(s@, from as int) == span_word(s@, j as int),
        decreases n - j,
    {
        j = j + 1;
    }
    j
}

/// Scans the maximal run of letters starting at `from`.
pub fn scan_alpha(s: &str, from: usize) -> (j: usize)
    requires
        from <= s@.len(),
    ensures
        j == span_alpha(s@, from as int),
        from <= j <= s@.len(),
{
    let n = s.unicode_len();
    let mut j = from;
    while j < n && alpha(s.get_char(j))
        invariant
            from <= j <= n,
            n == s@.len(),
            span_alpha(s@, from as int) == span_alpha(s@, j as int),
        decreases n - j,
    {
        j = j + 1;
    }
    j
}

/// A character that may appear inside a line: anything but a line feed.
pub open spec fn is_line_char(c: char) -> bool {
    c != '\n'
}

/// The first index at or after `i` holding a line feed (or the end of the
/// text).
pub open spec fn span_line(s: Seq<char>, i: int) -> int
    recommends
        0 <= i <= s.len(),
    decreases s.len() - i,
{
    if i < s.len() && 0 <= i && is_line_char(s[i]) {
        span_line(s, i + 1)
    } else {
        i
    }
}

/// The bounds of a line span.
pub proof fn lemma_span_line(s: Seq<char>, i: int)
    requires
        0 <= i <= s.len(),
    ensures
        i <= span_line(s, i) <= s.len(),
        forall|j: int| i <= j < span_line(s, i) ==> is_line_char(s[j]),
        span_line(s, i) < s.len() ==> !is_line_char(s[span_line(s, i)]),
    decreases s.len() - i,
{
    if i < s.len() && is_line_char(s[i]) {
        lemma_span_line(s, i + 1);
    }
}

/// Scans up to the next line feed starting at `from`.
pub fn scan_line(s: &str, from: usize) -> (j: usize)
    requires
        from <= s@.len(),
    ensures
        j == span_line(s@, from as int),
        from <= j <= s@.len(),
{
    let n = s.unicode_len();
    let mut j = from;
    while j < n && s.get_char(j) != '\n'
        invariant
            from <= j <= n,
            n == s@.len(),
            span_line(s@, from as int) == span_line(s@, j as int),
        decreases n - j,
    {
        j = j + 1;
    }
    j
}

/// A line with one trailing carriage return removed, as the line-oriented
/// reading of tool output does.
pub open spec fn strip_cr(s: Seq<char>) -> Seq<char> {
    if s.len() > 0 && s.last() == '\r' {
        s.drop_last()
    } else {
        s
    }
}

/// The numeric value of `c` as a decimal digit.
pub open spec fn digit_of(c: char) -> nat
    recommends
        is_digit(c),
{
    (c as u32 - 48) as nat
}

/// The value of a sequence of decimal digits, most significant first.
pub open spec fn digits_val(s: Seq<char>) -> nat
    decreases s.len(),
{
    if s.len() == 0 {
        0
    } else {
        digits_val(s.drop_last()) * 10 + digit_of(s.last())
    }
}

/// A longer digit string never has a smaller value.
proof fn lemma_digits_val_prefix_le(s: Seq<char>, k: int)
    requires
        0 <= k <= s.len(),
    ensures
        digits_val(s.take(k)) <= digits_val(s),
    decreases s.len() - k,
{
    if k < s.len() {
        lemma_digits_val_prefix_le(s, k + 1);
        assert(s.take(k + 1).drop_last() =~= s.take(k));
        assert(digits_val(s.take(k + 1)) == digits_val(s.take(k)) * 10 + digit_of(s.take(k + 1).last()));
        assert(digits_val(s.take(k)) * 10 >= digits_val(s.take(k)));
    } else {
        assert(s.take(k) =~= s);
    }
}

/// Parses the decimal value of `s[from..to]`. Returns `None` exactly when the
/// value does not fit in a `u64`, mirroring a failed integer conversion.
pub fn parse_u64(s: &str, from: usize, to: usize) -> (r: Option<u64>)
    requires
        from <= to <= s@.len(),
        forall|j: int| from <= j < to ==> is_digit(s@[j]),
    ensures
        r is Some <==> digits_val(s@.subrange(from as int, to as int)) <= u64::MAX,
        r is Some ==> r->0 == digits_val(s@.subrange(from as int, to as int)),
{
    let ghost digits: Seq<char> = s@.subrange(from as int, to as int);
    let mut acc: u64 = 0;
    let mut j = from;
    while j < to
        invariant
            from <= j <= to <= s@.len(),
            forall|k: int| from <= k < to ==> is_digit(s@[k]),
            digits == s@.subrange(from as int, to as int),
            acc == digits_val(digits.take(j - from)),
        decreases to - j,
    {
        let c = s.get_char(j);
        let d: u64 = (c as u32 - 48) as u64;
        proof {
            assert(digits.take(j - from + 1).drop_last() =~= digits.take(j - from));
            assert(digits.take(j - from + 1).last() == s@[j as int]);
        }
        if acc > 1844674407370955161u64 {
            proof {
                assert(digits_val(digits.take(j - from + 1)) == acc * 10 + digit_of(s@[j as int]));
                lemma_digits_val_prefix_le(digits, j - from + 1);
            }
            return None;
        }
        let m: u64 = acc * 10;
        if d > u64::MAX - m {
            proof {
                assert(digits_val(digits.take(j - from + 1)) == acc * 10 + digit_of(s@[j as int]));
                lemma_digits_val_prefix_le(digits, j - from + 1);
            }
            return None;
        }
        acc = m + d;
        j = j + 1;
    }
    proof {
        assert(digits.take(to - from) =~= digits);
    }
    Some(acc)
}

/// Whether two strings hold the same characters.
pub fn str_eq(a: &str, b: &str) -> (r: bool)
    ensures
        r == (a@ == b@),
{
    let na = a.unicode_len();
    let nb = b.unicode_len();
    if na != nb {
        return false;
    }
    let mut j: usize = 0;
    while j < na
        invariant
            0 <= j <= na,
            na == a@.len(),
            na == b@.len(),
            forall|k: int| 0 <= k < j ==> a@[k] == b@[k],
        decreases na - j,
    {
        if a.get_char(j) != b.get_char(j) {
            return false;
        }
        j = j + 1;
    }
    proof {
        assert(a@ =~= b@);
    }
    true
}

/// Whether `p` is a prefix of `s`.
pub fn has_prefix(s: &str, p: &str) -> (r: bool)
    ensures
        r == (s@.len() >= p@.len() && s@.subrange(0, p@.len() as int) == p@),
{
    let ns = s.unicode_len();
    let np = p.unicode_len();
    if ns < np {
        return false;
    }
    let mut j: usize = 0;
    while j < np
        invariant
            0 <= j <= np,
            np <= ns,
            ns == s@.len(),
            np == p@.len(),
            forall|k: int| 0 <= k < j ==> s@[k] == p@[k],
        decreases np - j,
    {
        if s.get_char(j) != p.get_char(j) {
            assert(s@.subrange(0, np as int)[j as int] != p@[j as int]);
            return false;
        }
        j = j + 1;
    }
    proof {
        assert(s@.subrange(0, np as int) =~= p@);
    }
    true
}

} // verus!
