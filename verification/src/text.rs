//! Text helpers: comparisons and conversions on `str` that the rest of the
//! library builds on, each with its meaning over `Seq<char>`.

use vstd::prelude::*;

verus! {

/// The character that writes the decimal digit `d`.
pub open spec fn digit_char(d: int) -> char {
    seq!['0', '1', '2', '3', '4', '5', '6', '7', '8', '9'][d]
}

/// The decimal notation of `n`, without sign or leading zeros.
pub open spec fn decimal_digits(n: nat) -> Seq<char>
    decreases n,
{
    if n < 10 {
        seq![digit_char(n as int)]
    } else {
        decimal_digits(n / 10).push(digit_char((n % 10) as int))
    }
}

/// Whether `c` is one of the ten ASCII digits.
pub open spec fn is_digit(c: char) -> bool {
    48 <= c as u32 <= 57
}

/// The number that a run of ASCII digits denotes (0 for the empty run).
pub open spec fn digits_value(digits: Seq<char>) -> int
    decreases digits.len(),
{
    if digits.len() == 0 {
        0
    } else {
        digits_value(digits.drop_last()) * 10 + (digits.last() as u32 - 48)
    }
}

/// Whether `body` is a non-empty run of ASCII digits.
pub open spec fn is_digit_run(body: Seq<char>) -> bool {
    body.len() > 0 && forall|i: int| 0 <= i < body.len() ==> is_digit(#[trigger] body[i])
}

/// The `i64` that `text` denotes: an optional `+` or `-`, then one or more
/// ASCII digits, nothing else, and a value inside the range of `i64`.
pub open spec fn spec_parse_i64(text: Seq<char>) -> Option<i64> {
    let negative = text.len() > 0 && text[0] == '-';
    let signed = text.len() > 0 && (text[0] == '-' || text[0] == '+');
    let body = if signed {
        text.skip(1)
    } else {
        text
    };
    let value = if negative {
        -digits_value(body)
    } else {
        digits_value(body)
    };
    if is_digit_run(body) && i64::MIN <= value <= i64::MAX {
        Some(value as i64)
    } else {
        None
    }
}

/// Strict lexicographic order on character sequences, characters compared by
/// code point; a proper prefix comes first.
pub open spec fn lex_lt(a: Seq<char>, b: Seq<char>) -> bool
    decreases a.len(),
{
    if b.len() == 0 {
        false
    } else if a.len() == 0 {
        true
    } else if a[0] != b[0] {
        (a[0] as u32) < (b[0] as u32)
    } else {
        lex_lt(a.skip(1), b.skip(1))
    }
}

/// What `{:?}` prints for a string: the text in double quotes, with the
/// escapes that `str`'s `Debug` implementation chooses.
pub uninterp spec fn debug_quoted(text: Seq<char>) -> Seq<char>;

/// `==` on `str`: two strings are equal when they hold the same characters.
#[verifier::external_body]
pub(crate) fn str_eq(a: &str, b: &str) -> (same: bool)
    ensures
        same == (a@ == b@),
{
    a == b
}

/// `str::starts_with` with a string pattern: whether `prefix` opens `text`.
#[verifier::external_body]
pub(crate) fn str_starts_with(text: &str, prefix: &str) -> (opens: bool)
    ensures
        opens == prefix@.is_prefix_of(text@),
{
    text.starts_with(prefix)
}

/// `<` on `str`: std orders strings lexicographically by their bytes, which
/// orders them by the code points of their characters.
#[verifier::external_body]
pub(crate) fn str_lt(a: &str, b: &str) -> (before: bool)
    ensures
        before == lex_lt(a@, b@),
{
    a < b
}

/// `u64::to_string`: the decimal notation of `n`.
#[verifier::external_body]
pub(crate) fn u64_to_decimal(n: u64) -> (text: String)
    ensures
        text@ == decimal_digits(n as nat),
{
    n.to_string()
}

/// `str::parse::<i64>`: std accepts an optional sign followed by decimal
/// digits and rejects everything else, values that overflow included.
#[verifier::external_body]
pub(crate) fn parse_i64(text: &str) -> (value: Option<i64>)
    ensures
        value == spec_parse_i64(text@),
{
    text.parse::<i64>().ok()
}

/// `format!("{:?}", text)`: the `Debug` rendering of a string.
#[verifier::external_body]
pub(crate) fn str_debug(text: &str) -> (quoted: String)
    ensures
        quoted@ == debug_quoted(text@),
{
    format!("{:?}", text)
}

/// The character sequences that a sequence of strings holds, in order.
pub open spec fn strings_view(strings: Seq<String>) -> Seq<Seq<char>> {
    strings.map_values(|s: String| s@)
}

/// The character sequences that a sequence of borrowed strings holds.
pub open spec fn strs_view(strs: Seq<&str>) -> Seq<Seq<char>> {
    strs.map_values(|s: &str| s@)
}

/// The characters of an optional owned string.
pub open spec fn opt_string_view(text: Option<String>) -> Option<Seq<char>> {
    match text {
        Some(s) => Some(s@),
        None => None,
    }
}

/// The characters of an optional borrowed string.
pub open spec fn opt_str_view(text: Option<&str>) -> Option<Seq<char>> {
    match text {
        Some(s) => Some(s@),
        None => None,
    }
}

/// Whether one of `strings` holds the same characters as `needle`.
pub fn contains_str(strings: &Vec<String>, needle: &str) -> (found: bool)
    ensures
        found == strings_view(strings@).contains(needle@),
{
    let mut i: usize = 0;
    while i < strings.len()
        invariant
            i <= strings.len(),
            forall|j: int| 0 <= j < i ==> strings_view(strings@)[j] != needle@,
        decreases strings.len() - i,
    {
        if str_eq(strings[i].as_str(), needle) {
            assert(strings_view(strings@)[i as int] == needle@);
            return true;
        }
        i += 1;
    }
    false
}

/// Copies a list of strings.
pub fn clone_strings(strings: &Vec<String>) -> (copy: Vec<String>)
    ensures
        strings_view(copy@) == strings_view(strings@),
{
    let mut copy: Vec<String> = Vec::new();
    let mut i: usize = 0;
    while i < strings.len()
        invariant
            i <= strings.len(),
            copy@.len() == i,
            forall|j: int| 0 <= j < i ==> (#[trigger] copy@[j])@ == strings@[j]@,
        decreases strings.len() - i,
    {
        copy.push(strings[i].clone());
        i += 1;
    }
    assert(strings_view(copy@) =~= strings_view(strings@));
    copy
}

/// Builds an owned string that holds `head` followed by `tail`.
pub fn concat2(head: &str, tail: &str) -> (joined: String)
    ensures
        joined@ == head@ + tail@,
{
    let mut joined = head.to_owned();
    joined.append(tail);
    joined
}

/// The digit characters are the code points 48 to 57, in order.
pub proof fn digit_char_code(d: int)
    requires
        0 <= d < 10,
    ensures
        digit_char(d) as u32 == 48 + d,
        is_digit(digit_char(d)),
{
    let digits = seq!['0', '1', '2', '3', '4', '5', '6', '7', '8', '9'];
    assert(digits[0] == '0' && digits[1] == '1' && digits[2] == '2' && digits[3] == '3'
        && digits[4] == '4');
    assert(digits[5] == '5' && digits[6] == '6' && digits[7] == '7' && digits[8] == '8'
        && digits[9] == '9');
}

/// Two numbers with the same decimal notation are the same number.
pub proof fn decimal_digits_injective(a: nat, b: nat)
    requires
        decimal_digits(a) == decimal_digits(b),
    ensures
        a == b,
    decreases a,
{
    digit_char_code((a % 10) as int);
    digit_char_code((b % 10) as int);
    if a < 10 && b < 10 {
        assert(decimal_digits(a)[0] == digit_char(a as int));
        assert(decimal_digits(b)[0] == digit_char(b as int));
    } else if a < 10 {
        decimal_digits_len(b / 10);
        assert(decimal_digits(a).len() == 1);
        assert(decimal_digits(b).len() == decimal_digits(b / 10).len() + 1);
    } else if b < 10 {
        decimal_digits_len(a / 10);
        assert(decimal_digits(b).len() == 1);
        assert(decimal_digits(a).len() == decimal_digits(a / 10).len() + 1);
    } else {
        let da = decimal_digits(a / 10);
        let db = decimal_digits(b / 10);
        let ca = digit_char((a % 10) as int);
        let cb = digit_char((b % 10) as int);
        assert(da.push(ca).drop_last() =~= da);
        assert(db.push(cb).drop_last() =~= db);
        assert(da.push(ca).last() == ca);
        assert(db.push(cb).last() == cb);
        assert(da == db);
        assert(ca as u32 == cb as u32);
        decimal_digits_injective(a / 10, b / 10);
        assert(a % 10 == b % 10);
        assert(a == 10 * (a / 10) + a % 10);
        assert(b == 10 * (b / 10) + b % 10);
    }
}

/// A decimal notation has at least one digit.
pub proof fn decimal_digits_len(n: nat)
    ensures
        decimal_digits(n).len() >= 1,
    decreases n,
{
    if n >= 10 {
        decimal_digits_len(n / 10);
    }
}

/// No sequence comes before itself.
pub proof fn lex_lt_irreflexive(a: Seq<char>)
    ensures
        !lex_lt(a, a),
    decreases a.len(),
{
    if a.len() > 0 {
        lex_lt_irreflexive(a.skip(1));
    }
}

/// The lexicographic order is transitive.
pub proof fn lex_lt_transitive(a: Seq<char>, b: Seq<char>, c: Seq<char>)
    requires
        lex_lt(a, b),
        lex_lt(b, c),
    ensures
        lex_lt(a, c),
    decreases a.len(),
{
    if a.len() > 0 && a[0] == b[0] && b[0] == c[0] {
        lex_lt_transitive(a.skip(1), b.skip(1), c.skip(1));
    }
}

} // verus!
