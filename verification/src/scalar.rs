//! Scalars written as text: the integers that path parameters are read as,
//! and the typing of query values.

use crate::text::{chars_of, find_char, lemma_find_char_is, same_text};
use vstd::prelude::*;
use vstd::string::*;

verus! {

/// Whether a character is a decimal digit.
pub open spec fn is_digit(c: char) -> bool {
    '0' <= c <= '9'
}

/// Whether a text holds decimal digits alone.
pub open spec fn all_digits(s: Seq<char>) -> bool {
    forall|i: int| 0 <= i < s.len() ==> is_digit(#[trigger] s[i])
}

/// The number that a run of decimal digits writes.
pub open spec fn number(s: Seq<char>) -> nat
    decreases s.len(),
{
    if s.len() == 0 {
        0
    } else {
        (number(s.drop_last()) * 10 + (s.last() as nat - '0' as nat)) as nat
    }
}

/// The integer that a text writes in decimal: one digit or more, with `+` or
/// `-` before them if any sign at all. Any other text writes none.
pub open spec fn signed_integer(s: Seq<char>) -> Option<int> {
    if s.len() >= 1 && (s[0] == '+' || s[0] == '-') {
        let digits = s.skip(1);
        if digits.len() >= 1 && all_digits(digits) {
            Some(
                if s[0] == '-' {
                    -(number(digits) as int)
                } else {
                    number(digits) as int
                },
            )
        } else {
            None
        }
    } else if s.len() >= 1 && all_digits(s) {
        Some(number(s) as int)
    } else {
        None
    }
}

/// The integer that a text writes in decimal where no negative one is
/// wanted: one digit or more, with `+` before them if any sign at all.
pub open spec fn unsigned_integer(s: Seq<char>) -> Option<int> {
    if s.len() >= 1 && s[0] == '-' {
        None
    } else {
        signed_integer(s)
    }
}

/// The integer between `low` and `high` that a text writes, if it writes one.
pub open spec fn integer_within(written: Option<int>, low: int, high: int) -> Option<int> {
    match written {
        Some(v) => if low <= v <= high {
            Some(v)
        } else {
            None
        },
        None => None,
    }
}

/// The words with which `str::parse::<i64>` rejects a text.
pub uninterp spec fn i64_rejection(text: Seq<char>) -> Seq<char>;

/// The words with which `str::parse::<i32>` rejects a text.
pub uninterp spec fn i32_rejection(text: Seq<char>) -> Seq<char>;

/// The words with which `str::parse::<u64>` rejects a text.
pub uninterp spec fn u64_rejection(text: Seq<char>) -> Seq<char>;

/// The words with which `str::parse::<u32>` rejects a text.
pub uninterp spec fn u32_rejection(text: Seq<char>) -> Seq<char>;

/// Calls `str::parse::<i64>`. Believed, not proved: std reads exactly the
/// texts made of an optional `+` or `-` and one decimal digit or more whose
/// number fits the type, and returns that number; it rejects every other
/// text, with words that depend on the text alone.
#[verifier::external_body]
pub(crate) fn parse_i64(text: &str) -> (out: Result<i64, String>)
    ensures
        match out {
            Ok(v) => integer_within(signed_integer(text@), i64::MIN as int, i64::MAX as int)
                == Some(v as int),
            Err(cause) => integer_within(signed_integer(text@), i64::MIN as int, i64::MAX as int)
                is None && cause@ == i64_rejection(text@),
        },
{
    match text.parse::<i64>() {
        Ok(v) => Ok(v),
        Err(e) => Err(e.to_string()),
    }
}

/// Calls `str::parse::<i32>`. Believed, not proved: std reads exactly the
/// texts made of an optional `+` or `-` and one decimal digit or more whose
/// number fits the type, and returns that number; it rejects every other
/// text, with words that depend on the text alone.
#[verifier::external_body]
fn parse_i32(text: &str) -> (out: Result<i32, String>)
    ensures
        match out {
            Ok(v) => integer_within(signed_integer(text@), i32::MIN as int, i32::MAX as int)
                == Some(v as int),
            Err(cause) => integer_within(signed_integer(text@), i32::MIN as int, i32::MAX as int)
                is None && cause@ == i32_rejection(text@),
        },
{
    match text.parse::<i32>() {
        Ok(v) => Ok(v),
        Err(e) => Err(e.to_string()),
    }
}

/// Calls `str::parse::<u64>`. Believed, not proved: std reads exactly the
/// texts made of an optional `+` and one decimal digit or more whose
/// number fits the type, and returns that number; it rejects every other
/// text, with words that depend on the text alone.
#[verifier::external_body]
fn parse_u64(text: &str) -> (out: Result<u64, String>)
    ensures
        match out {
            Ok(v) => integer_within(unsigned_integer(text@), 0, u64::MAX as int) == Some(v as int),
            Err(cause) => integer_within(unsigned_integer(text@), 0, u64::MAX as int) is None
                && cause@ == u64_rejection(text@),
        },
{
    match text.parse::<u64>() {
        Ok(v) => Ok(v),
        Err(e) => Err(e.to_string()),
    }
}

/// Calls `str::parse::<u32>`. Believed, not proved: std reads exactly the
/// texts made of an optional `+` and one decimal digit or more whose
/// number fits the type, and returns that number; it rejects every other
/// text, with words that depend on the text alone.
#[verifier::external_body]
fn parse_u32(text: &str) -> (out: Result<u32, String>)
    ensures
        match out {
            Ok(v) => integer_within(unsigned_integer(text@), 0, u32::MAX as int) == Some(v as int),
            Err(cause) => integer_within(unsigned_integer(text@), 0, u32::MAX as int) is None
                && cause@ == u32_rejection(text@),
        },
{
    match text.parse::<u32>() {
        Ok(v) => Ok(v),
        Err(e) => Err(e.to_string()),
    }
}

/// A scalar that the text of one path parameter can be read as.
pub trait FromParam: Sized {
    /// Whether `value` is what `text` is read as.
    spec fn reads_as(text: Seq<char>, value: Self) -> bool;

    /// The words with which `text` is rejected; `None` where it is read.
    spec fn rejection(text: Seq<char>) -> Option<Seq<char>>;

    /// Reads a text as a value of this type.
    fn from_param(text: &str) -> (out: Result<Self, String>)
        ensures
            match out {
                Ok(value) => Self::rejection(text@) is None && Self::reads_as(text@, value),
                Err(cause) => Self::rejection(text@) == Some(cause@),
            },
    ;
}

impl FromParam for String {
    open spec fn reads_as(text: Seq<char>, value: String) -> bool {
        value@ == text
    }

    open spec fn rejection(text: Seq<char>) -> Option<Seq<char>> {
        None
    }

    /// Every text is read as itself.
    fn from_param(text: &str) -> (out: Result<String, String>) {
        Ok(String::from_str(text))
    }
}

impl FromParam for i64 {
    open spec fn reads_as(text: Seq<char>, value: i64) -> bool {
        signed_integer(text) == Some(value as int)
    }

    open spec fn rejection(text: Seq<char>) -> Option<Seq<char>> {
        if integer_within(signed_integer(text), i64::MIN as int, i64::MAX as int) is Some {
            None
        } else {
            Some(i64_rejection(text))
        }
    }

    fn from_param(text: &str) -> (out: Result<i64, String>) {
        parse_i64(text)
    }
}

impl FromParam for i32 {
    open spec fn reads_as(text: Seq<char>, value: i32) -> bool {
        signed_integer(text) == Some(value as int)
    }

    open spec fn rejection(text: Seq<char>) -> Option<Seq<char>> {
        if integer_within(signed_integer(text), i32::MIN as int, i32::MAX as int) is Some {
            None
        } else {
            Some(i32_rejection(text))
        }
    }

    fn from_param(text: &str) -> (out: Result<i32, String>) {
        parse_i32(text)
    }
}

impl FromParam for u64 {
    open spec fn reads_as(text: Seq<char>, value: u64) -> bool {
        unsigned_integer(text) == Some(value as int)
    }

    open spec fn rejection(text: Seq<char>) -> Option<Seq<char>> {
        if integer_within(unsigned_integer(text), 0, u64::MAX as int) is Some {
            None
        } else {
            Some(u64_rejection(text))
        }
    }

    fn from_param(text: &str) -> (out: Result<u64, String>) {
        parse_u64(text)
    }
}

impl FromParam for u32 {
    open spec fn reads_as(text: Seq<char>, value: u32) -> bool {
        unsigned_integer(text) == Some(value as int)
    }

    open spec fn rejection(text: Seq<char>) -> Option<Seq<char>> {
        if integer_within(unsigned_integer(text), 0, u32::MAX as int) is Some {
            None
        } else {
            Some(u32_rejection(text))
        }
    }

    fn from_param(text: &str) -> (out: Result<u32, String>) {
        parse_u32(text)
    }
}

/// Whether a character is a sign.
pub open spec fn is_sign(c: char) -> bool {
    c == '+' || c == '-'
}

/// A text without its leading sign, if it has one.
pub open spec fn unsigned_part(s: Seq<char>) -> Seq<char> {
    if s.len() >= 1 && is_sign(s[0]) {
        s.skip(1)
    } else {
        s
    }
}

/// The upper-case form of the letters that the words of a floating-point
/// number are made of; any other character is its own.
pub open spec fn capital(letter: char) -> char {
    if letter == 'a' {
        'A'
    } else if letter == 'e' {
        'E'
    } else if letter == 'f' {
        'F'
    } else if letter == 'i' {
        'I'
    } else if letter == 'n' {
        'N'
    } else if letter == 't' {
        'T'
    } else if letter == 'y' {
        'Y'
    } else {
        letter
    }
}

/// Whether `c` is the lower-case letter `letter` or its upper-case form.
pub open spec fn is_letter(c: char, letter: char) -> bool {
    c == letter || c == capital(letter)
}

/// Whether a text is the lower-case word `word`, whatever the case of its
/// letters.
pub open spec fn is_word(s: Seq<char>, word: Seq<char>) -> bool {
    &&& s.len() == word.len()
    &&& forall|i: int| 0 <= i < s.len() ==> is_letter(#[trigger] s[i], word[i])
}

/// Position of the first `e` or `E` in `s`, or `s.len()`.
pub open spec fn find_exponent(s: Seq<char>) -> int
    decreases s.len(),
{
    if s.len() == 0 {
        0
    } else if is_letter(s[0], 'e') {
        0
    } else {
        1 + find_exponent(s.drop_first())
    }
}

/// Whether a text is a mantissa: digits, with at most one `.` among, before
/// or behind them, and one digit at least.
pub open spec fn is_mantissa(s: Seq<char>) -> bool {
    let dot = find_char(s, '.');
    if 0 <= dot < s.len() {
        s.len() >= 2 && all_digits(s.take(dot)) && all_digits(s.skip(dot + 1))
    } else {
        s.len() >= 1 && all_digits(s)
    }
}

/// Whether a text is an exponent: one digit or more behind an optional sign.
pub open spec fn is_exponent(s: Seq<char>) -> bool {
    unsigned_part(s).len() >= 1 && all_digits(unsigned_part(s))
}

/// Whether a text is a decimal number: a mantissa, and behind it, if
/// anything, `e` or `E` and an exponent.
pub open spec fn is_decimal_number(s: Seq<char>) -> bool {
    let mark = find_exponent(s);
    if 0 <= mark < s.len() {
        is_mantissa(s.take(mark)) && is_exponent(s.skip(mark + 1))
    } else {
        is_mantissa(s)
    }
}

/// Whether a text writes a floating-point number as std reads one: behind an
/// optional sign `inf`, `infinity` or `nan` in any case, or a decimal number.
pub open spec fn is_float(s: Seq<char>) -> bool {
    let body = unsigned_part(s);
    ||| is_word(body, "inf"@)
    ||| is_word(body, "infinity"@)
    ||| is_word(body, "nan"@)
    ||| is_decimal_number(body)
}

/// `find_exponent` returns the first position that holds `e` or `E`.
pub proof fn lemma_find_exponent(s: Seq<char>)
    ensures
        0 <= find_exponent(s) <= s.len(),
        forall|k: int| 0 <= k < find_exponent(s) ==> !is_letter(s[k], 'e'),
        find_exponent(s) < s.len() ==> is_letter(s[find_exponent(s)], 'e'),
    decreases s.len(),
{
    if s.len() > 0 && !is_letter(s[0], 'e') {
        let rest = s.drop_first();
        lemma_find_exponent(rest);
        assert forall|k: int| 0 <= k < find_exponent(s) implies !is_letter(s[k], 'e') by {
            if k > 0 {
                assert(rest[k - 1] == s[k]);
            }
        }
    }
}

/// A position that holds `e` or `E` with none before it is what
/// `find_exponent` finds.
pub proof fn lemma_find_exponent_is(s: Seq<char>, i: int)
    requires
        0 <= i <= s.len(),
        forall|k: int| 0 <= k < i ==> !is_letter(s[k], 'e'),
        i < s.len() ==> is_letter(s[i], 'e'),
    ensures
        find_exponent(s) == i,
{
    lemma_find_exponent(s);
}

/// Every text that writes an integer writes a floating-point number too: a
/// query value is an integer only because integers are tried first.
pub proof fn lemma_integer_is_float(s: Seq<char>)
    requires
        signed_integer(s) is Some,
    ensures
        is_float(s),
{
    let body = unsigned_part(s);
    assert forall|k: int| 0 <= k < body.len() implies !is_letter(body[k], 'e') && body[k]
        != '.' by {}
    lemma_find_exponent_is(body, body.len() as int);
    lemma_find_char_is(body, '.', body.len() as int);
}

/// Whether the characters from `from` up to `to` are digits alone.
fn digits_at(chars: &Vec<char>, from: usize, to: usize) -> (ok: bool)
    requires
        from <= to <= chars.len(),
    ensures
        ok == all_digits(chars@.subrange(from as int, to as int)),
{
    let ghost part = chars@.subrange(from as int, to as int);
    let mut i: usize = from;
    while i < to
        invariant
            from <= i <= to <= chars.len(),
            part == chars@.subrange(from as int, to as int),
            forall|k: int| 0 <= k < i - from ==> is_digit(#[trigger] part[k]),
        decreases to - i,
    {
        let c = chars[i];
        if !('0' <= c && c <= '9') {
            assert(part[i - from] == c);
            return false;
        }
        i += 1;
    }
    true
}

/// Whether the characters from `from` up to `to` are a mantissa.
fn mantissa_at(chars: &Vec<char>, from: usize, to: usize) -> (ok: bool)
    requires
        from <= to <= chars.len(),
    ensures
        ok == is_mantissa(chars@.subrange(from as int, to as int)),
{
    let ghost part = chars@.subrange(from as int, to as int);
    let mut dot: usize = from;
    while dot < to && chars[dot] != '.'
        invariant
            from <= dot <= to <= chars.len(),
            part == chars@.subrange(from as int, to as int),
            forall|k: int| 0 <= k < dot - from ==> part[k] != '.',
        decreases to - dot,
    {
        dot += 1;
    }
    proof {
        lemma_find_char_is(part, '.', dot - from);
        assert(part.take(dot - from) =~= chars@.subrange(from as int, dot as int));
        if dot < to {
            assert(part.skip(dot - from + 1) =~= chars@.subrange(dot + 1, to as int));
        }
    }
    if dot < to {
        to - from >= 2 && digits_at(chars, from, dot) && digits_at(chars, dot + 1, to)
    } else {
        to - from >= 1 && digits_at(chars, from, to)
    }
}

/// Whether the characters from `from` up to `to` are an exponent.
fn exponent_at(chars: &Vec<char>, from: usize, to: usize) -> (ok: bool)
    requires
        from <= to <= chars.len(),
    ensures
        ok == is_exponent(chars@.subrange(from as int, to as int)),
{
    let ghost part = chars@.subrange(from as int, to as int);
    if from < to && (chars[from] == '+' || chars[from] == '-') {
        assert(part.skip(1) =~= chars@.subrange(from + 1, to as int));
        to - from >= 2 && digits_at(chars, from + 1, to)
    } else {
        to - from >= 1 && digits_at(chars, from, to)
    }
}

/// Whether the characters from `from` up to `to` are a decimal number.
fn number_at(chars: &Vec<char>, from: usize, to: usize) -> (ok: bool)
    requires
        from <= to <= chars.len(),
    ensures
        ok == is_decimal_number(chars@.subrange(from as int, to as int)),
{
    let ghost part = chars@.subrange(from as int, to as int);
    let mut mark: usize = from;
    while mark < to && !(chars[mark] == 'e' || chars[mark] == 'E')
        invariant
            from <= mark <= to <= chars.len(),
            part == chars@.subrange(from as int, to as int),
            forall|k: int| 0 <= k < mark - from ==> !is_letter(part[k], 'e'),
        decreases to - mark,
    {
        mark += 1;
    }
    proof {
        lemma_find_exponent_is(part, mark - from);
        assert(part.take(mark - from) =~= chars@.subrange(from as int, mark as int));
        if mark < to {
            assert(part.skip(mark - from + 1) =~= chars@.subrange(mark + 1, to as int));
        }
    }
    if mark < to {
        mantissa_at(chars, from, mark) && exponent_at(chars, mark + 1, to)
    } else {
        mantissa_at(chars, from, to)
    }
}

/// The upper-case form of a letter of `inf`, `infinity`, `nan` or `e`.
fn capital_of(letter: char) -> (upper: char)
    ensures
        upper == capital(letter),
{
    if letter == 'a' {
        'A'
    } else if letter == 'e' {
        'E'
    } else if letter == 'f' {
        'F'
    } else if letter == 'i' {
        'I'
    } else if letter == 'n' {
        'N'
    } else if letter == 't' {
        'T'
    } else if letter == 'y' {
        'Y'
    } else {
        letter
    }
}

/// Whether the characters from `from` on are the lower-case word `word` in
/// any case.
fn word_at(chars: &Vec<char>, from: usize, word: &str) -> (ok: bool)
    requires
        from <= chars.len(),
    ensures
        ok == is_word(chars@.skip(from as int), word@),
{
    let letters = chars_of(word);
    let n = letters.len();
    if chars.len() - from != n {
        return false;
    }
    let ghost part = chars@.skip(from as int);
    let mut i: usize = 0;
    while i < n
        invariant
            from + n == chars.len(),
            n == letters.len(),
            letters@ == word@,
            part == chars@.skip(from as int),
            0 <= i <= n,
            forall|k: int| 0 <= k < i ==> is_letter(#[trigger] part[k], word@[k]),
        decreases n - i,
    {
        let c = chars[from + i];
        let letter = letters[i];
        assert(part[i as int] == c);
        if !(c == letter || c == capital_of(letter)) {
            return false;
        }
        i += 1;
    }
    true
}

/// Whether a text writes a floating-point number.
pub fn is_float_text(text: &str) -> (ok: bool)
    ensures
        ok == is_float(text@),
{
    let chars = chars_of(text);
    let n = chars.len();
    let from: usize = if n >= 1 && (chars[0] == '+' || chars[0] == '-') {
        1
    } else {
        0
    };
    proof {
        assert(chars@.skip(0) =~= chars@);
    }
    word_at(&chars, from, "inf") || word_at(&chars, from, "infinity") || word_at(
        &chars,
        from,
        "nan",
    ) || number_at(&chars, from, n)
}

/// A query value with the type that its text was taken for.
#[derive(Debug, Clone)]
pub enum QueryValue {
    /// A decimal integer that fits 64 bits with sign.
    Integer(i64),
    /// A text that writes a floating-point number, as it was written.
    Float(String),
    /// `true` or `false`.
    Bool(bool),
    /// Any other text.
    Text(String),
}

/// A typed query value as a plain value.
pub enum QueryValueView {
    Integer(i64),
    Float(Seq<char>),
    Bool(bool),
    Text(Seq<char>),
}

impl DeepView for QueryValue {
    type V = QueryValueView;

    open spec fn deep_view(&self) -> QueryValueView {
        match self {
            QueryValue::Integer(v) => QueryValueView::Integer(*v),
            QueryValue::Float(text) => QueryValueView::Float(text@),
            QueryValue::Bool(b) => QueryValueView::Bool(*b),
            QueryValue::Text(text) => QueryValueView::Text(text@),
        }
    }
}

/// The typed value of a query text. The first of these that fits is taken:
/// an integer of 64 bits with sign, a floating-point number, one of the
/// words `true` and `false`; a text that is none of them stays a text.
pub open spec fn coerced(text: Seq<char>) -> QueryValueView {
    match integer_within(signed_integer(text), i64::MIN as int, i64::MAX as int) {
        Some(v) => QueryValueView::Integer(v as i64),
        None => if is_float(text) {
            QueryValueView::Float(text)
        } else if text == "true"@ {
            QueryValueView::Bool(true)
        } else if text == "false"@ {
            QueryValueView::Bool(false)
        } else {
            QueryValueView::Text(text)
        },
    }
}

/// Gives a query text its type.
pub fn coerce(text: &str) -> (value: QueryValue)
    ensures
        value.deep_view() == coerced(text@),
{
    match parse_i64(text) {
        Ok(v) => QueryValue::Integer(v),
        Err(_) => {
            if is_float_text(text) {
                QueryValue::Float(String::from_str(text))
            } else if same_text(text, "true") {
                QueryValue::Bool(true)
            } else if same_text(text, "false") {
                QueryValue::Bool(false)
            } else {
                QueryValue::Text(String::from_str(text))
            }
        },
    }
}

} // verus!
