//! Text: what the rest of the crate asks of strings.

use vstd::prelude::*;

verus! {

/// The text of an optional string slice.
pub open spec fn str_text(s: Option<&str>) -> Option<Seq<char>> {
    match s {
        Some(s) => Some(s@),
        None => None,
    }
}

/// The decimal digits of `n`, most significant first.
pub open spec fn digits(n: nat) -> Seq<char>
    decreases n,
{
    if n < 10 {
        seq![(48 + n) as char]
    } else {
        digits(n / 10).push((48 + n % 10) as char)
    }
}

/// `n` in decimal, with a minus sign where it is negative.
pub open spec fn decimal(n: int) -> Seq<char> {
    if n < 0 {
        seq!['-'] + digits((-n) as nat)
    } else {
        digits(n as nat)
    }
}

pub open spec fn is_digit(c: char) -> bool {
    '0' <= c <= '9'
}

/// The number that a run of decimal digits stands for.
pub open spec fn digits_value(s: Seq<char>) -> int
    decreases s.len(),
{
    if s.len() == 0 {
        0
    } else {
        10 * digits_value(s.drop_last()) + (s.last() as int - 48)
    }
}

/// `s` without the plus sign in front, where there is one.
pub open spec fn without_plus(s: Seq<char>) -> Seq<char> {
    if s.len() > 0 && s[0] == '+' {
        s.skip(1)
    } else {
        s
    }
}

/// The number up to `max` that a text stands for: one or more digits, after at most
/// one plus sign.
pub open spec fn unsigned_reading(s: Seq<char>, max: int) -> Option<int> {
    let t = without_plus(s);
    if t.len() > 0 && (forall|i: int| 0 <= i < t.len() ==> is_digit(#[trigger] t[i]))
        && digits_value(t) <= max {
        Some(digits_value(t))
    } else {
        None
    }
}

/// `needle` occurs in `text`.
pub open spec fn occurs_in(needle: Seq<char>, text: Seq<char>) -> bool {
    exists|i: int|
        0 <= i && i + needle.len() <= text.len() && #[trigger] text.subrange(i, i + needle.len())
            == needle
}

pub open spec fn ascii_lower(c: char) -> char {
    if 'A' <= c <= 'Z' {
        (c as u32 + 32) as char
    } else {
        c
    }
}

/// `s` with its ASCII letters in lower case.
pub open spec fn ascii_lowercase(s: Seq<char>) -> Seq<char> {
    Seq::new(s.len(), |i: int| ascii_lower(s[i]))
}

pub open spec fn ascii_upper(c: char) -> char {
    if 'a' <= c <= 'z' {
        (c as u32 - 32) as char
    } else {
        c
    }
}

/// `s` with its ASCII letters in upper case.
pub open spec fn ascii_uppercase(s: Seq<char>) -> Seq<char> {
    Seq::new(s.len(), |i: int| ascii_upper(s[i]))
}

/// All characters of `s` are ASCII.
pub open spec fn is_ascii(s: Seq<char>) -> bool {
    forall|i: int| 0 <= i < s.len() ==> (#[trigger] s[i] as u32) < 128
}

/// A byte that a header value may hold to count as text.
pub open spec fn is_visible(b: u8) -> bool {
    32 <= b < 127 || b == 9
}

/// The text of a header value: its bytes as characters, where all of them are visible.
pub open spec fn header_reading(bytes: Seq<u8>) -> Option<Seq<char>> {
    if forall|i: int| 0 <= i < bytes.len() ==> is_visible(#[trigger] bytes[i]) {
        Some(Seq::new(bytes.len(), |i: int| bytes[i] as char))
    } else {
        None
    }
}

/// What `str::to_lowercase` makes of a text.
pub uninterp spec fn lowercase(text: Seq<char>) -> Seq<char>;

/// `str::to_lowercase`. What is claimed is that the text alone decides the result, and what
/// becomes of ASCII text.
pub assume_specification[ str::to_lowercase ](text: &str) -> (r: String)
    ensures
        r@ == lowercase(text@),
        is_ascii(text@) ==> r@ == ascii_lowercase(text@),
;

/// What `str::to_uppercase` makes of a text.
pub uninterp spec fn uppercase(text: Seq<char>) -> Seq<char>;

/// `str::to_uppercase`. What is claimed is that the text alone decides the result, and what
/// becomes of ASCII text.
pub assume_specification[ str::to_uppercase ](text: &str) -> (r: String)
    ensures
        r@ == uppercase(text@),
        is_ascii(text@) ==> r@ == ascii_uppercase(text@),
;

/// `str::eq_ignore_ascii_case`: whether two texts are equal once their ASCII letters
/// are in lower case.
pub assume_specification[ str::eq_ignore_ascii_case ](text: &str, other: &str) -> (r: bool)
    ensures
        r == (ascii_lowercase(text@) == ascii_lowercase(other@)),
;

/// `String::from` a `&str`: the same text.
pub assume_specification<'a>[ <String as From<&'a str>>::from ](s: &str) -> (r: String)
    ensures
        r@ == s@,
;

/// `From` a type to itself: the value unchanged.
pub assume_specification<X>[ <X as std::convert::From<X>>::from ](t: X) -> (r: X)
    ensures
        r == t,
;

/// `i64`'s `to_string`: the number in decimal.
#[verifier::external_body]
pub(crate) fn int_text(n: i64) -> (r: String)
    ensures
        r@ == decimal(n as int),
{
    n.to_string()
}

/// `str::parse` to a `u64`: an optional plus sign and digits, within the type's range.
#[verifier::external_body]
pub(crate) fn parse_u64(text: &str) -> (r: Option<u64>)
    ensures
        match r {
            Some(n) => unsigned_reading(text@, u64::MAX as int) == Some(n as int),
            None => unsigned_reading(text@, u64::MAX as int) is None,
        },
{
    text.parse::<u64>().ok()
}

/// `str::contains` with a text to look for.
#[verifier::external_body]
pub(crate) fn contains(text: &str, needle: &str) -> (r: bool)
    ensures
        r == occurs_in(needle@, text@),
{
    text.contains(needle)
}

/// `str::starts_with` with a text to look for.
#[verifier::external_body]
pub(crate) fn starts_with(text: &str, prefix: &str) -> (r: bool)
    ensures
        r == prefix@.is_prefix_of(text@),
{
    text.starts_with(prefix)
}

/// The text of a header value: `http::HeaderValue::to_str`. What is claimed is that
/// there is one exactly where all bytes are visible ASCII characters or tabs, and that
/// it holds those characters.
#[verifier::external_body]
pub(crate) fn header_text(bytes: &[u8]) -> (r: Option<String>)
    ensures
        match r {
            Some(text) => header_reading(bytes@) == Some(text@),
            None => header_reading(bytes@) is None,
        },
{
    let value = axum::http::HeaderValue::from_bytes(bytes).ok()?;
    value.to_str().ok().map(|text| text.to_owned())
}

/// Whether two texts are equal.
pub(crate) fn text_eq(a: &str, b: &str) -> (r: bool)
    ensures
        r == (a@ == b@),
{
    String::from(a) == String::from(b)
}

/// Two texts, one after the other.
pub(crate) fn join(a: &str, b: &str) -> (r: String)
    ensures
        r@ == a@ + b@,
{
    let mut r = String::from(a);
    r.append(b);
    r
}

pub(crate) proof fn lemma_digits(n: nat)
    ensures
        digits(n).len() > 0,
        forall|i: int| 0 <= i < digits(n).len() ==> '0' <= #[trigger] digits(n)[i] <= '9',
    decreases n,
{
    if n >= 10 {
        lemma_digits(n / 10);
    }
}

proof fn lemma_digits_value(n: nat)
    ensures
        digits_value(digits(n)) == n,
    decreases n,
{
    if n >= 10 {
        lemma_digits_value(n / 10);
        assert(digits(n).drop_last() == digits(n / 10));
    } else {
        assert(digits(n).drop_last() == Seq::<char>::empty());
        assert(digits_value(digits(n).drop_last()) == 0);
    }
}

proof fn lemma_no_number(text: Seq<char>, max: int, i: int)
    requires
        0 <= i < text.len(),
        !is_digit(text[i]),
        i > 0 || text[i] != '+',
    ensures
        unsigned_reading(text, max) is None,
{
    if text[0] == '+' {
        assert(!is_digit(text.skip(1)[i - 1]));
    }
}

/// A number in decimal reads as itself, with a plus sign too, as long as it is not too large.
/// A text without digits, or with anything else in it, reads as no number.
pub proof fn decimal_numbers_read_as_themselves(n: nat, max: int, text: Seq<char>)
    ensures
        n <= max ==> unsigned_reading(decimal(n as int), max) == Some(n as int),
        n <= max ==> unsigned_reading(seq!['+'] + decimal(n as int), max) == Some(n as int),
        n > max ==> unsigned_reading(decimal(n as int), max) is None,
        text.len() == 0 ==> unsigned_reading(text, max) is None,
        forall|i: int|
            0 <= i < text.len() && !('0' <= #[trigger] text[i] <= '9') && (i > 0 || text[i] != '+')
                ==> unsigned_reading(text, max) is None,
        unsigned_reading(text, max) matches Some(value) ==> 0 <= value <= max,
{
    lemma_digits(n);
    lemma_digits_value(n);
    let signed = seq!['+'] + decimal(n as int);
    assert(signed.skip(1) == decimal(n as int));
    assert(decimal(n as int)[0] != '+');
    assert forall|i: int| 0 <= i < digits(n).len() implies is_digit(#[trigger] digits(n)[i]) by {}
    assert forall|i: int|
        0 <= i < text.len() && !('0' <= #[trigger] text[i] <= '9') && (i > 0 || text[i]
            != '+') implies unsigned_reading(text, max) is None by {
        lemma_no_number(text, max, i);
    }
    if text.len() > 0 && text[0] == '+' {
        lemma_digits_value_is_no_less_than_zero(text.skip(1));
    } else {
        lemma_digits_value_is_no_less_than_zero(text);
    }
}

proof fn lemma_digits_value_is_no_less_than_zero(s: Seq<char>)
    ensures
        (forall|i: int| 0 <= i < s.len() ==> is_digit(#[trigger] s[i])) ==> digits_value(s) >= 0,
    decreases s.len(),
{
    if s.len() > 0 && (forall|i: int| 0 <= i < s.len() ==> is_digit(#[trigger] s[i])) {
        let front = s.drop_last();
        assert forall|i: int| 0 <= i < front.len() implies is_digit(#[trigger] front[i]) by {
            assert(is_digit(s[i]));
        }
        lemma_digits_value_is_no_less_than_zero(front);
        assert(is_digit(s[s.len() - 1]));
    }
}

/// The text of a header is there exactly where all bytes are visible, and holds them one for
/// one.
pub proof fn header_text_holds_the_bytes(bytes: Seq<u8>)
    ensures
        header_reading(bytes) is Some <==> forall|i: int|
            0 <= i < bytes.len() ==> 32 <= #[trigger] bytes[i] < 127 || bytes[i] == 9,
        header_reading(bytes) matches Some(text) ==> text.len() == bytes.len() && forall|i: int|
            0 <= i < text.len() ==> #[trigger] text[i] == bytes[i] as char,
{
    if header_reading(bytes) is Some {
        assert forall|i: int| 0 <= i < bytes.len() implies 32 <= #[trigger] bytes[i] < 127
            || bytes[i] == 9 by {
            assert(is_visible(bytes[i]));
        }
    }
}

/// A text that is given is held, and one that is not is none.
pub proof fn given_text_is_held(s: Option<&str>)
    ensures
        s is None <==> str_text(s) is None,
        s is Some ==> str_text(s)->0 == s->0@,
{
}

} // verus!
