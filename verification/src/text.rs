//! Text as sequences of characters: the vocabulary in which keys, identifiers and messages are
//! described, and the executable operations on it.

use vstd::prelude::*;
use vstd::slice::slice_subrange;
use vstd::string::*;
use vstd::utf8::encode_utf8;

verus! {

/// `String::push` appends one character.
pub assume_specification[ String::push ](text: &mut String, character: char)
    ensures
        final(text)@ == old(text)@.push(character),
;

/// `str == str` holds exactly when both sides hold the same characters.
pub assume_specification[ <str as PartialEq<str>>::eq ](left: &str, right: &str) -> (equal: bool)
    ensures
        equal == (left@ == right@),
;

/// A text in quotes, as debugging output shows it.
pub uninterp spec fn quoted_text(text: Seq<char>) -> Seq<char>;

/// The debugging output of `str`: the text in quotes, with some characters escaped.
#[verifier::external_body]
pub(crate) fn quoted(text: &str) -> (result: String)
    ensures
        result@ == quoted_text(text@),
{
    format!("{:?}", text)
}

/// The characters of a text.
pub fn characters(text: &str) -> (chars: Vec<char>)
    ensures
        chars@ == text@,
{
    broadcast use vstd::string::group_string_axioms;

    let mut chars: Vec<char> = Vec::new();
    for character in it: text.chars()
        invariant
            it.seq() == text@,
            chars@ == it.seq().take(it.index()),
    {
        chars.push(character);
        assert(it.seq().take(it.index() + 1) == it.seq().take(it.index()).push(character));
    }
    chars
}

/// The text made of the given characters.
pub fn text_of(chars: &[char]) -> (text: String)
    ensures
        text@ == chars@,
{
    let mut text = String::new();
    for index in 0..chars.len()
        invariant
            text@ == chars@.take(index as int),
    {
        text.push(chars[index]);
        assert(chars@.take(index + 1) == chars@.take(index as int).push(chars@[index as int]));
    }
    assert(chars@.take(chars@.len() as int) == chars@);
    text
}

/// The number of bytes that the UTF-8 encoding of `chars` takes.
pub open spec fn byte_length(chars: Seq<char>) -> nat {
    encode_utf8(chars).len()
}

/// The number of bytes of a text.
pub fn text_bytes(text: &str) -> (length: usize)
    ensures
        length == byte_length(text@),
{
    text.as_bytes().len()
}

/// The texts that a list of strings holds.
pub open spec fn views(texts: Seq<String>) -> Seq<Seq<char>> {
    texts.map_values(|text: String| text@)
}

/// Appends `right` to `left`.
pub fn joined(left: &str, right: &str) -> (text: String)
    ensures
        text@ == left@ + right@,
{
    let mut text = left.to_owned();
    text.append(right);
    text
}

// ---------------------------------------------------------------------------------------------
// Character classes
// ---------------------------------------------------------------------------------------------

pub open spec fn is_digit(c: char) -> bool {
    '0' <= c <= '9'
}

pub open spec fn is_alphanumeric(c: char) -> bool {
    is_digit(c) || 'a' <= c <= 'z' || 'A' <= c <= 'Z'
}

pub open spec fn is_hex_digit(c: char) -> bool {
    is_digit(c) || 'a' <= c <= 'f' || 'A' <= c <= 'F'
}

/// The Unicode `White_Space` property.
pub open spec fn is_whitespace(c: char) -> bool {
    let code = c as u32;
    ||| 0x9 <= code <= 0xd
    ||| code == 0x20
    ||| code == 0x85
    ||| code == 0xa0
    ||| code == 0x1680
    ||| 0x2000 <= code <= 0x200a
    ||| code == 0x2028
    ||| code == 0x2029
    ||| code == 0x202f
    ||| code == 0x205f
    ||| code == 0x3000
}

pub fn digit(c: char) -> (result: bool)
    ensures
        result == is_digit(c),
{
    '0' <= c && c <= '9'
}

pub fn alphanumeric(c: char) -> (result: bool)
    ensures
        result == is_alphanumeric(c),
{
    digit(c) || ('a' <= c && c <= 'z') || ('A' <= c && c <= 'Z')
}

pub fn hex_digit(c: char) -> (result: bool)
    ensures
        result == is_hex_digit(c),
{
    digit(c) || ('a' <= c && c <= 'f') || ('A' <= c && c <= 'F')
}

pub fn whitespace(c: char) -> (result: bool)
    ensures
        result == is_whitespace(c),
{
    let code: u32 = c as u32;
    (0x9 <= code && code <= 0xd) || code == 0x20 || code == 0x85 || code == 0xa0 || code == 0x1680
        || (0x2000 <= code && code <= 0x200a) || code == 0x2028 || code == 0x2029 || code == 0x202f
        || code == 0x205f || code == 0x3000
}

// ---------------------------------------------------------------------------------------------
// Trimming
// ---------------------------------------------------------------------------------------------

/// `s` without its leading white space.
pub open spec fn trimmed_start(s: Seq<char>) -> Seq<char>
    decreases s.len(),
{
    if s.len() > 0 && is_whitespace(s.first()) {
        trimmed_start(s.drop_first())
    } else {
        s
    }
}

/// `s` without its trailing white space.
pub open spec fn trimmed_end(s: Seq<char>) -> Seq<char>
    decreases s.len(),
{
    if s.len() > 0 && is_whitespace(s.last()) {
        trimmed_end(s.drop_last())
    } else {
        s
    }
}

/// `s` without leading and trailing white space.
pub open spec fn trimmed(s: Seq<char>) -> Seq<char> {
    trimmed_end(trimmed_start(s))
}

/// `s` holds nothing but white space.
pub open spec fn is_blank(s: Seq<char>) -> bool {
    trimmed(s).len() == 0
}

/// `s` without every leading `c`.
pub open spec fn without_leading(s: Seq<char>, c: char) -> Seq<char>
    decreases s.len(),
{
    if s.len() > 0 && s.first() == c {
        without_leading(s.drop_first(), c)
    } else {
        s
    }
}

/// `s` without every trailing `c`.
pub open spec fn without_trailing(s: Seq<char>, c: char) -> Seq<char>
    decreases s.len(),
{
    if s.len() > 0 && s.last() == c {
        without_trailing(s.drop_last(), c)
    } else {
        s
    }
}

/// `text` without leading and trailing white space.
pub fn trim(text: &str) -> (result: String)
    ensures
        result@ == trimmed(text@),
{
    let chars = characters(text);
    let mut start: usize = 0;
    assert(chars@.skip(0) == chars@);
    while start < chars.len() && whitespace(chars[start])
        invariant
            start <= chars@.len(),
            trimmed_start(chars@) == trimmed_start(chars@.skip(start as int)),
        decreases chars@.len() - start,
    {
        assert(chars@.skip(start as int).drop_first() == chars@.skip(start + 1));
        start += 1;
    }
    let mut end: usize = chars.len();
    assert(chars@.skip(start as int) == chars@.subrange(start as int, end as int));
    while end > start && whitespace(chars[end - 1])
        invariant
            start <= end <= chars@.len(),
            trimmed(chars@) == trimmed_end(chars@.subrange(start as int, end as int)),
        decreases end,
    {
        assert(chars@.subrange(start as int, end as int).drop_last() == chars@.subrange(
            start as int,
            end - 1,
        ));
        end -= 1;
    }
    text_of(slice_subrange(chars.as_slice(), start, end))
}

/// Whether `text` holds nothing but white space.
pub fn blank(text: &str) -> (result: bool)
    ensures
        result == is_blank(text@),
{
    trim(text).as_str().is_empty()
}

/// `text` without every leading `c`.
pub fn drop_leading(text: &str, c: char) -> (result: String)
    ensures
        result@ == without_leading(text@, c),
{
    let chars = characters(text);
    let mut start: usize = 0;
    assert(chars@.skip(0) == chars@);
    while start < chars.len() && chars[start] == c
        invariant
            start <= chars@.len(),
            without_leading(chars@, c) == without_leading(chars@.skip(start as int), c),
        decreases chars@.len() - start,
    {
        assert(chars@.skip(start as int).drop_first() == chars@.skip(start + 1));
        start += 1;
    }
    assert(chars@.skip(start as int) == chars@.subrange(start as int, chars@.len() as int));
    text_of(slice_subrange(chars.as_slice(), start, chars.len()))
}

/// `text` without every trailing `c`.
pub fn drop_trailing(text: &str, c: char) -> (result: String)
    ensures
        result@ == without_trailing(text@, c),
{
    let chars = characters(text);
    let mut end: usize = chars.len();
    assert(chars@.take(end as int) == chars@);
    while end > 0 && chars[end - 1] == c
        invariant
            end <= chars@.len(),
            without_trailing(chars@, c) == without_trailing(chars@.take(end as int), c),
        decreases end,
    {
        assert(chars@.take(end as int).drop_last() == chars@.take(end - 1));
        end -= 1;
    }
    assert(chars@.take(end as int) == chars@.subrange(0, end as int));
    text_of(slice_subrange(chars.as_slice(), 0, end))
}

// ---------------------------------------------------------------------------------------------
// Prefixes, suffixes and parts
// ---------------------------------------------------------------------------------------------

/// `s` begins with `prefix`.
pub open spec fn begins_with(s: Seq<char>, prefix: Seq<char>) -> bool {
    prefix.len() <= s.len() && s.take(prefix.len() as int) == prefix
}

/// `s` ends with `suffix`.
pub open spec fn finishes_with(s: Seq<char>, suffix: Seq<char>) -> bool {
    suffix.len() <= s.len() && s.skip(s.len() - suffix.len()) == suffix
}

/// `needle` stands in `s` at `at`.
pub open spec fn stands_at(s: Seq<char>, needle: Seq<char>, at: int) -> bool {
    0 <= at && at + needle.len() <= s.len() && s.subrange(at, at + needle.len()) == needle
}

/// `needle` stands somewhere in `s`.
pub open spec fn has_part(s: Seq<char>, needle: Seq<char>) -> bool {
    exists|at: int| stands_at(s, needle, at)
}

fn found_at(chars: &[char], needle: &[char], at: usize) -> (result: bool)
    requires
        at + needle@.len() <= chars@.len(),
    ensures
        result == stands_at(chars@, needle@, at as int),
{
    let total: usize = chars.len();
    for index in 0..needle.len()
        invariant
            total == chars@.len(),
            at + needle@.len() <= total,
            forall|i: int| 0 <= i < index ==> chars@[at + i] == needle@[i],
    {
        if chars[at + index] != needle[index] {
            assert(chars@.subrange(at as int, at + needle@.len())[index as int]
                != needle@[index as int]);
            return false;
        }
    }
    assert(chars@.subrange(at as int, at + needle@.len()) == needle@);
    true
}

/// Whether `text` begins with `prefix`.
pub fn starts_with(text: &str, prefix: &str) -> (result: bool)
    ensures
        result == begins_with(text@, prefix@),
{
    let chars = characters(text);
    let wanted = characters(prefix);
    if wanted.len() > chars.len() {
        return false;
    }
    assert(chars@.take(wanted@.len() as int) == chars@.subrange(0, wanted@.len() as int));
    found_at(chars.as_slice(), wanted.as_slice(), 0)
}

/// Whether `text` ends with `suffix`.
pub fn ends_with(text: &str, suffix: &str) -> (result: bool)
    ensures
        result == finishes_with(text@, suffix@),
{
    let chars = characters(text);
    let wanted = characters(suffix);
    if wanted.len() > chars.len() {
        return false;
    }
    let at: usize = chars.len() - wanted.len();
    assert(chars@.skip(at as int) == chars@.subrange(at as int, at + wanted@.len()));
    found_at(chars.as_slice(), wanted.as_slice(), at)
}

/// Whether `needle` stands somewhere in `text`.
pub fn contains(text: &str, needle: &str) -> (result: bool)
    ensures
        result == has_part(text@, needle@),
{
    let chars = characters(text);
    let wanted = characters(needle);
    if wanted.len() > chars.len() {
        return false;
    }
    let last: usize = chars.len() - wanted.len();
    let mut at: usize = 0;
    loop
        invariant
            chars@ == text@,
            wanted@ == needle@,
            at <= last,
            last == chars@.len() - wanted@.len(),
            forall|i: int| 0 <= i < at ==> !stands_at(chars@, wanted@, i),
        decreases last - at,
    {
        if found_at(chars.as_slice(), wanted.as_slice(), at) {
            return true;
        }
        if at == last {
            return false;
        }
        at += 1;
    }
}

/// What follows `prefix` in `text`, when `text` begins with it.
pub fn strip_prefix(text: &str, prefix: &str) -> (rest: Option<String>)
    ensures
        rest is Some <==> begins_with(text@, prefix@),
        rest matches Some(r) ==> r@ == text@.skip(prefix@.len() as int),
{
    if !starts_with(text, prefix) {
        return None;
    }
    let chars = characters(text);
    let from: usize = characters(prefix).len();
    assert(chars@.skip(from as int) == chars@.subrange(from as int, chars@.len() as int));
    Some(text_of(slice_subrange(chars.as_slice(), from, chars.len())))
}

/// What precedes `suffix` in `text`, when `text` ends with it.
pub fn strip_suffix(text: &str, suffix: &str) -> (rest: Option<String>)
    ensures
        rest is Some <==> finishes_with(text@, suffix@),
        rest matches Some(r) ==> r@ == text@.take(text@.len() - suffix@.len()),
{
    if !ends_with(text, suffix) {
        return None;
    }
    let chars = characters(text);
    let to: usize = chars.len() - characters(suffix).len();
    assert(chars@.take(to as int) == chars@.subrange(0, to as int));
    Some(text_of(slice_subrange(chars.as_slice(), 0, to)))
}

// ---------------------------------------------------------------------------------------------
// Splitting
// ---------------------------------------------------------------------------------------------

/// The position of the first `c` in `s`, or the length of `s` where there is none.
pub open spec fn first_position(s: Seq<char>, c: char) -> nat
    decreases s.len(),
{
    if s.len() == 0 || s.first() == c {
        0
    } else {
        1 + first_position(s.drop_first(), c)
    }
}

/// The pieces of `s` between its separators.
pub open spec fn pieces(s: Seq<char>, separator: char) -> Seq<Seq<char>>
    decreases s.len(),
{
    let at = first_position(s, separator);
    if at >= s.len() {
        seq![s]
    } else {
        seq![s.take(at as int)] + pieces(s.skip(at as int + 1), separator)
    }
}

/// What follows the last `separator` in `s`; all of `s` where there is none.
pub open spec fn last_piece(s: Seq<char>, separator: char) -> Seq<char> {
    pieces(s, separator).last()
}

pub proof fn lemma_first_position(s: Seq<char>, c: char)
    ensures
        first_position(s, c) <= s.len(),
        first_position(s, c) < s.len() ==> s[first_position(s, c) as int] == c,
        forall|i: int| 0 <= i < first_position(s, c) ==> s[i] != c,
    decreases s.len(),
{
    if s.len() > 0 && s.first() != c {
        lemma_first_position(s.drop_first(), c);
        assert forall|i: int| 0 <= i < first_position(s, c) implies s[i] != c by {
            if i > 0 {
                assert(s.drop_first()[i - 1] == s[i]);
            }
        }
    }
}

pub proof fn lemma_first_position_is(s: Seq<char>, c: char, at: int)
    requires
        0 <= at <= s.len(),
        at < s.len() ==> s[at] == c,
        forall|i: int| 0 <= i < at ==> s[i] != c,
    ensures
        first_position(s, c) == at,
{
    lemma_first_position(s, c);
}

pub proof fn lemma_pieces_nonempty(s: Seq<char>, separator: char)
    ensures
        pieces(s, separator).len() >= 1,
    decreases s.len(),
{
    let at = first_position(s, separator);
    if at < s.len() {
        lemma_pieces_nonempty(s.skip(at as int + 1), separator);
    }
}

/// The pieces of `text` between its separators.
pub fn split(text: &str, separator: char) -> (parts: Vec<String>)
    ensures
        views(parts@) == pieces(text@, separator),
        parts@.len() >= 1,
{
    let chars = characters(text);
    let mut parts: Vec<String> = Vec::new();
    let mut start: usize = 0;
    let mut at: usize = 0;
    assert(chars@.skip(0) == chars@);
    assert(views(parts@) + pieces(chars@, separator) == pieces(chars@, separator));
    while at < chars.len()
        invariant
            start <= at <= chars@.len(),
            forall|i: int| start <= i < at ==> chars@[i] != separator,
            views(parts@) + pieces(chars@.skip(start as int), separator) == pieces(
                chars@,
                separator,
            ),
        decreases chars@.len() - at,
    {
        if chars[at] == separator {
            let part = text_of(slice_subrange(chars.as_slice(), start, at));
            proof {
                let rest = chars@.skip(start as int);
                lemma_first_position_is(rest, separator, at - start);
                assert(rest.take(at - start) == chars@.subrange(start as int, at as int));
                assert(rest.skip(at - start + 1) == chars@.skip(at + 1));
                assert(views(parts@.push(part)) == views(parts@).push(part@));
                assert(views(parts@) + (seq![part@] + pieces(chars@.skip(at + 1), separator))
                    == views(parts@).push(part@) + pieces(chars@.skip(at + 1), separator));
            }
            parts.push(part);
            start = at + 1;
        }
        at += 1;
    }
    let part = text_of(slice_subrange(chars.as_slice(), start, chars.len()));
    proof {
        let rest = chars@.skip(start as int);
        lemma_first_position_is(rest, separator, rest.len() as int);
        assert(part@ == rest);
        assert(views(parts@.push(part)) == views(parts@).push(part@));
        assert(views(parts@) + seq![part@] == views(parts@).push(part@));
    }
    parts.push(part);
    parts
}

// ---------------------------------------------------------------------------------------------
// Decimal numbers
// ---------------------------------------------------------------------------------------------

pub open spec fn digit_char(value: nat) -> char {
    ('0' as u32 + value) as char
}

pub open spec fn digit_value(c: char) -> nat {
    (c as u32 - '0' as u32) as nat
}

/// The decimal notation of `value`.
pub open spec fn decimal_text(value: nat) -> Seq<char>
    decreases value,
{
    if value < 10 {
        seq![digit_char(value)]
    } else {
        decimal_text(value / 10).push(digit_char(value % 10))
    }
}

/// The number that a sequence of decimal digits denotes.
pub open spec fn digits_value(digits: Seq<char>) -> nat
    decreases digits.len(),
{
    if digits.len() == 0 {
        0
    } else {
        digits_value(digits.drop_last()) * 10 + digit_value(digits.last())
    }
}

/// `s` without one leading `+`.
pub open spec fn without_plus(s: Seq<char>) -> Seq<char> {
    if s.len() > 0 && s[0] == '+' {
        s.skip(1)
    } else {
        s
    }
}

/// `s` is made of one or more digits.
pub open spec fn all_digits(s: Seq<char>) -> bool {
    s.len() > 0 && forall|i: int| 0 <= i < s.len() ==> is_digit(#[trigger] s[i])
}

/// The number that `s` denotes as an unsigned decimal no greater than `max`: an optional `+`,
/// then one or more digits.
pub open spec fn parsed_unsigned(s: Seq<char>, max: nat) -> Option<nat> {
    let digits = without_plus(s);
    if all_digits(digits) && digits_value(digits) <= max {
        Some(digits_value(digits))
    } else {
        None
    }
}

fn digit_of(value: u8) -> (c: char)
    requires
        value < 10,
    ensures
        c == digit_char(value as nat),
{
    (48u8 + value) as char
}

/// The decimal notation of `value`.
pub fn decimal(value: u64) -> (text: String)
    ensures
        text@ == decimal_text(value as nat),
    decreases value,
{
    let last = digit_of((value % 10) as u8);
    if value < 10 {
        let mut text = String::new();
        text.push(last);
        assert(text@ == seq![digit_char(value as nat)]);
        text
    } else {
        let mut text = decimal(value / 10);
        text.push(last);
        text
    }
}

proof fn lemma_digits_value_grows(digits: Seq<char>, count: int)
    requires
        0 <= count <= digits.len(),
        all_digits(digits),
    ensures
        digits_value(digits.take(count)) <= digits_value(digits),
    decreases digits.len() - count,
{
    if count < digits.len() {
        lemma_digits_value_grows(digits, count + 1);
        assert(digits.take(count + 1).drop_last() == digits.take(count));
    } else {
        assert(digits.take(count) == digits);
    }
}

/// Reads an unsigned decimal no greater than `max`.
pub fn parse_unsigned(text: &str, max: u64) -> (value: Option<u64>)
    ensures
        value is Some <==> parsed_unsigned(text@, max as nat) is Some,
        value matches Some(v) ==> parsed_unsigned(text@, max as nat) == Some(v as nat),
{
    let chars = characters(text);
    let from: usize = if chars.len() > 0 && chars[0] == '+' {
        1
    } else {
        0
    };
    let ghost digits = without_plus(text@);
    assert(digits == chars@.skip(from as int));
    if from == chars.len() {
        return None;
    }
    let mut value: u64 = 0;
    let mut at: usize = from;
    assert(digits.take(0) == Seq::<char>::empty());
    while at < chars.len()
        invariant
            from <= at <= chars@.len(),
            digits == chars@.skip(from as int),
            digits == without_plus(text@),
            forall|i: int| 0 <= i < at - from ==> is_digit(#[trigger] digits[i]),
            value == digits_value(digits.take(at - from)),
            value <= max,
        decreases chars@.len() - at,
    {
        let c = chars[at];
        assert(c == digits[at - from]);
        if !digit(c) {
            return None;
        }
        let wide: u128 = (value as u128) * 10 + ((c as u32 - '0' as u32) as u128);
        proof {
            assert(digits.take(at - from + 1).drop_last() == digits.take(at - from));
            assert(wide == digits_value(digits.take(at - from + 1)));
        }
        if wide > max as u128 {
            proof {
                if all_digits(digits) {
                    lemma_digits_value_grows(digits, at - from + 1);
                }
            }
            return None;
        }
        value = wide as u64;
        at += 1;
    }
    assert(digits.take(digits.len() as int) == digits);
    Some(value)
}

pub(crate) proof fn lemma_decimal_digits(value: nat)
    ensures
        all_digits(decimal_text(value)),
        digits_value(decimal_text(value)) == value,
    decreases value,
{
    let text = decimal_text(value);
    if value < 10 {
        assert(text.drop_last() == Seq::<char>::empty());
        assert(digits_value(text.drop_last()) == 0);
    } else {
        lemma_decimal_digits(value / 10);
        assert(text.drop_last() == decimal_text(value / 10));
    }
}

/// A number in decimal notation is read back as itself.
pub proof fn lemma_decimal_is_read_back(value: nat, max: nat)
    requires
        value <= max,
    ensures
        parsed_unsigned(decimal_text(value), max) == Some(value),
{
    lemma_decimal_digits(value);
    assert(is_digit(decimal_text(value)[0]));
}

// ---------------------------------------------------------------------------------------------
// ASCII case
// ---------------------------------------------------------------------------------------------

pub open spec fn lower_char(c: char) -> char {
    if 'A' <= c <= 'Z' {
        (c as u32 + 32) as char
    } else {
        c
    }
}

/// `s` with its ASCII capitals made small.
pub open spec fn lower(s: Seq<char>) -> Seq<char> {
    Seq::new(s.len(), |i: int| lower_char(s[i]))
}

/// The two texts differ at most in the case of ASCII letters.
pub open spec fn same_ignoring_case(left: Seq<char>, right: Seq<char>) -> bool {
    lower(left) == lower(right)
}

/// Small letters stay as they are.
pub proof fn lemma_lower_idempotent(s: Seq<char>)
    ensures
        lower(lower(s)) == lower(s),
{
    assert(lower(lower(s)) =~= lower(s));
}

/// `text` with its ASCII capitals made small.
pub fn to_lower(text: &str) -> (result: String)
    ensures
        result@ == lower(text@),
{
    let chars = characters(text);
    let mut result = String::new();
    for index in 0..chars.len()
        invariant
            chars@ == text@,
            result@ == lower(chars@).take(index as int),
    {
        let c = chars[index];
        if 'A' <= c && c <= 'Z' {
            result.push((c as u8 + 32u8) as char);
        } else {
            result.push(c);
        }
        assert(lower(chars@).take(index + 1) == lower(chars@).take(index as int).push(
            lower_char(c),
        ));
    }
    assert(lower(chars@).take(chars@.len() as int) == lower(chars@));
    result
}

/// Whether the two texts differ at most in the case of ASCII letters.
pub fn equal_ignoring_case(left: &str, right: &str) -> (result: bool)
    ensures
        result == same_ignoring_case(left@, right@),
{
    *to_lower(left).as_str() == *to_lower(right).as_str()
}

// ---------------------------------------------------------------------------------------------
// Words and hexadecimal numbers
// ---------------------------------------------------------------------------------------------

/// How many characters stand before the first white space.
pub open spec fn word_length(s: Seq<char>) -> nat
    decreases s.len(),
{
    if s.len() == 0 || is_whitespace(s[0]) {
        0
    } else {
        1 + word_length(s.skip(1))
    }
}

pub proof fn lemma_word_length(s: Seq<char>)
    ensures
        word_length(s) <= s.len(),
        s.len() > 0 && !is_whitespace(s[0]) ==> word_length(s) > 0,
    decreases s.len(),
{
    if s.len() > 0 && !is_whitespace(s[0]) {
        lemma_word_length(s.skip(1));
    }
}

pub proof fn lemma_trimmed_start(s: Seq<char>)
    ensures
        trimmed_start(s).len() <= s.len(),
        trimmed_start(s).len() > 0 ==> !is_whitespace(trimmed_start(s)[0]),
    decreases s.len(),
{
    if s.len() > 0 && is_whitespace(s[0]) {
        lemma_trimmed_start(s.skip(1));
    }
}

/// The parts of `s` between runs of white space.
pub open spec fn words(s: Seq<char>) -> Seq<Seq<char>>
    decreases s.len(),
    when true
    via words_decreases
{
    let start = trimmed_start(s);
    if start.len() == 0 {
        Seq::empty()
    } else {
        seq![start.take(word_length(start) as int)] + words(start.skip(word_length(start) as int))
    }
}

#[via_fn]
proof fn words_decreases(s: Seq<char>) {
    lemma_trimmed_start(s);
    lemma_word_length(trimmed_start(s));
}

/// The parts of `text` between runs of white space.
pub fn split_words(text: &str) -> (parts: Vec<String>)
    ensures
        views(parts@) == words(text@),
{
    let chars = characters(text);
    let mut parts: Vec<String> = Vec::new();
    let mut at: usize = 0;
    let total: usize = chars.len();
    proof {
        assert(chars@.skip(0) == chars@);
        assert(views(parts@) + words(chars@) =~= words(chars@));
    }
    while at < total
        invariant
            chars@ == text@,
            total == chars@.len(),
            at <= total,
            views(parts@) + words(chars@.skip(at as int)) == words(text@),
        decreases total - at,
    {
        let ghost rest = chars@.skip(at as int);
        if whitespace(chars[at]) {
            assert(rest.skip(1) == chars@.skip(at + 1));
            at += 1;
        } else {
            let start: usize = at;
            let ghost before = parts@;
            assert(rest.skip(0) == rest);
            while at < total && !whitespace(chars[at])
                invariant
                    total == chars@.len(),
                    start <= at <= total,
                    rest == chars@.skip(start as int),
                    word_length(rest) == (at - start) + word_length(chars@.skip(at as int)),
                decreases total - at,
            {
                assert(chars@.skip(at as int).skip(1) == chars@.skip(at + 1));
                at += 1;
            }
            let word = text_of(slice_subrange(chars.as_slice(), start, at));
            parts.push(word);
            proof {
                let length = word_length(rest) as int;
                assert(trimmed_start(rest) == rest);
                assert(word@ == rest.take(length));
                assert(rest.skip(length) == chars@.skip(at as int));
                assert(views(parts@) =~= views(before).push(word@));
                assert(views(parts@) + words(chars@.skip(at as int)) =~= views(before) + (seq![
                    word@,
                ] + words(chars@.skip(at as int))));
            }
        }
    }
    assert(chars@.skip(total as int) == Seq::<char>::empty());
    assert(views(parts@) + Seq::empty() =~= views(parts@));
    parts
}

/// The capital hexadecimal digit of a value below sixteen.
pub open spec fn capital_hex_char(value: int) -> char {
    if value < 10 {
        ('0' as u32 + value) as char
    } else {
        ('A' as u32 + (value - 10)) as char
    }
}

/// A number below 65536 in four capital hexadecimal digits.
pub open spec fn hex_word(value: int) -> Seq<char> {
    seq![
        capital_hex_char(value / 4096),
        capital_hex_char(value / 256 % 16),
        capital_hex_char(value / 16 % 16),
        capital_hex_char(value % 16),
    ]
}

fn capital_hex_digit(value: u16) -> (c: char)
    requires
        value < 16,
    ensures
        c == capital_hex_char(value as int),
{
    if value < 10 {
        (48u8 + value as u8) as char
    } else {
        (65u8 + (value as u8 - 10)) as char
    }
}

/// A number in four capital hexadecimal digits.
pub fn hex_word_text(value: u16) -> (text: String)
    ensures
        text@ == hex_word(value as int),
{
    let mut text = String::new();
    text.push(capital_hex_digit(value / 4096));
    text.push(capital_hex_digit(value / 256 % 16));
    text.push(capital_hex_digit(value / 16 % 16));
    text.push(capital_hex_digit(value % 16));
    assert(text@ =~= hex_word(value as int));
    text
}

/// The text up to the first occurrence of a character, and the text behind it.
pub fn split_once(text: &str, separator: char) -> (parts: Option<(String, String)>)
    ensures
        parts is Some == (first_position(text@, separator) < text@.len()),
        parts is Some ==> {
            &&& (parts->0).0@ == text@.take(first_position(text@, separator) as int)
            &&& (parts->0).1@ == text@.skip(first_position(text@, separator) as int + 1)
        },
{
    let chars = characters(text);
    let total: usize = chars.len();
    proof {
        lemma_first_position(text@, separator);
    }
    for at in 0..total
        invariant
            chars@ == text@,
            total == chars@.len(),
            forall|i: int| 0 <= i < at ==> text@[i] != separator,
            first_position(text@, separator) <= text@.len(),
    {
        if chars[at] == separator {
            proof {
                lemma_first_position_is(text@, separator, at as int);
                assert(text@.take(at as int) =~= text@.subrange(0, at as int));
                assert(text@.skip(at + 1) =~= text@.subrange(at + 1, text@.len() as int));
            }
            let head = text_of(slice_subrange(chars.as_slice(), 0, at));
            let tail = text_of(slice_subrange(chars.as_slice(), at + 1, total));
            return Some((head, tail));
        }
    }
    None
}

/// A text that neither starts nor ends with white space has nothing to trim.
pub proof fn lemma_nothing_to_trim(s: Seq<char>)
    requires
        s.len() > 0,
        !is_whitespace(s[0]),
        !is_whitespace(s.last()),
    ensures
        trimmed(s) == s,
{
}

// ---------------------------------------------------------------------------------------------
// Order and letter case
// ---------------------------------------------------------------------------------------------

/// `left` stands no later than `right` in the order of their characters.
pub open spec fn text_not_after(left: Seq<char>, right: Seq<char>) -> bool
    decreases left.len(),
{
    if left.len() == 0 {
        true
    } else if right.len() == 0 {
        false
    } else if left[0] == right[0] {
        text_not_after(left.skip(1), right.skip(1))
    } else {
        left[0] < right[0]
    }
}

/// Of two texts one stands no later than the other, and both do only when they are the same.
pub proof fn lemma_text_order(left: Seq<char>, right: Seq<char>)
    ensures
        text_not_after(left, right) || text_not_after(right, left),
        text_not_after(left, right) && text_not_after(right, left) ==> left == right,
    decreases left.len(),
{
    if left.len() > 0 && right.len() > 0 && left[0] == right[0] {
        lemma_text_order(left.skip(1), right.skip(1));
        if left.skip(1) == right.skip(1) {
            assert(left == seq![left[0]] + left.skip(1));
            assert(right == seq![right[0]] + right.skip(1));
        }
    } else if left.len() == 0 && right.len() == 0 {
        assert(left == right);
    }
}

pub proof fn lemma_text_order_transitive(first: Seq<char>, second: Seq<char>, third: Seq<char>)
    requires
        text_not_after(first, second),
        text_not_after(second, third),
    ensures
        text_not_after(first, third),
    decreases first.len(),
{
    if first.len() > 0 && first[0] == second[0] && second[0] == third[0] {
        lemma_text_order_transitive(first.skip(1), second.skip(1), third.skip(1));
    }
}

/// Whether `left` stands no later than `right`.
pub fn at_most(left: &str, right: &str) -> (result: bool)
    ensures
        result == text_not_after(left@, right@),
{
    let a = characters(left);
    let b = characters(right);
    let mut at: usize = 0;
    assert(a@.skip(0) == a@);
    assert(b@.skip(0) == b@);
    loop
        invariant
            a@ == left@,
            b@ == right@,
            at <= a@.len(),
            at <= b@.len(),
            text_not_after(left@, right@) == text_not_after(
                a@.skip(at as int),
                b@.skip(at as int),
            ),
        decreases a@.len() - at,
    {
        if at == a.len() {
            return true;
        }
        if at == b.len() {
            return false;
        }
        if a[at] != b[at] {
            return a[at] < b[at];
        }
        assert(a@.skip(at as int).skip(1) == a@.skip(at + 1));
        assert(b@.skip(at as int).skip(1) == b@.skip(at + 1));
        at += 1;
    }
}

/// A text in small letters, by the rules of Unicode.
pub uninterp spec fn lowercase_text(text: Seq<char>) -> Seq<char>;

/// `str::to_lowercase`: the text in small letters, by the rules of Unicode.
#[verifier::external_body]
pub(crate) fn lowercase(text: &str) -> (result: String)
    ensures
        result@ == lowercase_text(text@),
{
    text.to_lowercase()
}

} // verus!
