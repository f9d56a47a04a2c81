//! Texts: what trimming, splitting, ordering and reading numbers come to, character by character.

use crate::text::{
    all_digits, begins_with, capital_hex_char, decimal_text, digits_value, finishes_with,
    first_position, has_part, hex_word, is_blank, is_digit, is_whitespace, last_piece,
    lemma_decimal_digits, lemma_first_position, lemma_first_position_is, lemma_pieces_nonempty,
    lemma_word_length, lower, parsed_unsigned, pieces, same_ignoring_case, stands_at,
    text_not_after, trimmed, trimmed_end, trimmed_start, without_leading, without_plus,
    without_trailing, word_length, words,
};
use vstd::prelude::*;

verus! {

/// The character, so many times.
pub open spec fn repeated(c: char, count: nat) -> Seq<char> {
    Seq::new(count, |i: int| c)
}

/// White space and nothing else.
pub open spec fn all_space(s: Seq<char>) -> bool {
    forall|i: int| 0 <= i < s.len() ==> is_whitespace(#[trigger] s[i])
}

/// The texts one after the other, with a separator between them.
pub open spec fn linked(parts: Seq<Seq<char>>, separator: char) -> Seq<char>
    decreases parts.len(),
{
    if parts.len() == 0 {
        Seq::empty()
    } else if parts.len() == 1 {
        parts[0]
    } else {
        parts[0].push(separator) + linked(parts.drop_first(), separator)
    }
}

proof fn lemma_start_trimmed(s: Seq<char>)
    ensures
        ({
            let rest = trimmed_start(s);
            &&& rest.len() <= s.len()
            &&& rest == s.skip(s.len() - rest.len())
            &&& all_space(s.take(s.len() - rest.len()))
            &&& rest.len() > 0 ==> !is_whitespace(rest[0])
        }),
    decreases s.len(),
{
    let rest = trimmed_start(s);
    if s.len() > 0 && is_whitespace(s[0]) {
        let shorter = s.drop_first();
        lemma_start_trimmed(shorter);
        assert(rest =~= s.skip(s.len() - rest.len()));
        assert forall|i: int| 0 <= i < s.len() - rest.len() implies is_whitespace(
            #[trigger] s.take(s.len() - rest.len())[i],
        ) by {
            if i > 0 {
                assert(shorter.take(shorter.len() - rest.len())[i - 1] == s[i]);
            }
        }
    } else {
        assert(rest =~= s.skip(0));
    }
}

proof fn lemma_end_trimmed(s: Seq<char>)
    ensures
        ({
            let rest = trimmed_end(s);
            &&& rest.len() <= s.len()
            &&& rest == s.take(rest.len() as int)
            &&& all_space(s.skip(rest.len() as int))
            &&& rest.len() > 0 ==> !is_whitespace(rest.last())
        }),
    decreases s.len(),
{
    let rest = trimmed_end(s);
    if s.len() > 0 && is_whitespace(s.last()) {
        let shorter = s.drop_last();
        lemma_end_trimmed(shorter);
        assert(rest =~= s.take(rest.len() as int));
        assert forall|i: int| 0 <= i < s.len() - rest.len() implies is_whitespace(
            #[trigger] s.skip(rest.len() as int)[i],
        ) by {
            if i < s.len() - rest.len() - 1 {
                assert(shorter.skip(rest.len() as int)[i] == s[i + rest.len()]);
            }
        }
    } else {
        assert(rest =~= s.take(s.len() as int));
    }
}

/// Trimming takes white space away at both ends and leaves everything between the first and the
/// last other character.
pub proof fn lemma_trimmed_text(s: Seq<char>)
    ensures
        exists|from: int|
            {
                &&& 0 <= from
                &&& from + trimmed(s).len() <= s.len()
                &&& trimmed(s) == #[trigger] s.subrange(from, from + trimmed(s).len())
                &&& all_space(s.take(from))
                &&& all_space(s.skip(from + trimmed(s).len()))
            },
        trimmed(s).len() > 0 ==> !is_whitespace(trimmed(s)[0]) && !is_whitespace(
            trimmed(s).last(),
        ),
        is_blank(s) <==> all_space(s),
{
    let start = trimmed_start(s);
    let from = s.len() - start.len();
    lemma_start_trimmed(s);
    lemma_end_trimmed(start);
    let rest = trimmed(s);
    assert(rest =~= s.subrange(from, from + rest.len()));
    assert forall|i: int| 0 <= i < s.skip(from + rest.len()).len() implies is_whitespace(
        #[trigger] s.skip(from + rest.len())[i],
    ) by {
        assert(start.skip(rest.len() as int)[i] == s[from + rest.len() + i]);
    }
    if rest.len() > 0 {
        assert(rest[0] == start[0]);
        assert(rest[0] == s[from]);
        assert(!is_whitespace(s[from]));
    } else {
        assert forall|i: int| 0 <= i < s.len() implies is_whitespace(#[trigger] s[i]) by {
            if i < from {
                assert(s.take(from)[i] == s[i]);
            } else {
                assert(start.skip(0)[i - from] == s[i]);
            }
        }
    }
}

/// Dropping a character at the end drops all of its repetitions there, and nothing else.
pub proof fn lemma_without_trailing(s: Seq<char>, c: char)
    ensures
        without_trailing(s, c).len() <= s.len(),
        s == without_trailing(s, c) + repeated(c, (s.len() - without_trailing(s, c).len()) as nat),
        without_trailing(s, c).len() > 0 ==> without_trailing(s, c).last() != c,
    decreases s.len(),
{
    let bare = without_trailing(s, c);
    if s.len() > 0 && s.last() == c {
        let shorter = s.drop_last();
        lemma_without_trailing(shorter, c);
        assert forall|i: int| 0 <= i < s.len() implies s[i] == (bare + repeated(
            c,
            (s.len() - bare.len()) as nat,
        ))[i] by {
            if i < shorter.len() {
                assert(s[i] == shorter[i]);
            }
        }
    }
    assert(s =~= bare + repeated(c, (s.len() - bare.len()) as nat));
}

/// Dropping a character at the start drops all of its repetitions there, and nothing else.
pub proof fn lemma_without_leading(s: Seq<char>, c: char)
    ensures
        without_leading(s, c).len() <= s.len(),
        s == repeated(c, (s.len() - without_leading(s, c).len()) as nat) + without_leading(s, c),
        without_leading(s, c).len() > 0 ==> without_leading(s, c)[0] != c,
    decreases s.len(),
{
    let bare = without_leading(s, c);
    if s.len() > 0 && s.first() == c {
        let shorter = s.drop_first();
        lemma_without_leading(shorter, c);
        assert forall|i: int| 0 <= i < s.len() implies s[i] == (repeated(
            c,
            (s.len() - bare.len()) as nat,
        ) + bare)[i] by {
            if i > 0 {
                assert(s[i] == shorter[i - 1]);
            }
        }
    }
    assert(s =~= repeated(c, (s.len() - bare.len()) as nat) + bare);
}

/// The pieces of a text, linked by the separator, are the text; none of them holds the separator.
pub proof fn lemma_pieces_make_the_text(s: Seq<char>, separator: char)
    ensures
        linked(pieces(s, separator), separator) == s,
        forall|i: int|
            0 <= i < pieces(s, separator).len() ==> !(#[trigger] pieces(s, separator)[i]).contains(
                separator,
            ),
        pieces(s, separator).len() >= 1,
    decreases s.len(),
{
    let at = first_position(s, separator) as int;
    let parts = pieces(s, separator);
    lemma_first_position(s, separator);
    if at < s.len() {
        let rest = s.skip(at + 1);
        lemma_pieces_make_the_text(rest, separator);
        assert(parts.drop_first() =~= pieces(rest, separator));
        assert(linked(parts, separator) =~= s.take(at).push(separator) + rest);
        assert(s.take(at).push(separator) + rest =~= s);
        assert forall|i: int| 0 <= i < parts.len() implies !(#[trigger] parts[i]).contains(
            separator,
        ) by {
            if i > 0 {
                assert(parts[i] == pieces(rest, separator)[i - 1]);
            }
        }
    }
}

/// A text without the separator is its only piece.
pub proof fn lemma_one_piece(s: Seq<char>, separator: char)
    requires
        !s.contains(separator),
    ensures
        pieces(s, separator) == seq![s],
        last_piece(s, separator) == s,
{
    assert forall|i: int| 0 <= i < s.len() implies s[i] != separator by {
        assert(s.contains(s[i]));
    }
    lemma_first_position_is(s, separator, s.len() as int);
    assert(pieces(s, separator) =~= seq![s]);
}

/// The pieces of a text that starts with a part and a separator are that part and the pieces of the
/// rest.
pub proof fn lemma_first_piece(head: Seq<char>, separator: char, rest: Seq<char>)
    requires
        !head.contains(separator),
    ensures
        pieces(head.push(separator) + rest, separator) == seq![head] + pieces(rest, separator),
        last_piece(head.push(separator) + rest, separator) == last_piece(rest, separator),
{
    let s = head.push(separator) + rest;
    assert forall|i: int| 0 <= i < head.len() implies s[i] != separator by {
        assert(s[i] == head[i]);
        assert(head.contains(head[i]));
    }
    lemma_first_position_is(s, separator, head.len() as int);
    assert(s.take(head.len() as int) =~= head);
    assert(s.skip(head.len() as int + 1) =~= rest);
    lemma_pieces_nonempty(rest, separator);
}

/// What follows the last separator is the last piece, whatever stands before it.
pub proof fn lemma_last_piece(head: Seq<char>, separator: char, tail: Seq<char>)
    requires
        !tail.contains(separator),
    ensures
        last_piece(head.push(separator) + tail, separator) == tail,
    decreases head.len(),
{
    let at = first_position(head, separator) as int;
    lemma_first_position(head, separator);
    if at < head.len() {
        let rest = head.skip(at + 1);
        let first = head.take(at);
        assert(!first.contains(separator));
        lemma_last_piece(rest, separator, tail);
        assert(head.push(separator) + tail =~= first.push(separator) + (rest.push(separator)
            + tail));
        lemma_first_piece(first, separator, rest.push(separator) + tail);
    } else {
        assert(!head.contains(separator));
        lemma_first_piece(head, separator, tail);
        lemma_one_piece(tail, separator);
    }
}

/// The pieces of two texts with a separator between them are the pieces of the first and those of
/// the second.
pub proof fn lemma_pieces_of_both(head: Seq<char>, separator: char, rest: Seq<char>)
    ensures
        pieces(head.push(separator) + rest, separator) == pieces(head, separator) + pieces(
            rest,
            separator,
        ),
    decreases head.len(),
{
    let at = first_position(head, separator) as int;
    lemma_first_position(head, separator);
    if at < head.len() {
        let first = head.take(at);
        let tail = head.skip(at + 1);
        assert(!first.contains(separator));
        lemma_pieces_of_both(tail, separator, rest);
        assert(head.push(separator) + rest =~= first.push(separator) + (tail.push(separator)
            + rest));
        lemma_first_piece(first, separator, tail.push(separator) + rest);
        assert(seq![first] + (pieces(tail, separator) + pieces(rest, separator)) =~= (seq![first]
            + pieces(tail, separator)) + pieces(rest, separator));
    } else {
        assert(!head.contains(separator));
        lemma_first_piece(head, separator, rest);
        lemma_one_piece(head, separator);
    }
}

/// Two lists of texts are linked one after the other, with a separator between them.
pub proof fn lemma_linked_lists(head: Seq<Seq<char>>, separator: char, rest: Seq<Seq<char>>)
    requires
        head.len() > 0,
        rest.len() > 0,
    ensures
        linked(head + rest, separator) == linked(head, separator).push(separator) + linked(
            rest,
            separator,
        ),
    decreases head.len(),
{
    let all = head + rest;
    if head.len() == 1 {
        assert(all.drop_first() =~= rest);
    } else {
        lemma_linked_lists(head.drop_first(), separator, rest);
        assert(all.drop_first() =~= head.drop_first() + rest);
        assert(linked(all, separator) =~= linked(head, separator).push(separator) + linked(
            rest,
            separator,
        ));
    }
}

/// The words of a text hold its characters other than white space, all of them and in their order;
/// no word is empty or holds white space.
pub proof fn lemma_words_of(s: Seq<char>)
    ensures
        words(s).flatten() == s.filter(|c: char| !is_whitespace(c)),
        forall|i: int|
            0 <= i < words(s).len() ==> (#[trigger] words(s)[i]).len() > 0 && forall|k: int|
                0 <= k < words(s)[i].len() ==> !is_whitespace(#[trigger] words(s)[i][k]),
    decreases s.len(),
{
    let dark = |c: char| !is_whitespace(c);
    let start = trimmed_start(s);
    let skipped = s.take(s.len() - start.len());
    lemma_start_trimmed(s);
    assert(s =~= skipped + start);
    Seq::filter_distributes_over_add(skipped, start, dark);
    lemma_no_dark(skipped);
    assert(s.filter(dark) =~= start.filter(dark));
    if start.len() > 0 {
        let length = word_length(start) as int;
        let word = start.take(length);
        let rest = start.skip(length);
        lemma_word(start);
        lemma_word_length(start);
        lemma_words_of(rest);
        assert(start =~= word + rest);
        Seq::filter_distributes_over_add(word, rest, dark);
        lemma_all_dark(word);
        let all = words(s);
        assert(all[0] == word);
        assert(all.drop_first() =~= words(rest));
        assert(all.flatten() == all.first() + all.drop_first().flatten());
        assert forall|i: int| 0 <= i < all.len() implies (#[trigger] all[i]).len() > 0 && forall|
            k: int,
        |
            0 <= k < all[i].len() ==> !is_whitespace(#[trigger] all[i][k]) by {
            if i > 0 {
                assert(all[i] == words(rest)[i - 1]);
            }
        }
    } else {
        assert(words(s).flatten() =~= Seq::empty());
        reveal(Seq::filter);
        assert(start.filter(dark) =~= Seq::empty());
    }
}

proof fn lemma_no_dark(s: Seq<char>)
    requires
        all_space(s),
    ensures
        s.filter(|c: char| !is_whitespace(c)) == Seq::<char>::empty(),
    decreases s.len(),
{
    reveal(Seq::filter);
    if s.len() > 0 {
        let shorter = s.drop_last();
        assert forall|i: int| 0 <= i < shorter.len() implies is_whitespace(
            #[trigger] shorter[i],
        ) by {
            assert(shorter[i] == s[i]);
        }
        lemma_no_dark(shorter);
        assert(is_whitespace(s[s.len() - 1]));
    }
    assert(s.filter(|c: char| !is_whitespace(c)) =~= Seq::empty());
}

proof fn lemma_all_dark(s: Seq<char>)
    requires
        forall|i: int| 0 <= i < s.len() ==> !is_whitespace(#[trigger] s[i]),
    ensures
        s.filter(|c: char| !is_whitespace(c)) == s,
    decreases s.len(),
{
    reveal(Seq::filter);
    if s.len() > 0 {
        let shorter = s.drop_last();
        assert forall|i: int| 0 <= i < shorter.len() implies !is_whitespace(
            #[trigger] shorter[i],
        ) by {
            assert(shorter[i] == s[i]);
        }
        lemma_all_dark(shorter);
        assert(!is_whitespace(s[s.len() - 1]));
        assert(s =~= shorter.push(s.last()));
    }
    assert(s.filter(|c: char| !is_whitespace(c)) =~= s);
}

/// The first word ends at the first white space, or with the text.
proof fn lemma_word(s: Seq<char>)
    ensures
        word_length(s) <= s.len(),
        forall|i: int| 0 <= i < word_length(s) ==> !is_whitespace(#[trigger] s[i]),
        word_length(s) < s.len() ==> is_whitespace(s[word_length(s) as int]),
    decreases s.len(),
{
    if s.len() > 0 && !is_whitespace(s[0]) {
        lemma_word(s.skip(1));
        assert forall|i: int| 0 <= i < word_length(s) implies !is_whitespace(#[trigger] s[i]) by {
            if i > 0 {
                assert(s.skip(1)[i - 1] == s[i]);
            }
        }
    }
}

/// Two words apart by white space are two words: none is joined to its neighbour.
pub proof fn lemma_word_boundary(s: Seq<char>, word: Seq<char>, gap: char, rest: Seq<char>)
    requires
        s == word.push(gap) + rest,
        word.len() > 0,
        forall|i: int| 0 <= i < word.len() ==> !is_whitespace(#[trigger] word[i]),
        is_whitespace(gap),
    ensures
        words(s) == seq![word] + words(rest),
{
    assert(s[0] == word[0]);
    assert(!is_whitespace(s[0]));
    assert(trimmed_start(s) == s);
    lemma_word(s);
    let length = word_length(s) as int;
    if length < word.len() {
        assert(s[length] == word[length]);
    }
    if length > word.len() {
        assert(s[word.len() as int] == gap);
    }
    assert(s.take(length) =~= word);
    let after = s.skip(length);
    assert(after[0] == gap);
    assert(after.drop_first() =~= rest);
    assert(trimmed_start(after) == trimmed_start(rest));
    assert(words(after) == words(rest));
}

/// Texts are ordered by the first character at which they differ; a text stands before those that
/// continue it.
pub proof fn lemma_text_order_is_by_first_difference(left: Seq<char>, right: Seq<char>)
    ensures
        text_not_after(left, right) <==> (left.len() <= right.len() && right.take(
            left.len() as int,
        ) == left) || exists|at: int|
            0 <= at < left.len() && at < right.len() && left.take(at) == right.take(at)
                && #[trigger] left[at] < right[at],
    decreases left.len(),
{
    if left.len() == 0 {
        assert(right.take(0) =~= left);
    } else if right.len() > 0 {
        if left[0] == right[0] {
            let l = left.skip(1);
            let r = right.skip(1);
            lemma_text_order_is_by_first_difference(l, r);
            if text_not_after(left, right) {
                if l.len() <= r.len() && r.take(l.len() as int) == l {
                    assert forall|i: int| 0 <= i < left.len() implies right[i] == left[i] by {
                        if i > 0 {
                            assert(r.take(l.len() as int)[i - 1] == l[i - 1]);
                        }
                    }
                    assert(right.take(left.len() as int) =~= left);
                } else {
                    let at = choose|at: int|
                        0 <= at < l.len() && at < r.len() && l.take(at) == r.take(at)
                            && #[trigger] l[at] < r[at];
                    assert forall|i: int| 0 <= i < at + 1 implies left[i] == right[i] by {
                        if i > 0 {
                            assert(l.take(at)[i - 1] == r.take(at)[i - 1]);
                        }
                    }
                    assert(left.take(at + 1) =~= right.take(at + 1));
                    assert(left[at + 1] < right[at + 1]);
                }
            }
            if left.len() <= right.len() && right.take(left.len() as int) == left {
                assert forall|i: int| 0 <= i < l.len() implies r[i] == l[i] by {
                    assert(right.take(left.len() as int)[i + 1] == left[i + 1]);
                }
                assert(r.take(l.len() as int) =~= l);
            }
            if exists|at: int|
                0 <= at < left.len() && at < right.len() && left.take(at) == right.take(at)
                    && #[trigger] left[at] < right[at] {
                let at = choose|at: int|
                    0 <= at < left.len() && at < right.len() && left.take(at) == right.take(at)
                        && #[trigger] left[at] < right[at];
                assert forall|i: int| 0 <= i < at - 1 implies l[i] == r[i] by {
                    assert(left.take(at)[i + 1] == right.take(at)[i + 1]);
                }
                assert(l.take(at - 1) =~= r.take(at - 1));
                assert(l[at - 1] < r[at - 1]);
            }
        } else {
            if left[0] < right[0] {
                assert(left.take(0) =~= right.take(0));
            }
            if left.len() <= right.len() && right.take(left.len() as int) == left {
                assert(right.take(left.len() as int)[0] == right[0]);
            }
            if exists|at: int|
                0 <= at < left.len() && at < right.len() && left.take(at) == right.take(at)
                    && #[trigger] left[at] < right[at] {
                let at = choose|at: int|
                    0 <= at < left.len() && at < right.len() && left.take(at) == right.take(at)
                        && #[trigger] left[at] < right[at];
                if at > 0 {
                    assert(left.take(at)[0] == right.take(at)[0]);
                }
            }
        }
    }
}

/// A text is read as a number exactly when it is made of digits, behind one plus at most, and the
/// number is no greater than allowed; one more digit makes the number ten times as great, and adds
/// itself.
pub proof fn lemma_numbers_are_read(digits: Seq<char>, c: char, max: nat)
    requires
        '0' <= c <= '9',
    ensures
        parsed_unsigned(seq![c], max) == if c as u32 - 48 <= max {
            Some((c as u32 - 48) as nat)
        } else {
            None
        },
        digits.len() > 0 && digits[0] != '+' ==> (parsed_unsigned(digits.push(c), max) is Some
            <==> parsed_unsigned(digits, max) is Some && parsed_unsigned(digits, max)->0 * 10 + (
        c as u32 - 48) <= max),
        digits.len() > 0 && digits[0] != '+' && parsed_unsigned(digits.push(c), max) is Some
            ==> parsed_unsigned(digits.push(c), max)->0 == parsed_unsigned(digits, max)->0 * 10 + (
        c as u32 - 48),
        digits.len() > 0 && digits[0] != '+' ==> parsed_unsigned(seq!['+'] + digits, max)
            == parsed_unsigned(digits, max),
        parsed_unsigned(Seq::empty(), max) is None,
        parsed_unsigned(seq!['+'], max) is None,
        (exists|i: int|
            0 < i < digits.len() && !('0' <= #[trigger] digits[i] <= '9'))
            ==> parsed_unsigned(digits, max) is None,
{
    let one = seq![c];
    assert(one.drop_last() =~= Seq::empty());
    assert(digits_value(one.drop_last()) == 0);
    assert(without_plus(one) == one);
    assert(one[0] == c);
    assert(all_digits(one));
    let longer = digits.push(c);
    assert(longer.drop_last() =~= digits);
    if digits.len() > 0 && digits[0] != '+' {
        assert(longer[0] == digits[0]);
        if all_digits(longer) {
            assert forall|i: int| 0 <= i < digits.len() implies is_digit(#[trigger] digits[i]) by {
                assert(longer[i] == digits[i]);
            }
        }
        if all_digits(digits) {
            assert forall|i: int| 0 <= i < longer.len() implies is_digit(#[trigger] longer[i]) by {
                if i < digits.len() {
                    assert(longer[i] == digits[i]);
                }
            }
        }
        assert((seq!['+'] + digits).skip(1) =~= digits);
    }
    assert(without_plus(seq!['+']) =~= Seq::empty());
    if exists|i: int| 0 < i < digits.len() && !('0' <= #[trigger] digits[i] <= '9') {
        let i = choose|i: int| 0 < i < digits.len() && !('0' <= #[trigger] digits[i] <= '9');
        let bare = without_plus(digits);
        if digits[0] == '+' {
            assert(bare[i - 1] == digits[i]);
        } else {
            assert(bare[i] == digits[i]);
        }
    }
}

/// A number in decimal notation has no leading zero, and its digits add up to it.
pub proof fn lemma_decimal_notation(value: nat)
    ensures
        decimal_text(value).len() >= 1,
        value > 0 ==> decimal_text(value)[0] != '0',
        value < 10 ==> decimal_text(value) == seq![(48 + value) as char],
        value >= 10 ==> decimal_text(value) == decimal_text(value / 10).push(
            (48 + value % 10) as char,
        ),
        forall|i: int|
            0 <= i < decimal_text(value).len() ==> '0' <= #[trigger] decimal_text(value)[i] <= '9',
    decreases value,
{
    lemma_decimal_digits(value);
    if value >= 10 {
        lemma_decimal_notation(value / 10);
    }
    assert forall|i: int| 0 <= i < decimal_text(value).len() implies '0'
        <= #[trigger] decimal_text(value)[i] <= '9' by {
        assert(is_digit(decimal_text(value)[i]));
    }
}

/// Case is ignored for the letters from A to Z alone, and character by character.
pub proof fn lemma_letter_case(left: Seq<char>, right: Seq<char>)
    ensures
        lower(left).len() == left.len(),
        forall|i: int|
            0 <= i < left.len() ==> (#[trigger] lower(left)[i]) as u32 == if 'A' <= left[i]
                <= 'Z' {
                left[i] as u32 + 32
            } else {
                left[i] as u32 as int
            },
        same_ignoring_case(left, right) ==> left.len() == right.len(),
        same_ignoring_case(left, right) ==> forall|i: int|
            0 <= i < left.len() ==> (#[trigger] left[i] == right[i] || left[i] as u32 + 32
                == right[i] as u32 || right[i] as u32 + 32 == left[i] as u32),
{
    if same_ignoring_case(left, right) {
        assert(lower(left).len() == lower(right).len());
        assert forall|i: int| 0 <= i < left.len() implies (#[trigger] left[i] == right[i]
            || left[i] as u32 + 32 == right[i] as u32 || right[i] as u32 + 32
            == left[i] as u32) by {
            assert(lower(left)[i] == lower(right)[i]);
        }
    }
}

/// The value of a capital hexadecimal digit.
pub open spec fn hex_value(c: char) -> int {
    if '0' <= c <= '9' {
        c as u32 - 48
    } else {
        c as u32 - 55
    }
}

/// Four hexadecimal digits, read from the left, give the number back.
pub proof fn lemma_hex_word(value: int)
    requires
        0 <= value < 65536,
    ensures
        hex_word(value).len() == 4,
        hex_value(hex_word(value)[0]) * 4096 + hex_value(hex_word(value)[1]) * 256 + hex_value(
            hex_word(value)[2],
        ) * 16 + hex_value(hex_word(value)[3]) == value,
        forall|i: int|
            0 <= i < 4 ==> '0' <= #[trigger] hex_word(value)[i] <= '9' || 'A' <= hex_word(value)[i]
                <= 'F',
{
    assert forall|digit: int| 0 <= digit < 16 implies hex_value(
        #[trigger] capital_hex_char(digit),
    ) == digit && ('0' <= capital_hex_char(digit) <= '9' || 'A' <= capital_hex_char(digit)
        <= 'F') by {}
    assert(0 <= value / 4096 < 16);
}

/// A text begins with what it can be made of by adding to the end, ends with what it can be made of
/// by adding to the start, and has as parts what it can be made of by adding to both.
pub proof fn lemma_parts_of_texts(s: Seq<char>, part: Seq<char>)
    ensures
        begins_with(s, part) <==> exists|rest: Seq<char>| s == #[trigger] (part + rest),
        finishes_with(s, part) <==> exists|head: Seq<char>| s == #[trigger] (head + part),
        has_part(s, part) <==> exists|head: Seq<char>, rest: Seq<char>|
            s == #[trigger] (head + part + rest),
{
    if begins_with(s, part) {
        assert(s =~= part + s.skip(part.len() as int));
    }
    if exists|rest: Seq<char>| s == #[trigger] (part + rest) {
        assert(s.take(part.len() as int) =~= part);
    }
    if finishes_with(s, part) {
        assert(s =~= s.take(s.len() - part.len()) + part);
    }
    if exists|head: Seq<char>| s == #[trigger] (head + part) {
        assert(s.skip(s.len() - part.len()) =~= part);
    }
    if has_part(s, part) {
        let at = choose|at: int| stands_at(s, part, at);
        assert(s =~= s.take(at) + part + s.skip(at + part.len() as int));
    }
    if exists|head: Seq<char>, rest: Seq<char>| s == #[trigger] (head + part + rest) {
        let (head, rest) = choose|head: Seq<char>, rest: Seq<char>|
            s == #[trigger] (head + part + rest);
        assert(s.subrange(head.len() as int, head.len() as int + part.len()) =~= part);
        assert(stands_at(s, part, head.len() as int));
    }
}

/// White space: tabs, line ends, spaces of any width, and nothing else.
pub proof fn lemma_white_space(c: char)
    ensures
        is_whitespace(c) <==> {
            ||| c == '\t' || c == '\n' || c == '\u{b}' || c == '\u{c}' || c == '\r' || c == ' '
            ||| c == '\u{85}' || c == '\u{a0}' || c == '\u{1680}'
            ||| '\u{2000}' <= c <= '\u{200a}'
            ||| c == '\u{2028}' || c == '\u{2029}' || c == '\u{202f}' || c == '\u{205f}'
            ||| c == '\u{3000}'
        },
{
}

} // verus!
