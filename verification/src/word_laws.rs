//! What words, numerals and replaced texts are, and what redaction leaves out.

use vstd::prelude::*;
use vstd::string::*;

use crate::failure::{led_to, plain, FailureView};
use crate::fields::{number_of, older, up_to};
use crate::text::{
    all_digits, ascii_digit, collapsed, control, digit_char, joined, numeral, numeral_value,
    occurs, occurs_at, replaced, shortened, signed_numeral, white_space, words_of,
};
use crate::transport::{
    after_short_escape, lemma_after_short_escape_len, redacted, without_escapes,
};
use crate::uuids::{lemma_hex_digits, lemma_simple_round_trip, simple_text};

verus! {

/// The words of a text are its characters but for the white space, in order.
/// None is empty, and none holds white space.
pub proof fn words_hold_all_but_white_space(text: Seq<char>)
    ensures
        words_of(text).flatten() == text.filter(|c: char| !white_space(c)),
        forall|i: int|
            0 <= i < words_of(text).len() ==> (#[trigger] words_of(text)[i]).len() > 0 && forall|
                k: int,
            |
                0 <= k < words_of(text)[i].len() ==> !white_space(
                    #[trigger] words_of(text)[i][k],
                ),
        text.len() > 0 && !white_space(text.last()) ==> words_of(text).len() > 0,
    decreases text.len(),
{
    reveal(Seq::filter);
    let solid = |c: char| !white_space(c);
    if text.len() > 0 {
        let before = text.drop_last();
        let front = words_of(before);
        words_hold_all_but_white_space(before);
        let all = words_of(text);
        if white_space(text.last()) {
        } else if text.len() == 1 || white_space(text[text.len() - 2]) {
            front.lemma_flatten_push(seq![text.last()]);
            assert(all.flatten() =~= front.flatten().push(text.last()));
            assert forall|i: int| 0 <= i < all.len() implies (#[trigger] all[i]).len() > 0
                && forall|k: int| 0 <= k < all[i].len() ==> !white_space(#[trigger] all[i][k]) by {
                if i < front.len() {
                    assert(all[i] == front[i]);
                }
            }
        } else {
            assert(before.last() == text[text.len() - 2]);
            let fewer = front.drop_last();
            let word = front.last().push(text.last());
            fewer.lemma_flatten_push(front.last());
            assert(fewer.push(front.last()) =~= front);
            fewer.lemma_flatten_push(word);
            assert(all.flatten() =~= front.flatten().push(text.last()));
            assert forall|i: int| 0 <= i < all.len() implies (#[trigger] all[i]).len() > 0
                && forall|k: int| 0 <= k < all[i].len() ==> !white_space(#[trigger] all[i][k]) by {
                if i < fewer.len() {
                    assert(all[i] == front[i]);
                } else {
                    assert(front[front.len() - 1].len() > 0);
                    assert forall|k: int| 0 <= k < word.len() implies !white_space(
                        #[trigger] word[k],
                    ) by {
                        if k < front.last().len() {
                            assert(word[k] == front[front.len() - 1][k]);
                        }
                    }
                }
            }
        }
    } else {
        assert(words_of(text).flatten() =~= Seq::<char>::empty());
        assert(text.filter(solid) =~= Seq::<char>::empty());
    }
}

/// White space, and nothing else, parts words: what stands before it and behind
/// it have their own.
pub proof fn white_space_parts_words(a: Seq<char>, space: char, b: Seq<char>)
    requires
        white_space(space),
    ensures
        words_of(a.push(space) + b) == words_of(a) + words_of(b),
        b.len() > 0 && (forall|i: int| 0 <= i < b.len() ==> !white_space(#[trigger] b[i]))
            ==> words_of(b) == seq![b],
    decreases b.len(),
{
    let all = a.push(space) + b;
    if b.len() == 0 {
        assert(all =~= a.push(space));
        assert(all.drop_last() =~= a);
        assert(words_of(all) =~= words_of(a) + words_of(b));
    } else {
        let fewer = b.drop_last();
        white_space_parts_words(a, space, fewer);
        assert(all.drop_last() =~= a.push(space) + fewer);
        assert(all.last() == b.last());
        if b.len() == 1 {
            assert(all[all.len() - 2] == space);
            assert(fewer =~= Seq::<char>::empty());
            assert(words_of(fewer).len() == 0);
            if !white_space(b.last()) {
                assert(seq![b.last()] =~= b);
                assert(words_of(b) =~= seq![b]);
                assert(words_of(all) =~= words_of(a) + words_of(b));
            }
        } else {
            assert(all[all.len() - 2] == b[b.len() - 2]);
            assert(fewer.last() == b[b.len() - 2]);
            words_hold_all_but_white_space(fewer);
            assert(words_of(all) =~= words_of(a) + words_of(b));
            if forall|i: int| 0 <= i < b.len() ==> !white_space(#[trigger] b[i]) {
                assert forall|i: int| 0 <= i < fewer.len() implies !white_space(
                    #[trigger] fewer[i],
                ) by {
                    assert(fewer[i] == b[i]);
                }
                assert(words_of(fewer) == seq![fewer]);
                assert(fewer.push(b.last()) =~= b);
                assert(words_of(b) =~= seq![b]);
            }
        }
    }
}

/// Words that stand apart by single spaces are left as they are.
pub proof fn collapsed_words_stand_apart_by_one_space(text: Seq<char>)
    ensures
        collapsed(text) == joined(words_of(text), " "@),
        words_of(text).len() == 0 ==> collapsed(text).len() == 0,
        words_of(text).len() == 1 ==> collapsed(text) == words_of(text)[0],
        words_of(text).len() == 2 ==> collapsed(text) == words_of(text)[0] + " "@ + words_of(
            text,
        )[1],
{
    if words_of(text).len() == 2 {
        let words = words_of(text);
        assert(words.drop_last() =~= seq![words[0]]);
        reveal_with_fuel(joined, 2);
    }
}

/// Parts that are joined stand in order, with the separator between neighbours
/// alone.
pub proof fn parts_are_joined_in_order(
    parts: Seq<Seq<char>>,
    separator: Seq<char>,
    more: Seq<char>,
)
    ensures
        joined(Seq::empty(), separator).len() == 0,
        joined(seq![more], separator) == more,
        parts.len() > 0 ==> joined(parts.push(more), separator) == joined(parts, separator)
            + separator + more,
{
    assert(parts.push(more).drop_last() =~= parts);
}

/// The value of a numeral is its number, and a numeral has digits alone and no
/// zero in front.
pub proof fn numerals_are_read_back(n: nat)
    ensures
        numeral_value(numeral(n)) == n,
        all_digits(numeral(n)),
        n > 0 ==> numeral(n)[0] != '0',
    decreases n,
{
    reveal_with_fuel(numeral_value, 2);
    assert(digit_char(n % 10) as u32 == '0' as u32 + n % 10);
    if n < 10 {
        assert(numeral(n).drop_last() =~= Seq::<char>::empty());
    } else {
        numerals_are_read_back(n / 10);
        let front = numeral(n / 10);
        assert(numeral(n).drop_last() =~= front);
        assert forall|i: int| 0 <= i < numeral(n).len() implies ascii_digit(
            #[trigger] numeral(n)[i],
        ) by {
            if i < front.len() {
                assert(numeral(n)[i] == front[i]);
            }
        }
        assert(numeral(n)[0] == front[0]);
    }
}

/// A negative number has a minus sign before its size, and any other none.
pub proof fn only_negative_numbers_have_a_sign(n: int)
    ensures
        n < 0 ==> signed_numeral(n)[0] == '-' && numeral_value(signed_numeral(n).skip(1)) == -n,
        n >= 0 ==> numeral_value(signed_numeral(n)) == n && all_digits(signed_numeral(n)),
{
    if n < 0 {
        numerals_are_read_back((-n) as nat);
        assert(signed_numeral(n).skip(1) =~= numeral((-n) as nat));
    } else {
        numerals_are_read_back(n as nat);
    }
}

/// A number is read from its digits, with or without a plus sign, and from
/// nothing else.
pub proof fn numbers_are_read_from_digits(n: u64, text: Seq<char>)
    ensures
        number_of(numeral(n as nat)) == Some(n),
        number_of(seq!['+'] + numeral(n as nat)) == Some(n),
        number_of(text) is Some ==> text.len() > 0 && (text[0] == '+' || ascii_digit(text[0]))
            && forall|i: int| 1 <= i < text.len() ==> ascii_digit(#[trigger] text[i]),
        number_of(seq!['+']) is None,
        number_of(Seq::empty()) is None,
{
    numerals_are_read_back(n as nat);
    let digits = numeral(n as nat);
    assert(ascii_digit(digits[0]));
    assert((seq!['+'] + digits).drop_first() =~= digits);
    assert(!ascii_digit('+'));
    if number_of(text) is Some && text.len() > 1 && text[0] == '+' {
        let rest = text.drop_first();
        assert forall|i: int| 1 <= i < text.len() implies ascii_digit(#[trigger] text[i]) by {
            assert(rest[i - 1] == text[i]);
        }
    }
    assert(seq!['+'][0] == '+');
}

/// A text is cut right before the first occurrence of a character.
pub proof fn texts_are_cut_before_a_character(text: Seq<char>, c: char)
    ensures
        ({
            let head = up_to(text, c);
            &&& head.is_prefix_of(text)
            &&& !head.contains(c)
            &&& text.contains(c) ==> head.len() < text.len() && text[head.len() as int] == c
            &&& !text.contains(c) ==> head == text
        }),
    decreases text.len(),
{
    let head = up_to(text, c);
    if text.len() > 0 && text[0] != c {
        let rest = text.drop_first();
        texts_are_cut_before_a_character(rest, c);
        let tail = up_to(rest, c);
        assert(head =~= seq![text[0]] + tail);
        assert(rest.subrange(0, tail.len() as int) =~= tail);
        assert(text.subrange(0, head.len() as int) =~= head) by {
            assert forall|i: int| 0 <= i < head.len() implies text[i] == head[i] by {
                if i > 0 {
                    assert(head[i] == tail[i - 1]);
                    assert(rest[i - 1] == rest.subrange(0, tail.len() as int)[i - 1]);
                }
            }
        }
        if head.contains(c) {
            let k = choose|k: int| 0 <= k < head.len() && head[k] == c;
            assert(tail[k - 1] == c);
        }
        if text.contains(c) {
            let k = choose|k: int| 0 <= k < text.len() && text[k] == c;
            assert(rest[k - 1] == c);
        } else {
            if rest.contains(c) {
                let k = choose|k: int| 0 <= k < rest.len() && rest[k] == c;
                assert(text[k + 1] == c);
            }
            assert(head =~= text);
        }
    } else {
        assert(text.subrange(0, 0) =~= Seq::<char>::empty());
        if text.len() > 0 {
            assert(text.contains(c)) by {
                assert(text[0] == c);
            }
        } else {
            assert(head =~= text);
        }
    }
}

/// Of two versions that differ exactly one is older; the first number in which
/// they differ decides.
pub proof fn the_first_difference_decides(a: (u64, u64, u64), b: (u64, u64, u64))
    ensures
        a != b ==> older(a, b) != older(b, a),
        !older(a, a),
        a.0 != b.0 ==> older(a, b) == (a.0 < b.0),
        a.0 == b.0 && a.1 != b.1 ==> older(a, b) == (a.1 < b.1),
        a.0 == b.0 && a.1 == b.1 ==> older(a, b) == (a.2 < b.2),
{
}

/// A short text is left as it is. Of a long one the beginning is kept, with an
/// ellipsis behind it.
pub proof fn long_texts_are_cut(text: Seq<char>, max: int)
    requires
        max >= 0,
    ensures
        text.len() <= max ==> shortened(text, max) == text,
        text.len() > max ==> {
            let short = shortened(text, max);
            &&& short.len() == max + 1
            &&& short.last() == '…'
            &&& forall|i: int| 0 <= i < max ==> #[trigger] short[i] == text[i]
        },
{
}

/// A failure tells what led to it, the nearest first.
pub proof fn failures_tell_what_led_to_them(text: Seq<char>, cause: FailureView)
    ensures
        plain(text).full() == text,
        led_to(text, cause).chain() == seq![text] + cause.chain(),
        led_to(text, plain(cause.text)).full() == text + ": "@ + cause.text,
{
    reveal_with_fuel(joined, 3);
    assert(plain(text).chain() =~= seq![text]);
    let chain = led_to(text, plain(cause.text)).chain();
    assert(chain =~= seq![text, cause.text]);
    assert(chain.drop_last() =~= seq![text]);
}

/// Text in which a pattern does not occur is left as it is.
pub proof fn only_the_pattern_is_replaced(text: Seq<char>, pattern: Seq<char>, with: Seq<char>)
    ensures
        pattern.len() > 0 && !occurs(text, pattern) ==> replaced(text, pattern, with) == text,
        pattern.len() > 0 ==> replaced(pattern + text, pattern, with) == with + replaced(
            text,
            pattern,
            with,
        ),
    decreases text.len(),
{
    if pattern.len() > 0 {
        assert((pattern + text).take(pattern.len() as int) =~= pattern);
        assert((pattern + text).skip(pattern.len() as int) =~= text);
        if !occurs(text, pattern) && text.len() >= pattern.len() {
            if text.take(pattern.len() as int) == pattern {
                assert(text.subrange(0, pattern.len() as int) =~= text.take(pattern.len() as int));
                assert(occurs_at(text, pattern, 0));
            }
            let rest = text.drop_first();
            if occurs(rest, pattern) {
                let at = choose|at: int| #[trigger] occurs_at(rest, pattern, at);
                assert(text.subrange(at + 1, at + 1 + pattern.len()) =~= rest.subrange(
                    at,
                    at + pattern.len(),
                ));
                assert(occurs_at(text, pattern, at + 1));
            }
            only_the_pattern_is_replaced(rest, pattern, with);
            assert(seq![text[0]] + rest =~= text);
        }
    }
}

/// What a replaced text begins with before the first mark, the text begins with.
proof fn lemma_beginning(
    text: Seq<char>,
    pattern: Seq<char>,
    with: Seq<char>,
    start: Seq<char>,
)
    requires
        with.len() > 0,
        !start.contains(with[0]),
        start.len() <= replaced(text, pattern, with).len(),
        replaced(text, pattern, with).take(start.len() as int) == start,
    ensures
        start.len() <= text.len(),
        text.take(start.len() as int) == start,
    decreases text.len(),
{
    let result = replaced(text, pattern, with);
    if start.len() == 0 {
        assert(text.take(0) =~= start);
    } else if pattern.len() == 0 || text.len() < pattern.len() {
    } else if text.take(pattern.len() as int) == pattern {
        assert(result[0] == with[0]);
        assert(result.take(start.len() as int)[0] == start[0]);
        assert(start.contains(start[0]));
    } else {
        let rest = text.drop_first();
        let inner = replaced(rest, pattern, with);
        let fewer = start.drop_first();
        assert(inner.take(fewer.len() as int) =~= fewer) by {
            assert forall|i: int| 0 <= i < fewer.len() implies inner[i] == fewer[i] by {
                assert(result.take(start.len() as int)[i + 1] == start[i + 1]);
                assert(result[i + 1] == inner[i]);
            }
        }
        assert(!fewer.contains(with[0])) by {
            if fewer.contains(with[0]) {
                let k = choose|k: int| 0 <= k < fewer.len() && fewer[k] == with[0];
                assert(start[k + 1] == with[0]);
            }
        }
        lemma_beginning(rest, pattern, with, fewer);
        assert(text.take(start.len() as int) =~= start) by {
            assert(result.take(start.len() as int)[0] == start[0]);
            assert forall|i: int| 0 <= i < start.len() implies text[i] == start[i] by {
                if i > 0 {
                    assert(rest.take(fewer.len() as int)[i - 1] == fewer[i - 1]);
                }
            }
        }
    }
}

/// A word that the replacement cannot hold a part of does not occur behind the
/// replacement, if it is what is replaced or did not occur before.
proof fn lemma_gone(text: Seq<char>, pattern: Seq<char>, with: Seq<char>, word: Seq<char>)
    requires
        pattern.len() > 0,
        with.len() > 0,
        word.len() > with.len(),
        !word.contains(with[0]),
        !word.contains(with.last()),
        pattern == word || !occurs(text, word),
    ensures
        !occurs(replaced(text, pattern, with), word),
    decreases text.len(),
{
    let result = replaced(text, pattern, with);
    if occurs(result, word) {
        let at = choose|at: int| #[trigger] occurs_at(result, word, at);
        if text.len() < pattern.len() {
            assert(result == text);
            assert(occurs_at(text, word, at));
        } else if text.take(pattern.len() as int) == pattern {
            let rest = text.skip(pattern.len() as int);
            let inner = replaced(rest, pattern, with);
            if pattern != word && occurs(rest, word) {
                let k = choose|k: int| #[trigger] occurs_at(rest, word, k);
                let there = k + pattern.len();
                assert(text.subrange(there, there + word.len()) =~= rest.subrange(
                    k,
                    k + word.len(),
                ));
                assert(occurs_at(text, word, there));
            }
            lemma_gone(rest, pattern, with, word);
            if at >= with.len() {
                let k = at - with.len();
                assert(inner.subrange(k, k + word.len()) =~= result.subrange(at, at + word.len()));
                assert(occurs_at(inner, word, k));
            } else {
                let k = with.len() - 1 - at;
                assert(result.subrange(at, at + word.len())[k] == result[at + k]);
                assert(word[k] == with.last());
                assert(word.contains(with.last()));
            }
        } else {
            let rest = text.drop_first();
            let inner = replaced(rest, pattern, with);
            if pattern != word && occurs(rest, word) {
                let k = choose|k: int| #[trigger] occurs_at(rest, word, k);
                assert(text.subrange(k + 1, k + 1 + word.len()) =~= rest.subrange(
                    k,
                    k + word.len(),
                ));
                assert(occurs_at(text, word, k + 1));
            }
            lemma_gone(rest, pattern, with, word);
            if at >= 1 {
                assert(inner.subrange(at - 1, at - 1 + word.len()) =~= result.subrange(
                    at,
                    at + word.len(),
                ));
                assert(occurs_at(inner, word, at - 1));
            } else {
                assert(result.take(word.len() as int) =~= result.subrange(at, at + word.len()));
                lemma_beginning(text, pattern, with, word);
                assert(text.subrange(0, word.len() as int) =~= text.take(word.len() as int));
                assert(occurs_at(text, word, 0));
            }
        }
    }
}

/// No redacted text holds the proof of ownership, and one in which it is not
/// mentioned is left as it is.
pub proof fn redacted_texts_do_not_hold_the_proof(text: Seq<char>, proof_uuid: u128)
    ensures
        !occurs(redacted(text, simple_text(proof_uuid)), simple_text(proof_uuid)),
        !occurs(text, simple_text(proof_uuid)) && !occurs(text, "TETHER_OWNERSHIP_PROOF"@)
            ==> redacted(text, simple_text(proof_uuid)) == text,
{
    let word = simple_text(proof_uuid);
    let hidden = "[redacted ownership proof]"@;
    let name = "TETHER_OWNERSHIP_PROOF"@;
    let assignment = "TETHER_OWNERSHIP_PROOF="@ + word;
    reveal_strlit("[redacted ownership proof]");
    reveal_strlit("TETHER_OWNERSHIP_PROOF");
    reveal_strlit("TETHER_OWNERSHIP_PROOF=");
    lemma_simple_round_trip(proof_uuid);
    lemma_hex_digits(proof_uuid as nat, 32);
    assert(hidden[0] == '[' && hidden.last() == ']' && hidden.len() == 26);
    assert(word.len() == 32);
    assert(!word.contains('[') && !word.contains(']'));
    let once = replaced(text, assignment, hidden);
    let twice = replaced(once, word, hidden);
    lemma_gone(once, word, hidden, word);
    lemma_gone(twice, name, hidden, word);
    if !occurs(text, word) && !occurs(text, name) {
        if occurs(text, assignment) {
            let at = choose|at: int| #[trigger] occurs_at(text, assignment, at);
            let there = at + 23;
            assert(text.subrange(there, there + word.len()) =~= word) by {
                assert forall|i: int| 0 <= i < word.len() implies text[there + i] == word[i] by {
                    assert(text.subrange(at, at + assignment.len())[23 + i] == assignment[23 + i]);
                }
            }
            assert(occurs_at(text, word, there));
        }
        only_the_pattern_is_replaced(text, assignment, hidden);
        only_the_pattern_is_replaced(text, word, hidden);
        only_the_pattern_is_replaced(text, name, hidden);
    }
}

/// Text without control characters is left as it is, and whatever comes in, none
/// comes out.
pub proof fn escapes_are_left_out(text: Seq<char>)
    ensures
        (forall|i: int| 0 <= i < text.len() ==> !control(#[trigger] text[i])) ==> without_escapes(
            text,
        ) == text,
        forall|i: int|
            0 <= i < without_escapes(text).len() ==> !control(#[trigger] without_escapes(text)[i]),
    decreases text.len(),
{
    assert(control('\x1b'));
    if text.len() == 0 {
        assert(without_escapes(text) =~= text);
    } else {
        let rest = text.drop_first();
        if text[0] == '\x1b' {
            lemma_after_short_escape_len(rest);
            escapes_are_left_out(after_short_escape(rest));
            assert(without_escapes(text) == without_escapes(after_short_escape(rest)));
            assert(control(text[0]));
        } else {
            escapes_are_left_out(rest);
            let clean = without_escapes(rest);
            assert forall|i: int| 0 <= i < without_escapes(text).len() implies !control(
                #[trigger] without_escapes(text)[i],
            ) by {
                if i > 0 {
                    assert(without_escapes(text)[i] == clean[i - 1]);
                }
            }
            if forall|i: int| 0 <= i < text.len() ==> !control(#[trigger] text[i]) {
                assert forall|i: int| 0 <= i < rest.len() implies !control(#[trigger] rest[i]) by {
                    assert(rest[i] == text[i + 1]);
                }
                assert(!control(text[0]));
                assert(seq![text[0]] + rest =~= text);
            }
        }
    }
}

} // verus!
