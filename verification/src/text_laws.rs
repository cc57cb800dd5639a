//! What trimming, cutting and searching text give.

use vstd::prelude::*;
use vstd::string::*;

use crate::backend::{absolute, joined_path};
use crate::fields::{parts_between, without_prefix};
use crate::text::{trimmed, trimmed_end, trimmed_start, white_space};

verus! {

/// A text holds a part.
pub open spec fn holds_part(text: Seq<char>, part: Seq<char>) -> bool {
    exists|at: int|
        0 <= at <= text.len() - part.len() && #[trigger] text.subrange(at, at + part.len())
            == part
}

/// A text that is put together holds what it is put together of.
pub proof fn lemma_holds(before: Seq<char>, part: Seq<char>, after: Seq<char>)
    ensures
        holds_part(before + part + after, part),
        holds_part(before + part, part),
        holds_part(part + after, part),
{
    let at = before.len() as int;
    assert((before + part + after).subrange(at, at + part.len()) =~= part);
    assert((before + part).subrange(at, at + part.len()) =~= part);
    let at: int = 0;
    assert((part + after).subrange(at, at + part.len()) =~= part);
}

/// A text that goes on still holds what it held, and begins as it did.
pub proof fn lemma_keeps(text: Seq<char>, part: Seq<char>, more: Seq<char>)
    ensures
        holds_part(text, part) ==> holds_part(text + more, part),
        part.is_prefix_of(text) ==> part.is_prefix_of(text + more),
{
    if holds_part(text, part) {
        let at = choose|at: int|
            0 <= at <= text.len() - part.len() && #[trigger] text.subrange(at, at + part.len())
                == part;
        assert((text + more).subrange(at, at + part.len()) =~= text.subrange(at, at + part.len()));
    }
    if part.is_prefix_of(text) {
        let n = part.len() as int;
        assert((text + more).subrange(0, n) =~= text.subrange(0, n));
    }
}

/// Parts that stand next to each other stand in the text together.
pub proof fn lemma_holds_together(before: Seq<char>, a: Seq<char>, b: Seq<char>, c: Seq<char>)
    ensures
        holds_part(before + a + b, a + b),
        holds_part(before + a + b + c, a + b + c),
{
    let at = before.len() as int;
    assert(holds_part(before + a + b, a + b)) by {
        assert((before + a + b).subrange(at, at + (a + b).len()) =~= a + b);
    }
    assert(holds_part(before + a + b + c, a + b + c)) by {
        assert((before + a + b + c).subrange(at, at + (a + b + c).len()) =~= a + b + c);
    }
}

/// A text of several parts holds each of them.
pub proof fn lemma_holds_each(
    a: Seq<char>,
    b: Seq<char>,
    c: Seq<char>,
    d: Seq<char>,
    e: Seq<char>,
)
    ensures
        holds_part(a + b + c + d, b),
        holds_part(a + b + c + d, d),
        holds_part(a + b + c + d + e, b),
        holds_part(a + b + c + d + e, d),
        holds_part(a + b + c + d + e, e),
{
    lemma_holds(a, b, Seq::empty());
    lemma_keeps(a + b, b, c);
    lemma_keeps(a + b + c, b, d);
    lemma_keeps(a + b + c + d, b, e);
    lemma_holds(a + b + c, d, Seq::empty());
    lemma_keeps(a + b + c + d, d, e);
    lemma_holds(a + b + c + d, e, Seq::empty());
}

/// Trimming takes white space away, and nothing else: what is left begins and
/// ends with something else, and stands between white space in the text.
pub proof fn trimming_takes_only_white_space(text: Seq<char>)
    ensures
        ({
            let word = trimmed(text);
            &&& word.len() > 0 ==> !white_space(word[0]) && !white_space(word.last())
            &&& exists|at: int|
                0 <= at <= text.len() - word.len() && #[trigger] text.subrange(at, at + word.len())
                    == word && (forall|i: int| 0 <= i < at ==> white_space(#[trigger] text[i])) && (
                forall|i: int|
                    at + word.len() <= i < text.len() ==> white_space(#[trigger] text[i]))
        }),
{
    let start = trimmed_start(text);
    let word = trimmed(text);
    lemma_trimmed_start(text);
    lemma_trimmed_end(start);
    let at = text.len() - start.len();
    assert(text.subrange(at, at + word.len()) =~= word) by {
        assert forall|i: int| 0 <= i < word.len() implies text[at + i] == word[i] by {
            assert(start[i] == text.skip(at)[i]);
        }
    }
    assert forall|i: int| at + word.len() <= i < text.len() implies white_space(
        #[trigger] text[i],
    ) by {
        assert(text.skip(at)[i - at] == text[i]);
        assert(white_space(start[i - at]));
    }
    if word.len() > 0 {
        assert(word[0] == start[0]);
    }
}

/// Trimming the front leaves the end of the text.
proof fn lemma_trimmed_start(text: Seq<char>)
    ensures
        trimmed_start(text).len() <= text.len(),
        trimmed_start(text) == text.skip(text.len() - trimmed_start(text).len()),
        forall|i: int|
            0 <= i < text.len() - trimmed_start(text).len() ==> white_space(#[trigger] text[i]),
        trimmed_start(text).len() > 0 ==> !white_space(trimmed_start(text)[0]),
    decreases text.len(),
{
    if text.len() > 0 && white_space(text[0]) {
        let rest = text.drop_first();
        lemma_trimmed_start(rest);
        let at = text.len() - trimmed_start(text).len();
        assert(text.skip(at) =~= rest.skip(at - 1));
        assert forall|i: int| 0 <= i < at implies white_space(#[trigger] text[i]) by {
            if i > 0 {
                assert(text[i] == rest[i - 1]);
            }
        }
    } else {
        assert(text.skip(0) =~= text);
    }
}

/// Trimming the end leaves the front of the text.
proof fn lemma_trimmed_end(text: Seq<char>)
    ensures
        trimmed_end(text).len() <= text.len(),
        trimmed_end(text) == text.take(trimmed_end(text).len() as int),
        forall|i: int|
            trimmed_end(text).len() <= i < text.len() ==> white_space(#[trigger] text[i]),
        trimmed_end(text).len() > 0 ==> !white_space(trimmed_end(text).last()),
    decreases text.len(),
{
    if text.len() > 0 && white_space(text.last()) {
        let front = text.drop_last();
        lemma_trimmed_end(front);
        let end = trimmed_end(text).len() as int;
        assert(text.take(end) =~= front.take(end));
        assert forall|i: int| end <= i < text.len() implies white_space(#[trigger] text[i]) by {
            if i < front.len() {
                assert(text[i] == front[i]);
            }
        }
    } else {
        assert(text.take(text.len() as int) =~= text);
    }
}

/// A text is cut at a character exactly where the character stands: what stands
/// before it and what stands behind it are cut each for itself, and a text
/// without it is one part.
pub proof fn texts_are_cut_at_a_character(a: Seq<char>, c: char, b: Seq<char>)
    ensures
        parts_between(a + seq![c] + b, c) == parts_between(a, c) + parts_between(b, c),
        parts_between(a, c).len() > 0,
        !a.contains(c) ==> parts_between(a, c) == seq![a],
    decreases b.len(),
{
    lemma_parts(a, c);
    lemma_parts(b, c);
    let whole = a + seq![c] + b;
    if b.len() == 0 {
        assert(whole.drop_last() =~= a);
        assert(parts_between(b, c) =~= seq![Seq::empty()]);
        assert(parts_between(a, c).push(Seq::empty()) =~= parts_between(a, c) + parts_between(
            b,
            c,
        ));
    } else {
        let rest = b.drop_last();
        texts_are_cut_at_a_character(a, c, rest);
        lemma_parts(rest, c);
        assert(whole.drop_last() =~= a + seq![c] + rest);
        let front = parts_between(a, c) + parts_between(rest, c);
        let tail = parts_between(rest, c);
        assert(front.last() == tail.last());
        if b.last() == c {
            assert(front.push(Seq::empty()) =~= parts_between(a, c) + tail.push(Seq::empty()));
        } else {
            assert(front.drop_last().push(front.last().push(b.last())) =~= parts_between(a, c)
                + tail.drop_last().push(tail.last().push(b.last())));
        }
    }
}

/// A text has parts, and is one part where the character does not stand in it.
proof fn lemma_parts(text: Seq<char>, c: char)
    ensures
        parts_between(text, c).len() > 0,
        !text.contains(c) ==> parts_between(text, c) == seq![text],
    decreases text.len(),
{
    if text.len() > 0 {
        let front = text.drop_last();
        lemma_parts(front, c);
        if !text.contains(c) {
            assert(!front.contains(c)) by {
                if front.contains(c) {
                    let k = choose|k: int| 0 <= k < front.len() && front[k] == c;
                    assert(text[k] == c);
                }
            }
            assert(text.last() != c) by {
                assert(text[text.len() - 1] == text.last());
            }
            assert(parts_between(front, c) == seq![front]);
            assert(front.push(text.last()) =~= text);
            assert(parts_between(text, c) =~= seq![text]);
        }
    } else {
        assert(text =~= Seq::empty());
    }
}

/// A prefix is taken off where it stands, and nowhere else.
pub proof fn prefixes_are_taken_off(prefix: Seq<char>, rest: Seq<char>, text: Seq<char>)
    ensures
        without_prefix(prefix + rest, prefix) == Some(rest),
        without_prefix(text, prefix) matches Some(end) ==> text == prefix + end,
{
    assert((prefix + rest).skip(prefix.len() as int) =~= rest);
    assert(prefix.is_prefix_of(prefix + rest));
    if prefix.is_prefix_of(text) {
        assert(text =~= prefix + text.skip(prefix.len() as int));
    }
}

/// A path below a directory is the directory, a slash that is not doubled, and
/// the name.
pub proof fn names_stand_below_their_directory(directory: Seq<char>, name: Seq<char>)
    ensures
        directory.len() == 0 ==> joined_path(directory, name) == name,
        directory.len() > 0 && directory.last() == '/' ==> joined_path(directory, name)
            == directory + name,
        directory.len() > 0 && directory.last() != '/' ==> joined_path(directory, name)
            == directory.push('/') + name,
        directory.len() > 0 ==> absolute(joined_path(directory, name)) == absolute(directory),
        absolute(directory) <==> directory.len() > 0 && directory[0] == '/',
{
    reveal_strlit("/");
    assert("/"@ =~= seq!['/']);
    assert(directory + "/"@ =~= directory.push('/'));
    assert(Seq::<char>::empty() + name =~= name);
    if directory.len() == 0 {
        assert(directory + name =~= name);
    }
}

} // verus!
