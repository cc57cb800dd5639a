//! Text split at single characters, and numbers as people write them.

use vstd::prelude::*;
use vstd::string::*;

use crate::text::{
    all_digits, chars_of, numeral_value, parse_decimal, text_between, views,
};

verus! {

/// The parts of a text between occurrences of `c`.
pub open spec fn parts_between(text: Seq<char>, c: char) -> Seq<Seq<char>>
    decreases text.len(),
{
    if text.len() == 0 {
        seq![Seq::empty()]
    } else {
        let front = parts_between(text.drop_last(), c);
        if text.last() == c {
            front.push(Seq::empty())
        } else {
            front.drop_last().push(front.last().push(text.last()))
        }
    }
}

/// The parts of `text` between occurrences of `separator`.
pub fn split_on(text: &str, separator: char) -> (parts: Vec<String>)
    ensures
        views(parts@) == parts_between(text@, separator),
        parts@.len() > 0,
{
    let chars = chars_of(text);
    let mut parts: Vec<String> = Vec::new();
    let mut part = String::new();
    let mut i: usize = 0;
    assert(chars@.take(0) =~= Seq::<char>::empty());
    assert(views(parts@).push(part@) =~= seq![Seq::<char>::empty()]);
    while i < chars.len()
        invariant
            i <= chars@.len(),
            chars@ == text@,
            views(parts@).push(part@) == parts_between(chars@.take(i as int), separator),
        decreases chars.len() - i,
    {
        let ghost front = views(parts@).push(part@);
        let c = chars[i];
        assert(chars@.take(i + 1).drop_last() =~= chars@.take(i as int));
        assert(chars@.take(i + 1).last() == c);
        if c == separator {
            let ghost before = parts@;
            let ghost shown = part@;
            parts.push(part);
            part = String::new();
            assert(views(parts@) =~= views(before).push(shown));
            assert(views(parts@).push(part@) =~= front.push(Seq::empty()));
        } else {
            part.push(c);
            assert(front.drop_last() =~= views(parts@));
            assert(views(parts@).push(part@) =~= front.drop_last().push(front.last().push(c)));
        }
        i += 1;
    }
    assert(chars@.take(chars@.len() as int) =~= chars@);
    let ghost before = parts@;
    let ghost shown = part@;
    parts.push(part);
    assert(views(parts@) =~= views(before).push(shown));
    parts
}

/// A text up to the first occurrence of `c`, or all of it.
pub open spec fn up_to(text: Seq<char>, c: char) -> Seq<char>
    decreases text.len(),
{
    if text.len() == 0 || text[0] == c {
        Seq::empty()
    } else {
        seq![text[0]] + up_to(text.drop_first(), c)
    }
}

/// `text` up to the first occurrence of `stop`, or all of it.
pub fn cut_at(text: &str, stop: char) -> (r: String)
    ensures
        r@ == up_to(text@, stop),
{
    let chars = chars_of(text);
    let mut i: usize = 0;
    let mut r = String::new();
    assert(text@.skip(0) =~= text@);
    while i < chars.len() && chars[i] != stop
        invariant
            i <= chars@.len(),
            chars@ == text@,
            up_to(text@, stop) == r@ + up_to(text@.skip(i as int), stop),
        decreases chars.len() - i,
    {
        let ghost rest = text@.skip(i as int);
        let ghost before = r@;
        r.push(chars[i]);
        assert(rest.drop_first() =~= text@.skip(i + 1));
        assert(before + (seq![rest[0]] + up_to(rest.drop_first(), stop)) =~= r@ + up_to(
            rest.drop_first(),
            stop,
        ));
        i += 1;
    }
    assert(r@ + Seq::<char>::empty() =~= r@);
    r
}

/// The digits of an unsigned number, which a plus sign may precede.
pub open spec fn unsigned(text: Seq<char>) -> Seq<char> {
    if text.len() > 1 && text[0] == '+' {
        text.drop_first()
    } else {
        text
    }
}

/// The number that a text denotes, if it denotes one of 64 bits.
pub open spec fn number_of(text: Seq<char>) -> Option<u64> {
    let digits = unsigned(text);
    if all_digits(digits) && numeral_value(digits) <= u64::MAX {
        Some(numeral_value(digits) as u64)
    } else {
        None
    }
}

/// The number that `text` denotes.
pub fn parse_number(text: &str) -> (r: Option<u64>)
    ensures
        r == number_of(text@),
{
    let chars = chars_of(text);
    if chars.len() > 1 && chars[0] == '+' {
        let digits = text_between(&chars, 1, chars.len());
        assert(digits@ =~= text@.drop_first());
        parse_decimal(digits.as_str())
    } else {
        parse_decimal(text)
    }
}

/// Why a text denotes no number of 64 bits, for a reader.
pub uninterp spec fn number_fault(text: Seq<char>) -> Seq<char>;

/// `str::parse::<u64>` reads digits, behind a plus sign or not, that denote a
/// number of 64 bits. Of any other text it tells what is wrong.
#[verifier::external_body]
pub(crate) fn read_number(text: &str) -> (r: Result<u64, String>)
    ensures
        match r {
            Ok(number) => number_of(text@) == Some(number),
            Err(reason) => number_of(text@) is None && reason@ == number_fault(text@),
        },
{
    text.parse::<u64>().map_err(|error| error.to_string())
}

/// A text without the prefix, if it begins with it.
pub open spec fn without_prefix(text: Seq<char>, prefix: Seq<char>) -> Option<Seq<char>> {
    if prefix.is_prefix_of(text) {
        Some(text.skip(prefix.len() as int))
    } else {
        None
    }
}

/// `text` without `prefix`, if it begins with it.
pub fn strip_prefix(text: &str, prefix: &str) -> (r: Option<String>)
    ensures
        match r {
            Some(rest) => without_prefix(text@, prefix@) == Some(rest@),
            None => without_prefix(text@, prefix@) is None,
        },
{
    if !crate::text::has_prefix(text, prefix) {
        return None;
    }
    let chars = chars_of(text);
    let head = chars_of(prefix);
    let rest = text_between(&chars, head.len(), chars.len());
    assert(rest@ =~= text@.skip(prefix@.len() as int));
    Some(rest)
}

/// One version comes before another.
pub open spec fn older(a: (u64, u64, u64), b: (u64, u64, u64)) -> bool {
    a.0 < b.0 || (a.0 == b.0 && (a.1 < b.1 || (a.1 == b.1 && a.2 < b.2)))
}

/// Whether one version comes before another.
pub fn is_older(a: (u64, u64, u64), b: (u64, u64, u64)) -> (r: bool)
    ensures
        r == older(a, b),
{
    a.0 < b.0 || (a.0 == b.0 && (a.1 < b.1 || (a.1 == b.1 && a.2 < b.2)))
}

} // verus!
