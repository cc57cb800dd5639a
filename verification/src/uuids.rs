//! UUIDs as 128-bit numbers, and the `uuid` crate behind them.

use vstd::prelude::*;
use vstd::string::*;

use crate::text::{chars_of, is_ascii_digit};

verus! {

/// A lowercase hexadecimal digit.
pub open spec fn lower_hex(c: char) -> bool {
    '0' <= c <= '9' || 'a' <= c <= 'f'
}

/// The value of a lowercase hexadecimal digit.
pub open spec fn hex_digit_value(c: char) -> nat {
    if '0' <= c <= '9' {
        (c as u32 - '0' as u32) as nat
    } else {
        (c as u32 - 'a' as u32 + 10) as nat
    }
}

/// The lowercase hexadecimal digit of value `d`.
pub open spec fn hex_char(d: nat) -> char {
    if d < 10 {
        ('0' as u32 + d) as char
    } else {
        ('a' as u32 + d - 10) as char
    }
}

/// The number that a run of hexadecimal digits denotes.
pub open spec fn hex_value(text: Seq<char>) -> nat
    decreases text.len(),
{
    if text.len() == 0 {
        0
    } else {
        hex_value(text.drop_last()) * 16 + hex_digit_value(text.last())
    }
}

/// The last `width` hexadecimal digits of `value`, most significant first.
pub open spec fn hex_text(value: nat, width: nat) -> Seq<char>
    decreases width,
{
    if width == 0 {
        Seq::empty()
    } else {
        hex_text(value / 16, (width - 1) as nat).push(hex_char(value % 16))
    }
}

/// Sixteen to the power of `n`.
pub open spec fn pow16(n: nat) -> nat
    decreases n,
{
    if n == 0 {
        1
    } else {
        16 * pow16((n - 1) as nat)
    }
}

/// Text in the simple form of a UUID: 32 lowercase hexadecimal digits.
pub open spec fn simple_form(text: Seq<char>) -> bool {
    text.len() == 32 && forall|i: int| 0 <= i < text.len() ==> lower_hex(#[trigger] text[i])
}

/// The version field of a UUID.
pub open spec fn version_of(value: u128) -> int {
    (value as int / 0x1000_0000_0000_0000_0000) % 16
}

/// The simple form of a UUID.
pub open spec fn simple_text(value: u128) -> Seq<char> {
    hex_text(value as nat, 32)
}

/// Hexadecimal digits are lowercase, whatever the number.
pub proof fn lemma_hex_digits(value: nat, width: nat)
    ensures
        hex_text(value, width).len() == width,
        forall|i: int| 0 <= i < width ==> lower_hex(#[trigger] hex_text(value, width)[i]),
    decreases width,
{
    if width > 0 {
        lemma_hex_digits(value / 16, (width - 1) as nat);
    }
}

/// Reading the digits of a number back gives the number.
pub proof fn lemma_hex_round_trip(value: nat, width: nat)
    requires
        value < pow16(width),
    ensures
        hex_value(hex_text(value, width)) == value,
        hex_text(value, width).len() == width,
        forall|i: int| 0 <= i < width ==> lower_hex(#[trigger] hex_text(value, width)[i]),
    decreases width,
{
    if width > 0 {
        lemma_hex_round_trip(value / 16, (width - 1) as nat);
        assert(hex_text(value, width).drop_last() =~= hex_text(value / 16, (width - 1) as nat));
    }
}

/// Writing the number that digits denote gives the digits back.
pub proof fn lemma_hex_text_of_value(text: Seq<char>)
    requires
        forall|i: int| 0 <= i < text.len() ==> lower_hex(#[trigger] text[i]),
    ensures
        hex_text(hex_value(text), text.len()) == text,
        hex_value(text) < pow16(text.len()),
    decreases text.len(),
{
    if text.len() > 0 {
        let front = text.drop_last();
        assert forall|i: int| 0 <= i < front.len() implies lower_hex(#[trigger] front[i]) by {
            assert(front[i] == text[i]);
        }
        lemma_hex_text_of_value(front);
        assert(lower_hex(text.last()));
        assert(hex_char(hex_digit_value(text.last())) == text.last());
        assert(text =~= front.push(text.last()));
    } else {
        assert(text =~= Seq::<char>::empty());
    }
}

/// A 128-bit number has 32 hexadecimal digits.
pub proof fn lemma_simple_round_trip(value: u128)
    ensures
        simple_form(simple_text(value)),
        hex_value(simple_text(value)) == value,
{
    assert(pow16(32) == 0x1_0000_0000_0000_0000_0000_0000_0000_0000) by {
        reveal_with_fuel(pow16, 33);
    }
    lemma_hex_round_trip(value as nat, 32);
}

/// Whether `text` is in the simple form of a UUID.
pub fn is_simple_form(text: &str) -> (r: bool)
    ensures
        r == simple_form(text@),
{
    let chars = chars_of(text);
    if chars.len() != 32 {
        return false;
    }
    let mut i: usize = 0;
    while i < chars.len()
        invariant
            i <= chars@.len(),
            chars@ == text@,
            forall|j: int| 0 <= j < i ==> lower_hex(#[trigger] text@[j]),
        decreases chars.len() - i,
    {
        let c = chars[i];
        if !(is_ascii_digit(c) || ('a' <= c && c <= 'f')) {
            return false;
        }
        i += 1;
    }
    true
}

/// `Uuid::now_v7` makes a fresh UUID from the clock and random bits. Of its
/// value only the version field, which is 7, is claimed.
#[verifier::external_body]
pub(crate) fn now_v7() -> (value: u128)
    ensures
        version_of(value) == 7,
{
    uuid::Uuid::now_v7().as_u128()
}

/// `Uuid::parse_str` accepts the simple form and reads it as one big-endian
/// hexadecimal number.
#[verifier::external_body]
pub(crate) fn parse_simple(text: &str) -> (value: Option<u128>)
    requires
        simple_form(text@),
    ensures
        value is Some,
        value->0 == hex_value(text@),
{
    uuid::Uuid::parse_str(text).ok().map(|parsed| parsed.as_u128())
}

/// `Uuid::get_version_num` reads the four bits of the version field.
#[verifier::external_body]
pub(crate) fn version_number(value: u128) -> (version: usize)
    ensures
        version == version_of(value),
{
    uuid::Uuid::from_u128(value).get_version_num()
}

/// `Uuid::simple` writes 32 lowercase hexadecimal digits.
#[verifier::external_body]
pub(crate) fn write_simple(value: u128) -> (text: String)
    ensures
        text@ == simple_text(value),
{
    uuid::Uuid::from_u128(value).simple().to_string()
}

} // verus!
