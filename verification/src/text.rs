//! Text as sequences of characters: conversions, classification, trimming,
//! searching and decimal numerals.

use vstd::prelude::*;
use vstd::string::*;
use vstd::utf8::*;

verus! {

/// `String::push` appends one character at the end.
pub assume_specification[ String::push ](text: &mut String, c: char)
    ensures
        final(text)@ == old(text)@.push(c),
;

/// `str == str` of the standard library holds exactly for equal characters.
#[verifier::external_body]
pub(crate) fn same_text(a: &str, b: &str) -> (same: bool)
    ensures
        same == (a@ == b@),
{
    a == b
}

/// Why bytes are not UTF-8, for a reader.
pub uninterp spec fn utf8_fault(bytes: Seq<u8>) -> Seq<char>;

/// `std::str::from_utf8` accepts exactly the bytes that are UTF-8, and the text
/// is what they encode. Of other bytes it tells what is wrong.
#[verifier::external_body]
pub(crate) fn decode(bytes: &Vec<u8>) -> (text: Result<String, String>)
    ensures
        match text {
            Ok(text) => valid_utf8(bytes@) && text@ == decode_utf8(bytes@),
            Err(reason) => !valid_utf8(bytes@) && reason@ == utf8_fault(bytes@),
        },
{
    std::str::from_utf8(bytes).map(str::to_owned).map_err(|error| error.to_string())
}

/// The text that bytes show when each part that is not UTF-8 is replaced.
pub uninterp spec fn lossy_text(bytes: Seq<u8>) -> Seq<char>;

/// `String::from_utf8_lossy` replaces each part that is not UTF-8; bytes that
/// are UTF-8 are shown as they are.
#[verifier::external_body]
pub(crate) fn lossy(bytes: &Vec<u8>) -> (text: String)
    ensures
        text@ == lossy_text(bytes@),
        valid_utf8(bytes@) ==> text@ == decode_utf8(bytes@),
{
    String::from_utf8_lossy(bytes).into_owned()
}

/// The number of bytes that the UTF-8 encoding of `text` takes.
pub open spec fn byte_len(text: Seq<char>) -> nat {
    encode_utf8(text).len()
}

/// The bytes of two texts in a row are those of the one and then of the other.
pub proof fn lemma_encode_add(a: Seq<char>, b: Seq<char>)
    ensures
        encode_utf8(a + b) == encode_utf8(a) + encode_utf8(b),
    decreases a.len(),
{
    if a.len() == 0 {
        assert(a + b =~= b);
        assert(encode_utf8(a) + encode_utf8(b) =~= encode_utf8(b));
    } else {
        assert((a + b).drop_first() =~= a.drop_first() + b);
        lemma_encode_add(a.drop_first(), b);
        assert(encode_utf8(a + b) =~= encode_utf8(a) + encode_utf8(b));
    }
}

/// The byte length of two texts in a row is the sum of their byte lengths.
pub proof fn lemma_byte_len_add(a: Seq<char>, b: Seq<char>)
    ensures
        byte_len(a + b) == byte_len(a) + byte_len(b),
    decreases a.len(),
{
    if a.len() == 0 {
        assert(a + b =~= b);
    } else {
        assert((a + b).drop_first() =~= a.drop_first() + b);
        lemma_byte_len_add(a.drop_first(), b);
    }
}

/// A character takes at least one byte.
pub proof fn lemma_byte_len_at_least_chars(text: Seq<char>)
    ensures
        byte_len(text) >= text.len(),
    decreases text.len(),
{
    if text.len() > 0 {
        lemma_byte_len_at_least_chars(text.drop_first());
    }
}

/// The number of bytes of `text`.
pub fn byte_length(text: &str) -> (len: usize)
    ensures
        len == byte_len(text@),
{
    text.as_bytes().len()
}

/// The characters of `text`, in order.
pub fn chars_of(text: &str) -> (chars: Vec<char>)
    ensures
        chars@ == text@,
{
    let mut chars: Vec<char> = Vec::new();
    for c in it: text.chars()
        invariant
            chars@ == text@.take(it.index() as int),
            it.seq() == text@,
    {
        chars.push(c);
        assert(text@.take(it.index() as int).push(c) =~= text@.take(it.index() + 1));
    }
    assert(text@.take(text@.len() as int) =~= text@);
    chars
}

/// The text made of `chars[from..to]`.
pub fn text_between(chars: &Vec<char>, from: usize, to: usize) -> (text: String)
    requires
        from <= to <= chars@.len(),
    ensures
        text@ == chars@.subrange(from as int, to as int),
{
    let mut text = String::new();
    let mut i: usize = from;
    while i < to
        invariant
            from <= i <= to <= chars@.len(),
            text@ == chars@.subrange(from as int, i as int),
        decreases to - i,
    {
        text.push(chars[i]);
        i += 1;
        assert(chars@.subrange(from as int, i as int) =~= chars@.subrange(
            from as int,
            i - 1,
        ).push(chars@[i - 1]));
    }
    text
}

/// The text made of all of `chars`.
pub fn text_of(chars: &Vec<char>) -> (text: String)
    ensures
        text@ == chars@,
{
    let text = text_between(chars, 0, chars.len());
    assert(chars@.subrange(0, chars@.len() as int) =~= chars@);
    text
}

/// A control character: the C0 and C1 ranges and DEL.
pub open spec fn control(c: char) -> bool {
    c as u32 <= 0x1f || 0x7f <= c as u32 <= 0x9f
}

/// Whether `c` is a control character.
pub fn is_control(c: char) -> (r: bool)
    ensures
        r == control(c),
{
    let code: u32 = c as u32;
    code <= 0x1f || (0x7f <= code && code <= 0x9f)
}

/// A white-space character in the sense of Unicode.
pub open spec fn white_space(c: char) -> bool {
    let code = c as u32;
    ||| 0x09 <= code <= 0x0d
    ||| code == 0x20
    ||| code == 0x85
    ||| code == 0xa0
    ||| code == 0x1680
    ||| 0x2000 <= code <= 0x200a
    ||| code == 0x2028
    ||| code == 0x2029
    ||| code == 0x202f
    ||| code == 0x205f
    ||| code == 0x3000
}

/// Whether `c` is white space.
pub fn is_white_space(c: char) -> (r: bool)
    ensures
        r == white_space(c),
{
    let code: u32 = c as u32;
    (0x09 <= code && code <= 0x0d) || code == 0x20 || code == 0x85 || code == 0xa0 || code == 0x1680
        || (0x2000 <= code && code <= 0x200a) || code == 0x2028 || code == 0x2029 || code == 0x202f
        || code == 0x205f || code == 0x3000
}

/// A printable ASCII character other than the space.
pub open spec fn ascii_graphic(c: char) -> bool {
    '!' <= c <= '~'
}

/// An ASCII digit.
pub open spec fn ascii_digit(c: char) -> bool {
    '0' <= c <= '9'
}

/// A lowercase ASCII letter.
pub open spec fn ascii_lower(c: char) -> bool {
    'a' <= c <= 'z'
}

/// An ASCII letter or digit.
pub open spec fn ascii_alphanumeric(c: char) -> bool {
    ascii_digit(c) || ascii_lower(c) || 'A' <= c <= 'Z'
}

/// Whether `c` is an ASCII digit.
pub fn is_ascii_digit(c: char) -> (r: bool)
    ensures
        r == ascii_digit(c),
{
    '0' <= c && c <= '9'
}

/// Whether `c` is a lowercase ASCII letter.
pub fn is_ascii_lower(c: char) -> (r: bool)
    ensures
        r == ascii_lower(c),
{
    'a' <= c && c <= 'z'
}

/// Whether `c` is a printable ASCII character other than the space.
pub fn is_ascii_graphic(c: char) -> (r: bool)
    ensures
        r == ascii_graphic(c),
{
    '!' <= c && c <= '~'
}

/// Whether `c` is an ASCII letter or digit.
pub fn is_ascii_alphanumeric(c: char) -> (r: bool)
    ensures
        r == ascii_alphanumeric(c),
{
    is_ascii_digit(c) || is_ascii_lower(c) || ('A' <= c && c <= 'Z')
}

/// Text that holds nothing but white space.
pub open spec fn blank(text: Seq<char>) -> bool {
    forall|i: int| 0 <= i < text.len() ==> white_space(#[trigger] text[i])
}

/// Whether `text` holds nothing but white space.
pub fn is_blank(text: &str) -> (r: bool)
    ensures
        r == blank(text@),
{
    let chars = chars_of(text);
    let mut i: usize = 0;
    while i < chars.len()
        invariant
            i <= chars@.len(),
            chars@ == text@,
            forall|j: int| 0 <= j < i ==> white_space(#[trigger] text@[j]),
        decreases chars.len() - i,
    {
        if !is_white_space(chars[i]) {
            return false;
        }
        i += 1;
    }
    true
}


/// `text` without the white space at its end.
pub open spec fn trimmed_end(text: Seq<char>) -> Seq<char>
    decreases text.len(),
{
    if text.len() > 0 && white_space(text.last()) {
        trimmed_end(text.drop_last())
    } else {
        text
    }
}

/// `text` without the white space at its front.
pub open spec fn trimmed_start(text: Seq<char>) -> Seq<char>
    decreases text.len(),
{
    if text.len() > 0 && white_space(text[0]) {
        trimmed_start(text.drop_first())
    } else {
        text
    }
}

/// `text` without the white space at both ends.
pub open spec fn trimmed(text: Seq<char>) -> Seq<char> {
    trimmed_end(trimmed_start(text))
}

/// `text` without the white space at both ends.
pub fn trim(text: &str) -> (r: String)
    ensures
        r@ == trimmed(text@),
{
    let chars = chars_of(text);
    let mut from: usize = 0;
    assert(chars@.skip(0) =~= chars@);
    while from < chars.len() && is_white_space(chars[from])
        invariant
            from <= chars@.len(),
            trimmed_start(chars@) == trimmed_start(chars@.skip(from as int)),
        decreases chars.len() - from,
    {
        assert(chars@.skip(from as int)[0] == chars@[from as int]);
        assert(chars@.skip(from as int).drop_first() =~= chars@.skip(from + 1));
        from += 1;
    }
    let ghost rest = chars@.skip(from as int);
    assert(trimmed_start(chars@) == rest) by {
        if from < chars@.len() {
            assert(rest[0] == chars@[from as int]);
        }
    }
    let mut to: usize = chars.len();
    assert(chars@.subrange(from as int, to as int) =~= rest);
    while from < to && is_white_space(chars[to - 1])
        invariant
            from <= to <= chars@.len(),
            trimmed_end(rest) == trimmed_end(chars@.subrange(from as int, to as int)),
        decreases to,
    {
        let ghost part = chars@.subrange(from as int, to as int);
        assert(part.last() == chars@[to - 1]);
        assert(part.drop_last() =~= chars@.subrange(from as int, to - 1));
        to -= 1;
    }
    assert(trimmed_end(chars@.subrange(from as int, to as int)) == chars@.subrange(
        from as int,
        to as int,
    )) by {
        if from < to {
            assert(chars@.subrange(from as int, to as int).last() == chars@[to - 1]);
        }
    }
    text_between(&chars, from, to)
}

/// Whether `text` begins with `prefix`.
pub fn has_prefix(text: &str, prefix: &str) -> (r: bool)
    ensures
        r == prefix@.is_prefix_of(text@),
{
    let chars = chars_of(text);
    let head = chars_of(prefix);
    if head.len() > chars.len() {
        return false;
    }
    let mut i: usize = 0;
    while i < head.len()
        invariant
            i <= head@.len() <= chars@.len(),
            chars@ == text@,
            head@ == prefix@,
            forall|j: int| 0 <= j < i ==> head@[j] == chars@[j],
        decreases head.len() - i,
    {
        if head[i] != chars[i] {
            assert(text@.subrange(0, prefix@.len() as int)[i as int] == text@[i as int]);
            return false;
        }
        i += 1;
    }
    assert(prefix@ =~= text@.subrange(0, prefix@.len() as int));
    true
}

/// `text` occurs in `whole` at position `at`.
pub open spec fn occurs_at(whole: Seq<char>, text: Seq<char>, at: int) -> bool {
    0 <= at && at + text.len() <= whole.len() && whole.subrange(at, at + text.len()) == text
}

/// `text` occurs somewhere in `whole`.
pub open spec fn occurs(whole: Seq<char>, text: Seq<char>) -> bool {
    exists|at: int| #[trigger] occurs_at(whole, text, at)
}

/// Whether `part` occurs somewhere in `whole`.
pub fn contains_text(whole: &str, part: &str) -> (r: bool)
    ensures
        r == occurs(whole@, part@),
{
    let chars = chars_of(whole);
    let needle = chars_of(part);
    if needle.len() > chars.len() {
        return false;
    }
    let total: usize = chars.len();
    let mut at: usize = 0;
    while at <= total - needle.len()
        invariant
            total == chars@.len(),
            at <= chars@.len() - needle@.len() + 1,
            needle@.len() <= chars@.len(),
            chars@ == whole@,
            needle@ == part@,
            forall|a: int| 0 <= a < at ==> !#[trigger] occurs_at(whole@, part@, a),
        decreases chars@.len() - needle@.len() + 1 - at,
    {
        let mut i: usize = 0;
        while i < needle.len() && chars[at + i] == needle[i]
            invariant
                total == chars@.len(),
                i <= needle@.len(),
                at <= chars@.len() - needle@.len(),
                forall|j: int| 0 <= j < i ==> chars@[at + j] == #[trigger] needle@[j],
            decreases needle.len() - i,
        {
            i += 1;
        }
        if i == needle.len() {
            assert(whole@.subrange(at as int, at + part@.len()) =~= part@);
            assert(occurs_at(whole@, part@, at as int));
            return true;
        }
        assert(!occurs_at(whole@, part@, at as int)) by {
            assert(whole@.subrange(at as int, at + part@.len())[i as int] == whole@[at + i]);
        }
        at += 1;
    }
    false
}

/// The decimal numeral of `n`, without leading zeros.
pub open spec fn numeral(n: nat) -> Seq<char>
    decreases n,
{
    if n < 10 {
        seq![digit_char(n)]
    } else {
        numeral(n / 10).push(digit_char(n % 10))
    }
}

/// The character of a decimal digit.
pub open spec fn digit_char(d: nat) -> char {
    ('0' as u32 + d) as char
}

/// The character of the digit `d`.
fn digit(d: u64) -> (c: char)
    requires
        d < 10,
    ensures
        c == digit_char(d as nat),
{
    match d {
        0 => '0',
        1 => '1',
        2 => '2',
        3 => '3',
        4 => '4',
        5 => '5',
        6 => '6',
        7 => '7',
        8 => '8',
        _ => '9',
    }
}

/// The decimal numeral of `n`.
pub fn decimal(n: u64) -> (text: String)
    ensures
        text@ == numeral(n as nat),
    decreases n,
{
    if n < 10 {
        let mut text = String::new();
        text.push(digit(n));
        assert(text@ =~= seq![digit_char(n as nat)]);
        text
    } else {
        let mut text = decimal(n / 10);
        text.push(digit(n % 10));
        text
    }
}

/// The decimal numeral of a number that may be negative.
pub open spec fn signed_numeral(n: int) -> Seq<char> {
    if n < 0 {
        seq!['-'] + numeral((-n) as nat)
    } else {
        numeral(n as nat)
    }
}

/// The decimal numeral of `n`.
pub fn signed_decimal(n: i32) -> (text: String)
    ensures
        text@ == signed_numeral(n as int),
{
    if n < 0 {
        let mut text = String::new();
        text.push('-');
        text.append(decimal((-(n as i64)) as u64).as_str());
        assert(text@ =~= seq!['-'] + numeral((-n) as nat));
        text
    } else {
        decimal(n as u64)
    }
}

/// The value of a numeral, read digit by digit.
pub open spec fn numeral_value(text: Seq<char>) -> nat
    decreases text.len(),
{
    if text.len() == 0 {
        0
    } else {
        numeral_value(text.drop_last()) * 10 + (text.last() as u32 - '0' as u32) as nat
    }
}

/// Text made of at least one digit and nothing else.
pub open spec fn all_digits(text: Seq<char>) -> bool {
    text.len() > 0 && forall|i: int| 0 <= i < text.len() ==> ascii_digit(#[trigger] text[i])
}

/// Leading digits never exceed the whole.
proof fn lemma_numeral_value_monotone(text: Seq<char>, k: int)
    requires
        0 <= k <= text.len(),
        forall|i: int| 0 <= i < text.len() ==> ascii_digit(#[trigger] text[i]),
    ensures
        numeral_value(text.take(k)) <= numeral_value(text),
    decreases text.len() - k,
{
    if k == text.len() {
        assert(text.take(k) =~= text);
    } else {
        lemma_numeral_value_monotone(text, k + 1);
        assert(text.take(k + 1).drop_last() =~= text.take(k));
        assert(text.take(k + 1).last() == text[k]);
    }
}

/// The value of a run of digits, if it is one and fits in 64 bits.
pub fn parse_decimal(text: &str) -> (r: Option<u64>)
    ensures
        r is Some <==> all_digits(text@) && numeral_value(text@) <= u64::MAX,
        r is Some ==> r->0 == numeral_value(text@),
{
    let chars = chars_of(text);
    if chars.len() == 0 {
        return None;
    }
    let mut i: usize = 0;
    while i < chars.len()
        invariant
            i <= chars@.len(),
            chars@ == text@,
            forall|j: int| 0 <= j < i ==> ascii_digit(#[trigger] text@[j]),
        decreases chars.len() - i,
    {
        if !is_ascii_digit(chars[i]) {
            return None;
        }
        i += 1;
    }
    let mut value: u64 = 0;
    let mut k: usize = 0;
    while k < chars.len()
        invariant
            k <= chars@.len(),
            chars@ == text@,
            value == numeral_value(text@.take(k as int)),
            forall|j: int| 0 <= j < text@.len() ==> ascii_digit(#[trigger] text@[j]),
        decreases chars.len() - k,
    {
        let d: u64 = (chars[k] as u32 - '0' as u32) as u64;
        proof {
            assert(text@.take(k + 1).drop_last() =~= text@.take(k as int));
            assert(text@.take(k + 1).last() == text@[k as int]);
            lemma_numeral_value_monotone(text@, k + 1);
        }
        match value.checked_mul(10) {
            None => {
                return None;
            },
            Some(shifted) => match shifted.checked_add(d) {
                None => {
                    return None;
                },
                Some(sum) => {
                    value = sum;
                },
            },
        }
        k += 1;
    }
    assert(text@.take(text@.len() as int) =~= text@);
    Some(value)
}

/// The items of `parts` with `separator` between neighbours.
pub open spec fn joined(parts: Seq<Seq<char>>, separator: Seq<char>) -> Seq<char>
    decreases parts.len(),
{
    if parts.len() == 0 {
        Seq::empty()
    } else if parts.len() == 1 {
        parts[0]
    } else {
        joined(parts.drop_last(), separator) + separator + parts.last()
    }
}

/// The contents of each string of `parts`.
pub open spec fn views(parts: Seq<String>) -> Seq<Seq<char>> {
    parts.map_values(|part: String| part@)
}

/// The text of an optional string.
pub open spec fn opt_view(text: Option<String>) -> Option<Seq<char>> {
    match text {
        Some(text) => Some(text@),
        None => None,
    }
}

/// A copy of an optional string.
pub fn copy_opt(text: &Option<String>) -> (copy: Option<String>)
    ensures
        copy == *text,
{
    match text {
        Some(text) => Some(text.clone()),
        None => None,
    }
}

/// Whether a text is among the given ones.
pub fn holds_text(texts: &Vec<String>, text: &str) -> (r: bool)
    ensures
        r == views(texts@).contains(text@),
{
    let ghost all = views(texts@);
    let mut i: usize = 0;
    while i < texts.len()
        invariant
            i <= texts@.len(),
            all == views(texts@),
            forall|j: int| 0 <= j < i ==> all[j] != text@,
        decreases texts.len() - i,
    {
        assert(all[i as int] == texts@[i as int]@);
        if same_text(texts[i].as_str(), text) {
            return true;
        }
        i += 1;
    }
    false
}

/// The items of `parts` with `separator` between neighbours.
pub fn join(parts: &Vec<String>, separator: &str) -> (text: String)
    ensures
        text@ == joined(views(parts@), separator@),
{
    let mut text = String::new();
    let mut i: usize = 0;
    assert(views(parts@.take(0)) =~= Seq::<Seq<char>>::empty());
    while i < parts.len()
        invariant
            i <= parts@.len(),
            text@ == joined(views(parts@.take(i as int)), separator@),
        decreases parts.len() - i,
    {
        let ghost before = views(parts@.take(i as int));
        let ghost after = views(parts@.take(i + 1));
        assert(after.drop_last() =~= before);
        assert(after.last() == parts@[i as int]@);
        if i != 0 {
            text.append(separator);
        }
        text.append(parts[i].as_str());
        proof {
            if i == 0 {
                assert(text@ =~= parts@[0]@);
            }
        }
        i += 1;
    }
    assert(parts@.take(parts@.len() as int) =~= parts@);
    text
}

/// The words of a text: its longest parts without white space.
pub open spec fn words_of(text: Seq<char>) -> Seq<Seq<char>>
    decreases text.len(),
{
    if text.len() == 0 {
        Seq::empty()
    } else {
        let front = words_of(text.drop_last());
        if white_space(text.last()) {
            front
        } else if text.len() == 1 || white_space(text[text.len() - 2]) {
            front.push(seq![text.last()])
        } else {
            front.drop_last().push(front.last().push(text.last()))
        }
    }
}

/// The words of `text`.
pub fn split_words(text: &str) -> (words: Vec<String>)
    ensures
        views(words@) == words_of(text@),
{
    let chars = chars_of(text);
    let mut words: Vec<String> = Vec::new();
    let mut word = String::new();
    let mut open = false;
    let mut i: usize = 0;
    assert(chars@.take(0) =~= Seq::<char>::empty());
    assert(views(words@) =~= Seq::empty());
    while i < chars.len()
        invariant
            i <= chars@.len(),
            chars@ == text@,
            open == (i > 0 && !white_space(chars@[i - 1])),
            open ==> views(words@).push(word@) == words_of(chars@.take(i as int)),
            !open ==> views(words@) == words_of(chars@.take(i as int)) && word@.len() == 0,
        decreases chars.len() - i,
    {
        let c = chars[i];
        let ghost whole = chars@.take(i + 1);
        let ghost before = words@;
        let ghost shown = word@;
        proof {
            assert(whole.drop_last() =~= chars@.take(i as int));
            assert(whole.last() == c);
            assert(i > 0 ==> whole[whole.len() - 2] == chars@[i - 1]);
        }
        if is_white_space(c) {
            if open {
                words.push(word);
                word = String::new();
                assert(views(words@) =~= views(before).push(shown));
            }
            open = false;
        } else {
            word.push(c);
            proof {
                if open {
                    let front = views(before).push(shown);
                    assert(views(words@).push(word@) =~= front.drop_last().push(
                        front.last().push(c),
                    ));
                } else {
                    assert(word@ =~= seq![c]);
                }
            }
            open = true;
        }
        i += 1;
    }
    assert(chars@.take(i as int) =~= chars@);
    if open {
        let ghost before = words@;
        let ghost shown = word@;
        words.push(word);
        assert(views(words@) =~= views(before).push(shown));
    }
    words
}

/// The words of a text with one space between neighbours.
pub open spec fn collapsed(text: Seq<char>) -> Seq<char> {
    joined(words_of(text), " "@)
}

/// The words of `text` with one space between neighbours.
pub fn collapse_whitespace(text: &str) -> (r: String)
    ensures
        r@ == collapsed(text@),
{
    let words = split_words(text);
    join(&words, " ")
}

/// `text` with each occurrence of `pattern`, from the front, replaced.
pub open spec fn replaced(text: Seq<char>, pattern: Seq<char>, with: Seq<char>) -> Seq<char>
    decreases text.len(),
{
    if pattern.len() == 0 || text.len() < pattern.len() {
        text
    } else if text.take(pattern.len() as int) == pattern {
        with + replaced(text.skip(pattern.len() as int), pattern, with)
    } else {
        seq![text[0]] + replaced(text.drop_first(), pattern, with)
    }
}

/// `text` with each occurrence of `pattern`, from the front, replaced.
pub fn replace_all(text: &str, pattern: &str, with: &str) -> (r: String)
    requires
        pattern@.len() > 0,
    ensures
        r@ == replaced(text@, pattern@, with@),
{
    let chars = chars_of(text);
    let needle = chars_of(pattern);
    let total: usize = chars.len();
    let mut output = String::new();
    let mut at: usize = 0;
    assert(chars@.skip(0) =~= chars@);
    while at < total && total - at >= needle.len()
        invariant
            at <= total,
            total == chars@.len(),
            chars@ == text@,
            needle@ == pattern@,
            needle@.len() > 0,
            replaced(text@, pattern@, with@) == output@ + replaced(
                chars@.skip(at as int),
                pattern@,
                with@,
            ),
        decreases total - at,
    {
        let ghost rest = chars@.skip(at as int);
        let ghost before = output@;
        let mut i: usize = 0;
        while i < needle.len() && chars[at + i] == needle[i]
            invariant
                total == chars@.len(),
                i <= needle@.len(),
                at + needle@.len() <= total,
                forall|j: int| 0 <= j < i ==> chars@[at + j] == #[trigger] needle@[j],
            decreases needle.len() - i,
        {
            i += 1;
        }
        if i == needle.len() {
            proof {
                assert(rest.take(pattern@.len() as int) =~= pattern@);
                assert(rest.skip(pattern@.len() as int) =~= chars@.skip(at + pattern@.len()));
            }
            output.append(with);
            at += needle.len();
            assert(before + (with@ + replaced(chars@.skip(at as int), pattern@, with@)) =~= output@
                + replaced(chars@.skip(at as int), pattern@, with@));
        } else {
            proof {
                assert(rest.take(pattern@.len() as int)[i as int] == chars@[at + i]);
                assert(rest[0] == chars@[at as int]);
                assert(rest.drop_first() =~= chars@.skip(at + 1));
            }
            output.push(chars[at]);
            at += 1;
            assert(before + (seq![chars@[at - 1]] + replaced(
                chars@.skip(at as int),
                pattern@,
                with@,
            )) =~= output@ + replaced(chars@.skip(at as int), pattern@, with@));
        }
    }
    let rest = text_between(&chars, at, total);
    assert(rest@ =~= chars@.skip(at as int));
    output.append(rest.as_str());
    output
}

/// The first `max` characters of a text, with an ellipsis if there are more.
pub open spec fn shortened(text: Seq<char>, max: int) -> Seq<char> {
    if text.len() <= max {
        text
    } else {
        text.take(max).push('…')
    }
}

/// The first `max` characters of `text`, with an ellipsis if there are more.
pub fn shorten(text: &str, max: usize) -> (r: String)
    ensures
        r@ == shortened(text@, max as int),
{
    let chars = chars_of(text);
    if chars.len() <= max {
        return text.to_owned();
    }
    let mut r = text_between(&chars, 0, max);
    assert(r@ =~= text@.take(max as int));
    r.push('…');
    r
}

} // verus!
