//! Names for groups and their members, made of whatever text a workload has.

use vstd::prelude::*;
use vstd::string::*;

use crate::backend::{slash_parts, split_slashes};
use crate::capture::{cell_width, display_width, grapheme_clusters, graphemes};
use crate::config::lowered;
use crate::model::{
    full_reference_tokens_differ, group_id_char, group_id_shape, printable, reference_token_text,
    safe_title, separator, OrchestrationGroupId, OrchestrationTitle, SessionId,
};
use crate::pane_title::without_end_slashes;
use crate::state::{record_views, RecordView, SessionRecord};
use crate::text::{
    ascii_alphanumeric, ascii_digit, ascii_lower, chars_of, decimal, digit_char, holds_text,
    is_ascii_alphanumeric, is_ascii_lower, numeral, same_text, text_between, text_of, views,
};

verus! {

/// A character that a safe name keeps.
pub open spec fn name_char(c: char) -> bool {
    ascii_alphanumeric(c) || c == '-' || c == '_' || c == '.'
}

/// What a safe name is made of so far, and whether other characters followed
/// since.
pub open spec fn squeezed(input: Seq<char>, max: int) -> (Seq<char>, bool)
    decreases input.len(),
{
    if input.len() == 0 {
        (Seq::empty(), false)
    } else {
        let (output, pending) = squeezed(input.drop_last(), max);
        let c = input.last();
        if output.len() >= max {
            (output, pending)
        } else if !name_char(c) {
            (output, true)
        } else {
            let spaced = if pending && output.len() > 0 {
                output.push(' ')
            } else {
                output
            };
            (
                if spaced.len() < max {
                    spaced.push(c)
                } else {
                    spaced
                },
                false,
            )
        }
    }
}

/// A text without spaces and punctuation at its end.
pub open spec fn tidy_end(text: Seq<char>) -> Seq<char>
    decreases text.len(),
{
    if text.len() > 0 && (text.last() == ' ' || text.last() == '-' || text.last() == '_'
        || text.last() == '.') {
        tidy_end(text.drop_last())
    } else {
        text
    }
}

/// A text as part of a safe name: its plain words, at most `max` characters.
pub open spec fn safe_name(input: Seq<char>, max: int) -> Seq<char> {
    let tidy = tidy_end(squeezed(input, max).0);
    if tidy.len() == 0 {
        "workspace"@
    } else {
        tidy
    }
}

/// A text as part of a safe name: its plain words, at most `max_bytes` bytes.
pub fn safe_component(input: &str, max_bytes: usize) -> (name: String)
    ensures
        name@ == safe_name(input@, max_bytes as int),
{
    let chars = chars_of(input);
    let mut output: Vec<char> = Vec::new();
    let mut pending = false;
    let mut i: usize = 0;
    while i < chars.len()
        invariant
            i <= chars@.len(),
            chars@ == input@,
            (output@, pending) == squeezed(input@.take(i as int), max_bytes as int),
        decreases chars.len() - i,
    {
        let c = chars[i];
        assert(input@.take(i + 1).drop_last() =~= input@.take(i as int));
        if output.len() < max_bytes {
            if is_ascii_alphanumeric(c) || c == '-' || c == '_' || c == '.' {
                if pending && output.len() > 0 {
                    output.push(' ');
                }
                pending = false;
                if output.len() < max_bytes {
                    output.push(c);
                }
            } else {
                pending = true;
            }
        }
        i += 1;
    }
    assert(input@.take(i as int) =~= input@);
    let ghost whole = output@;
    while output.len() > 0 && (output[output.len() - 1] == ' ' || output[output.len() - 1] == '-'
        || output[output.len() - 1] == '_' || output[output.len() - 1] == '.')
        invariant
            tidy_end(whole) == tidy_end(output@),
        decreases output.len(),
    {
        let ghost before = output@;
        let _ = output.pop();
        assert(output@ =~= before.drop_last());
    }
    if output.len() == 0 {
        "workspace".to_owned()
    } else {
        text_of(&output)
    }
}

/// What a name is made of so far: kept characters with single spaces between.
proof fn lemma_squeezed(input: Seq<char>, max: int)
    requires
        max >= 0,
    ensures
        ({
            let output = squeezed(input, max).0;
            &&& output.len() <= max
            &&& output.len() > 0 ==> name_char(output[0])
            &&& forall|i: int|
                0 <= i < output.len() ==> name_char(#[trigger] output[i]) || output[i] == ' '
        }),
    decreases input.len(),
{
    if input.len() > 0 {
        lemma_squeezed(input.drop_last(), max);
    }
}

/// What is left at the end is neither a space nor punctuation.
proof fn lemma_tidy_end(text: Seq<char>)
    ensures
        tidy_end(text).len() <= text.len(),
        forall|i: int| 0 <= i < tidy_end(text).len() ==> #[trigger] tidy_end(text)[i] == text[i],
        tidy_end(text).len() > 0 ==> {
            let last = tidy_end(text).last();
            last != ' ' && last != '-' && last != '_' && last != '.'
        },
    decreases text.len(),
{
    if text.len() > 0 {
        let front = text.drop_last();
        lemma_tidy_end(front);
        let tidy = tidy_end(text);
        assert forall|i: int| 0 <= i < tidy.len() implies #[trigger] tidy[i] == text[i] by {
            if tidy != text {
                assert(tidy_end(front)[i] == front[i]);
            }
        }
    }
}

/// A safe name can always stand as a title, and holds nothing but letters,
/// digits, hyphens, underscores, dots and single spaces.
pub proof fn safe_names_are_titles(input: Seq<char>, max: int)
    requires
        9 <= max <= 128,
    ensures
        safe_title(safe_name(input, max)),
        safe_name(input, max).len() <= max,
        forall|i: int|
            0 <= i < safe_name(input, max).len() ==> name_char(#[trigger] safe_name(input, max)[i])
                || safe_name(input, max)[i] == ' ',
{
    let output = squeezed(input, max).0;
    lemma_squeezed(input, max);
    lemma_tidy_end(output);
    reveal_strlit("workspace");
    let name = safe_name(input, max);
    assert forall|i: int| 0 <= i < name.len() implies name_char(#[trigger] name[i]) || name[i]
        == ' ' by {
        if tidy_end(output).len() > 0 {
            assert(name[i] == output[i]);
        }
    }
    assert forall|i: int| 0 <= i < name.len() implies printable(#[trigger] name[i]) by {
        assert(name_char(name[i]) || name[i] == ' ');
    }
    if tidy_end(output).len() > 0 {
        assert(name[0] == output[0]);
    }
}

/// What an identifier's part is made of so far.
pub open spec fn hyphenated(input: Seq<char>, max: int) -> (Seq<char>, bool)
    decreases input.len(),
{
    if input.len() == 0 {
        (Seq::empty(), false)
    } else {
        let (output, pending) = hyphenated(input.drop_last(), max);
        let c = input.last();
        if output.len() >= max {
            (output, pending)
        } else if !ascii_alphanumeric(c) {
            (output, true)
        } else {
            let spaced = if pending && output.len() > 0 {
                output.push('-')
            } else {
                output
            };
            (
                if spaced.len() < max {
                    spaced.push(lowered(c))
                } else {
                    spaced
                },
                false,
            )
        }
    }
}

/// A text without hyphens at its end.
pub open spec fn without_end_hyphens(text: Seq<char>) -> Seq<char>
    decreases text.len(),
{
    if text.len() > 0 && text.last() == '-' {
        without_end_hyphens(text.drop_last())
    } else {
        text
    }
}

/// A text as part of an identifier.
pub open spec fn slug_of(input: Seq<char>, max: int) -> Seq<char> {
    let output = without_end_hyphens(hyphenated(input, max).0);
    if output.len() == 0 {
        "group"@
    } else if !ascii_lower(output[0]) {
        let kept = if max < 6 {
            0
        } else if output.len() < max - 6 {
            output.len() as int
        } else {
            max - 6
        };
        "group-"@ + without_end_hyphens(output.take(kept))
    } else {
        output
    }
}

/// Takes the hyphens at the end away.
fn drop_end_hyphens(text: &mut Vec<char>)
    ensures
        final(text)@ == without_end_hyphens(old(text)@),
{
    let ghost whole = text@;
    while text.len() > 0 && text[text.len() - 1] == '-'
        invariant
            without_end_hyphens(whole) == without_end_hyphens(text@),
        decreases text.len(),
    {
        let ghost before = text@;
        let _ = text.pop();
        assert(text@ =~= before.drop_last());
    }
}

/// The lowercase form of an ASCII letter.
fn lower(c: char) -> (r: char)
    requires
        ascii_alphanumeric(c),
    ensures
        r == lowered(c),
{
    if 'A' <= c && c <= 'Z' {
        let code: u8 = (c as u32 + 32) as u8;
        code as char
    } else {
        c
    }
}

/// A text as part of an identifier, at most `max_bytes` bytes.
pub fn slug(input: &str, max_bytes: usize) -> (part: String)
    ensures
        part@ == slug_of(input@, max_bytes as int),
{
    let chars = chars_of(input);
    let mut output: Vec<char> = Vec::new();
    let mut pending = false;
    let mut i: usize = 0;
    while i < chars.len()
        invariant
            i <= chars@.len(),
            chars@ == input@,
            (output@, pending) == hyphenated(input@.take(i as int), max_bytes as int),
        decreases chars.len() - i,
    {
        let c = chars[i];
        assert(input@.take(i + 1).drop_last() =~= input@.take(i as int));
        if output.len() < max_bytes {
            if is_ascii_alphanumeric(c) {
                if pending && output.len() > 0 {
                    output.push('-');
                }
                pending = false;
                if output.len() < max_bytes {
                    output.push(lower(c));
                }
            } else {
                pending = true;
            }
        }
        i += 1;
    }
    assert(input@.take(i as int) =~= input@);
    drop_end_hyphens(&mut output);
    if output.len() == 0 {
        return "group".to_owned();
    }
    if !is_ascii_lower(output[0]) {
        let room: usize = if max_bytes < 6 {
            0
        } else {
            max_bytes - 6
        };
        let kept: usize = if output.len() < room {
            output.len()
        } else {
            room
        };
        let mut short: Vec<char> = Vec::new();
        let mut k: usize = 0;
        while k < kept
            invariant
                k <= kept <= output@.len(),
                short@ == output@.take(k as int),
            decreases kept - k,
        {
            short.push(output[k]);
            k += 1;
            assert(output@.take(k as int) =~= output@.take(k - 1).push(output@[k - 1]));
        }
        drop_end_hyphens(&mut short);
        return "group-".to_owned().concat(text_of(&short).as_str());
    }
    text_of(&output)
}

/// A part of an identifier: letters and digits, with single hyphens between.
pub open spec fn id_part(text: Seq<char>) -> bool {
    &&& text.len() > 0
    &&& text[0] != '-'
    &&& text.last() != '-'
    &&& forall|i: int|
        0 <= i < text.len() ==> ascii_lower(#[trigger] text[i]) || ascii_digit(text[i]) || text[i]
            == '-'
    &&& forall|i: int, j: int|
        0 <= i < j < text.len() && j == i + 1 ==> !(#[trigger] text[i] == '-' && #[trigger] text[j]
            == '-')
}

/// What an identifier's part is made of so far, but for a hyphen at its end.
proof fn lemma_hyphenated(input: Seq<char>, max: int)
    requires
        max >= 0,
    ensures
        ({
            let output = hyphenated(input, max).0;
            &&& output.len() <= max
            &&& output.len() > 0 ==> output[0] != '-'
            &&& forall|i: int|
                0 <= i < output.len() ==> ascii_lower(#[trigger] output[i]) || ascii_digit(
                    output[i],
                ) || output[i] == '-'
            &&& forall|i: int, j: int|
                0 <= i < j < output.len() && j == i + 1 ==> !(#[trigger] output[i] == '-'
                    && #[trigger] output[j] == '-')
            &&& output.len() < max && output.len() > 0 ==> output.last() != '-'
        }),
    decreases input.len(),
{
    if input.len() > 0 {
        lemma_hyphenated(input.drop_last(), max);
        let (output, pending) = hyphenated(input.drop_last(), max);
        let c = input.last();
        if output.len() < max && ascii_alphanumeric(c) {
            assert(ascii_lower(lowered(c)) || ascii_digit(lowered(c)));
        }
    }
}

/// What is left is the beginning, without a hyphen at its end.
proof fn lemma_without_end_hyphens(text: Seq<char>)
    ensures
        without_end_hyphens(text).len() <= text.len(),
        forall|i: int|
            0 <= i < without_end_hyphens(text).len() ==> #[trigger] without_end_hyphens(text)[i]
                == text[i],
        without_end_hyphens(text).len() > 0 ==> without_end_hyphens(text).last() != '-',
        text.len() > 0 && text[0] != '-' ==> without_end_hyphens(text).len() > 0,
    decreases text.len(),
{
    if text.len() > 0 {
        let front = text.drop_last();
        lemma_without_end_hyphens(front);
        let part = without_end_hyphens(text);
        assert forall|i: int| 0 <= i < part.len() implies #[trigger] part[i] == text[i] by {
            if part != text {
                assert(without_end_hyphens(front)[i] == front[i]);
            }
        }
    }
}

/// The beginning of a part is a part, once hyphens at its end are gone.
proof fn lemma_part_of(text: Seq<char>, k: int)
    requires
        0 < k <= text.len(),
        text[0] != '-',
        forall|i: int|
            0 <= i < text.len() ==> ascii_lower(#[trigger] text[i]) || ascii_digit(text[i])
                || text[i] == '-',
        forall|i: int, j: int|
            0 <= i < j < text.len() && j == i + 1 ==> !(#[trigger] text[i] == '-' && #[trigger] text[j]
                == '-'),
    ensures
        id_part(without_end_hyphens(text.take(k))),
{
    let front = text.take(k);
    lemma_without_end_hyphens(front);
    let part = without_end_hyphens(front);
    assert(front[0] == text[0]);
    assert forall|i: int| 0 <= i < part.len() implies ascii_lower(#[trigger] part[i]) || ascii_digit(
        part[i],
    ) || part[i] == '-' by {
        assert(part[i] == front[i] && front[i] == text[i]);
    }
    assert forall|i: int, j: int| 0 <= i < j < part.len() && j == i + 1 implies !(
    #[trigger] part[i] == '-' && #[trigger] part[j] == '-') by {
        assert(part[i] == front[i] && part[j] == front[j]);
        assert(front[i] == text[i] && front[j] == text[j]);
    }
}

/// Two parts with a hyphen between are a part.
proof fn lemma_parts_join(a: Seq<char>, b: Seq<char>)
    requires
        id_part(a),
        id_part(b),
    ensures
        id_part(a + "-"@ + b),
{
    reveal_strlit("-");
    let whole = a + "-"@ + b;
    assert(whole.len() == a.len() + 1 + b.len());
    assert forall|i: int| 0 <= i < whole.len() implies ascii_lower(#[trigger] whole[i])
        || ascii_digit(whole[i]) || whole[i] == '-' by {
        if i < a.len() {
            assert(whole[i] == a[i]);
        } else if i > a.len() {
            assert(whole[i] == b[i - a.len() - 1]);
        }
    }
    assert forall|i: int, j: int| 0 <= i < j < whole.len() && j == i + 1 implies !(
    #[trigger] whole[i] == '-' && #[trigger] whole[j] == '-') by {
        if j < a.len() {
            assert(whole[i] == a[i] && whole[j] == a[j]);
        } else if j == a.len() {
            assert(whole[i] == a.last());
        } else if i == a.len() {
            assert(whole[j] == b[0]);
        } else {
            assert(whole[i] == b[i - a.len() - 1] && whole[j] == b[j - a.len() - 1]);
        }
    }
    assert(whole[0] == a[0]);
    assert(whole.last() == b.last());
}

/// Every text makes a part of an identifier that begins with a letter and is no
/// longer than allowed.
pub proof fn slugs_are_parts(input: Seq<char>, max: int)
    requires
        7 <= max,
    ensures
        id_part(slug_of(input, max)),
        ascii_lower(slug_of(input, max)[0]),
        slug_of(input, max).len() <= max,
{
    let raw = hyphenated(input, max).0;
    lemma_hyphenated(input, max);
    lemma_without_end_hyphens(raw);
    let output = without_end_hyphens(raw);
    reveal_strlit("group");
    reveal_strlit("group-");
    if raw.len() > 0 && output.len() > 0 {
        lemma_part_of(raw, raw.len() as int);
        assert(raw.take(raw.len() as int) =~= raw);
        if !ascii_lower(output[0]) {
            let kept: int = if output.len() < max - 6 {
                output.len() as int
            } else {
                max - 6
            };
            lemma_part_of(output, kept);
            let tail = without_end_hyphens(output.take(kept));
            lemma_without_end_hyphens(output.take(kept));
            assert(id_part("group"@));
            lemma_parts_join("group"@, tail);
            reveal_strlit("-");
            assert("group-"@ =~= "group"@ + "-"@);
            assert("group-"@ + tail =~= "group"@ + "-"@ + tail);
        }
    } else {
        assert(id_part("group"@));
    }
}

/// The digits of a number are a part of an identifier.
proof fn lemma_numeral_is_part(n: nat)
    ensures
        id_part(numeral(n)),
        forall|i: int| 0 <= i < numeral(n).len() ==> ascii_digit(#[trigger] numeral(n)[i]),
    decreases n,
{
    if n >= 10 {
        lemma_numeral_is_part(n / 10);
    }
}

/// Numbers below a power of ten have no more digits than it has zeros.
proof fn lemma_short_numeral(n: nat)
    requires
        n < 100_000,
    ensures
        numeral(n).len() <= 5,
{
    reveal_with_fuel(numeral, 6);
    assert(n / 10 / 10 / 10 / 10 < 10);
}

/// The identifier of the group that comes `suffix`-th under one base.
pub open spec fn numbered_id(base: Seq<char>, suffix: int) -> Seq<char> {
    if suffix == 1 {
        base
    } else {
        base + "-"@ + numeral(suffix as nat)
    }
}

/// The base of the identifiers of groups with an orchestrator.
pub open spec fn group_base(host: Seq<char>, repository: Seq<char>) -> Seq<char> {
    "observer-"@ + slug_of(host, 24) + "-"@ + slug_of(repository, 24)
}

/// The title of the group that comes `suffix`-th under one base.
pub open spec fn numbered_title(host: Seq<char>, repository: Seq<char>, suffix: int) -> Seq<char> {
    let title = "Observer "@ + host + " "@ + repository;
    safe_name(
        if suffix == 1 {
            title
        } else {
            title + " "@ + numeral(suffix as nat)
        },
        OrchestrationTitle::MAX_BYTES as int,
    )
}

/// The base of the identifiers is a part of bounded length that begins with a
/// letter.
proof fn lemma_group_base(host: Seq<char>, repository: Seq<char>)
    ensures
        id_part(group_base(host, repository)),
        group_base(host, repository).len() <= 58,
        ascii_lower(group_base(host, repository)[0]),
{
    slugs_are_parts(host, 24);
    slugs_are_parts(repository, 24);
    reveal_strlit("observer-");
    reveal_strlit("observer");
    reveal_strlit("-");
    assert(id_part("observer"@));
    lemma_parts_join("observer"@, slug_of(host, 24));
    lemma_parts_join("observer"@ + "-"@ + slug_of(host, 24), slug_of(repository, 24));
    assert("observer-"@ =~= "observer"@ + "-"@);
    assert(group_base(host, repository) =~= "observer"@ + "-"@ + slug_of(host, 24) + "-"@ + slug_of(
        repository,
        24,
    ));
}

/// The identifiers that are tried have the shape of a group's.
pub proof fn numbered_ids_are_group_ids(host: Seq<char>, repository: Seq<char>, suffix: int)
    requires
        1 <= suffix < 100_000,
    ensures
        group_id_shape(numbered_id(group_base(host, repository), suffix)),
{
    let base = group_base(host, repository);
    lemma_group_base(host, repository);
    let id = numbered_id(base, suffix);
    if suffix != 1 {
        lemma_numeral_is_part(suffix as nat);
        lemma_short_numeral(suffix as nat);
        lemma_parts_join(base, numeral(suffix as nat));
        reveal_strlit("-");
        assert(id[0] == base[0]);
    }
    assert(id_part(id));
    assert(ascii_alphanumeric(id.last())) by {
        assert(ascii_lower(id[id.len() - 1]) || ascii_digit(id[id.len() - 1]));
    }
    assert forall|i: int| 0 <= i < id.len() implies group_id_char(#[trigger] id[i]) by {}
    assert forall|i: int, j: int| 0 <= i < j < id.len() && j == i + 1 implies !(separator(
        #[trigger] id[i],
    ) && separator(#[trigger] id[j])) by {
        assert(ascii_lower(id[i]) || ascii_digit(id[i]) || id[i] == '-');
        assert(ascii_lower(id[j]) || ascii_digit(id[j]) || id[j] == '-');
    }
}

/// Different numbers have different numerals.
proof fn lemma_numerals_differ(a: nat, b: nat)
    requires
        numeral(a) == numeral(b),
    ensures
        a == b,
    decreases a + b,
{
    if a >= 10 && b >= 10 {
        assert(numeral(a).drop_last() =~= numeral(a / 10));
        assert(numeral(b).drop_last() =~= numeral(b / 10));
        lemma_numerals_differ(a / 10, b / 10);
        assert(numeral(a).last() == digit_char(a % 10));
        assert(numeral(b).last() == digit_char(b % 10));
        lemma_digits_differ(a % 10, b % 10);
    } else if a >= 10 {
        lemma_numeral_is_part(a / 10);
        assert(numeral(a).len() >= 2);
    } else if b >= 10 {
        lemma_numeral_is_part(b / 10);
        assert(numeral(b).len() >= 2);
    } else {
        assert(numeral(a)[0] == digit_char(a));
        assert(numeral(b)[0] == digit_char(b));
        lemma_digits_differ(a, b);
    }
}

/// Different digits are different characters.
proof fn lemma_digits_differ(a: nat, b: nat)
    requires
        a < 10,
        b < 10,
        digit_char(a) == digit_char(b),
    ensures
        a == b,
{
    assert(digit_char(a) as u32 == '0' as u32 + a);
    assert(digit_char(b) as u32 == '0' as u32 + b);
}

/// Different numbers make different identifiers under one base.
proof fn lemma_numbered_ids_differ(base: Seq<char>, a: int, b: int)
    requires
        1 <= a,
        1 <= b,
        numbered_id(base, a) == numbered_id(base, b),
    ensures
        a == b,
{
    reveal_strlit("-");
    lemma_numeral_is_part(a as nat);
    lemma_numeral_is_part(b as nat);
    if a != 1 && b != 1 {
        let x = numbered_id(base, a);
        let y = numbered_id(base, b);
        assert(x.skip(base.len() as int + 1) =~= numeral(a as nat));
        assert(y.skip(base.len() as int + 1) =~= numeral(b as nat));
        lemma_numerals_differ(a as nat, b as nat);
    } else if a != 1 {
        assert(numbered_id(base, a).len() > base.len());
    } else if b != 1 {
        assert(numbered_id(base, b).len() > base.len());
    }
}

/// A number is the first whose identifier is not taken.
pub open spec fn first_free(taken: Seq<Seq<char>>, base: Seq<char>, suffix: int) -> bool {
    &&& 1 <= suffix
    &&& !taken.contains(numbered_id(base, suffix))
    &&& forall|s: int| 1 <= s < suffix ==> taken.contains(#[trigger] numbered_id(base, s))
}

/// The first number whose identifier is not taken.
pub open spec fn free_suffix(taken: Seq<Seq<char>>, base: Seq<char>) -> int {
    choose|suffix: int| first_free(taken, base, suffix)
}

/// There is only one first number whose identifier is not taken.
proof fn lemma_first_free_is_one(taken: Seq<Seq<char>>, base: Seq<char>, suffix: int)
    requires
        first_free(taken, base, suffix),
    ensures
        free_suffix(taken, base) == suffix,
{
    let chosen = free_suffix(taken, base);
    assert(first_free(taken, base, chosen));
    if chosen < suffix {
        assert(taken.contains(numbered_id(base, chosen)));
    } else if suffix < chosen {
        assert(taken.contains(numbered_id(base, suffix)));
    }
}

/// Among one more numbers than there are groups, one is free.
proof fn lemma_some_number_is_free(taken: Seq<Seq<char>>, base: Seq<char>, count: int)
    requires
        0 <= count,
        forall|s: int| 1 <= s <= count ==> taken.contains(#[trigger] numbered_id(base, s)),
    ensures
        count <= taken.len(),
{
    let ids = Seq::new(count as nat, |i: int| numbered_id(base, i + 1));
    assert(ids.no_duplicates()) by {
        assert forall|i: int, j: int| 0 <= i < ids.len() && 0 <= j < ids.len() && i != j implies ids[i]
            != ids[j] by {
            if ids[i] == ids[j] {
                lemma_numbered_ids_differ(base, i + 1, j + 1);
            }
        }
    }
    ids.unique_seq_to_set();
    taken.lemma_cardinality_of_set();
    assert(ids.to_set().subset_of(taken.to_set())) by {
        assert forall|id: Seq<char>| ids.to_set().contains(id) implies taken.to_set().contains(
            id,
        ) by {
            let k = choose|k: int| 0 <= k < ids.len() && ids[k] == id;
            assert(taken.contains(numbered_id(base, k + 1)));
        }
    }
    vstd::set_lib::lemma_len_subset(ids.to_set(), taken.to_set());
}

/// The identifier of the group that comes `suffix`-th under one base.
fn write_id(base: &str, suffix: usize) -> (id: String)
    ensures
        id@ == numbered_id(base@, suffix as int),
{
    if suffix == 1 {
        base.to_owned()
    } else {
        base.to_owned().concat("-").concat(decimal(suffix as u64).as_str())
    }
}

/// The identifier and the title of a new group, which no other group has.
pub fn next_group_identity(host: &str, repository: &str, taken: &Vec<String>) -> (r: (
    OrchestrationGroupId,
    OrchestrationTitle,
))
    requires
        taken@.len() < 99_999,
    ensures
        ({
            let base = group_base(host@, repository@);
            let suffix = free_suffix(views(taken@), base);
            &&& first_free(views(taken@), base, suffix)
            &&& r.0@ == numbered_id(base, suffix)
            &&& r.1@ == numbered_title(host@, repository@, suffix)
        }),
{
    let base = "observer-".to_owned().concat(slug(host, 24).as_str()).concat("-").concat(
        slug(repository, 24).as_str(),
    );
    let title = "Observer ".to_owned().concat(host).concat(" ").concat(repository);
    let ghost all = views(taken@);
    let mut suffix: usize = 1;
    let mut id = write_id(base.as_str(), suffix);
    while holds_text(taken, id.as_str())
        invariant
            1 <= suffix <= taken@.len() + 1,
            taken@.len() < 99_999,
            all == views(taken@),
            id@ == numbered_id(base@, suffix as int),
            forall|s: int| 1 <= s < suffix ==> all.contains(#[trigger] numbered_id(base@, s)),
        decreases taken@.len() + 1 - suffix,
    {
        proof {
            assert forall|s: int| 1 <= s <= suffix implies all.contains(
                #[trigger] numbered_id(base@, s),
            ) by {}
            lemma_some_number_is_free(all, base@, suffix as int);
        }
        suffix += 1;
        id = write_id(base.as_str(), suffix);
    }
    let text = if suffix == 1 {
        title
    } else {
        title.concat(" ").concat(decimal(suffix as u64).as_str())
    };
    let name = safe_component(text.as_str(), OrchestrationTitle::MAX_BYTES);
    proof {
        assert(first_free(all, group_base(host@, repository@), suffix as int));
        lemma_first_free_is_one(all, group_base(host@, repository@), suffix as int);
        numbered_ids_are_group_ids(host@, repository@, suffix as int);
        safe_names_are_titles(text@, OrchestrationTitle::MAX_BYTES as int);
    }
    let group_id = OrchestrationGroupId::from_str(id.as_str());
    let group_title = OrchestrationTitle::from_str(name.as_str());
    (group_id.unwrap(), group_title.unwrap())
}

/// The name of the repository in a directory: its last part.
pub open spec fn repository_of(directory: Seq<char>) -> Seq<char> {
    let parts = slash_parts(without_end_slashes(directory));
    last_nonempty(parts)
}

/// The last part that holds something, or a plain word.
pub open spec fn last_nonempty(parts: Seq<Seq<char>>) -> Seq<char>
    decreases parts.len(),
{
    if parts.len() == 0 {
        "workspace"@
    } else if parts.last().len() > 0 {
        parts.last()
    } else {
        last_nonempty(parts.drop_last())
    }
}

/// The name of the repository in a directory: its last part.
pub fn repository_name(directory: &str) -> (name: String)
    ensures
        name@ == repository_of(directory@),
{
    let chars = chars_of(directory);
    let mut end: usize = chars.len();
    assert(directory@.take(end as int) =~= directory@);
    while end > 0 && chars[end - 1] == '/'
        invariant
            end <= chars@.len(),
            chars@ == directory@,
            without_end_slashes(directory@) == without_end_slashes(directory@.take(end as int)),
        decreases end,
    {
        assert(directory@.take(end as int).drop_last() =~= directory@.take(end - 1));
        end -= 1;
    }
    let path = text_between(&chars, 0, end);
    assert(path@ =~= directory@.take(end as int));
    let parts = split_slashes(path.as_str());
    let ghost all = views(parts@);
    let mut i: usize = parts.len();
    assert(all.take(i as int) =~= all);
    while i > 0
        invariant
            i <= parts@.len(),
            all == views(parts@),
            all == slash_parts(without_end_slashes(directory@)),
            last_nonempty(all) == last_nonempty(all.take(i as int)),
        decreases i,
    {
        assert(all.take(i as int).last() == parts@[i - 1]@);
        assert(all.take(i as int).drop_last() =~= all.take(i - 1));
        if !parts[i - 1].as_str().is_empty() {
            return parts[i - 1].clone();
        }
        i -= 1;
    }
    "workspace".to_owned()
}

/// What a workload is called before it is told apart from others.
pub open spec fn base_label(record: RecordView) -> Seq<char> {
    safe_name(record.host, 24) + " / "@ + safe_name(repository_of(record.directory), 32) + " / "@
        + safe_name(
        match record.preset {
            Some(preset) => preset,
            None => "shell"@,
        },
        24,
    )
}

/// What a workload is called before it is told apart from others.
pub fn candidate_label(record: &SessionRecord) -> (label: String)
    ensures
        label@ == base_label(record@),
{
    let preset = match &record.preset {
        Some(preset) => safe_component(preset.as_str(), 24),
        None => safe_component("shell", 24),
    };
    safe_component(record.host.as_str(), 24).concat(" / ").concat(
        safe_component(repository_name(record.directory.as_str()).as_str(), 32).as_str(),
    ).concat(" / ").concat(preset.as_str())
}

/// The running exact-owned workloads.
pub open spec fn eligible_records(records: Seq<RecordView>) -> Seq<RecordView>
    decreases records.len(),
{
    if records.len() == 0 {
        Seq::empty()
    } else {
        let front = eligible_records(records.drop_last());
        if records.last().exact_running() {
            front.push(records.last())
        } else {
            front
        }
    }
}

/// The workloads that share a name.
pub open spec fn namesakes(records: Seq<RecordView>, label: Seq<char>) -> Seq<SessionId>
    decreases records.len(),
{
    if records.len() == 0 {
        Seq::empty()
    } else {
        let front = namesakes(records.drop_last(), label);
        if base_label(records.last()) == label {
            front.push(records.last().id)
        } else {
            front
        }
    }
}

/// References of this width tell workloads apart.
pub open spec fn tells_apart(ids: Seq<SessionId>, width: int) -> bool {
    forall|i: int, j: int|
        0 <= i < j < ids.len() ==> reference_token_text(#[trigger] ids[i]@, width)
            != reference_token_text(#[trigger] ids[j]@, width)
}

/// The shortest width from `from` on that tells workloads apart, or the widest.
pub open spec fn width_from(ids: Seq<SessionId>, from: int) -> int
    decreases SessionId::MAX_REFERENCE_WIDTH - from,
{
    if from >= SessionId::MAX_REFERENCE_WIDTH || tells_apart(ids, from) {
        from
    } else {
        width_from(ids, from + 1)
    }
}

/// What a workload is called: its name, and a reference where others share it.
pub open spec fn full_label(records: Seq<RecordView>, record: RecordView) -> Seq<char> {
    let base = base_label(record);
    let ids = namesakes(eligible_records(records), base);
    if ids.len() == 1 {
        base
    } else {
        base + " ["@ + reference_token_text(
            record.id@,
            width_from(ids, SessionId::SHORT_REFERENCE_WIDTH as int),
        ) + "]"@
    }
}

/// Whether references of this width tell workloads apart.
fn are_told_apart(ids: &Vec<SessionId>, width: usize) -> (r: bool)
    requires
        width <= SessionId::MAX_REFERENCE_WIDTH,
    ensures
        r == tells_apart(ids@, width as int),
{
    let mut i: usize = 0;
    while i < ids.len()
        invariant
            i <= ids@.len(),
            width <= SessionId::MAX_REFERENCE_WIDTH,
            forall|a: int, b: int|
                0 <= a < b < ids@.len() && a < i ==> reference_token_text(
                    #[trigger] ids@[a]@,
                    width as int,
                ) != reference_token_text(#[trigger] ids@[b]@, width as int),
        decreases ids.len() - i,
    {
        let token = ids[i].reference_token(width);
        let mut j: usize = i + 1;
        while j < ids.len()
            invariant
                i < j <= ids@.len(),
                width <= SessionId::MAX_REFERENCE_WIDTH,
                token@ == reference_token_text(ids@[i as int]@, width as int),
                forall|b: int|
                    i < b < j ==> token@ != reference_token_text(
                        #[trigger] ids@[b]@,
                        width as int,
                    ),
            decreases ids.len() - j,
        {
            let other = ids[j].reference_token(width);
            if same_text(token.as_str(), other.as_str()) {
                return false;
            }
            j += 1;
        }
        i += 1;
    }
    true
}

/// The workloads among the running exact-owned ones that share a name.
fn find_namesakes(records: &Vec<SessionRecord>, label: &str) -> (ids: Vec<SessionId>)
    ensures
        ids@ == namesakes(eligible_records(record_views(records@)), label@),
{
    let ghost all = record_views(records@);
    let mut ids: Vec<SessionId> = Vec::new();
    let mut i: usize = 0;
    while i < records.len()
        invariant
            i <= records@.len(),
            all == record_views(records@),
            ids@ == namesakes(eligible_records(all.take(i as int)), label@),
        decreases records.len() - i,
    {
        let record = &records[i];
        let ghost front = eligible_records(all.take(i as int));
        assert(all.take(i + 1).drop_last() =~= all.take(i as int));
        assert(all.take(i + 1).last() == record@);
        if record.is_exact_running() {
            assert(front.push(record@).drop_last() =~= front);
            let own = candidate_label(record);
            if same_text(own.as_str(), label) {
                ids.push(record.id);
            }
        }
        i += 1;
    }
    assert(all.take(i as int) =~= all);
    ids
}

/// What a workload is called: its name, and a reference where others share it.
pub fn label_for(records: &Vec<SessionRecord>, record: &SessionRecord) -> (label: String)
    ensures
        label@ == full_label(record_views(records@), record@),
{
    let base = candidate_label(record);
    let ids = find_namesakes(records, base.as_str());
    if ids.len() == 1 {
        return base;
    }
    let mut width: usize = SessionId::SHORT_REFERENCE_WIDTH;
    while width < SessionId::MAX_REFERENCE_WIDTH && !are_told_apart(&ids, width)
        invariant
            width <= SessionId::MAX_REFERENCE_WIDTH,
            width_from(ids@, SessionId::SHORT_REFERENCE_WIDTH as int) == width_from(
                ids@,
                width as int,
            ),
        decreases SessionId::MAX_REFERENCE_WIDTH - width,
    {
        width += 1;
    }
    base.concat(" [").concat(record.id.reference_token(width).as_str()).concat("]")
}

/// The number of clusters that fit: the longest beginning whose every part is
/// at most `width` cells wide.
pub open spec fn fitting(clusters: Seq<Seq<char>>, width: int, count: int) -> int
    decreases clusters.len() - count,
{
    if 0 <= count < clusters.len() && cell_width(clusters.take(count + 1).flatten()) <= width {
        fitting(clusters, width, count + 1)
    } else {
        count
    }
}

/// A label cut to `max_width` cells, between grapheme clusters and with an
/// ellipsis.
pub open spec fn cut_label(text: Seq<char>, max_width: int) -> Seq<char> {
    let clusters = grapheme_clusters(text);
    if cell_width(text) <= max_width {
        text
    } else if max_width == 0 {
        Seq::empty()
    } else {
        clusters.take(fitting(clusters, max_width - 1, 0)).flatten().push('…')
    }
}

/// A label cut to `max_width` cells, between grapheme clusters and with an
/// ellipsis.
pub fn bounded_label(text: &str, max_width: usize) -> (label: String)
    ensures
        label@ == cut_label(text@, max_width as int),
{
    if display_width(text) <= max_width {
        return text.to_owned();
    }
    if max_width == 0 {
        let empty = String::new();
        assert(empty@ =~= Seq::empty());
        return empty;
    }
    let clusters = graphemes(text);
    let ghost all = views(clusters@);
    let content: usize = max_width - 1;
    let mut bounded = String::new();
    let mut i: usize = 0;
    let mut fits = true;
    proof {
        assert(all.take(0) =~= Seq::empty());
        all.take(0).lemma_flatten_push(Seq::<char>::empty());
        assert(bounded@ =~= all.take(0).flatten());
    }
    while fits && i < clusters.len()
        invariant
            i <= clusters@.len(),
            all == views(clusters@),
            all == grapheme_clusters(text@),
            bounded@ == all.take(i as int).flatten(),
            fits ==> fitting(all, content as int, 0) == fitting(all, content as int, i as int),
            !fits ==> fitting(all, content as int, 0) == i,
        decreases clusters.len() - i + (if fits { 1int } else { 0int }),
    {
        let longer = bounded.clone().concat(clusters[i].as_str());
        proof {
            assert(all.take(i + 1) =~= all.take(i as int).push(clusters@[i as int]@));
            all.take(i as int).lemma_flatten_push(clusters@[i as int]@);
        }
        if display_width(longer.as_str()) > content {
            fits = false;
        } else {
            bounded = longer;
            i += 1;
        }
    }
    bounded.push('…');
    bounded
}

/// The first row that is shown of a list of `len` rows, of which `rows` fit.
pub open spec fn first_row(selected: int, len: int, rows: int) -> int {
    let at = if selected < len {
        selected
    } else {
        len - 1
    };
    let room = if rows < 1 {
        1
    } else if rows > len {
        len
    } else {
        rows
    };
    let start = if at < room / 2 {
        0
    } else {
        at - room / 2
    };
    if start > len - room {
        len - room
    } else {
        start
    }
}

/// The rows of a list that are shown, and what is said about the others.
pub open spec fn viewport_text(selected: int, len: int, rows: int) -> Seq<char> {
    let at = if selected < len {
        selected
    } else {
        len - 1
    };
    let room = if rows < 1 {
        1
    } else if rows > len {
        len
    } else {
        rows
    };
    let start = first_row(selected, len, rows);
    numeral((at + 1) as nat) + "/"@ + numeral(len as nat) + (if start > 0 {
        " · more above"@
    } else {
        Seq::empty()
    }) + (if start + room < len {
        " · more below"@
    } else {
        Seq::empty()
    })
}

/// The rows of a list that are shown, and what is said about the others.
pub fn viewport_metadata(selected: usize, len: usize, rows: usize) -> (r: (usize, String))
    ensures
        if len == 0 {
            r.0 == 0 && r.1@ == "0/0"@
        } else {
            r.0 == first_row(selected as int, len as int, rows as int) && r.1@ == viewport_text(
                selected as int,
                len as int,
                rows as int,
            )
        },
{
    if len == 0 {
        return (0, "0/0".to_owned());
    }
    let at: usize = if selected < len {
        selected
    } else {
        len - 1
    };
    let room: usize = if rows < 1 {
        1
    } else if rows > len {
        len
    } else {
        rows
    };
    let half: usize = room / 2;
    let middle: usize = if at < half {
        0
    } else {
        at - half
    };
    let start: usize = if middle > len - room {
        len - room
    } else {
        middle
    };
    let mut text = decimal((at as u64) + 1).concat("/").concat(decimal(len as u64).as_str());
    let ghost head = text@;
    if start > 0 {
        text = text.concat(" · more above");
    }
    let ghost middle_text = text@;
    if start < len - room {
        text = text.concat(" · more below");
    }
    proof {
        assert(head + Seq::<char>::empty() =~= head);
        assert(middle_text + Seq::<char>::empty() =~= middle_text);
        assert(text@ =~= viewport_text(selected as int, len as int, rows as int));
    }
    (start, text)
}

/// The selected row is always among those shown.
pub proof fn the_selected_row_is_shown(selected: int, len: int, rows: int)
    requires
        0 <= selected < len,
        rows >= 1,
    ensures
        0 <= first_row(selected, len, rows) <= selected < first_row(selected, len, rows) + rows,
{
}

/// Two running workloads with the same name are among its namesakes.
proof fn lemma_namesakes(records: Seq<RecordView>, label: Seq<char>, i: int, j: int)
    requires
        0 <= i < j < records.len(),
        records[i].exact_running(),
        records[j].exact_running(),
        base_label(records[i]) == label,
        base_label(records[j]) == label,
    ensures
        exists|p: int, q: int|
            0 <= p < q < namesakes(eligible_records(records), label).len()
                && #[trigger] namesakes(eligible_records(records), label)[p] == records[i].id
                && #[trigger] namesakes(eligible_records(records), label)[q] == records[j].id,
    decreases records.len(),
{
    let front = records.drop_last();
    let all = namesakes(eligible_records(records), label);
    let before = namesakes(eligible_records(front), label);
    lemma_namesakes_grow(records, label);
    if j < front.len() {
        lemma_namesakes(front, label, i, j);
        let (p, q) = choose|p: int, q: int|
            0 <= p < q < before.len() && #[trigger] before[p] == front[i].id
                && #[trigger] before[q] == front[j].id;
        assert(all[p] == before[p] && all[q] == before[q]);
    } else {
        lemma_namesake(front, label, i);
        let p = choose|p: int| 0 <= p < before.len() && #[trigger] before[p] == front[i].id;
        assert(all[p] == before[p]);
        assert(all[before.len() as int] == records[j].id);
    }
}

/// A running workload is one of its namesakes.
proof fn lemma_namesake(records: Seq<RecordView>, label: Seq<char>, i: int)
    requires
        0 <= i < records.len(),
        records[i].exact_running(),
        base_label(records[i]) == label,
    ensures
        exists|p: int|
            0 <= p < namesakes(eligible_records(records), label).len() && #[trigger] namesakes(
                eligible_records(records),
                label,
            )[p] == records[i].id,
    decreases records.len(),
{
    let front = records.drop_last();
    let all = namesakes(eligible_records(records), label);
    let before = namesakes(eligible_records(front), label);
    lemma_namesakes_grow(records, label);
    if i < front.len() {
        lemma_namesake(front, label, i);
        let p = choose|p: int| 0 <= p < before.len() && #[trigger] before[p] == front[i].id;
        assert(all[p] == before[p]);
    } else {
        assert(all[before.len() as int] == records[i].id);
    }
}

/// One more record adds at most itself to the namesakes.
proof fn lemma_namesakes_grow(records: Seq<RecordView>, label: Seq<char>)
    requires
        records.len() > 0,
    ensures
        namesakes(eligible_records(records), label) == if records.last().exact_running()
            && base_label(records.last()) == label {
            namesakes(eligible_records(records.drop_last()), label).push(records.last().id)
        } else {
            namesakes(eligible_records(records.drop_last()), label)
        },
{
    let front = eligible_records(records.drop_last());
    if records.last().exact_running() {
        assert(front.push(records.last()).drop_last() =~= front);
    }
}

/// The width of references tells workloads apart, or it is the widest.
proof fn lemma_width_from(ids: Seq<SessionId>, from: int)
    requires
        from <= SessionId::MAX_REFERENCE_WIDTH,
    ensures
        width_from(ids, from) == SessionId::MAX_REFERENCE_WIDTH || tells_apart(
            ids,
            width_from(ids, from),
        ),
    decreases SessionId::MAX_REFERENCE_WIDTH - from,
{
    if from < SessionId::MAX_REFERENCE_WIDTH && !tells_apart(ids, from) {
        lemma_width_from(ids, from + 1);
    }
}

/// Running workloads with the same name are shown under different labels.
pub proof fn namesakes_are_told_apart(records: Seq<RecordView>, i: int, j: int)
    requires
        0 <= i < j < records.len(),
        records[i].exact_running(),
        records[j].exact_running(),
        base_label(records[i]) == base_label(records[j]),
        records[i].id != records[j].id,
    ensures
        full_label(records, records[i]) != full_label(records, records[j]),
{
    let base = base_label(records[i]);
    let ids = namesakes(eligible_records(records), base);
    lemma_namesakes(records, base, i, j);
    let (p, q) = choose|p: int, q: int|
        0 <= p < q < ids.len() && #[trigger] ids[p] == records[i].id && #[trigger] ids[q]
            == records[j].id;
    let width = width_from(ids, SessionId::SHORT_REFERENCE_WIDTH as int);
    lemma_width_from(ids, SessionId::SHORT_REFERENCE_WIDTH as int);
    let a = reference_token_text(ids[p]@, width);
    let b = reference_token_text(ids[q]@, width);
    assert(a != b) by {
        if !tells_apart(ids, width) {
            full_reference_tokens_differ(ids[p], ids[q]);
        }
    }
    let head = base + " ["@;
    let tail = "]"@;
    assert((head + a + tail).subrange(
        head.len() as int,
        (head + a + tail).len() - tail.len(),
    ) =~= a);
    assert((head + b + tail).subrange(
        head.len() as int,
        (head + b + tail).len() - tail.len(),
    ) =~= b);
}

} // verus!
