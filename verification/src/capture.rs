//! Captured terminal output, made safe and small enough to show.

use unicode_segmentation::UnicodeSegmentation;
use vstd::prelude::*;
use vstd::string::*;

use crate::text::{
    byte_len, byte_length, chars_of, control, is_control, join, joined, lemma_byte_len_add,
    same_text, views,
};

verus! {

pub const MAX_CAPTURE_LINES: usize = 200;

pub const MAX_CAPTURE_BYTES: usize = 16 * 1024;

pub const MAX_CAPTURE_CELLS: usize = 16 * 1024;

/// The extended grapheme clusters of a text, in order.
pub uninterp spec fn grapheme_clusters(text: Seq<char>) -> Seq<Seq<char>>;

/// The number of terminal cells that a text takes when it is drawn on one line.
pub uninterp spec fn cell_width(text: Seq<char>) -> nat;

/// `UnicodeSegmentation::graphemes` cuts the text into its extended grapheme
/// clusters. They are not empty, they make up the text, and a line feed stands
/// in a cluster of its own or behind a carriage return. What decides whether a
/// cluster ends at some place lies in that cluster or right behind it, so the
/// text of the last clusters is cut into the same clusters when it stands alone.
#[verifier::external_body]
pub(crate) fn graphemes(text: &str) -> (clusters: Vec<String>)
    ensures
        views(clusters@) == grapheme_clusters(text@),
        views(clusters@).flatten() == text@,
        forall|i: int| 0 <= i < clusters@.len() ==> (#[trigger] clusters@[i])@.len() > 0,
        forall|i: int|
            0 <= i < clusters@.len() && (#[trigger] clusters@[i])@.contains('\n') ==> clusters@[i]@
                == seq!['\n'] || clusters@[i]@ == seq!['\r', '\n'],
        forall|k: int|
            0 <= k <= clusters@.len() ==> grapheme_clusters(
                (#[trigger] views(clusters@).skip(k)).flatten(),
            ) == views(clusters@).skip(k),
{
    text.graphemes(true).map(str::to_owned).collect()
}

/// `Line::from` and `Line::width` measure the text in terminal cells.
#[verifier::external_body]
pub(crate) fn display_width(text: &str) -> (width: usize)
    ensures
        width == cell_width(text@),
{
    ratatui::text::Line::from(text).width()
}

/// A character that changes how text is laid out without being seen.
pub open spec fn unsafe_format(c: char) -> bool {
    let code = c as u32;
    ||| code == 0x061c
    ||| 0x200b <= code <= 0x200c
    ||| 0x200e <= code <= 0x200f
    ||| 0x202a <= code <= 0x202e
    ||| 0x2060 <= code <= 0x206f
    ||| code == 0xfeff
}

/// Whether `c` changes how text is laid out without being seen.
pub fn is_unsafe_format(c: char) -> (r: bool)
    ensures
        r == unsafe_format(c),
{
    let code: u32 = c as u32;
    code == 0x061c || (0x200b <= code && code <= 0x200c) || (0x200e <= code && code <= 0x200f) || (
    0x202a <= code && code <= 0x202e) || (0x2060 <= code && code <= 0x206f) || code == 0xfeff
}

/// What follows a control sequence whose introducer has been read: everything
/// behind its final character.
pub open spec fn after_control_sequence(rest: Seq<char>) -> Seq<char>
    decreases rest.len(),
{
    if rest.len() == 0 {
        rest
    } else if '@' <= rest[0] <= '~' {
        rest.drop_first()
    } else {
        after_control_sequence(rest.drop_first())
    }
}

/// What follows a control string whose introducer has been read: everything
/// behind a BEL or an escaped backslash. `escaped` says that the character
/// before `rest` was an escape.
pub open spec fn after_control_string(rest: Seq<char>, escaped: bool) -> Seq<char>
    decreases rest.len(),
{
    if rest.len() == 0 {
        rest
    } else if rest[0] == '\x07' || (escaped && rest[0] == '\\') {
        rest.drop_first()
    } else {
        after_control_string(rest.drop_first(), rest[0] == '\x1b')
    }
}

/// What follows an escape sequence whose escape character has been read.
pub open spec fn after_escape(rest: Seq<char>) -> Seq<char> {
    if rest.len() == 0 {
        rest
    } else if rest[0] == '[' {
        after_control_sequence(rest.drop_first())
    } else if rest[0] == ']' || rest[0] == 'P' || rest[0] == 'X' || rest[0] == '^' || rest[0] == '_' {
        after_control_string(rest.drop_first(), false)
    } else {
        rest.drop_first()
    }
}

/// An escape sequence ends at or before the end of the text.
pub proof fn lemma_after_escape_len(rest: Seq<char>, escaped: bool)
    ensures
        after_control_sequence(rest).len() <= rest.len(),
        after_control_string(rest, escaped).len() <= rest.len(),
        after_escape(rest).len() <= rest.len(),
    decreases rest.len(),
{
    if rest.len() > 0 {
        lemma_after_escape_len(rest.drop_first(), rest[0] == '\x1b');
        lemma_after_escape_len(rest.drop_first(), false);
    }
}

/// `input` without terminal escapes, control characters and unsafe formatting,
/// with line ends and tabs normalized.
pub open spec fn plain_text(input: Seq<char>) -> Seq<char>
    decreases input.len(),
    via plain_text_decreases
{
    if input.len() == 0 {
        Seq::empty()
    } else if input[0] == '\x1b' {
        plain_text(after_escape(input.drop_first()))
    } else if input[0] == '\r' {
        if input.len() > 1 && input[1] == '\n' {
            seq!['\n'] + plain_text(input.skip(2))
        } else {
            seq!['\n'] + plain_text(input.drop_first())
        }
    } else if input[0] == '\n' {
        seq!['\n'] + plain_text(input.drop_first())
    } else if input[0] == '\t' {
        seq![' ', ' ', ' ', ' '] + plain_text(input.drop_first())
    } else if unsafe_format(input[0]) || control(input[0]) {
        plain_text(input.drop_first())
    } else {
        seq![input[0]] + plain_text(input.drop_first())
    }
}

#[via_fn]
proof fn plain_text_decreases(input: Seq<char>) {
    if input.len() > 0 {
        lemma_after_escape_len(input.drop_first(), false);
    }
}

/// A character that a shown capture may hold.
pub open spec fn showable(c: char) -> bool {
    c == '\n' || (!control(c) && !unsafe_format(c))
}

/// Text that holds nothing but characters that may be shown.
pub open spec fn all_showable(text: Seq<char>) -> bool {
    forall|i: int| 0 <= i < text.len() ==> showable(#[trigger] text[i])
}

/// Nothing but line feeds and showable characters is left of any input.
pub proof fn plain_text_is_showable(input: Seq<char>)
    ensures
        all_showable(plain_text(input)),
    decreases input.len(),
{
    if input.len() > 0 {
        lemma_after_escape_len(input.drop_first(), false);
        plain_text_is_showable(after_escape(input.drop_first()));
        plain_text_is_showable(input.drop_first());
        if input.len() > 1 {
            plain_text_is_showable(input.skip(2));
        }
        lemma_showable_add(seq!['\n'], plain_text(input.skip(2)));
        lemma_showable_add(seq!['\n'], plain_text(input.drop_first()));
        lemma_showable_add(seq![' ', ' ', ' ', ' '], plain_text(input.drop_first()));
        lemma_showable_add(seq![input[0]], plain_text(input.drop_first()));
    }
}

/// Showable text is plain already.
proof fn lemma_showable_is_plain(text: Seq<char>)
    requires
        all_showable(text),
    ensures
        plain_text(text) == text,
    decreases text.len(),
{
    if text.len() > 0 {
        let rest = text.drop_first();
        assert forall|i: int| 0 <= i < rest.len() implies showable(#[trigger] rest[i]) by {
            assert(rest[i] == text[i + 1]);
        }
        lemma_showable_is_plain(rest);
        assert(showable(text[0]));
        assert(text =~= seq![text[0]] + rest);
    } else {
        assert(text =~= Seq::empty());
    }
}

/// Two showable texts in a row are showable.
proof fn lemma_showable_add(a: Seq<char>, b: Seq<char>)
    ensures
        all_showable(a) && all_showable(b) ==> all_showable(a + b),
{
}

/// The index in `chars` behind the escape sequence whose escape character
/// stands just before `from`.
fn consume_escape(chars: &Vec<char>, from: usize) -> (next: usize)
    requires
        from <= chars@.len(),
    ensures
        from <= next <= chars@.len(),
        chars@.skip(next as int) == after_escape(chars@.skip(from as int)),
{
    if from == chars.len() {
        return from;
    }
    let ghost rest = chars@.skip(from as int);
    let kind = chars[from];
    assert(rest[0] == kind);
    let mut at: usize = from + 1;
    assert(rest.drop_first() =~= chars@.skip(at as int));
    if kind == '[' {
        while at < chars.len()
            invariant
                from < at <= chars@.len(),
                after_escape(rest) == after_control_sequence(chars@.skip(at as int)),
                after_escape(rest) == after_escape(chars@.skip(from as int)),
            decreases chars.len() - at,
        {
            let c = chars[at];
            assert(chars@.skip(at as int)[0] == c);
            assert(chars@.skip(at as int).drop_first() =~= chars@.skip(at + 1));
            at += 1;
            if '@' <= c && c <= '~' {
                return at;
            }
        }
    } else if kind == ']' || kind == 'P' || kind == 'X' || kind == '^' || kind == '_' {
        let mut escaped = false;
        while at < chars.len()
            invariant
                from < at <= chars@.len(),
                after_escape(rest) == after_control_string(chars@.skip(at as int), escaped),
                after_escape(rest) == after_escape(chars@.skip(from as int)),
            decreases chars.len() - at,
        {
            let c = chars[at];
            assert(chars@.skip(at as int)[0] == c);
            assert(chars@.skip(at as int).drop_first() =~= chars@.skip(at + 1));
            at += 1;
            if c == '\x07' || (escaped && c == '\\') {
                return at;
            }
            escaped = c == '\x1b';
        }
    }
    at
}

/// `input` without terminal escapes, control characters and unsafe formatting.
fn strip(input: &str) -> (output: String)
    ensures
        output@ == plain_text(input@),
{
    let chars = chars_of(input);
    let mut output = String::new();
    let mut at: usize = 0;
    assert(chars@.skip(0) =~= chars@);
    while at < chars.len()
        invariant
            at <= chars@.len(),
            chars@ == input@,
            plain_text(input@) == output@ + plain_text(chars@.skip(at as int)),
        decreases chars.len() - at,
    {
        let ghost rest = chars@.skip(at as int);
        let ghost before = output@;
        let c = chars[at];
        assert(rest[0] == c);
        assert(rest.drop_first() =~= chars@.skip(at + 1));
        if c == '\x1b' {
            at = consume_escape(&chars, at + 1);
        } else if c == '\r' {
            output.push('\n');
            if at + 1 < chars.len() && chars[at + 1] == '\n' {
                assert(rest[1] == '\n');
                assert(rest.skip(2) =~= chars@.skip(at + 2));
                at += 2;
            } else {
                assert(rest.len() > 1 ==> rest[1] == chars@[at + 1]);
                at += 1;
            }
            assert(output@ + plain_text(chars@.skip(at as int)) =~= before + (seq!['\n']
                + plain_text(chars@.skip(at as int))));
        } else if c == '\n' {
            output.push('\n');
            at += 1;
            assert(output@ + plain_text(chars@.skip(at as int)) =~= before + (seq!['\n']
                + plain_text(chars@.skip(at as int))));
        } else if c == '\t' {
            output.push(' ');
            output.push(' ');
            output.push(' ');
            output.push(' ');
            at += 1;
            assert(output@ + plain_text(chars@.skip(at as int)) =~= before + (seq![
                ' ',
                ' ',
                ' ',
                ' ',
            ] + plain_text(chars@.skip(at as int))));
        } else if is_unsafe_format(c) || is_control(c) {
            at += 1;
        } else {
            output.push(c);
            at += 1;
            assert(output@ + plain_text(chars@.skip(at as int)) =~= before + (seq![c] + plain_text(
                chars@.skip(at as int),
            )));
        }
    }
    assert(output@ + plain_text(chars@.skip(at as int)) =~= output@);
    output
}

/// The number of clusters that are a line feed.
pub open spec fn line_feeds(clusters: Seq<Seq<char>>) -> nat
    decreases clusters.len(),
{
    if clusters.len() == 0 {
        0
    } else {
        line_feeds(clusters.drop_first()) + if clusters[0] == seq!['\n'] {
            1nat
        } else {
            0nat
        }
    }
}

/// The number of bytes of all clusters.
pub open spec fn total_bytes(clusters: Seq<Seq<char>>) -> nat
    decreases clusters.len(),
{
    if clusters.len() == 0 {
        0
    } else {
        total_bytes(clusters.drop_first()) + byte_len(clusters[0])
    }
}

/// The number of terminal cells of all clusters but line feeds.
pub open spec fn total_cells(clusters: Seq<Seq<char>>) -> nat
    decreases clusters.len(),
{
    if clusters.len() == 0 {
        0
    } else {
        total_cells(clusters.drop_first()) + if clusters[0] == seq!['\n'] {
            0nat
        } else {
            cell_width(clusters[0])
        }
    }
}

/// Clusters that fit in every limit of a shown capture.
pub open spec fn within_limits(clusters: Seq<Seq<char>>) -> bool {
    &&& line_feeds(clusters) + 1 <= MAX_CAPTURE_LINES
    &&& total_bytes(clusters) <= MAX_CAPTURE_BYTES
    &&& total_cells(clusters) <= MAX_CAPTURE_CELLS
}

/// The newest clusters that fit in every limit: clusters are dropped from the
/// front as long as the rest does not fit.
pub open spec fn newest_within_limits(clusters: Seq<Seq<char>>) -> Seq<Seq<char>>
    decreases clusters.len(),
{
    if clusters.len() == 0 || within_limits(clusters) {
        clusters
    } else {
        newest_within_limits(clusters.drop_first())
    }
}

/// What is shown of captured output.
pub open spec fn shown_capture(input: Seq<char>) -> Seq<char> {
    newest_within_limits(grapheme_clusters(plain_text(input))).flatten()
}

/// What fits still fits without its first cluster.
proof fn lemma_limits_are_monotone(clusters: Seq<Seq<char>>, from: int)
    requires
        0 <= from <= clusters.len(),
        within_limits(clusters),
    ensures
        within_limits(clusters.skip(from)),
    decreases from,
{
    if from == 0 {
        assert(clusters.skip(0) =~= clusters);
    } else {
        lemma_limits_are_monotone(clusters, from - 1);
        assert(clusters.skip(from - 1).drop_first() =~= clusters.skip(from));
    }
}

/// Dropping from the front stops at the first suffix that fits.
proof fn lemma_newest_is_first_fit(clusters: Seq<Seq<char>>, from: int)
    requires
        0 <= from <= clusters.len(),
        within_limits(clusters.skip(from)),
        from > 0 ==> !within_limits(clusters.skip(from - 1)),
    ensures
        newest_within_limits(clusters) == clusters.skip(from),
    decreases clusters.len(),
{
    if from == 0 {
        assert(clusters.skip(0) =~= clusters);
    } else {
        if within_limits(clusters) {
            lemma_limits_are_monotone(clusters, from - 1);
        }
        let rest = clusters.drop_first();
        assert(rest.skip(from - 1) =~= clusters.skip(from));
        if from > 1 {
            assert(rest.skip(from - 2) =~= clusters.skip(from - 1));
        }
        lemma_newest_is_first_fit(rest, from - 1);
    }
}

/// What is kept fits in every limit.
pub proof fn newest_fits(clusters: Seq<Seq<char>>)
    ensures
        within_limits(newest_within_limits(clusters)),
    decreases clusters.len(),
{
    if clusters.len() > 0 && !within_limits(clusters) {
        newest_fits(clusters.drop_first());
    }
}

/// The text of `clusters[from..]`.
fn text_of_clusters(clusters: &Vec<String>, from: usize) -> (text: String)
    requires
        from <= clusters@.len(),
    ensures
        text@ == views(clusters@).skip(from as int).flatten(),
{
    let mut text = String::new();
    let mut i: usize = from;
    let ghost all = views(clusters@);
    assert(all.subrange(from as int, from as int).flatten() =~= Seq::<char>::empty());
    while i < clusters.len()
        invariant
            from <= i <= clusters@.len(),
            all == views(clusters@),
            text@ == all.subrange(from as int, i as int).flatten(),
        decreases clusters.len() - i,
    {
        text.append(clusters[i].as_str());
        proof {
            all.subrange(from as int, i as int).lemma_flatten_push(clusters@[i as int]@);
            assert(all.subrange(from as int, i + 1) =~= all.subrange(from as int, i as int).push(
                clusters@[i as int]@,
            ));
        }
        i += 1;
    }
    assert(all.subrange(from as int, i as int) =~= all.skip(from as int));
    text
}

/// The index of the newest clusters that fit in every limit.
fn newest_start(clusters: &Vec<String>) -> (start: usize)
    ensures
        start <= clusters@.len(),
        newest_within_limits(views(clusters@)) == views(clusters@).skip(start as int),
{
    let ghost all = views(clusters@);
    let mut start: usize = clusters.len();
    let mut lines: usize = 1;
    let mut bytes: usize = 0;
    let mut cells: usize = 0;
    assert(all.skip(start as int) =~= Seq::<Seq<char>>::empty());
    while start > 0
        invariant
            start <= clusters@.len(),
            all == views(clusters@),
            lines == line_feeds(all.skip(start as int)) + 1,
            bytes == total_bytes(all.skip(start as int)),
            cells == total_cells(all.skip(start as int)),
            within_limits(all.skip(start as int)),
        decreases start,
    {
        let cluster = clusters[start - 1].as_str();
        let size = byte_length(cluster);
        let line_feed = same_text(cluster, "\n");
        proof {
            reveal_strlit("\n");
            assert("\n"@ =~= seq!['\n']);
            assert(all.skip(start - 1).drop_first() =~= all.skip(start as int));
            assert(all.skip(start - 1)[0] == cluster@);
        }
        if size > MAX_CAPTURE_BYTES - bytes {
            proof {
                lemma_newest_is_first_fit(all, start as int);
            }
            return start;
        }
        if line_feed {
            if lines >= MAX_CAPTURE_LINES {
                proof {
                    lemma_newest_is_first_fit(all, start as int);
                }
                return start;
            }
            lines += 1;
        } else {
            let width = display_width(cluster);
            if width > MAX_CAPTURE_CELLS - cells {
                proof {
                    lemma_newest_is_first_fit(all, start as int);
                }
                return start;
            }
            cells += width;
        }
        bytes += size;
        start -= 1;
    }
    proof {
        lemma_newest_is_first_fit(all, 0);
    }
    start
}

/// The number of line feeds in a text.
pub open spec fn newlines(text: Seq<char>) -> nat
    decreases text.len(),
{
    if text.len() == 0 {
        0
    } else {
        newlines(text.drop_last()) + if text.last() == '\n' {
            1nat
        } else {
            0nat
        }
    }
}

/// Line feeds of two texts in a row add up.
proof fn lemma_newlines_add(a: Seq<char>, b: Seq<char>)
    ensures
        newlines(a + b) == newlines(a) + newlines(b),
    decreases b.len(),
{
    if b.len() == 0 {
        assert(a + b =~= a);
    } else {
        assert((a + b).drop_last() =~= a + b.drop_last());
        lemma_newlines_add(a, b.drop_last());
    }
}

/// Text without a line feed has none.
proof fn lemma_no_newlines(text: Seq<char>)
    requires
        !text.contains('\n'),
    ensures
        newlines(text) == 0,
    decreases text.len(),
{
    if text.len() > 0 {
        assert(text[text.len() - 1] != '\n');
        assert forall|i: int| 0 <= i < text.len() - 1 implies text.drop_last()[i] != '\n' by {
            assert(text[i] != '\n');
        }
        lemma_no_newlines(text.drop_last());
    }
}

/// Sums over clusters are sums over their text.
proof fn lemma_totals_of_text(clusters: Seq<Seq<char>>)
    requires
        forall|i: int|
            0 <= i < clusters.len() && (#[trigger] clusters[i]).contains('\n') ==> clusters[i]
                == seq!['\n'],
    ensures
        byte_len(clusters.flatten()) == total_bytes(clusters),
        newlines(clusters.flatten()) == line_feeds(clusters),
    decreases clusters.len(),
{
    if clusters.len() > 0 {
        let first = clusters[0];
        let rest = clusters.drop_first();
        assert forall|i: int|
            0 <= i < rest.len() && (#[trigger] rest[i]).contains('\n') implies rest[i]
            == seq!['\n'] by {
            assert(rest[i] == clusters[i + 1]);
        }
        lemma_totals_of_text(rest);
        assert(clusters.flatten() == first + rest.flatten());
        lemma_byte_len_add(first, rest.flatten());
        lemma_newlines_add(first, rest.flatten());
        if first.contains('\n') {
            assert(seq!['\n'].drop_last() =~= Seq::<char>::empty());
            assert(newlines(seq!['\n']) == 1) by {
                reveal_with_fuel(newlines, 2);
            }
        } else {
            lemma_no_newlines(first);
            assert(!seq!['\n'].contains('\n') || first != seq!['\n']);
            assert(seq!['\n'][0] == '\n');
        }
    }
}

/// The text of the last clusters ends the text of all of them.
proof fn lemma_flatten_skip(clusters: Seq<Seq<char>>, from: int)
    requires
        0 <= from <= clusters.len(),
    ensures
        clusters.flatten() == clusters.take(from).flatten() + clusters.skip(from).flatten(),
    decreases from,
{
    if from == 0 {
        assert(clusters.skip(0) =~= clusters);
        assert(clusters.take(0).flatten() =~= Seq::<char>::empty());
        assert(clusters.flatten() =~= clusters.take(0).flatten() + clusters.skip(0).flatten());
    } else {
        let rest = clusters.drop_first();
        lemma_flatten_skip(rest, from - 1);
        assert(rest.skip(from - 1) =~= clusters.skip(from));
        assert(clusters.take(from).drop_first() =~= rest.take(from - 1));
        assert(clusters.take(from)[0] == clusters[0]);
        assert(clusters.flatten() =~= clusters.take(from).flatten() + clusters.skip(from).flatten());
    }
}

/// A shown capture: safe characters within every limit, taken from the end of
/// the plain text.
pub open spec fn presentable(output: Seq<char>, plain: Seq<char>) -> bool {
    &&& all_showable(output)
    &&& output.is_suffix_of(plain)
    &&& byte_len(output) <= MAX_CAPTURE_BYTES
    &&& newlines(output) < MAX_CAPTURE_LINES
}

/// The newest part of `input` that fits in every limit, cut between grapheme
/// clusters.
pub fn bounded_capture_tail(input: &str) -> (output: String)
    ensures
        output@ == newest_within_limits(grapheme_clusters(input@)).flatten(),
        newest_within_limits(grapheme_clusters(output@)).flatten() == output@,
        all_showable(input@) ==> presentable(output@, input@),
{
    let clusters = graphemes(input);
    let start = newest_start(&clusters);
    let output = text_of_clusters(&clusters, start);
    proof {
        newest_fits(views(clusters@));
        assert(grapheme_clusters(output@) == views(clusters@).skip(start as int));
        if all_showable(input@) {
            let all = views(clusters@);
            let newest = all.skip(start as int);
            lemma_flatten_skip(all, start as int);
            let front = all.take(start as int).flatten();
            assert(input@ == front + output@);
            assert(input@.skip(front.len() as int) =~= output@);
            assert(output@ =~= input@.subrange(
                (input@.len() - output@.len()) as int,
                input@.len() as int,
            ));
            assert forall|i: int| 0 <= i < output@.len() implies showable(#[trigger] output@[i]) by {
                assert(output@[i] == input@[front.len() + i]);
            }
            assert forall|i: int|
                0 <= i < newest.len() && (#[trigger] newest[i]).contains('\n') implies newest[i]
                == seq!['\n'] by {
                assert(newest[i] == clusters@[start + i]@);
                if newest[i] == seq!['\r', '\n'] {
                    lemma_cluster_in_text(all, start + i);
                    assert(newest[i][0] == '\r');
                    let at = all.take(start + i).flatten().len() as int;
                    assert(input@[at] == '\r');
                    assert(showable(input@[at]));
                }
            }
            lemma_totals_of_text(newest);
        }
    }
    output
}

/// A cluster stands in the text behind the clusters before it.
proof fn lemma_cluster_in_text(clusters: Seq<Seq<char>>, at: int)
    requires
        0 <= at < clusters.len(),
    ensures
        forall|j: int|
            0 <= j < clusters[at].len() ==> {
                let position = clusters.take(at).flatten().len() + j;
                position < clusters.flatten().len() && clusters.flatten()[position]
                    == #[trigger] clusters[at][j]
            },
{
    lemma_flatten_skip(clusters, at);
    let rest = clusters.skip(at);
    assert(rest[0] == clusters[at]);
    assert(rest.flatten() == rest[0] + rest.drop_first().flatten());
}

/// Removes terminal escapes and unsafe formatting characters, normalizes line
/// endings and tabs, and retains the newest bounded output by UTF-8 bytes,
/// logical lines, and display cells. What it returns it leaves as it is.
pub fn sanitize_capture(input: &str) -> (output: String)
    ensures
        output@ == shown_capture(input@),
        presentable(output@, plain_text(input@)),
        shown_capture(output@) == output@,
{
    let plain = strip(input);
    proof {
        plain_text_is_showable(input@);
    }
    let output = bounded_capture_tail(plain.as_str());
    proof {
        lemma_showable_is_plain(output@);
    }
    output
}

/// The part of a label that fits in `max_cells`, one cluster after the other.
/// A line feed takes one cell and is shown as a space.
pub open spec fn label_of_clusters(clusters: Seq<Seq<char>>, max_cells: int) -> Seq<char>
    decreases clusters.len(),
{
    if clusters.len() == 0 {
        Seq::empty()
    } else {
        let line_feed = clusters[0] == seq!['\n'];
        let width = if line_feed {
            1
        } else {
            cell_width(clusters[0]) as int
        };
        if width > max_cells {
            Seq::empty()
        } else {
            (if line_feed {
                seq![' ']
            } else {
                clusters[0]
            }) + label_of_clusters(clusters.drop_first(), max_cells - width)
        }
    }
}

/// The safe one-line form of a label.
pub open spec fn shown_label(input: Seq<char>, max_cells: int) -> Seq<char> {
    label_of_clusters(grapheme_clusters(shown_capture(input)), max_cells)
}

/// The safe form of `input` on one line of at most `max_cells` cells.
pub fn sanitize_label(input: &str, max_cells: usize) -> (output: String)
    ensures
        output@ == shown_label(input@, max_cells as int),
{
    let capture = sanitize_capture(input);
    let clusters = graphemes(capture.as_str());
    let mut output = String::new();
    let mut left: usize = max_cells;
    let mut i: usize = 0;
    let ghost all = views(clusters@);
    assert(all.skip(0) =~= all);
    while i < clusters.len()
        invariant
            i <= clusters@.len(),
            all == views(clusters@),
            shown_label(input@, max_cells as int) == output@ + label_of_clusters(
                all.skip(i as int),
                left as int,
            ),
        decreases clusters.len() - i,
    {
        let cluster = clusters[i].as_str();
        let line_feed = same_text(cluster, "\n");
        let ghost before = output@;
        proof {
            reveal_strlit("\n");
            assert("\n"@ =~= seq!['\n']);
            assert(all.skip(i as int)[0] == cluster@);
            assert(all.skip(i as int).drop_first() =~= all.skip(i + 1));
        }
        let width: usize = if line_feed {
            1
        } else {
            display_width(cluster)
        };
        if width > left {
            assert(output@ + Seq::<char>::empty() =~= output@);
            return output;
        }
        left -= width;
        if line_feed {
            output.push(' ');
            assert(output@ =~= before + seq![' ']);
        } else {
            output.append(cluster);
        }
        i += 1;
        proof {
            let added = if line_feed {
                seq![' ']
            } else {
                cluster@
            };
            let rest = label_of_clusters(all.skip(i as int), left as int);
            assert(before + (added + rest) =~= (before + added) + rest);
        }
    }
    assert(output@ + Seq::<char>::empty() =~= output@);
    output
}

/// The rows into which a line is wrapped. `row` and `cells` describe the row
/// that is being filled. A cluster wider than a whole row is left out.
pub open spec fn wrapped_rows(
    clusters: Seq<Seq<char>>,
    width: nat,
    row: Seq<char>,
    cells: nat,
) -> Seq<Seq<char>>
    decreases clusters.len(),
{
    if clusters.len() == 0 {
        seq![row]
    } else {
        let needed = cell_width(clusters[0]);
        let full = cells > 0 && cells + needed > width;
        let start = if full {
            Seq::empty()
        } else {
            row
        };
        let used = if full {
            0
        } else {
            cells
        };
        let rest = if needed <= width {
            wrapped_rows(clusters.drop_first(), width, start + clusters[0], used + needed)
        } else {
            wrapped_rows(clusters.drop_first(), width, start, used)
        };
        if full {
            seq![row] + rest
        } else {
            rest
        }
    }
}

/// The lines of a text: its parts between line feeds.
pub open spec fn lines_of(text: Seq<char>) -> Seq<Seq<char>>
    decreases text.len(),
{
    if text.len() == 0 {
        seq![Seq::empty()]
    } else {
        let front = lines_of(text.drop_last());
        if text.last() == '\n' {
            front.push(Seq::empty())
        } else {
            front.drop_last().push(front.last().push(text.last()))
        }
    }
}

/// The rows of a text in a pane `width` cells wide.
pub open spec fn all_rows(lines: Seq<Seq<char>>, width: nat) -> Seq<Seq<char>>
    decreases lines.len(),
{
    if lines.len() == 0 {
        Seq::empty()
    } else {
        all_rows(lines.drop_last(), width) + wrapped_rows(
            grapheme_clusters(lines.last()),
            width,
            Seq::empty(),
            0,
        )
    }
}

/// The last `count` items of `rows`, or all of them if there are fewer.
pub open spec fn last_rows(rows: Seq<Seq<char>>, count: nat) -> Seq<Seq<char>> {
    if rows.len() <= count {
        rows
    } else {
        rows.skip(rows.len() - count)
    }
}

/// What a pane of `width` cells and `height` rows shows of a text: its last rows.
pub open spec fn viewport(text: Seq<char>, width: nat, height: nat) -> Seq<char> {
    if width == 0 || height == 0 {
        Seq::empty()
    } else {
        joined(last_rows(all_rows(lines_of(text), width), height), "\n"@)
    }
}

/// The lines of `text`.
pub fn split_lines(text: &str) -> (lines: Vec<String>)
    ensures
        views(lines@) == lines_of(text@),
        lines@.len() > 0,
{
    let chars = chars_of(text);
    let mut lines: Vec<String> = Vec::new();
    let mut line = String::new();
    let mut i: usize = 0;
    assert(chars@.take(0) =~= Seq::<char>::empty());
    assert(views(lines@).push(line@) =~= seq![Seq::<char>::empty()]);
    while i < chars.len()
        invariant
            i <= chars@.len(),
            chars@ == text@,
            views(lines@).push(line@) == lines_of(chars@.take(i as int)),
        decreases chars.len() - i,
    {
        let ghost front = views(lines@).push(line@);
        let c = chars[i];
        assert(chars@.take(i + 1).drop_last() =~= chars@.take(i as int));
        assert(chars@.take(i + 1).last() == c);
        if c == '\n' {
            let ghost before = lines@;
            let ghost shown = line@;
            lines.push(line);
            line = String::new();
            assert(views(lines@) =~= views(before).push(shown));
            assert(views(lines@).push(line@) =~= front.push(Seq::empty()));
        } else {
            line.push(c);
            assert(front.drop_last() =~= views(lines@));
            assert(views(lines@).push(line@) =~= front.drop_last().push(front.last().push(c)));
        }
        i += 1;
    }
    assert(chars@.take(chars@.len() as int) =~= chars@);
    let ghost before = lines@;
    let ghost shown = line@;
    lines.push(line);
    assert(views(lines@) =~= views(before).push(shown));
    lines
}

/// The last rows of a longer list, when a row is added.
proof fn lemma_last_rows_push(rows: Seq<Seq<char>>, row: Seq<char>, count: nat)
    requires
        count > 0,
    ensures
        last_rows(rows.push(row), count) == (if last_rows(rows, count).len() == count {
            last_rows(rows, count).drop_first()
        } else {
            last_rows(rows, count)
        }).push(row),
{
    assert(last_rows(rows.push(row), count) =~= (if last_rows(rows, count).len() == count {
        last_rows(rows, count).drop_first()
    } else {
        last_rows(rows, count)
    }).push(row));
}

/// Adds a row behind `rows` and keeps the last `height` of them.
fn push_viewport_row(rows: &mut Vec<String>, row: String, height: usize)
    requires
        height > 0,
        old(rows)@.len() <= height,
    ensures
        final(rows)@.len() <= height,
        forall|all: Seq<Seq<char>>|
            views(old(rows)@) == last_rows(all, height as nat) ==> views(final(rows)@) == last_rows(
                #[trigger] all.push(row@),
                height as nat,
            ),
{
    let ghost before = rows@;
    let ghost added = row@;
    if rows.len() == height {
        rows.remove(0);
    }
    let ghost kept = rows@;
    rows.push(row);
    proof {
        assert(views(rows@) =~= views(kept).push(added));
        if before.len() == height {
            assert(views(kept) =~= views(before).drop_first());
        }
        assert forall|all: Seq<Seq<char>>|
            views(before) == last_rows(all, height as nat) implies views(rows@) == last_rows(
            #[trigger] all.push(added),
            height as nat,
        ) by {
            lemma_last_rows_push(all, added, height as nat);
        }
    }
}

/// The last `height` rows of `input` in a pane `width` cells wide.
pub fn capture_viewport(input: &str, width: u16, height: u16) -> (output: String)
    ensures
        output@ == viewport(input@, width as nat, height as nat),
{
    let width: usize = width as usize;
    let height: usize = height as usize;
    if width == 0 || height == 0 {
        return String::new();
    }
    let lines = split_lines(input);
    let ghost texts = views(lines@);
    let mut rows: Vec<String> = Vec::new();
    let mut i: usize = 0;
    assert(texts.take(0) =~= Seq::<Seq<char>>::empty());
    assert(views(rows@) =~= Seq::<Seq<char>>::empty());
    while i < lines.len()
        invariant
            i <= lines@.len(),
            0 < height,
            0 < width <= u16::MAX,
            texts == views(lines@),
            rows@.len() <= height,
            views(rows@) == last_rows(all_rows(texts.take(i as int), width as nat), height as nat),
        decreases lines.len() - i,
    {
        let clusters = graphemes(lines[i].as_str());
        let ghost all = views(clusters@);
        let ghost done = all_rows(texts.take(i as int), width as nat);
        let ghost wanted = wrapped_rows(all, width as nat, Seq::empty(), 0);
        let ghost mut made: Seq<Seq<char>> = Seq::empty();
        assert(texts.take(i + 1).drop_last() =~= texts.take(i as int));
        assert(texts.take(i + 1).last() == lines@[i as int]@);
        let mut row = String::new();
        let mut cells: usize = 0;
        let mut k: usize = 0;
        assert(all.skip(0) =~= all);
        assert(done + made =~= done);
        assert(made + wanted =~= wanted);
        while k < clusters.len()
            invariant
                k <= clusters@.len(),
                all == views(clusters@),
                0 < height,
                0 < width <= u16::MAX,
                cells <= width,
                rows@.len() <= height,
                views(rows@) == last_rows(done + made, height as nat),
                wanted == made + wrapped_rows(all.skip(k as int), width as nat, row@, cells as nat),
            decreases clusters.len() - k,
        {
            let cluster = clusters[k].as_str();
            let needed = display_width(cluster);
            let ghost shown = row@;
            let ghost filled = cells;
            assert(all.skip(k as int)[0] == cluster@);
            assert(all.skip(k as int).drop_first() =~= all.skip(k + 1));
            if cells > 0 && needed > width - cells {
                push_viewport_row(&mut rows, row, height);
                assert((done + made).push(shown) =~= done + made.push(shown));
                row = String::new();
                cells = 0;
                proof {
                    made = made.push(shown);
                }
            }
            let ghost start = row@;
            if needed <= width {
                row.append(cluster);
                cells += needed;
            }
            k += 1;
            proof {
                let rest = wrapped_rows(all.skip(k as int), width as nat, row@, cells as nat);
                if filled > 0 && needed > width - filled {
                    assert(row@ =~= if needed <= width {
                        start + cluster@
                    } else {
                        start
                    });
                    assert(start =~= Seq::<char>::empty());
                    assert(made + rest =~= made.drop_last() + (seq![shown] + rest));
                }
            }
        }
        let ghost shown = row@;
        push_viewport_row(&mut rows, row, height);
        proof {
            assert((done + made).push(shown) =~= done + made.push(shown));
            assert(made.push(shown) =~= made + seq![shown]);
        }
        i += 1;
    }
    assert(texts.take(texts.len() as int) =~= texts);
    join(&rows, "\n")
}

} // verus!
