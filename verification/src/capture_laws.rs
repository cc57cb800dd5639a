//! What is shown of captured output, and how it is cut and wrapped.

use vstd::prelude::*;
use vstd::string::*;

use crate::capture::{
    after_control_sequence, after_control_string, all_rows, cell_width, grapheme_clusters,
    label_of_clusters, last_rows, line_feeds, lines_of, newest_within_limits, plain_text,
    shown_capture, total_bytes, total_cells, unsafe_format, viewport, wrapped_rows,
};
use crate::text::{byte_len, control, joined, lemma_byte_len_add};

verus! {

/// Text without control and formatting characters is shown as it is, line ends
/// and all.
pub proof fn plain_output_is_kept(text: Seq<char>)
    requires
        forall|i: int|
            0 <= i < text.len() ==> (#[trigger] text[i]) == '\n' || !control(text[i])
                && !unsafe_format(text[i]),
    ensures
        plain_text(text) == text,
    decreases text.len(),
{
    if text.len() > 0 {
        let rest = text.drop_first();
        assert(forall|i: int| 0 <= i < rest.len() ==> rest[i] == text[i + 1]);
        assert(text[0] == '\n' || !control(text[0]) && !unsafe_format(text[0]));
        assert(control('\x1b') && control('\r') && control('\t'));
        plain_output_is_kept(rest);
        assert(seq![text[0]] + rest =~= text);
    } else {
        assert(plain_text(text) =~= text);
    }
}

/// A control sequence ends with its first final character.
pub proof fn lemma_control_sequence(parameters: Seq<char>, end: char, rest: Seq<char>)
    requires
        '@' <= end <= '~',
        forall|i: int|
            0 <= i < parameters.len() ==> !('@' <= #[trigger] parameters[i] && parameters[i]
                <= '~'),
    ensures
        after_control_sequence(parameters.push(end) + rest) == rest,
    decreases parameters.len(),
{
    let all = parameters.push(end) + rest;
    if parameters.len() == 0 {
        assert(all[0] == end);
        assert(all.drop_first() =~= rest);
    } else {
        let fewer = parameters.drop_first();
        assert(all[0] == parameters[0]);
        assert(forall|i: int| 0 <= i < fewer.len() ==> fewer[i] == parameters[i + 1]);
        lemma_control_sequence(fewer, end, rest);
        assert(all.drop_first() =~= fewer.push(end) + rest);
    }
}

/// A control string ends with the first BEL.
proof fn lemma_control_string(body: Seq<char>, rest: Seq<char>)
    requires
        forall|i: int|
            0 <= i < body.len() ==> #[trigger] body[i] != '\x07' && body[i] != '\x1b',
    ensures
        after_control_string(body.push('\x07') + rest, false) == rest,
    decreases body.len(),
{
    let all = body.push('\x07') + rest;
    if body.len() == 0 {
        assert(all[0] == '\x07');
        assert(all.drop_first() =~= rest);
    } else {
        let fewer = body.drop_first();
        assert(all[0] == body[0]);
        assert(forall|i: int| 0 <= i < fewer.len() ==> fewer[i] == body[i + 1]);
        lemma_control_string(fewer, rest);
        assert(all.drop_first() =~= fewer.push('\x07') + rest);
    }
}

/// Colors and other control sequences leave nothing behind, up to their final
/// character, and take nothing of what follows.
pub proof fn control_sequences_leave_nothing(parameters: Seq<char>, end: char, rest: Seq<char>)
    requires
        '@' <= end <= '~',
        forall|i: int|
            0 <= i < parameters.len() ==> !('@' <= #[trigger] parameters[i] && parameters[i]
                <= '~'),
    ensures
        plain_text(seq!['\x1b', '['] + (parameters.push(end) + rest)) == plain_text(rest),
{
    let all = seq!['\x1b', '['] + (parameters.push(end) + rest);
    lemma_control_sequence(parameters, end, rest);
    assert(all[0] == '\x1b');
    assert(all.drop_first()[0] == '[');
    assert(all.drop_first().drop_first() =~= parameters.push(end) + rest);
}

/// Titles and other control strings leave nothing behind, up to the BEL.
pub proof fn control_strings_leave_nothing(kind: char, body: Seq<char>, rest: Seq<char>)
    requires
        kind == ']' || kind == 'P' || kind == 'X' || kind == '^' || kind == '_',
        forall|i: int|
            0 <= i < body.len() ==> #[trigger] body[i] != '\x07' && body[i] != '\x1b',
    ensures
        plain_text(seq!['\x1b', kind] + (body.push('\x07') + rest)) == plain_text(rest),
{
    let all = seq!['\x1b', kind] + (body.push('\x07') + rest);
    lemma_control_string(body, rest);
    assert(all[0] == '\x1b');
    assert(all.drop_first()[0] == kind);
    assert(all.drop_first().drop_first() =~= body.push('\x07') + rest);
}

/// Every line end is one line feed, and a tab four spaces. Other control and
/// formatting characters leave nothing behind.
pub proof fn line_ends_and_tabs_are_normalized(c: char, rest: Seq<char>)
    ensures
        plain_text(seq!['\n'] + rest) == seq!['\n'] + plain_text(rest),
        plain_text(seq!['\r', '\n'] + rest) == seq!['\n'] + plain_text(rest),
        (rest.len() == 0 || rest[0] != '\n') ==> plain_text(seq!['\r'] + rest) == seq!['\n']
            + plain_text(rest),
        plain_text(seq!['\t'] + rest) == seq![' ', ' ', ' ', ' '] + plain_text(rest),
        c != '\x1b' && c != '\r' && c != '\n' && c != '\t' && (control(c) || unsafe_format(c))
            ==> plain_text(seq![c] + rest) == plain_text(rest),
{
    assert((seq!['\n'] + rest).drop_first() =~= rest);
    assert((seq!['\r', '\n'] + rest).skip(2) =~= rest);
    assert((seq!['\r'] + rest).drop_first() =~= rest);
    assert((seq!['\t'] + rest).drop_first() =~= rest);
    assert((seq![c] + rest).drop_first() =~= rest);
    assert((seq!['\r', '\n'] + rest)[1] == '\n');
    if rest.len() > 0 {
        assert((seq!['\r'] + rest)[1] == rest[0]);
    }
}

/// The clusters fit in what is shown of a capture: 200 lines, 16 KiB and 16,384
/// cells.
pub open spec fn fits(clusters: Seq<Seq<char>>) -> bool {
    &&& line_feeds(clusters) < 200
    &&& total_bytes(clusters) <= 16_384
    &&& total_cells(clusters) <= 16_384
}

/// The number of lines and of bytes is that of the text.
pub proof fn clusters_are_counted(clusters: Seq<Seq<char>>)
    ensures
        line_feeds(clusters) == clusters.filter(|cluster: Seq<char>| cluster == seq!['\n']).len(),
        total_bytes(clusters) == byte_len(clusters.flatten()),
    decreases clusters.len(),
{
    let feed = |cluster: Seq<char>| cluster == seq!['\n'];
    reveal(Seq::filter);
    if clusters.len() > 0 {
        let rest = clusters.drop_first();
        let first = seq![clusters[0]];
        clusters_are_counted(rest);
        assert(first + rest =~= clusters);
        Seq::filter_distributes_over_add(first, rest, feed);
        assert(first.drop_last() =~= Seq::<Seq<char>>::empty());
        assert(first.drop_last().filter(feed).len() == 0);
        lemma_byte_len_add(clusters[0], rest.flatten());
    } else {
        assert(clusters.filter(feed).len() == 0);
        assert(byte_len(clusters.flatten()) == 0);
    }
}

/// What is kept is an end of what there is, it fits, and no longer end does. All
/// of it is kept if it fits.
pub proof fn the_longest_end_that_fits_is_kept(clusters: Seq<Seq<char>>) -> (start: int)
    ensures
        0 <= start <= clusters.len(),
        newest_within_limits(clusters) == clusters.skip(start),
        fits(clusters.skip(start)),
        forall|k: int| 0 <= k < start ==> !fits(#[trigger] clusters.skip(k)),
        fits(clusters) ==> start == 0,
    decreases clusters.len(),
{
    assert(clusters.skip(0) =~= clusters);
    if clusters.len() == 0 || fits(clusters) {
        0
    } else {
        let rest = clusters.drop_first();
        let start = the_longest_end_that_fits_is_kept(rest);
        assert(rest.skip(start) =~= clusters.skip(start + 1));
        assert forall|k: int| 0 <= k < start + 1 implies !fits(#[trigger] clusters.skip(k)) by {
            if k > 0 {
                assert(rest.skip(k - 1) =~= clusters.skip(k));
                assert(!fits(rest.skip(k - 1)));
            }
        }
        start + 1
    }
}

/// What is shown of captured output is the end of its plain text that fits.
pub proof fn captures_show_the_end(input: Seq<char>, start: int)
    requires
        0 <= start <= grapheme_clusters(plain_text(input)).len(),
        fits(grapheme_clusters(plain_text(input)).skip(start)),
        forall|k: int|
            0 <= k < start ==> !fits(#[trigger] grapheme_clusters(plain_text(input)).skip(k)),
    ensures
        shown_capture(input) == grapheme_clusters(plain_text(input)).skip(start).flatten(),
{
    let clusters = grapheme_clusters(plain_text(input));
    let found = the_longest_end_that_fits_is_kept(clusters);
    if found < start {
        assert(!fits(clusters.skip(found)));
    }
    if start < found {
        assert(!fits(clusters.skip(start)));
    }
}

/// The lines of a text hold no line feed, and with line feeds between them they
/// are the text.
pub proof fn lines_make_up_the_text(text: Seq<char>)
    ensures
        lines_of(text).len() > 0,
        joined(lines_of(text), "\n"@) == text,
        forall|i: int| 0 <= i < lines_of(text).len() ==> !(#[trigger] lines_of(text)[i]).contains(
            '\n',
        ),
    decreases text.len(),
{
    reveal_strlit("\n");
    if text.len() > 0 {
        let before = text.drop_last();
        let lines = lines_of(before);
        lines_make_up_the_text(before);
        let all = lines_of(text);
        if text.last() == '\n' {
            assert(all.drop_last() =~= lines);
            assert(joined(all, "\n"@) =~= joined(lines, "\n"@) + "\n"@ + Seq::<char>::empty());
            assert(joined(all, "\n"@) =~= text);
        } else {
            let longer = lines.last().push(text.last());
            assert(all.drop_last() =~= lines.drop_last());
            assert(all.last() == longer);
            assert(joined(all, "\n"@) =~= joined(lines, "\n"@).push(text.last()));
            assert(joined(all, "\n"@) =~= text);
            assert(!longer.contains('\n')) by {
                if longer.contains('\n') {
                    let k = choose|k: int| 0 <= k < longer.len() && longer[k] == '\n';
                    assert(lines.last()[k] == '\n');
                    assert(lines[lines.len() - 1].contains('\n'));
                }
            }
        }
        assert forall|i: int| 0 <= i < all.len() implies !(#[trigger] all[i]).contains('\n') by {
            if i < all.len() - 1 {
                assert(all[i] == lines[i]);
            }
        }
    } else {
        assert(joined(lines_of(text), "\n"@) =~= text);
    }
}

/// The rows of a line begin with what stands in the row so far.
proof fn lemma_first_row(clusters: Seq<Seq<char>>, width: nat, row: Seq<char>, cells: nat)
    ensures
        wrapped_rows(clusters, width, row, cells).len() > 0,
        row.is_prefix_of(wrapped_rows(clusters, width, row, cells)[0]),
    decreases clusters.len(),
{
    if clusters.len() > 0 {
        let rest = clusters.drop_first();
        let needed = cell_width(clusters[0]);
        lemma_first_row(rest, width, row + clusters[0], cells + needed);
        lemma_first_row(rest, width, row, cells);
        if !(cells > 0 && cells + needed > width) && needed <= width {
            let longer = row + clusters[0];
            let first = wrapped_rows(rest, width, longer, cells + needed)[0];
            assert(longer.is_prefix_of(first));
            assert forall|i: int| 0 <= i < row.len() implies row[i] == first[i] by {
                assert(longer[i] == row[i]);
            }
            assert(first.subrange(0, row.len() as int) =~= row);
        }
    }
}

/// The rows of a line hold it whole, but for what is wider than any row. A
/// cluster that still fits stands in the same row; one that does not begins
/// the next.
pub proof fn lines_are_wrapped_where_they_must_be(
    clusters: Seq<Seq<char>>,
    width: nat,
    row: Seq<char>,
    cells: nat,
)
    ensures
        ({
            let rows = wrapped_rows(clusters, width, row, cells);
            &&& rows.flatten() == row + clusters.filter(
                |cluster: Seq<char>| cell_width(cluster) <= width,
            ).flatten()
            &&& clusters.len() > 0 && cells + cell_width(clusters[0]) <= width ==> (row
                + clusters[0]).is_prefix_of(rows[0])
            &&& clusters.len() > 0 && cells > 0 && cell_width(clusters[0]) <= width && cells
                + cell_width(clusters[0]) > width ==> rows.len() > 1 && rows[0] == row
                && clusters[0].is_prefix_of(rows[1])
        }),
    decreases clusters.len(),
{
    let narrow = |cluster: Seq<char>| cell_width(cluster) <= width;
    let rows = wrapped_rows(clusters, width, row, cells);
    reveal(Seq::filter);
    if clusters.len() == 0 {
        assert(clusters.filter(narrow) =~= Seq::empty());
        assert(clusters.filter(narrow).flatten() =~= Seq::<char>::empty());
        rows.lemma_flatten_one_element();
        assert(rows.flatten() =~= row + clusters.filter(narrow).flatten());
    } else {
        let rest = clusters.drop_first();
        let first = seq![clusters[0]];
        let needed = cell_width(clusters[0]);
        let full = cells > 0 && cells + needed > width;
        let start = if full {
            Seq::empty()
        } else {
            row
        };
        let used = if full {
            0
        } else {
            cells
        };
        assert(first + rest =~= clusters);
        Seq::filter_distributes_over_add(first, rest, narrow);
        assert(first.drop_last() =~= Seq::<Seq<char>>::empty());
        assert(first.drop_last().filter(narrow) =~= Seq::<Seq<char>>::empty());
        let kept = rest.filter(narrow);
        let inner = if needed <= width {
            wrapped_rows(rest, width, start + clusters[0], used + needed)
        } else {
            wrapped_rows(rest, width, start, used)
        };
        if needed <= width {
            lines_are_wrapped_where_they_must_be(rest, width, start + clusters[0], used + needed);
            lemma_first_row(rest, width, start + clusters[0], used + needed);
            assert(first.filter(narrow) =~= first);
            assert(clusters.filter(narrow) =~= first + kept);
            assert((first + kept).drop_first() =~= kept);
            assert((first + kept).flatten() =~= clusters[0] + kept.flatten());
            assert(inner.flatten() =~= start + (first + kept).flatten());
        } else {
            lines_are_wrapped_where_they_must_be(rest, width, start, used);
            assert(first.filter(narrow) =~= Seq::<Seq<char>>::empty());
            assert(clusters.filter(narrow) =~= kept);
            assert(inner.flatten() =~= start + kept.flatten());
        }
        if full {
            assert(rows =~= seq![row] + inner);
            assert((seq![row] + inner).drop_first() =~= inner);
            assert(rows.flatten() =~= row + inner.flatten());
            assert(rows.flatten() =~= row + clusters.filter(narrow).flatten());
            if needed <= width {
                assert(rows[1] == inner[0]);
                assert(start + clusters[0] =~= clusters[0]);
            }
        } else {
            assert(rows == inner);
        }
    }
}

/// A pane shows the last rows of a text, as many as fit, from its first to its
/// last line.
pub proof fn panes_show_the_last_rows(text: Seq<char>, width: nat, height: nat, more: Seq<char>)
    ensures
        ({
            let rows = all_rows(lines_of(text), width);
            &&& last_rows(rows, height).len() == if rows.len() < height {
                rows.len()
            } else {
                height
            }
            &&& last_rows(rows, height).is_suffix_of(rows)
            &&& width > 0 && height > 0 ==> viewport(text, width, height) == joined(
                last_rows(rows, height),
                "\n"@,
            )
            &&& width == 0 || height == 0 ==> viewport(text, width, height).len() == 0
            &&& all_rows(lines_of(text).push(more), width) == rows + wrapped_rows(
                grapheme_clusters(more),
                width,
                Seq::empty(),
                0,
            )
            &&& all_rows(Seq::empty(), width).len() == 0
        }),
{
    let rows = all_rows(lines_of(text), width);
    assert(rows.subrange(0, rows.len() as int) =~= rows);
    assert(lines_of(text).push(more).drop_last() =~= lines_of(text));
}

/// What stands for a cluster in a label.
pub open spec fn in_label(cluster: Seq<char>) -> Seq<char> {
    if cluster == seq!['\n'] {
        seq![' ']
    } else {
        cluster
    }
}

/// The cells that a cluster takes in a label.
pub open spec fn label_cells(clusters: Seq<Seq<char>>) -> int
    decreases clusters.len(),
{
    if clusters.len() == 0 {
        0
    } else {
        label_cells(clusters.drop_last()) + if clusters.last() == seq!['\n'] {
            1
        } else {
            cell_width(clusters.last()) as int
        }
    }
}

/// The cells of a label are those of its first cluster and of the others.
proof fn lemma_label_cells(first: Seq<char>, rest: Seq<Seq<char>>)
    ensures
        label_cells(seq![first] + rest) == label_cells(seq![first]) + label_cells(rest),
    decreases rest.len(),
{
    let all = seq![first] + rest;
    if rest.len() == 0 {
        assert(all =~= seq![first]);
    } else {
        lemma_label_cells(first, rest.drop_last());
        assert(all.drop_last() =~= seq![first] + rest.drop_last());
    }
}

/// A label is the longest beginning that fits, on one line.
pub proof fn labels_are_cut_to_their_width(clusters: Seq<Seq<char>>, max_cells: int) -> (count:
    int)
    requires
        max_cells >= 0,
    ensures
        0 <= count <= clusters.len(),
        label_of_clusters(clusters, max_cells) == clusters.take(count).map_values(
            |cluster: Seq<char>| in_label(cluster),
        ).flatten(),
        label_cells(clusters.take(count)) <= max_cells,
        count < clusters.len() ==> label_cells(clusters.take(count + 1)) > max_cells,
    decreases clusters.len(),
{
    let shown = |cluster: Seq<char>| in_label(cluster);
    if clusters.len() == 0 {
        assert(clusters.take(0).map_values(shown).flatten() =~= Seq::<char>::empty());
        0
    } else {
        let first = clusters[0];
        let rest = clusters.drop_first();
        let width = if first == seq!['\n'] {
            1
        } else {
            cell_width(first) as int
        };
        assert(seq![first].drop_last() =~= Seq::<Seq<char>>::empty());
        assert(label_cells(seq![first]) == width) by {
            reveal_with_fuel(label_cells, 2);
        }
        if width > max_cells {
            assert(clusters.take(0) =~= Seq::<Seq<char>>::empty());
            assert(clusters.take(1) =~= seq![first]);
            assert(clusters.take(0).map_values(shown).flatten() =~= Seq::<char>::empty());
            0
        } else {
            let count = labels_are_cut_to_their_width(rest, max_cells - width);
            assert(clusters.take(count + 1) =~= seq![first] + rest.take(count));
            lemma_label_cells(first, rest.take(count));
            let mapped = clusters.take(count + 1).map_values(shown);
            assert(mapped.drop_first() =~= rest.take(count).map_values(shown));
            assert(mapped[0] == in_label(first));
            if count < rest.len() {
                assert(clusters.take(count + 2) =~= seq![first] + rest.take(count + 1));
                lemma_label_cells(first, rest.take(count + 1));
            }
            count + 1
        }
    }
}

} // verus!
