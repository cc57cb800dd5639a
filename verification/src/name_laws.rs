//! What names, labels and identifiers keep of the texts they are made of.

use vstd::prelude::*;
use vstd::string::*;

use crate::backend::slash_parts;
use crate::capture::{cell_width, grapheme_clusters, shown_label};
use crate::config::lowered;
use crate::herdr_reply::{ForegroundProcess, ProcessView};
use crate::manager_names::{
    cut_label, first_free, first_row, fitting, free_suffix, full_label, hyphenated,
    last_nonempty, name_char,
    numbered_id, numbered_title, repository_of, safe_name, slug_of, squeezed, tidy_end,
    viewport_text, without_end_hyphens,
};
use crate::model::{denoted_uuid, denotes_session_id, reference_token_text, SessionId};
use crate::observer::{titled_uuids, WorkerView};
use crate::observer_manager::{
    candidate_in, candidate_of, member_candidate, toggled_id, without_id, CandidateView,
};
use crate::pane_title::without_end_slashes;
use crate::state::{MemberView, RecordView};
use crate::text::{ascii_alphanumeric, ascii_digit, ascii_lower, collapsed, control, numeral};
use crate::text_laws::{holds_part, lemma_holds_each, texts_are_cut_at_a_character};

verus! {

/// Spaces and punctuation at the end go, and nothing else does.
pub proof fn names_end_tidily(text: Seq<char>)
    ensures
        ({
            let tidy = tidy_end(text);
            &&& tidy.len() <= text.len()
            &&& tidy == text.take(tidy.len() as int)
            &&& tidy.len() > 0 ==> tidy.last() != ' ' && tidy.last() != '-' && tidy.last() != '_'
                && tidy.last() != '.'
            &&& forall|i: int|
                tidy.len() <= i < text.len() ==> (#[trigger] text[i]) == ' ' || text[i] == '-'
                    || text[i] == '_' || text[i] == '.'
        }),
    decreases text.len(),
{
    let tidy = tidy_end(text);
    if !(text.len() > 0 && (text.last() == ' ' || text.last() == '-' || text.last() == '_'
        || text.last() == '.')) {
        assert(text.take(tidy.len() as int) =~= text);
    } else {
        let front = text.drop_last();
        names_end_tidily(front);
        assert(front.take(tidy.len() as int) =~= text.take(tidy.len() as int));
        assert forall|i: int| tidy.len() <= i < text.len() implies (#[trigger] text[i]) == ' '
            || text[i] == '-' || text[i] == '_' || text[i] == '.' by {
            if i < front.len() {
                assert(front[i] == text[i]);
            }
        }
    }
}

/// What a name keeps are its plain characters, in order; while there is room, it
/// keeps all of them.
pub proof fn names_keep_plain_characters(input: Seq<char>, max: int)
    requires
        max >= 0,
    ensures
        ({
            let output = squeezed(input, max).0;
            let plain = |c: char| name_char(c);
            &&& output.filter(plain).is_prefix_of(input.filter(plain))
            &&& output.len() < max ==> output.filter(plain) == input.filter(plain)
            &&& output.len() <= max
            &&& (forall|i: int| 0 <= i < input.len() ==> name_char(#[trigger] input[i]))
                && input.len() <= max ==> squeezed(input, max) == (input, false)
        }),
    decreases input.len(),
{
    reveal(Seq::filter);
    let plain = |c: char| name_char(c);
    let output = squeezed(input, max).0;
    assert(!name_char(' '));
    if input.len() > 0 {
        let before = input.drop_last();
        names_keep_plain_characters(before, max);
        let kept = squeezed(before, max).0;
        let c = input.last();
        assert(kept.push(' ').drop_last() =~= kept);
        assert(kept.push(c).drop_last() =~= kept);
        assert(kept.push(' ').push(c).drop_last() =~= kept.push(' '));
        let small = kept.filter(plain);
        let large = before.filter(plain);
        assert(large.subrange(0, small.len() as int) =~= small);
        assert(kept.push(' ').filter(plain) == small);
        if name_char(c) {
            assert(input.filter(plain) =~= large.push(c));
            assert(large.push(c).subrange(0, small.len() as int) =~= small);
            assert(kept.push(c).filter(plain) == small.push(c));
            assert(kept.push(' ').push(c).filter(plain) == small.push(c));
            if kept.len() < max {
                assert(small == large);
                assert(large.push(c).subrange(0, large.len() as int + 1) =~= large.push(c));
            }
        }
        if forall|i: int| 0 <= i < input.len() ==> name_char(#[trigger] input[i]) {
            assert forall|i: int| 0 <= i < before.len() implies name_char(#[trigger] before[i]) by {
                assert(before[i] == input[i]);
            }
            assert(before.push(c) =~= input);
        }
    } else {
        assert(output.filter(plain) =~= Seq::<char>::empty());
        assert(input.filter(plain) =~= Seq::<char>::empty());
        assert(input.filter(plain).subrange(0, 0) =~= Seq::<char>::empty());
        assert(output =~= input);
    }
}

/// A plain word that fits is its own name, and a text without any plain character
/// is called a workspace.
pub proof fn plain_words_are_their_own_names(word: Seq<char>, max: int)
    requires
        max >= 0,
    ensures
        0 < word.len() <= max && (forall|i: int|
            0 <= i < word.len() ==> name_char(#[trigger] word[i])) && ascii_alphanumeric(
            word.last(),
        ) ==> safe_name(word, max) == word,
        (forall|i: int| 0 <= i < word.len() ==> !name_char(#[trigger] word[i])) ==> safe_name(
            word,
            max,
        ) == "workspace"@,
{
    names_keep_plain_characters(word, max);
    names_end_tidily(word);
    if forall|i: int| 0 <= i < word.len() ==> !name_char(#[trigger] word[i]) {
        lemma_no_plain_characters(word, max);
        assert(tidy_end(Seq::empty()) =~= Seq::<char>::empty());
    }
    if 0 < word.len() && ascii_alphanumeric(word.last()) {
        assert(tidy_end(word) == word);
    }
}

/// A text without plain characters leaves nothing for a name.
proof fn lemma_no_plain_characters(text: Seq<char>, max: int)
    requires
        forall|i: int| 0 <= i < text.len() ==> !name_char(#[trigger] text[i]),
    ensures
        squeezed(text, max).0 == Seq::<char>::empty(),
    decreases text.len(),
{
    if text.len() > 0 {
        let before = text.drop_last();
        assert forall|i: int| 0 <= i < before.len() implies !name_char(#[trigger] before[i]) by {
            assert(before[i] == text[i]);
        }
        lemma_no_plain_characters(before, max);
    }
}

/// Words of a name stand apart by one space, whatever stood between them.
pub proof fn words_of_names_stand_apart(a: Seq<char>, b: char, c: char, max: int)
    requires
        0 < a.len(),
        a.len() + 2 <= max,
        forall|i: int| 0 <= i < a.len() ==> name_char(#[trigger] a[i]),
        !name_char(b),
        name_char(c),
    ensures
        squeezed(a.push(b).push(c), max).0 == a.push(' ').push(c),
        squeezed(a.push(b).push(b).push(c), max).0 == a.push(' ').push(c),
{
    names_keep_plain_characters(a, max);
    assert(a.push(b).drop_last() =~= a);
    assert(a.push(b).push(b).drop_last() =~= a.push(b));
    assert(a.push(b).push(c).drop_last() =~= a.push(b));
    assert(a.push(b).push(b).push(c).drop_last() =~= a.push(b).push(b));
    assert(squeezed(a.push(b), max) == (a, true));
    assert(squeezed(a.push(b).push(b), max) == (a, true));
}

/// A part of an identifier is made of lowercase letters and digits; such a text
/// that begins with a letter and fits is its own.
pub proof fn plain_words_are_their_own_parts(word: Seq<char>, max: int)
    requires
        0 < word.len() <= max,
        ascii_lower(word[0]),
        forall|i: int|
            0 <= i < word.len() ==> ascii_lower(#[trigger] word[i]) || ascii_digit(word[i]),
    ensures
        slug_of(word, max) == word,
{
    lemma_hyphenated_word(word, max);
    assert(word.last() != '-') by {
        assert(ascii_lower(word[word.len() - 1]) || ascii_digit(word[word.len() - 1]));
    }
    assert(without_end_hyphens(word) == word);
}

/// Lowercase letters and digits stay as they are.
proof fn lemma_hyphenated_word(word: Seq<char>, max: int)
    requires
        word.len() <= max,
        forall|i: int|
            0 <= i < word.len() ==> ascii_lower(#[trigger] word[i]) || ascii_digit(word[i]),
    ensures
        hyphenated(word, max) == (word, false),
    decreases word.len(),
{
    if word.len() > 0 {
        let before = word.drop_last();
        assert forall|i: int| 0 <= i < before.len() implies ascii_lower(#[trigger] before[i])
            || ascii_digit(before[i]) by {
            assert(before[i] == word[i]);
        }
        lemma_hyphenated_word(before, max);
        assert(ascii_lower(word[word.len() - 1]) || ascii_digit(word[word.len() - 1]));
        assert(before.push(word.last()) =~= word);
    } else {
        assert(hyphenated(word, max).0 =~= word);
    }
}

/// Words of a part stand apart by one hyphen, and capitals are made small.
pub proof fn words_of_parts_stand_apart(a: Seq<char>, b: char, c: char, max: int)
    requires
        0 < a.len(),
        a.len() + 2 <= max,
        forall|i: int| 0 <= i < a.len() ==> ascii_lower(#[trigger] a[i]) || ascii_digit(a[i]),
        !ascii_alphanumeric(b),
        ascii_alphanumeric(c),
    ensures
        hyphenated(a.push(b).push(c), max).0 == a.push('-').push(lowered(c)),
        hyphenated(a.push(b).push(b).push(c), max).0 == a.push('-').push(lowered(c)),
        lowered('A') == 'a',
        lowered('Z') == 'z',
        ascii_lower(c) || ascii_digit(c) ==> lowered(c) == c,
        'A' <= c <= 'Z' ==> ascii_lower(lowered(c)),
{
    lemma_hyphenated_word(a, max);
    assert(a.push(b).drop_last() =~= a);
    assert(a.push(b).push(b).drop_last() =~= a.push(b));
    assert(a.push(b).push(c).drop_last() =~= a.push(b));
    assert(a.push(b).push(b).push(c).drop_last() =~= a.push(b).push(b));
    assert(hyphenated(a.push(b), max) == (a, true));
    assert(hyphenated(a.push(b).push(b), max) == (a, true));
}

/// A repository is named by the last part of its directory, with or without a
/// slash behind it.
pub proof fn repositories_are_named_by_their_directory(directory: Seq<char>, name: Seq<char>)
    requires
        name.len() > 0,
        !name.contains('/'),
    ensures
        repository_of(directory + seq!['/'] + name) == name,
        repository_of(directory + seq!['/'] + name + seq!['/']) == name,
        repository_of(name) == name,
        repository_of(Seq::empty()) == "workspace"@,
{
    let path = directory + seq!['/'] + name;
    assert(path.last() == name.last());
    assert(name.last() != '/') by {
        assert(name.contains(name.last()));
    }
    assert((path + seq!['/']).drop_last() =~= path);
    reveal_with_fuel(without_end_slashes, 3);
    assert(without_end_slashes(path) == path);
    assert(without_end_slashes(path + seq!['/']) == path);
    assert(without_end_slashes(name) == name);
    texts_are_cut_at_a_character(directory, '/', name);
    texts_are_cut_at_a_character(name, '/', name);
    assert(slash_parts(path).last() == name);
    assert(slash_parts(name).last() == name);
    let none = slash_parts(Seq::empty());
    assert(none =~= seq![Seq::<char>::empty()]);
    reveal_with_fuel(last_nonempty, 3);
    assert(none.drop_last() =~= Seq::<Seq<char>>::empty());
}

/// The number of a new group is the least that is free; the first group has its
/// base for a name.
pub proof fn the_least_free_number_is_taken(
    taken: Seq<Seq<char>>,
    base: Seq<char>,
    found: int,
    other: int,
)
    requires
        first_free(taken, base, found),
    ensures
        found >= 1,
        !taken.contains(base) ==> found == 1,
        other >= 1 && !taken.contains(numbered_id(base, other)) ==> found <= other,
        free_suffix(taken, base) == found,
{
    let chosen = free_suffix(taken, base);
    assert(first_free(taken, base, chosen));
    assert(numbered_id(base, 1) == base);
    if other >= 1 && other < found {
        assert(taken.contains(numbered_id(base, other)));
    }
    if chosen < found {
        assert(taken.contains(numbered_id(base, chosen)));
    }
    if found < chosen {
        assert(taken.contains(numbered_id(base, found)));
    }
    if !taken.contains(base) && found > 1 {
        assert(taken.contains(numbered_id(base, 1)));
    }
}

/// The title of a group's number tells host and repository, and its number from
/// the second on.
pub proof fn numbered_titles_tell_host_and_repository(
    host: Seq<char>,
    repository: Seq<char>,
    suffix: int,
)
    ensures
        numbered_title(host, repository, 1) == safe_name(
            "Observer "@ + host + " "@ + repository,
            128,
        ),
        suffix > 1 ==> numbered_title(host, repository, suffix) == safe_name(
            "Observer "@ + host + " "@ + repository + " "@ + numeral(suffix as nat),
            128,
        ),
{
}

/// A label that fits is shown whole; one that does not ends with an ellipsis
/// behind the longest beginning that leaves room for it.
pub proof fn labels_are_cut_between_clusters(text: Seq<char>, max_width: int)
    requires
        max_width >= 0,
    ensures
        cell_width(text) <= max_width ==> cut_label(text, max_width) == text,
        cell_width(text) > max_width && max_width == 0 ==> cut_label(text, max_width).len() == 0,
        cell_width(text) > max_width && max_width > 0 ==> {
            let clusters = grapheme_clusters(text);
            let count = fitting(clusters, max_width - 1, 0);
            &&& cut_label(text, max_width) == clusters.take(count).flatten().push('…')
            &&& 0 <= count <= clusters.len()
            &&& count < clusters.len() ==> cell_width(clusters.take(count + 1).flatten())
                >= max_width
            &&& count > 0 ==> cell_width(clusters.take(count).flatten()) < max_width
        },
{
    lemma_fitting(grapheme_clusters(text), max_width - 1, 0);
}

/// The beginning that fits is followed by a cluster that does not.
proof fn lemma_fitting(clusters: Seq<Seq<char>>, width: int, from: int)
    requires
        0 <= from <= clusters.len(),
    ensures
        ({
            let count = fitting(clusters, width, from);
            &&& from <= count <= clusters.len()
            &&& count < clusters.len() ==> cell_width(clusters.take(count + 1).flatten()) > width
            &&& count > from ==> cell_width(clusters.take(count).flatten()) <= width
        }),
    decreases clusters.len() - from,
{
    if from < clusters.len() && cell_width(clusters.take(from + 1).flatten()) <= width {
        lemma_fitting(clusters, width, from + 1);
    }
}

/// What is said of a list's rows gives the selected one and their number, and
/// tells of rows above and below exactly if there are any.
pub proof fn rows_are_counted(selected: int, len: int, rows: int)
    requires
        0 <= selected < len,
        1 <= rows <= len,
    ensures
        ({
            let start = first_row(selected, len, rows);
            let text = viewport_text(selected, len, rows);
            let count = numeral((selected + 1) as nat) + "/"@ + numeral(len as nat);
            &&& 0 <= start <= len - rows
            &&& start == 0 && rows == len ==> text == count
            &&& start > 0 && start + rows < len ==> text == count + " · more above"@
                + " · more below"@
            &&& start > 0 && start + rows == len ==> text == count + " · more above"@
            &&& start == 0 && rows < len ==> text == count + " · more below"@
        }),
{
    let text = viewport_text(selected, len, rows);
    let count = numeral((selected + 1) as nat) + "/"@ + numeral(len as nat);
    let none = Seq::<char>::empty();
    assert(count + none + none =~= count);
    assert(count + " · more above"@ + none =~= count + " · more above"@);
    assert(count + none + " · more below"@ =~= count + " · more below"@);
}

/// Choosing a session twice leaves the choice of every session as it was, and
/// one that is newly chosen comes last.
pub proof fn newly_chosen_sessions_come_last(
    ids: Seq<SessionId>,
    id: SessionId,
)
    ensures
        !ids.contains(id) ==> toggled_id(ids, id) == ids.push(id),
        ids.contains(id) ==> toggled_id(ids, id) == ids.filter(
            |other: SessionId| other != id,
        ),
{
    lemma_without(ids, id);
}

/// What is left of sessions without one are the others, in order.
proof fn lemma_without(ids: Seq<SessionId>, id: SessionId)
    ensures
        without_id(ids, id) == ids.filter(
            |other: SessionId| other != id,
        ),
    decreases ids.len(),
{
    reveal(Seq::filter);
    if ids.len() > 0 {
        lemma_without(ids.drop_last(), id);
    } else {
        assert(ids.filter(|other: SessionId| other != id) =~= Seq::empty());
    }
}

/// A member that may take part is shown as it is; one that may not is shown as
/// unavailable, under its title or its number.
pub proof fn members_are_candidates(eligible: Seq<CandidateView>, member: MemberView, at: int)
    ensures
        ({
            let shown = member_candidate(eligible, member, at);
            &&& shown.existing == Some(member)
            &&& candidate_in(eligible, member.session_id) matches Some(found) ==> shown == (
            CandidateView { existing: Some(member), ..found })
            &&& candidate_in(eligible, member.session_id) is None ==> {
                &&& shown.session_id == member.session_id
                &&& shown.host == "unavailable"@
                &&& shown.repository == "worker-"@ + numeral((at + 1) as nat)
                &&& member.title matches Some(title) ==> shown.label == safe_name(title, 72)
                    && shown.title == safe_name(title, 96)
                &&& member.title is None ==> shown.label == safe_name(
                    "Unavailable worker "@ + numeral((at + 1) as nat),
                    72,
                )
            }
        }),
{
}

/// A process is shown by its name on one line and its number.
pub proof fn processes_are_shown_by_name_and_number(process: ProcessView)
    ensures
        holds_part(ForegroundProcess::shown(process), numeral(process.pid as nat)),
        (forall|i: int| 0 <= i < process.name.len() ==> !control(#[trigger] process.name[i]))
            ==> collapsed(process.name).is_prefix_of(ForegroundProcess::shown(process)),
{
    let clean = process.name.map_values(
        |c: char|
            if control(c) {
                ' '
            } else {
                c
            },
    );
    lemma_holds_each(
        Seq::empty(),
        collapsed(clean),
        " (PID "@,
        numeral(process.pid as nat),
        ")"@,
    );
    assert(Seq::<char>::empty() + collapsed(clean) =~= collapsed(clean));
    if forall|i: int| 0 <= i < process.name.len() ==> !control(#[trigger] process.name[i]) {
        assert(clean =~= process.name);
        let text = ForegroundProcess::shown(process);
        let name = collapsed(process.name);
        assert(text.subrange(0, name.len() as int) =~= name);
    }
}

/// A worker is titled as a person titled it, in at most 160 cells, or else by a
/// short reference or its own identifier.
pub proof fn workers_are_titled(worker: WorkerView)
    ensures
        worker.title matches Some(title) ==> (title.len() > 0 ==> worker.own_title()
            == shown_label(title, 160)),
        worker.title is None && denotes_session_id(worker.id) ==> worker.own_title()
            == reference_token_text(denoted_uuid(worker.id), 8),
        worker.title is None && !denotes_session_id(worker.id) ==> worker.own_title()
            == shown_label(worker.id, 160),
{
}

/// The workers that share a title are those that a person gave it, in order.
pub proof fn namesakes_share_their_title(workers: Seq<WorkerView>, title: Seq<char>)
    ensures
        titled_uuids(workers, title) == workers.filter(
            |worker: WorkerView|
                worker.human_title() == Some(title) && denotes_session_id(worker.id),
        ).map_values(|worker: WorkerView| denoted_uuid(worker.id)),
    decreases workers.len(),
{
    reveal(Seq::filter);
    let same = |worker: WorkerView|
        worker.human_title() == Some(title) && denotes_session_id(worker.id);
    let uuid = |worker: WorkerView| denoted_uuid(worker.id);
    if workers.len() > 0 {
        let front = workers.drop_last();
        namesakes_share_their_title(front, title);
        assert(front.filter(same).push(workers.last()).map_values(uuid) =~= front.filter(
            same,
        ).map_values(uuid).push(uuid(workers.last())));
    } else {
        assert(workers.filter(same) =~= Seq::empty());
        assert(workers.filter(same).map_values(uuid) =~= Seq::empty());
    }
}

/// A workload that may take part is shown with its own label, host and
/// repository.
pub proof fn candidates_are_told_by_their_workload(records: Seq<RecordView>, record: RecordView)
    ensures
        ({
            let shown = candidate_of(records, record);
            &&& shown.session_id == record.id
            &&& shown.label == full_label(records, record)
            &&& shown.host == safe_name(record.host, 24)
            &&& shown.repository == safe_name(repository_of(record.directory), 32)
            &&& shown.title == safe_name(full_label(records, record), 96)
            &&& shown.existing is None
        }),
{
}

} // verus!
