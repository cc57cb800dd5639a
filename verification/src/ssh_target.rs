//! Where OpenSSH connects to, and the aliases that its configuration defines.

use vstd::prelude::*;
use vstd::string::*;

use crate::capture::{lines_of, split_lines};
use crate::discovery_remote::SshDestination;
use crate::fields::{
    number_of, parse_number, parts_between, split_on, strip_prefix, without_prefix,
};
use crate::text::{
    chars_of, control, holds_text, is_control, is_white_space, split_words, views, white_space,
    words_of,
};

verus! {

/// A target that OpenSSH takes for a machine: not empty, no option, and on one
/// line without gaps.
pub open spec fn acceptable_target(target: Seq<char>) -> bool {
    &&& target.len() > 0
    &&& target[0] != '-'
    &&& forall|i: int|
        0 <= i < target.len() ==> !control(#[trigger] target[i]) && !white_space(target[i])
}

/// Where a target leads, `host` or `ssh://host:port`, with a user before the
/// host where there is one.
pub open spec fn destination_of(target: Seq<char>) -> Option<(Seq<char>, Option<u16>)> {
    if !acceptable_target(target) {
        None
    } else {
        match without_prefix(target, "ssh://"@) {
            None => Some((target, None)),
            Some(rest) => {
                let parts = parts_between(rest, ':');
                if parts.len() == 1 {
                    Some((rest, None))
                } else if parts.len() != 2 {
                    None
                } else {
                    match number_of(parts[1]) {
                        Some(port) => if port <= u16::MAX {
                            Some((parts[0], Some(port as u16)))
                        } else {
                            None
                        },
                        None => None,
                    }
                }
            },
        }
    }
}

/// Whether OpenSSH takes a target for a machine.
fn is_acceptable(target: &str) -> (r: bool)
    ensures
        r == acceptable_target(target@),
{
    let chars = chars_of(target);
    if chars.len() == 0 || chars[0] == '-' {
        return false;
    }
    let mut i: usize = 0;
    while i < chars.len()
        invariant
            i <= chars@.len(),
            chars@ == target@,
            forall|j: int|
                0 <= j < i ==> !control(#[trigger] target@[j]) && !white_space(target@[j]),
        decreases chars.len() - i,
    {
        if is_control(chars[i]) || is_white_space(chars[i]) {
            assert(control(target@[i as int]) || white_space(target@[i as int]));
            return false;
        }
        i += 1;
    }
    true
}

/// Where a target leads.
pub fn parse_target(target: &str) -> (r: Option<SshDestination>)
    ensures
        match r {
            Some(found) => destination_of(target@) == Some((found.destination@, found.port)),
            None => destination_of(target@) is None,
        },
{
    if !is_acceptable(target) {
        return None;
    }
    let rest = match strip_prefix(target, "ssh://") {
        None => {
            return Some(SshDestination { destination: target.to_owned(), port: None });
        },
        Some(rest) => rest,
    };
    let mut parts = split_on(rest.as_str(), ':');
    let ghost all = parts_between(rest@, ':');
    assert(all == views(parts@));
    if parts.len() == 1 {
        return Some(SshDestination { destination: rest, port: None });
    }
    if parts.len() != 2 {
        return None;
    }
    assert(all[0] == parts@[0]@ && all[1] == parts@[1]@);
    match parse_number(parts[1].as_str()) {
        Some(port) => if port <= 65_535 {
            Some(SshDestination { destination: parts.swap_remove(0), port: Some(port as u16) })
        } else {
            None
        },
        None => None,
    }
}

/// The word that begins a host's section, whatever the case of its letters.
pub open spec fn begins_section(word: Seq<char>) -> bool {
    &&& word.len() == 4
    &&& word[0] == 'h' || word[0] == 'H'
    &&& word[1] == 'o' || word[1] == 'O'
    &&& word[2] == 's' || word[2] == 'S'
    &&& word[3] == 't' || word[3] == 'T'
}

/// A name that stands for itself and no pattern.
pub open spec fn literal_name(word: Seq<char>) -> bool {
    !word.contains('*') && !word.contains('?') && !word.contains('!') && !word.contains('"')
}

/// The aliases among some names, behind the ones that are known already. Each
/// is taken once.
pub open spec fn with_names(known: Seq<Seq<char>>, names: Seq<Seq<char>>) -> Seq<Seq<char>>
    decreases names.len(),
{
    if names.len() == 0 {
        known
    } else {
        let front = with_names(known, names.drop_last());
        if literal_name(names.last()) && !front.contains(names.last()) {
            front.push(names.last())
        } else {
            front
        }
    }
}

/// The aliases that some lines of a configuration define.
pub open spec fn aliases_in(lines: Seq<Seq<char>>) -> Seq<Seq<char>>
    decreases lines.len(),
{
    if lines.len() == 0 {
        Seq::empty()
    } else {
        let front = aliases_in(lines.drop_last());
        let words = words_of(lines.last());
        if words.len() > 0 && begins_section(words[0]) {
            with_names(front, words.skip(1))
        } else {
            front
        }
    }
}

/// Whether a word begins a host's section.
fn is_section(word: &str) -> (r: bool)
    ensures
        r == begins_section(word@),
{
    let chars = chars_of(word);
    chars.len() == 4 && (chars[0] == 'h' || chars[0] == 'H') && (chars[1] == 'o' || chars[1] == 'O')
        && (chars[2] == 's' || chars[2] == 'S') && (chars[3] == 't' || chars[3] == 'T')
}

/// Whether a name is no pattern.
fn is_literal(word: &str) -> (r: bool)
    ensures
        r == literal_name(word@),
{
    let chars = chars_of(word);
    let mut i: usize = 0;
    while i < chars.len()
        invariant
            i <= chars@.len(),
            chars@ == word@,
            forall|j: int|
                0 <= j < i ==> (#[trigger] word@[j]) != '*' && word@[j] != '?' && word@[j] != '!'
                    && word@[j] != '"',
        decreases chars.len() - i,
    {
        let c = chars[i];
        if c == '*' || c == '?' || c == '!' || c == '"' {
            assert(word@.contains(c));
            return false;
        }
        i += 1;
    }
    true
}

/// Adds the aliases of a section's first line to the ones that are known.
fn add_names(aliases: &mut Vec<String>, words: &Vec<String>)
    requires
        words@.len() > 0,
    ensures
        views(final(aliases)@) == with_names(views(old(aliases)@), views(words@).skip(1)),
{
    let ghost known = views(aliases@);
    let ghost names = views(words@).skip(1);
    let mut i: usize = 1;
    assert(names.take(0) =~= Seq::empty());
    while i < words.len()
        invariant
            1 <= i <= words@.len(),
            names == views(words@).skip(1),
            views(aliases@) == with_names(known, names.take(i - 1)),
        decreases words.len() - i,
    {
        assert(names.take(i as int).drop_last() =~= names.take(i - 1));
        assert(names.take(i as int).last() == words@[i as int]@);
        if is_literal(words[i].as_str()) && !holds_text(aliases, words[i].as_str()) {
            let ghost before = aliases@;
            let name = words[i].clone();
            let ghost shown = name@;
            aliases.push(name);
            assert(views(aliases@) =~= views(before).push(shown));
        }
        i += 1;
    }
    assert(names.take(i - 1) =~= names);
}

/// The aliases that an OpenSSH configuration defines by name.
pub fn literal_aliases(configuration: &str) -> (aliases: Vec<String>)
    ensures
        views(aliases@) == aliases_in(lines_of(configuration@)),
{
    let lines = split_lines(configuration);
    let ghost all = views(lines@);
    let mut aliases: Vec<String> = Vec::new();
    let mut i: usize = 0;
    assert(all.take(0) =~= Seq::empty());
    assert(views(aliases@) =~= Seq::empty());
    while i < lines.len()
        invariant
            i <= lines@.len(),
            all == views(lines@),
            views(aliases@) == aliases_in(all.take(i as int)),
        decreases lines.len() - i,
    {
        assert(all.take(i + 1).drop_last() =~= all.take(i as int));
        assert(all.take(i + 1).last() == lines@[i as int]@);
        let words = split_words(lines[i].as_str());
        if words.len() > 0 {
            assert(views(words@)[0] == words@[0]@);
            if is_section(words[0].as_str()) {
                add_names(&mut aliases, &words);
            }
        }
        i += 1;
    }
    assert(all.take(i as int) =~= all);
    aliases
}

/// Each alias is listed once.
pub proof fn aliases_are_listed_once(lines: Seq<Seq<char>>)
    ensures
        aliases_in(lines).no_duplicates(),
    decreases lines.len(),
{
    if lines.len() > 0 {
        aliases_are_listed_once(lines.drop_last());
        let words = words_of(lines.last());
        if words.len() > 0 {
            lemma_names_are_listed_once(aliases_in(lines.drop_last()), words.skip(1));
        }
    }
}

/// Adding names lists none of them twice.
proof fn lemma_names_are_listed_once(known: Seq<Seq<char>>, names: Seq<Seq<char>>)
    requires
        known.no_duplicates(),
    ensures
        with_names(known, names).no_duplicates(),
    decreases names.len(),
{
    if names.len() > 0 {
        lemma_names_are_listed_once(known, names.drop_last());
    }
}

} // verus!
