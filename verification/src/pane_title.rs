//! Titles of panes: safe, bounded and made of the parts that a reader looks for.

use vstd::prelude::*;
use vstd::string::*;

use crate::backend::{slash_parts, split_slashes};
use crate::text::{
    chars_of, collapse_whitespace, collapsed, control, holds_text, is_control, is_white_space, join, joined,
    opt_view, same_text, split_words, text_between, trim, trimmed, views, white_space, words_of,
};

verus! {

/// The most characters that a title has.
pub const MAX_PANE_TITLE_CHARS: usize = 48;

/// A character that a title's part does not hold: white space, control and
/// formatting characters, and those that stand between parts.
pub open spec fn title_separator(c: char) -> bool {
    let code = c as u32;
    ||| control(c)
    ||| white_space(c)
    ||| c == '|'
    ||| c == '·'
    ||| code == 0x061c
    ||| 0x200b <= code <= 0x200f
    ||| 0x202a <= code <= 0x202e
    ||| 0x2066 <= code <= 0x2069
    ||| code == 0xfeff
}

/// Whether a character is one that a title's part does not hold.
pub fn is_title_separator(c: char) -> (r: bool)
    ensures
        r == title_separator(c),
{
    let code: u32 = c as u32;
    is_control(c) || is_white_space(c) || c == '|' || c == '·' || code == 0x061c || (0x200b <= code
        && code <= 0x200f) || (0x202a <= code && code <= 0x202e) || (0x2066 <= code && code
        <= 0x2069) || code == 0xfeff
}

/// The words of a text, which separators divide, with one space between
/// neighbours.
pub open spec fn title_component(value: Seq<char>) -> Seq<char> {
    collapsed(
        value.map_values(
            |c: char|
                if title_separator(c) {
                    ' '
                } else {
                    c
                },
        ),
    )
}

/// The words of `value` with one space between neighbours, if there are any.
pub fn sanitize_title_component(value: &str) -> (component: Option<String>)
    ensures
        match component {
            Some(component) => component@ == title_component(value@) && component@.len() > 0,
            None => title_component(value@).len() == 0,
        },
{
    let chars = chars_of(value);
    let ghost spaced = value@.map_values(
        |c: char|
            if title_separator(c) {
                ' '
            } else {
                c
            },
    );
    let mut text = String::new();
    let mut i: usize = 0;
    while i < chars.len()
        invariant
            i <= chars@.len(),
            chars@ == value@,
            spaced == value@.map_values(
                |c: char|
                    if title_separator(c) {
                        ' '
                    } else {
                        c
                    },
            ),
            text@ == spaced.take(i as int),
        decreases chars.len() - i,
    {
        if is_title_separator(chars[i]) {
            text.push(' ');
        } else {
            text.push(chars[i]);
        }
        i += 1;
        assert(spaced.take(i as int) =~= spaced.take(i - 1).push(spaced[i - 1]));
    }
    assert(spaced.take(i as int) =~= spaced);
    let component = collapse_whitespace(text.as_str());
    if component.as_str().is_empty() {
        None
    } else {
        Some(component)
    }
}

/// A text without slashes at its end.
pub open spec fn without_end_slashes(text: Seq<char>) -> Seq<char>
    decreases text.len(),
{
    if text.len() > 0 && text.last() == '/' {
        without_end_slashes(text.drop_last())
    } else {
        text
    }
}

/// The last part of a directory's path.
pub open spec fn leaf_of(directory: Seq<char>) -> Option<Seq<char>> {
    let text = trimmed(directory);
    let leaf = slash_parts(without_end_slashes(text)).last();
    if text == "/"@ {
        Some("/"@)
    } else if text == "~"@ || text == "~/"@ {
        Some("~"@)
    } else if leaf.len() > 0 {
        Some(leaf)
    } else {
        None
    }
}

/// The last part of a path.
fn last_part(path: &str) -> (part: String)
    ensures
        part@ == slash_parts(path@).last(),
{
    let parts = split_slashes(path);
    let last = parts.len() - 1;
    assert(views(parts@).last() == parts@[last as int]@);
    parts[last].clone()
}

/// The last part of a directory's path, if it has one.
pub fn directory_leaf(value: &str) -> (leaf: Option<String>)
    ensures
        opt_view(leaf) == leaf_of(value@),
{
    let text = trim(value);
    if same_text(text.as_str(), "/") {
        return Some("/".to_owned());
    }
    if same_text(text.as_str(), "~") || same_text(text.as_str(), "~/") {
        return Some("~".to_owned());
    }
    let chars = chars_of(text.as_str());
    let mut end: usize = chars.len();
    assert(text@.take(end as int) =~= text@);
    while end > 0 && chars[end - 1] == '/'
        invariant
            end <= chars@.len(),
            chars@ == text@,
            without_end_slashes(text@) == without_end_slashes(text@.take(end as int)),
        decreases end,
    {
        assert(text@.take(end as int).drop_last() =~= text@.take(end - 1));
        end -= 1;
    }
    let path = text_between(&chars, 0, end);
    assert(path@ =~= text@.take(end as int));
    let leaf = last_part(path.as_str());
    if leaf.as_str().is_empty() {
        None
    } else {
        Some(leaf)
    }
}

/// A quotation mark of a shell.
pub open spec fn quotation_mark(c: char) -> bool {
    c == '\'' || c == '"'
}

/// A word without quotation marks at its end.
pub open spec fn unquoted_end(word: Seq<char>) -> Seq<char>
    decreases word.len(),
{
    if word.len() > 0 && quotation_mark(word.last()) {
        unquoted_end(word.drop_last())
    } else {
        word
    }
}

/// A word without quotation marks at its start.
pub open spec fn unquoted_start(word: Seq<char>) -> Seq<char>
    decreases word.len(),
{
    if word.len() > 0 && quotation_mark(word[0]) {
        unquoted_start(word.drop_first())
    } else {
        word
    }
}

/// A word without quotation marks around it.
pub open spec fn unquoted(word: Seq<char>) -> Seq<char> {
    unquoted_end(unquoted_start(word))
}

/// A word without quotation marks around it.
fn unquote(word: &str) -> (r: String)
    ensures
        r@ == unquoted(word@),
{
    let chars = chars_of(word);
    let mut from: usize = 0;
    assert(word@.skip(0) =~= word@);
    while from < chars.len() && (chars[from] == '\'' || chars[from] == '"')
        invariant
            from <= chars@.len(),
            chars@ == word@,
            unquoted_start(word@) == unquoted_start(word@.skip(from as int)),
        decreases chars.len() - from,
    {
        assert(word@.skip(from as int).drop_first() =~= word@.skip(from + 1));
        from += 1;
    }
    let ghost inner = word@.skip(from as int);
    let mut to: usize = chars.len();
    assert(word@.subrange(from as int, to as int) =~= inner);
    while to > from && (chars[to - 1] == '\'' || chars[to - 1] == '"')
        invariant
            from <= to <= chars@.len(),
            chars@ == word@,
            unquoted_end(inner) == unquoted_end(word@.subrange(from as int, to as int)),
        decreases to,
    {
        assert(word@.subrange(from as int, to as int).drop_last() =~= word@.subrange(
            from as int,
            to - 1,
        ));
        to -= 1;
    }
    text_between(&chars, from, to)
}

/// A word that only says how the command behind it is run.
pub open spec fn launcher(word: Seq<char>) -> bool {
    word == "exec"@ || word == "command"@ || word == "env"@ || word == "sudo"@ || word.contains('=')
}

/// Whether a text holds a character.
fn holds_char(text: &str, c: char) -> (r: bool)
    ensures
        r == text@.contains(c),
{
    let chars = chars_of(text);
    let mut i: usize = 0;
    while i < chars.len()
        invariant
            i <= chars@.len(),
            chars@ == text@,
            forall|j: int| 0 <= j < i ==> text@[j] != c,
        decreases chars.len() - i,
    {
        if chars[i] == c {
            assert(text@[i as int] == c);
            return true;
        }
        i += 1;
    }
    false
}

/// The first name among words, up to one that a shell would expand.
pub open spec fn first_name(words: Seq<Seq<char>>) -> Option<Seq<char>>
    decreases words.len(),
{
    if words.len() == 0 {
        None
    } else {
        let word = unquoted(words[0]);
        let name = slash_parts(word).last();
        if word.contains('$') {
            None
        } else if name.len() > 0 && name != "."@ && name != ".."@ {
            Some(name)
        } else {
            first_name(words.drop_first())
        }
    }
}

/// The words behind those that only say how a command is run.
pub open spec fn behind_launchers(words: Seq<Seq<char>>) -> Seq<Seq<char>>
    decreases words.len(),
{
    if words.len() > 0 && launcher(unquoted(words[0])) {
        behind_launchers(words.drop_first())
    } else {
        words
    }
}

/// The name of the program that a command runs, as far as it shows.
pub open spec fn basename_of(command: Seq<char>) -> Option<Seq<char>> {
    first_name(behind_launchers(words_of(command)))
}

/// The name of the program that a command runs, as far as it shows.
pub fn command_basename(command: &str) -> (name: Option<String>)
    ensures
        opt_view(name) == basename_of(command@),
{
    let words = split_words(command);
    let ghost all = views(words@);
    let mut i: usize = 0;
    let mut skipping = true;
    assert(all.skip(0) =~= all);
    while i < words.len()
        invariant
            i <= words@.len(),
            all == views(words@),
            all == words_of(command@),
            basename_of(command@) == if skipping {
                first_name(behind_launchers(all.skip(i as int)))
            } else {
                first_name(all.skip(i as int))
            },
        decreases words.len() - i,
    {
        let ghost rest = all.skip(i as int);
        assert(rest[0] == words@[i as int]@);
        assert(rest.drop_first() =~= all.skip(i + 1));
        let word = unquote(words[i].as_str());
        let launches = same_text(word.as_str(), "exec") || same_text(word.as_str(), "command")
            || same_text(word.as_str(), "env") || same_text(word.as_str(), "sudo") || holds_char(
            word.as_str(),
            '=',
        );
        if !(skipping && launches) {
            skipping = false;
            if holds_char(word.as_str(), '$') {
                return None;
            }
            let name = last_part(word.as_str());
            if !name.as_str().is_empty() && !same_text(name.as_str(), ".") && !same_text(
                name.as_str(),
                "..",
            ) {
                return Some(name);
            }
        }
        i += 1;
    }
    None
}

/// A title cut to its most characters, with an ellipsis in the last place.
pub open spec fn bounded_title(title: Seq<char>) -> Seq<char> {
    if title.len() <= MAX_PANE_TITLE_CHARS {
        title
    } else {
        title.take(MAX_PANE_TITLE_CHARS - 1).push('…')
    }
}

/// A title cut to its most characters, with an ellipsis in the last place.
pub fn truncate_title(title: String) -> (bounded: String)
    ensures
        bounded@ == bounded_title(title@),
        bounded@.len() <= MAX_PANE_TITLE_CHARS,
{
    let chars = chars_of(title.as_str());
    if chars.len() <= MAX_PANE_TITLE_CHARS {
        return title;
    }
    let mut bounded = text_between(&chars, 0, MAX_PANE_TITLE_CHARS - 1);
    assert(bounded@ =~= title@.take(MAX_PANE_TITLE_CHARS - 1));
    bounded.push('…');
    bounded
}

/// The parts of a title: those that hold something, each once.
pub open spec fn kept_components(components: Seq<Option<Seq<char>>>) -> Seq<Seq<char>>
    decreases components.len(),
{
    if components.len() == 0 {
        Seq::empty()
    } else {
        let kept = kept_components(components.drop_last());
        match components.last() {
            Some(raw) => {
                let component = title_component(raw);
                if component.len() == 0 || kept.contains(component) {
                    kept
                } else {
                    kept.push(component)
                }
            },
            None => kept,
        }
    }
}

/// The title made of some parts.
pub open spec fn title_of(components: Seq<Option<Seq<char>>>) -> Seq<char> {
    let kept = kept_components(components);
    if kept.len() == 0 {
        "Tether session"@
    } else {
        bounded_title(joined(kept, " · "@))
    }
}

/// The contents of each optional text.
pub open spec fn opt_views(texts: Seq<Option<String>>) -> Seq<Option<Seq<char>>> {
    texts.map_values(|text: Option<String>| opt_view(text))
}

/// The host as a title shows it: this machine is left out.
pub open spec fn shown_host(host: Seq<char>) -> Option<Seq<char>> {
    if host == "local"@ {
        None
    } else {
        Some(host)
    }
}

/// A component, if it holds anything.
pub open spec fn some_component(raw: Option<Seq<char>>) -> Option<Seq<char>> {
    match raw {
        Some(raw) => if title_component(raw).len() > 0 {
            Some(title_component(raw))
        } else {
            None
        },
        None => None,
    }
}

/// What runs in a workload: the name of its preset or of its program.
pub open spec fn workload_component(
    preset: Option<Seq<char>>,
    command: Option<Seq<char>>,
) -> Option<Seq<char>> {
    match some_component(preset) {
        Some(preset) => Some(preset),
        None => some_component(
            match command {
                Some(command) => basename_of(command),
                None => None,
            },
        ),
    }
}

/// Safe, bounded presentation metadata for a placed Tether pane.
#[derive(Debug, PartialEq, Eq)]
pub struct PaneTitle(String);

impl View for PaneTitle {
    type V = Seq<char>;

    closed spec fn view(&self) -> Seq<char> {
        self.0@
    }
}

impl Clone for PaneTitle {
    fn clone(&self) -> (copy: Self)
        ensures
            copy == *self,
    {
        PaneTitle(self.0.clone())
    }
}

/// The contents of an optional text.
pub open spec fn str_view(text: Option<&str>) -> Option<Seq<char>> {
    match text {
        Some(text) => Some(text@),
        None => None,
    }
}

/// The host as a title shows it.
fn host_component(host: &str) -> (component: Option<String>)
    ensures
        opt_view(component) == shown_host(host@),
{
    if same_text(host, "local") {
        None
    } else {
        Some(host.to_owned())
    }
}

impl PaneTitle {
    /// Builds a title for an owned workload from persisted presentation fields.
    pub fn owned(
        host: &str,
        directory: &str,
        preset: Option<&str>,
        command: Option<&str>,
    ) -> (title: Self)
        ensures
            title@ == title_of(
                seq![
                    shown_host(host@),
                    leaf_of(directory@),
                    workload_component(str_view(preset), str_view(command)),
                ],
            ),
    {
        let named = match preset {
            Some(preset) => sanitize_title_component(preset),
            None => None,
        };
        let workload = match named {
            Some(preset) => Some(preset),
            None => match command {
                Some(command) => match command_basename(command) {
                    Some(name) => sanitize_title_component(name.as_str()),
                    None => None,
                },
                None => None,
            },
        };
        let components = vec![host_component(host), directory_leaf(directory), workload];
        assert(opt_views(components@) =~= seq![
            shown_host(host@),
            leaf_of(directory@),
            workload_component(str_view(preset), str_view(command)),
        ]);
        Self::from_components(&components)
    }

    /// Builds a title for an externally owned tmux session.
    pub fn external(host: &str, session: &str) -> (title: Self)
        ensures
            title@ == title_of(seq![shown_host(host@), Some(session@), None]),
    {
        let none: Option<String> = None;
        let components = vec![host_component(host), Some(session.to_owned()), none];
        assert(opt_views(components@) =~= seq![shown_host(host@), Some(session@), None]);
        Self::from_components(&components)
    }

    /// Builds a bounded title for an orchestration Observer pane.
    pub fn observer(group_title: &str) -> (title: Self)
        ensures
            title@ == title_of(seq![Some("Observer"@), Some(group_title@)]),
    {
        let components = vec![Some("Observer".to_owned()), Some(group_title.to_owned())];
        assert(opt_views(components@) =~= seq![Some("Observer"@), Some(group_title@)]);
        Self::from_components(&components)
    }

    /// Supplies the deterministic title used when no safe context is available.
    pub fn fallback() -> (title: Self)
        ensures
            title@ == "Tether session"@,
    {
        PaneTitle("Tether session".to_owned())
    }

    /// The title made of some parts.
    fn from_components(components: &Vec<Option<String>>) -> (title: Self)
        ensures
            title@ == title_of(opt_views(components@)),
    {
        let ghost all = opt_views(components@);
        let mut kept: Vec<String> = Vec::new();
        let mut i: usize = 0;
        assert(views(kept@) =~= Seq::empty());
        while i < components.len()
            invariant
                i <= components@.len(),
                all == opt_views(components@),
                views(kept@) == kept_components(all.take(i as int)),
            decreases components.len() - i,
        {
            assert(all.take(i + 1).drop_last() =~= all.take(i as int));
            assert(all.take(i + 1).last() == opt_view(components@[i as int]));
            if let Some(raw) = &components[i] {
                if let Some(component) = sanitize_title_component(raw.as_str()) {
                    if !holds_text(&kept, component.as_str()) {
                        let ghost before = kept@;
                        let ghost shown = component@;
                        kept.push(component);
                        assert(views(kept@) =~= views(before).push(shown));
                    }
                }
            }
            i += 1;
        }
        assert(all.take(i as int) =~= all);
        if kept.len() == 0 {
            return Self::fallback();
        }
        PaneTitle(truncate_title(join(&kept, " · ")))
    }

    /// The title itself.
    pub fn as_str(&self) -> (text: &str)
        ensures
            text@ == self@,
    {
        self.0.as_str()
    }
}

/// No part of a title stands in it twice, and none is empty.
pub proof fn kept_components_are_distinct(components: Seq<Option<Seq<char>>>)
    ensures
        kept_components(components).no_duplicates(),
        forall|i: int|
            0 <= i < kept_components(components).len() ==> (#[trigger] kept_components(
                components,
            )[i]).len() > 0,
    decreases components.len(),
{
    if components.len() > 0 {
        kept_components_are_distinct(components.drop_last());
    }
}

/// A title has at most its bounded number of characters, and at least one.
pub proof fn titles_are_bounded(components: Seq<Option<Seq<char>>>)
    ensures
        0 < title_of(components).len() <= MAX_PANE_TITLE_CHARS,
{
    reveal_strlit("Tether session");
    kept_components_are_distinct(components);
    let kept = kept_components(components);
    if kept.len() > 1 {
        assert(kept.last().len() > 0);
    }
}

} // verus!
