//! Words of a POSIX shell.

use vstd::prelude::*;
use vstd::string::*;

use crate::text::chars_of;

verus! {

/// The value holds a NUL, which no shell command can hold.
#[derive(Clone, Copy, Debug, PartialEq, Eq, Structural)]
pub struct QuoteError;

impl QuoteError {
    /// What went wrong, for a reader.
    pub fn message(&self) -> (text: String)
        ensures
            text@ == "cannot quote a value containing NUL"@,
    {
        "cannot quote a value containing NUL".to_owned()
    }
}

/// The inside of a quoted word: an apostrophe ends the quoted region, is
/// escaped, and opens it again.
pub open spec fn quoted_body(value: Seq<char>) -> Seq<char>
    decreases value.len(),
{
    if value.len() == 0 {
        Seq::empty()
    } else if value[0] == '\'' {
        seq!['\'', '\\', '\'', '\''] + quoted_body(value.drop_first())
    } else {
        seq![value[0]] + quoted_body(value.drop_first())
    }
}

/// A value as one single-quoted word.
pub open spec fn quoted_word(value: Seq<char>) -> Seq<char> {
    seq!['\''] + quoted_body(value) + seq!['\'']
}

/// A word with one more character; a word that has not begun begins with it.
pub open spec fn extended(word: Option<Seq<char>>, c: char) -> Option<Seq<char>> {
    match word {
        Some(word) => Some(word.push(c)),
        None => Some(seq![c]),
    }
}

/// The words that a POSIX shell reads on a line made of quoted regions,
/// escaped characters and spaces. `word` is the word being read and `quoted`
/// says that the line begins inside a quoted region of it.
pub open spec fn shell_words(line: Seq<char>, quoted: bool, word: Option<Seq<char>>) -> Seq<Seq<char>>
    decreases line.len(),
{
    if line.len() == 0 {
        match word {
            Some(word) => seq![word],
            None => Seq::empty(),
        }
    } else {
        let c = line[0];
        let rest = line.drop_first();
        if quoted {
            if c == '\'' {
                shell_words(rest, false, word)
            } else {
                shell_words(rest, true, extended(word, c))
            }
        } else if c == '\'' {
            shell_words(
                rest,
                true,
                match word {
                    Some(word) => Some(word),
                    None => Some(Seq::empty()),
                },
            )
        } else if c == '\\' && rest.len() > 0 {
            shell_words(rest.drop_first(), false, extended(word, rest[0]))
        } else if c == ' ' {
            (match word {
                Some(word) => seq![word],
                None => Seq::empty(),
            }) + shell_words(rest, false, None)
        } else {
            shell_words(rest, false, extended(word, c))
        }
    }
}

/// Reading a quoted body up to its closing apostrophe yields the value.
proof fn lemma_body_reads_back(value: Seq<char>, word: Seq<char>, tail: Seq<char>)
    ensures
        shell_words(quoted_body(value) + seq!['\''] + tail, true, Some(word)) == shell_words(
            tail,
            false,
            Some(word + value),
        ),
    decreases value.len(),
{
    let line = quoted_body(value) + seq!['\''] + tail;
    if value.len() == 0 {
        assert(line[0] == '\'');
        assert(line.drop_first() =~= tail);
        assert(word + value =~= word);
    } else {
        let rest = value.drop_first();
        let after = quoted_body(rest) + seq!['\''] + tail;
        let next = word.push(value[0]);
        lemma_body_reads_back(rest, next, tail);
        assert(next + rest =~= word + value);
        if value[0] == '\'' {
            assert(line =~= seq!['\'', '\\', '\'', '\''] + after);
            let first = line.drop_first();
            assert(first =~= seq!['\\', '\'', '\''] + after);
            let second = first.drop_first().drop_first();
            assert(second =~= seq!['\''] + after);
            assert(second.drop_first() =~= after);
            assert(shell_words(line, true, Some(word)) == shell_words(first, false, Some(word)));
            assert(first[0] == '\\' && first.drop_first()[0] == '\'');
            assert(shell_words(first, false, Some(word)) == shell_words(second, false, Some(next)));
            assert(second[0] == '\'');
            assert(shell_words(second, false, Some(next)) == shell_words(after, true, Some(next)));
        } else {
            assert(line =~= seq![value[0]] + after);
            assert(line.drop_first() =~= after);
            assert(line[0] == value[0]);
        }
    }
}

/// A shell reads a quoted word back as the value, whatever the value holds.
pub proof fn quoted_word_reads_back(value: Seq<char>, tail: Seq<char>)
    ensures
        shell_words(quoted_word(value) + tail, false, None) == shell_words(tail, false, Some(value)),
{
    let line = quoted_word(value) + tail;
    let inside = quoted_body(value) + seq!['\''] + tail;
    assert(line =~= seq!['\''] + inside);
    assert(line[0] == '\'');
    assert(line.drop_first() =~= inside);
    lemma_body_reads_back(value, Seq::empty(), tail);
    assert(Seq::<char>::empty() + value =~= value);
}

/// Quotes one value as a single POSIX shell word.
///
/// The returned word is always single-quoted. Embedded apostrophes are emitted
/// by ending the quoted region, escaping the apostrophe, and reopening it.
/// NUL cannot be represented in a shell command and is therefore rejected.
pub fn posix_quote(value: &str) -> (r: Result<String, QuoteError>)
    ensures
        r is Err <==> value@.contains('\0'),
        r is Ok ==> r->Ok_0@ == quoted_word(value@),
{
    let chars = chars_of(value);
    let mut quoted = String::new();
    quoted.push('\'');
    let mut i: usize = 0;
    assert(chars@.skip(0) =~= chars@);
    assert(quoted@ + quoted_body(chars@) + seq!['\''] =~= quoted_word(value@));
    while i < chars.len()
        invariant
            i <= chars@.len(),
            chars@ == value@,
            forall|j: int| 0 <= j < i ==> value@[j] != '\0',
            quoted@ + quoted_body(chars@.skip(i as int)) + seq!['\''] == quoted_word(value@),
        decreases chars.len() - i,
    {
        let c = chars[i];
        let ghost before = quoted@;
        let ghost rest = chars@.skip(i as int);
        assert(rest[0] == c);
        assert(rest.drop_first() =~= chars@.skip(i + 1));
        if c == '\0' {
            assert(value@[i as int] == '\0');
            return Err(QuoteError);
        }
        if c == '\'' {
            quoted.push('\'');
            quoted.push('\\');
            quoted.push('\'');
            quoted.push('\'');
            assert(quoted@ + quoted_body(chars@.skip(i + 1)) =~= before + quoted_body(rest));
        } else {
            quoted.push(c);
            assert(quoted@ + quoted_body(chars@.skip(i + 1)) =~= before + quoted_body(rest));
        }
        i += 1;
    }
    quoted.push('\'');
    assert(quoted@ =~= quoted_word(value@));
    Ok(quoted)
}

} // verus!
