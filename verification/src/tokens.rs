//! Small tables of texts by name.

use vstd::prelude::*;
use vstd::string::*;

use crate::text::{opt_view, same_text};

verus! {

/// A text under a name.
#[derive(Clone, Debug, PartialEq, Eq)]
pub struct Token {
    pub name: String,
    pub value: String,
}

/// The contents of each token.
pub open spec fn token_views(tokens: Seq<Token>) -> Seq<(Seq<char>, Seq<char>)> {
    tokens.map_values(|token: Token| (token.name@, token.value@))
}

/// Texts by name. A later entry hides an earlier one of the same name.
#[derive(Clone, Debug, PartialEq, Eq)]
pub struct Tokens {
    entries: Vec<Token>,
}

/// The table that some entries make.
pub open spec fn table_of(entries: Seq<Token>) -> Map<Seq<char>, Seq<char>>
    decreases entries.len(),
{
    if entries.len() == 0 {
        Map::empty()
    } else {
        table_of(entries.drop_last()).insert(entries.last().name@, entries.last().value@)
    }
}

impl View for Tokens {
    type V = Map<Seq<char>, Seq<char>>;

    closed spec fn view(&self) -> Map<Seq<char>, Seq<char>> {
        table_of(self.entries@)
    }
}

/// The text of a name, if the table has one.
pub open spec fn looked_up(table: Map<Seq<char>, Seq<char>>, name: Seq<char>) -> Option<Seq<char>> {
    if table.dom().contains(name) {
        Some(table[name])
    } else {
        None
    }
}

impl Tokens {
    /// A table without entries.
    pub fn new() -> (tokens: Self)
        ensures
            tokens@ == Map::<Seq<char>, Seq<char>>::empty(),
    {
        Tokens { entries: Vec::new() }
    }

    /// Puts a text under a name.
    pub fn insert(&mut self, name: String, value: String)
        ensures
            final(self)@ == old(self)@.insert(name@, value@),
    {
        let ghost before = self.entries@;
        self.entries.push(Token { name, value });
        assert(self.entries@.drop_last() =~= before);
    }

    /// The text of a name, if there is one.
    pub fn get(&self, name: &str) -> (value: Option<String>)
        ensures
            opt_view(value) == looked_up(self@, name@),
    {
        let ghost all = self.entries@;
        let mut i: usize = self.entries.len();
        assert(all.take(i as int) =~= all);
        while i > 0
            invariant
                i <= self.entries@.len(),
                all == self.entries@,
                looked_up(self@, name@) == looked_up(table_of(all.take(i as int)), name@),
            decreases i,
        {
            assert(all.take(i as int).drop_last() =~= all.take(i - 1));
            if same_text(self.entries[i - 1].name.as_str(), name) {
                return Some(self.entries[i - 1].value.clone());
            }
            i -= 1;
        }
        None
    }

    /// Whether the text of a name is `value`.
    pub fn holds(&self, name: &str, value: &str) -> (r: bool)
        ensures
            r == (looked_up(self@, name@) == Some(value@)),
    {
        match self.get(name) {
            Some(found) => same_text(found.as_str(), value),
            None => false,
        }
    }
}

} // verus!
