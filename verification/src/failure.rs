//! Failures as a reader sees them: what went wrong, and what led to it.

use vstd::prelude::*;
use vstd::string::*;

use crate::backend::copy_strings;
use crate::text::{holds_text, join, joined, views};

verus! {

/// What went wrong, and what led to it.
#[derive(Debug, PartialEq, Eq)]
pub struct Failure {
    text: String,
    causes: Vec<String>,
}

/// The contents of a [`Failure`].
#[verifier::ext_equal]
pub struct FailureView {
    pub text: Seq<char>,
    /// What led to it, the nearest first.
    pub causes: Seq<Seq<char>>,
}

impl FailureView {
    /// What went wrong and everything that led to it, in order.
    pub open spec fn chain(self) -> Seq<Seq<char>> {
        seq![self.text] + self.causes
    }

    /// What went wrong with all that led to it.
    pub open spec fn full(self) -> Seq<char> {
        joined(self.chain(), ": "@)
    }
}

/// A failure that nothing else led to.
pub open spec fn plain(text: Seq<char>) -> FailureView {
    FailureView { text, causes: Seq::empty() }
}

/// A failure that another one led to.
pub open spec fn led_to(text: Seq<char>, cause: FailureView) -> FailureView {
    FailureView { text, causes: cause.chain() }
}

impl View for Failure {
    type V = FailureView;

    closed spec fn view(&self) -> FailureView {
        FailureView { text: self.text@, causes: views(self.causes@) }
    }
}

impl Clone for Failure {
    fn clone(&self) -> (copy: Self)
        ensures
            copy@ == self@,
    {
        Failure { text: self.text.clone(), causes: copy_strings(&self.causes) }
    }
}

impl Failure {
    /// A failure that nothing else led to.
    pub fn new(text: String) -> (failure: Self)
        ensures
            failure@ == plain(text@),
    {
        let failure = Failure { text, causes: Vec::new() };
        assert(failure@ =~= plain(text@)) by {
            assert(views(failure.causes@) =~= Seq::empty());
        }
        failure
    }

    /// The failure that this one led to.
    pub fn context(self, text: String) -> (failure: Self)
        ensures
            failure@ == led_to(text@, self@),
    {
        let causes = self.chain();
        Failure { text, causes }
    }

    /// What went wrong and everything that led to it, in order.
    pub fn chain(&self) -> (chain: Vec<String>)
        ensures
            views(chain@) == self@.chain(),
    {
        let mut chain = vec![self.text.clone()];
        let mut rest = copy_strings(&self.causes);
        let ghost head = views(chain@);
        let ghost tail = views(rest@);
        chain.append(&mut rest);
        assert(head =~= seq![self@.text]);
        assert(views(chain@) =~= head + tail);
        chain
    }

    /// What went wrong.
    pub fn message(&self) -> (text: String)
        ensures
            text@ == self@.text,
    {
        self.text.clone()
    }

    /// What went wrong with all that led to it.
    pub fn detail(&self) -> (text: String)
        ensures
            text@ == self@.full(),
    {
        let chain = self.chain();
        join(&chain, ": ")
    }

    /// Whether a text is what went wrong, or part of what led to it.
    pub fn mentions(&self, text: &str) -> (r: bool)
        ensures
            r == self@.chain().contains(text@),
    {
        let chain = self.chain();
        holds_text(&chain, text)
    }
}

} // verus!
