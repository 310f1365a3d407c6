//! Warnings that a runner collects while it is set up.
use vstd::prelude::*;

use crate::text::{copy_texts, join, joined, push_text, texts};

verus! {

/// What went wrong without being fatal, in order.
#[derive(Debug)]
pub struct RunnerWarnings {
    pub messages: Vec<String>,
}

impl View for RunnerWarnings {
    type V = Seq<Seq<char>>;

    open spec fn view(&self) -> Seq<Seq<char>> {
        texts(self.messages@)
    }
}

impl Clone for RunnerWarnings {
    fn clone(&self) -> (r: Self)
        ensures
            r@ == self@,
    {
        RunnerWarnings { messages: copy_texts(&self.messages) }
    }
}

impl Default for RunnerWarnings {
    fn default() -> (r: Self)
        ensures
            r@ == Seq::<Seq<char>>::empty(),
    {
        RunnerWarnings::new()
    }
}

impl RunnerWarnings {
    /// No warnings.
    pub fn new() -> (r: Self)
        ensures
            r@ == Seq::<Seq<char>>::empty(),
    {
        let r = RunnerWarnings { messages: Vec::new() };
        proof {
            assert(r@ =~= Seq::empty());
        }
        r
    }

    /// Adds a warning.
    pub fn push(&mut self, message: String)
        ensures
            final(self)@ == old(self)@.push(message@),
    {
        push_text(&mut self.messages, message);
    }

    /// Whether there is no warning.
    pub fn is_empty(&self) -> (r: bool)
        ensures
            r == (self@.len() == 0),
    {
        self.messages.len() == 0
    }

    /// All warnings, one per line.
    pub fn body(&self) -> (r: String)
        ensures
            r@ == joined(self@, "\n"@),
    {
        join(&self.messages, "\n")
    }
}

} // verus!
