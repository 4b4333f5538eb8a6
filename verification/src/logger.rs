//! The audit log: an append-only record of what the engine did.

use vstd::prelude::*;
use vstd::string::StringExecFns;

verus! {

/// The audit log. Its value is the sequence of messages written so far.
pub struct Logger {
    messages: Vec<String>,
}

impl View for Logger {
    type V = Seq<Seq<char>>;

    closed spec fn view(&self) -> Seq<Seq<char>> {
        self.messages.deep_view()
    }
}

impl Logger {
    /// An empty log.
    pub fn new() -> (logger: Logger)
        ensures
            logger@ == Seq::<Seq<char>>::empty(),
    {
        let logger = Logger { messages: Vec::new() };
        assert(logger.messages.deep_view() =~= Seq::empty());
        logger
    }

    /// Appends `message`.
    pub fn log(&mut self, message: &str)
        ensures
            final(self)@ == old(self)@.push(message@),
    {
        self.messages.push(String::from_str(message));
        assert(self.messages.deep_view() =~= old(self).messages.deep_view().push(message@));
    }

    /// The number of messages written so far.
    pub fn len(&self) -> (n: usize)
        ensures
            n == self@.len(),
    {
        assert(self.messages.deep_view().len() == self.messages.len());
        self.messages.len()
    }

    /// The messages written so far, oldest first.
    pub fn messages(&self) -> (all: &Vec<String>)
        ensures
            all.deep_view() == self@,
    {
        &self.messages
    }
}

} // verus!
