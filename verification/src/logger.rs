//! Which kinds of message the logger lets through.
use vstd::prelude::*;

verus! {

/// A kind of log message.
#[derive(Debug, Clone, Copy, PartialEq, Eq, Structural)]
pub enum LoggingType {
    Request,
    Warn,
    Error,
    Status,
    Log,
}

/// The kinds of message that are printed.
pub struct Logger {
    logging_types: Vec<LoggingType>,
}

impl View for Logger {
    type V = Seq<LoggingType>;

    closed spec fn view(&self) -> Seq<LoggingType> {
        self.logging_types@
    }
}

impl Logger {
    /// A logger that prints nothing.
    pub fn default() -> (r: Self)
        ensures
            r@ == Seq::<LoggingType>::empty(),
    {
        Logger { logging_types: Vec::new() }
    }

    /// Prints the given kinds from now on, and no others.
    pub fn set_logging(&mut self, types: Vec<LoggingType>)
        ensures
            final(self)@ == types@,
    {
        self.logging_types = types;
    }

    /// Whether messages of the kind are printed.
    pub fn logs(&self, kind: LoggingType) -> (r: bool)
        ensures
            r == self@.contains(kind),
    {
        let n = self.logging_types.len();
        let mut i: usize = 0;
        while i < n
            invariant
                n == self@.len(),
                i <= n,
                forall|j: int| 0 <= j < i ==> self@[j] != kind,
            decreases n - i,
        {
            if self.logging_types[i] == kind {
                return true;
            }
            i = i + 1;
        }
        false
    }
}

} // verus!
