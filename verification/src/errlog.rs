//! The append-only error log shared by every probe loop: human-readable
//! messages in arrival order, never deduplicated, never truncated, read
//! whole by the renderer on every redraw.

use vstd::prelude::*;

verus! {

/// The run's error log. Entries are only ever appended; nothing else
/// about the log ever changes.
pub struct ErrorLog {
    /// The messages, oldest first.
    pub entries: Vec<String>,
}

impl ErrorLog {
    /// An empty log, made once at startup.
    pub fn new() -> (log: ErrorLog)
        ensures
            log.entries@ == Seq::<String>::empty(),
    {
        ErrorLog { entries: Vec::new() }
    }

    /// Append one message; everything already logged stays where it is.
    pub fn append(&mut self, msg: String)
        ensures
            final(self).entries@ == old(self).entries@.push(msg),
            final(self).entries@.len() == old(self).entries@.len() + 1,
    {
        self.entries.push(msg);
    }

    /// How many messages have been logged so far.
    pub fn len(&self) -> (n: usize)
        ensures
            n == self.entries@.len(),
    {
        self.entries.len()
    }
}

} // verus!
