//! Error types.

use vstd::prelude::*;

verus! {

/// Convenient return type for functions.
pub type Result<T> = core::result::Result<T, Error>;

/// Main error type.
///
/// Terminal-capability loss, terminal-input loss and startup
/// configuration errors are session-fatal; a pattern error or a
/// per-source read failure is local and recoverable.
#[derive(Debug)]
pub enum Error {
    /// The terminal surface failed: fatal for the session.
    Terminal { message: String },
    /// A search pattern did not compile: recoverable, reported in the
    /// status region. Carries the offending pattern.
    Pattern { pattern: Vec<char> },
    /// A source's underlying read failed: local to that source. The
    /// source's title is attached as context.
    SourceIo { title: String },
    /// Startup configuration failure: two keymap entries share a
    /// (mode, key-sequence) pair — the duplicate-binding condition.
    /// `first` and `second` are the indices of the colliding entries as
    /// supplied to the table constructor, with `first < second`.
    Configuration { first: usize, second: usize },
    /// The terminal-input channel went away unexpectedly: fatal. A
    /// producer's channel breaking is never surfaced as this error; it
    /// is treated as that source completing or failing.
    ChannelBroken,
    /// Wrapped error within the context of a command.
    WithCommand { error: Box<Error>, command: String },
    /// Wrapped error within the context of a file.
    WithFile { error: Box<Error>, file: String },
}

impl Error {
    /// Attaches a file name as context.
    pub fn with_file(self, file: &str) -> (r: Error)
        ensures
            r matches Error::WithFile { error, file: f } && *error == self && f@ == file@,
    {
        Error::WithFile { error: Box::new(self), file: file.to_owned() }
    }

    /// Attaches a command line as context.
    pub fn with_command(self, command: &str) -> (r: Error)
        ensures
            r matches Error::WithCommand { error, command: c } && *error == self && c@
                == command@,
    {
        Error::WithCommand { error: Box::new(self), command: command.to_owned() }
    }

    /// True for the error kinds that end the whole session; the others
    /// stay local to one source or one search attempt.
    pub open spec fn is_fatal(self) -> bool
        decreases self,
    {
        match self {
            Error::Terminal { .. } => true,
            Error::Configuration { .. } => true,
            Error::ChannelBroken => true,
            Error::Pattern { .. } => false,
            Error::SourceIo { .. } => false,
            Error::WithCommand { error, .. } => error.is_fatal(),
            Error::WithFile { error, .. } => error.is_fatal(),
        }
    }
}

} // verus!
