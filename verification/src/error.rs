//! The error kinds that session operations surface.

use vstd::prelude::*;

verus! {

/// Why a session operation failed.
#[derive(Debug, Clone, PartialEq, Eq)]
pub enum Error {
    /// An OS-level read, write or spawn failure, with its message.
    Io(String),
    /// The expect deadline elapsed with no match.
    ExpectTimeout,
    /// The child closed its output before a match.
    Eof,
    /// Malformed control-code input.
    ParseControl,
    /// An invalid regular-expression needle.
    RegexCompile,
    /// Failure to set the terminal dimensions.
    WindowSize,
    /// An empty or unbalanced-quote command string.
    CommandParse,
}

impl Error {
    /// A short human-readable name for the error kind.
    pub fn kind_name(&self) -> (r: &'static str)
        ensures
            r@ == self.spec_kind_name(),
    {
        match self {
            Error::Io(_) => "io",
            Error::ExpectTimeout => "expect timeout",
            Error::Eof => "eof",
            Error::ParseControl => "parse control",
            Error::RegexCompile => "regex compile",
            Error::WindowSize => "window size",
            Error::CommandParse => "command parse",
        }
    }

    /// What `kind_name` returns for each variant.
    pub open spec fn spec_kind_name(&self) -> Seq<char> {
        match self {
            Error::Io(_) => "io"@,
            Error::ExpectTimeout => "expect timeout"@,
            Error::Eof => "eof"@,
            Error::ParseControl => "parse control"@,
            Error::RegexCompile => "regex compile"@,
            Error::WindowSize => "window size"@,
            Error::CommandParse => "command parse"@,
        }
    }
}

} // verus!
