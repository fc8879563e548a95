//! Reckon core: diff parsing, tripwire matching, memoir and postmortem
//! text handling, and the terminal rendering helpers, with their
//! contracts checked by Verus.

pub mod cli;
pub mod config;
pub mod diff;
pub mod evidence;
pub mod git;
pub mod indexer;
pub mod mcp;
pub mod memoir;
pub mod number;
pub mod ordered;
pub mod path;
pub mod postmortem;
pub mod refs;
pub mod seed;
pub mod target;
pub mod text;
pub mod tripwire;
pub mod writer;

use vstd::prelude::*;

verus! {

/// Errors raised by the library.
#[derive(Debug, Clone, PartialEq, Eq)]
pub enum Error {
    /// The repository root or a configuration value is unusable.
    Config(String),
    /// A unified diff could not be parsed.
    DiffParse(String),
    /// A memoir or postmortem document is malformed.
    InvalidMemoir(String),
    /// No module contains the given path.
    ModuleNotFound(String),
    /// The embedding model failed.
    Embedding(String),
    /// Anything else.
    Other(String),
}

/// The text carried by an error.
impl Error {
    pub open spec fn message_spec(&self) -> Seq<char> {
        match self {
            Error::Config(m) => m@,
            Error::DiffParse(m) => m@,
            Error::InvalidMemoir(m) => m@,
            Error::ModuleNotFound(m) => m@,
            Error::Embedding(m) => m@,
            Error::Other(m) => m@,
        }
    }

    /// The text carried by this error.
    pub fn message(&self) -> (res: String)
        ensures
            res@ == self.message_spec(),
    {
        match self {
            Error::Config(m) => m.clone(),
            Error::DiffParse(m) => m.clone(),
            Error::InvalidMemoir(m) => m.clone(),
            Error::ModuleNotFound(m) => m.clone(),
            Error::Embedding(m) => m.clone(),
            Error::Other(m) => m.clone(),
        }
    }
}

/// Results of the library.
pub type Result<T> = core::result::Result<T, Error>;

} // verus!
