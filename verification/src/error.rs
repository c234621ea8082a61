//! The errors that end a run before it starts, or that one lookup reports.

use vstd::prelude::*;

verus! {

/// An error of the library, with its message.
#[derive(Clone, Debug)]
pub enum RbusterError {
    /// The configuration cannot be run
    ConfigError(String),
    /// A name could not be resolved
    DnsError(String),
}

impl RbusterError {
    /// The message of the error.
    pub open spec fn message_model(self) -> Seq<char> {
        match self {
            RbusterError::ConfigError(text) => text@,
            RbusterError::DnsError(text) => text@,
        }
    }

    /// The message of the error.
    pub fn message(&self) -> (text: String)
        ensures
            text@ == self.message_model(),
    {
        match self {
            RbusterError::ConfigError(text) => text.clone(),
            RbusterError::DnsError(text) => text.clone(),
        }
    }
}

} // verus!
