//! The daemon's error type.

use vstd::prelude::*;
use vstd::string::*;

use crate::text::join;

verus! {

/// Operating-system I/O error, carried through untouched.
#[verifier::external_type_specification]
#[verifier::external_body]
pub struct ExIoError(std::io::Error);

/// Everything that can stop the daemon.
#[derive(Debug)]
pub enum VtrunkdError {
    /// An I/O operation failed.
    Io(std::io::Error),
    /// The configuration file could not be read as configuration.
    Config(String),
    /// The tunnel device, a socket or the Noise session failed.
    Network(String),
    /// A configured value is out of range or malformed.
    InvalidConfig(String),
    /// A system call of the daemonization sequence failed.
    SystemCall(String),
    /// A file that must exist does not.
    NotFound(String),
}

pub type VtrunkdResult<T> = Result<T, VtrunkdError>;

/// The text of an operating-system error: `std::io::Error`'s `to_string`. Nothing is
/// claimed of the text.
#[verifier::external_body]
fn io_error_text(err: &std::io::Error) -> (text: String) {
    err.to_string()
}

impl VtrunkdError {
    /// The heading that `message` puts before the detail.
    pub open spec fn heading(self) -> Seq<char> {
        match self {
            VtrunkdError::Io(_) => "IO error: "@,
            VtrunkdError::Config(_) => "Configuration error: "@,
            VtrunkdError::Network(_) => "Network error: "@,
            VtrunkdError::InvalidConfig(_) => "Invalid configuration: "@,
            VtrunkdError::SystemCall(_) => "System call failed: "@,
            VtrunkdError::NotFound(_) => "Resource not found: "@,
        }
    }

    /// The detail that the error carries, where it is text.
    pub open spec fn detail(self) -> Option<Seq<char>> {
        match self {
            VtrunkdError::Io(_) => None,
            VtrunkdError::Config(s) => Some(s@),
            VtrunkdError::Network(s) => Some(s@),
            VtrunkdError::InvalidConfig(s) => Some(s@),
            VtrunkdError::SystemCall(s) => Some(s@),
            VtrunkdError::NotFound(s) => Some(s@),
        }
    }

    /// The line shown to the operator: the heading of the kind, then the detail.
    pub fn message(&self) -> (text: String)
        ensures
            text@.len() >= self.heading().len(),
            text@.subrange(0, self.heading().len() as int) == self.heading(),
            self.detail() matches Some(d) ==> text@ == self.heading() + d,
    {
        match self {
            VtrunkdError::Io(err) => {
                let detail = io_error_text(err);
                let text = join("IO error: ", detail.as_str());
                assert(text@.subrange(0, self.heading().len() as int) =~= self.heading());
                text
            },
            VtrunkdError::Config(s) => {
                let text = join("Configuration error: ", s.as_str());
                assert(text@.subrange(0, self.heading().len() as int) =~= self.heading());
                text
            },
            VtrunkdError::Network(s) => {
                let text = join("Network error: ", s.as_str());
                assert(text@.subrange(0, self.heading().len() as int) =~= self.heading());
                text
            },
            VtrunkdError::InvalidConfig(s) => {
                let text = join("Invalid configuration: ", s.as_str());
                assert(text@.subrange(0, self.heading().len() as int) =~= self.heading());
                text
            },
            VtrunkdError::SystemCall(s) => {
                let text = join("System call failed: ", s.as_str());
                assert(text@.subrange(0, self.heading().len() as int) =~= self.heading());
                text
            },
            VtrunkdError::NotFound(s) => {
                let text = join("Resource not found: ", s.as_str());
                assert(text@.subrange(0, self.heading().len() as int) =~= self.heading());
                text
            },
        }
    }
}

} // verus!
