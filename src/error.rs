//! The error type of the library.
use vstd::prelude::*;

verus! {

/// The failures that operations of this crate report.
#[derive(Debug, PartialEq, Eq)]
pub enum Error {
    /// An I/O operation failed.
    Io(String),
    /// The configuration could not be loaded.
    Config(String),
    /// The remote calendar could not be queried, or its answer not read.
    GoogleCalendar(String),
    /// Metrics could not be created or registered.
    Prometheus(String),
}

impl Error {
    /// A description of the failure, for logs.
    pub fn message(&self) -> (r: &String)
        ensures
            r == match self {
                Error::Io(m) => m,
                Error::Config(m) => m,
                Error::GoogleCalendar(m) => m,
                Error::Prometheus(m) => m,
            },
    {
        match self {
            Error::Io(m) => m,
            Error::Config(m) => m,
            Error::GoogleCalendar(m) => m,
            Error::Prometheus(m) => m,
        }
    }
}

} // verus!
