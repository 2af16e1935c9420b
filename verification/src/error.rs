//! The error type of the library.

use vstd::prelude::*;
use vstd::string::StringExecFns;
use crate::types::RejectionReason;

verus! {

/// What can go wrong, by kind. Each kind but `OrderRejected` carries the
/// message of its cause.
#[derive(Debug)]
pub enum Error {
    Exchange(String),
    WebSocket(String),
    Database(String),
    Json(String),
    Http(String),
    Config(String),
    OrderRejected { reason: RejectionReason },
    Io(String),
    Other(String),
}

impl Error {
    /// The error in words: the kind, a colon, and the message.
    pub open spec fn text(self) -> Seq<char> {
        match self {
            Error::Exchange(m) => "Exchange API error: "@ + m@,
            Error::WebSocket(m) => "WebSocket error: "@ + m@,
            Error::Database(m) => "Database error: "@ + m@,
            Error::Json(m) => "JSON error: "@ + m@,
            Error::Http(m) => "HTTP error: "@ + m@,
            Error::Config(m) => "Configuration error: "@ + m@,
            Error::OrderRejected { reason } => "Order rejected: "@ + reason.text(),
            Error::Io(m) => "IO error: "@ + m@,
            Error::Other(m) => m@,
        }
    }

    /// The error in words.
    pub fn to_string(&self) -> (s: String)
        ensures
            s@ == self.text(),
    {
        match self {
            Error::Exchange(m) => "Exchange API error: ".to_owned().concat(m.as_str()),
            Error::WebSocket(m) => "WebSocket error: ".to_owned().concat(m.as_str()),
            Error::Database(m) => "Database error: ".to_owned().concat(m.as_str()),
            Error::Json(m) => "JSON error: ".to_owned().concat(m.as_str()),
            Error::Http(m) => "HTTP error: ".to_owned().concat(m.as_str()),
            Error::Config(m) => "Configuration error: ".to_owned().concat(m.as_str()),
            Error::OrderRejected { reason } => {
                let r = reason.to_string();
                "Order rejected: ".to_owned().concat(r.as_str())
            },
            Error::Io(m) => "IO error: ".to_owned().concat(m.as_str()),
            Error::Other(m) => m.clone(),
        }
    }
}

} // verus!
