use vstd::prelude::*;

use crate::codec::decode_response_text;
use crate::message::{ParseError, Response};

verus! {

/// Why a call of the client failed.
#[derive(Clone, Debug, PartialEq, Eq)]
pub enum SendError {
    /// The connection could not be opened, written or read; the message says why.
    Io(String),
    /// The reply was not a response frame.
    Parse(ParseError),
}

/// A client that opens one connection per call to `target` (`host:port`).
pub struct HttpClient {
    pub target: String,
}

impl HttpClient {
    /// A client for the server at `target`.
    pub fn new(target: String) -> (c: HttpClient)
        ensures
            c.target@ == target@,
    {
        HttpClient { target }
    }

    /// Turns what was read back from the connection into the call's result: a read failure is
    /// an I/O error, a reply that does not decode a parse error, else the decoded response.
    pub fn finish(&self, reply: Result<String, String>) -> (r: Result<Response, SendError>)
        ensures
            match reply {
                Err(m) => r matches Err(SendError::Io(m2)) && m2@ == m@,
                Ok(t) => match decode_response_text(t@) {
                    Ok(v) => r matches Ok(resp) && resp@ == v,
                    Err(x) => r == Err::<Response, SendError>(SendError::Parse(x)),
                },
            },
    {
        match reply {
            Err(m) => Err(SendError::Io(m)),
            Ok(t) => match Response::decode(t.as_str()) {
                Ok(resp) => Ok(resp),
                Err(x) => Err(SendError::Parse(x)),
            },
        }
    }
}

} // verus!
