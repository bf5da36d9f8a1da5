//! The kinds of failure the program reports, and their messages.

use vstd::prelude::*;
use crate::text::{push_str, str_chars, string_of};

verus! {

/// A failure, by kind.
#[derive(Debug)]
pub enum MinishellError {
    Ssh(String),
    Sftp(String),
    Store(String),
    Io(std::io::Error),
    NotFound(String),
    PermissionDenied(String),
    TransferFailed(String),
    Timeout,
}

/// The message of a failure whose kind carries text `s`, or `None` for an
/// I/O failure, whose text comes from the operating system.
pub open spec fn message_text(e: MinishellError) -> Option<Seq<char>> {
    match e {
        MinishellError::Ssh(s) => Some("SSH connection failed: "@ + s@),
        MinishellError::Sftp(s) => Some("SFTP error: "@ + s@),
        MinishellError::Store(s) => Some("Database error: "@ + s@),
        MinishellError::Io(_) => None,
        MinishellError::NotFound(s) => Some("File not found: "@ + s@),
        MinishellError::PermissionDenied(s) => Some("Permission denied: "@ + s@),
        MinishellError::TransferFailed(s) => Some("Transfer failed: "@ + s@),
        MinishellError::Timeout => Some("Connection timeout"@),
    }
}

/// `Display` of `std::io::Error` (std): the error's description, which for
/// an operating-system error is the system's message for its code. Nothing
/// is stated of the text: it comes from the machine.
#[verifier::external_body]
fn io_error_text(e: &std::io::Error) -> String {
    e.to_string()
}

fn prefixed(prefix: &str, s: &str) -> (r: String)
    ensures
        r@ == prefix@ + s@,
{
    let mut v = str_chars(prefix);
    push_str(&mut v, s);
    string_of(&v)
}

impl MinishellError {
    /// The message shown for this failure: its kind's prefix and its text;
    /// an I/O failure shows `IO error: ` and the system's description.
    pub fn message(&self) -> (r: String)
        ensures
            message_text(*self) matches Some(t) ==> r@ == t,
            self is Io ==> exists|t: Seq<char>| r@ == "IO error: "@ + t,
    {
        match self {
            MinishellError::Ssh(s) => prefixed("SSH connection failed: ", s.as_str()),
            MinishellError::Sftp(s) => prefixed("SFTP error: ", s.as_str()),
            MinishellError::Store(s) => prefixed("Database error: ", s.as_str()),
            MinishellError::Io(e) => {
                let t = io_error_text(e);
                prefixed("IO error: ", t.as_str())
            },
            MinishellError::NotFound(s) => prefixed("File not found: ", s.as_str()),
            MinishellError::PermissionDenied(s) => prefixed("Permission denied: ", s.as_str()),
            MinishellError::TransferFailed(s) => prefixed("Transfer failed: ", s.as_str()),
            MinishellError::Timeout => crate::text::owned("Connection timeout"),
        }
    }
}

impl From<std::io::Error> for MinishellError {
    fn from(e: std::io::Error) -> (r: MinishellError) {
        MinishellError::Io(e)
    }
}

impl vstd::std_specs::convert::FromSpecImpl<std::io::Error> for MinishellError {
    open spec fn obeys_from_spec() -> bool {
        true
    }

    open spec fn from_spec(e: std::io::Error) -> MinishellError {
        MinishellError::Io(e)
    }
}

} // verus!
