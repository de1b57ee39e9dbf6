//! What can go wrong while encoding.

use vstd::prelude::*;
use vstd::string::StringExecFns;

verus! {

/// Declares `std::io::Error`, carried by `Error::IoError`.
#[verifier::external_type_specification]
#[verifier::external_body]
pub struct ExIoError(std::io::Error);

/// Relies on `std::io::Error`'s `Display`, through `ToString::to_string`, for its message.
#[verifier::external_body]
fn io_error_message(err: &std::io::Error) -> (r: String) {
    err.to_string()
}

/// The failures of an encode.
#[derive(Debug)]
pub enum Error {
    /// A value could not describe itself; the text says why.
    Message(String),
    /// Kept for a decoder: never produced while encoding.
    Eof,
    /// Kept for a decoder: never produced while encoding.
    Syntax,
    /// Kept for a decoder: never produced while encoding.
    ExpectedBoolean,
    /// The byte sink refused a write.
    IoError(std::io::Error),
}

impl Error {
    /// An error that carries the given text.
    pub fn custom(msg: String) -> (r: Error)
        ensures
            r matches Error::Message(m) && m@ == msg@,
    {
        Error::Message(msg)
    }

    /// The text of the error.
    pub fn description(&self) -> (r: String)
        ensures
            self matches Error::Message(m) ==> r@ == m@,
            (self is Eof || self is Syntax || self is ExpectedBoolean) ==> r@
                == "unexpected end of input"@,
    {
        match self {
            Error::Message(msg) => msg.clone(),
            Error::Eof | Error::Syntax | Error::ExpectedBoolean => String::from_str(
                "unexpected end of input",
            ),
            Error::IoError(err) => io_error_message(err),
        }
    }
}

} // verus!
