//! The error taxonomy shared by the codec, the commands and the connection logic.
use vstd::prelude::*;

verus! {

/// `std::string::FromUtf8Error`, which `String::from_utf8` returns for
/// bytes that are no UTF-8. The library carries it and never looks inside.
#[verifier::external_type_specification]
#[verifier::external_body]
pub struct ExFromUtf8Error(std::string::FromUtf8Error);

/// The transport failures that the library tells apart.
#[derive(Debug, Clone, Copy, PartialEq, Eq, Structural)]
pub enum IoErrorKind {
    /// The peer went away in the middle of a frame or of a conversation.
    ConnectionReset,
    /// Any other failure of the underlying transport.
    Other,
}

/// Everything that can go wrong between the wire and the store.
#[derive(Debug)]
pub enum Error {
    /// The underlying transport failed; the text describes how.
    Io(IoErrorKind, String),
    /// The buffer ends before the frame does. Used inside the codec to ask
    /// for more bytes.
    IncompleteFrame,
    /// A malformed frame or command.
    Protocol(String),
    /// A length on the wire does not fit the machine's index type.
    Conversion(core::num::TryFromIntError),
    /// A textual frame does not hold UTF-8.
    Utf8(std::string::FromUtf8Error),
    /// A field was asked of a parser that has none left.
    EndOfStream,
    /// The command name is not one the server knows.
    UnknownCommand(String),
    /// A field was pushed into a frame that is no array.
    WrongFrameType(String),
    /// The server's reply is an error, or not what the request calls for.
    Response(String),
}

/// The variant of an [`Error`], without what it carries.
pub enum ErrorKind {
    Io,
    IncompleteFrame,
    Protocol,
    Conversion,
    Utf8,
    EndOfStream,
    UnknownCommand,
    WrongFrameType,
    Response,
}

impl Error {
    /// Which variant this error is.
    pub open spec fn kind(&self) -> ErrorKind {
        match self {
            Error::Io(_, _) => ErrorKind::Io,
            Error::IncompleteFrame => ErrorKind::IncompleteFrame,
            Error::Protocol(_) => ErrorKind::Protocol,
            Error::Conversion(_) => ErrorKind::Conversion,
            Error::Utf8(_) => ErrorKind::Utf8,
            Error::EndOfStream => ErrorKind::EndOfStream,
            Error::UnknownCommand(_) => ErrorKind::UnknownCommand,
            Error::WrongFrameType(_) => ErrorKind::WrongFrameType,
            Error::Response(_) => ErrorKind::Response,
        }
    }
}

} // verus!
