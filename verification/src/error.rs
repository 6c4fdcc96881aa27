//! The error taxonomy shared by the decoding bridge and the raw view.

use vstd::prelude::*;
use vstd::string::StringExecFns;

verus! {

/// The kind of a decoding error, without its message text.
#[derive(Debug, Clone, Copy, PartialEq, Eq, Structural)]
pub enum ErrorKind {
    /// A value was required but the source was already exhausted.
    EndOfStream,
    /// The offered shape does not match what the target required.
    InvalidType,
    /// The shape was acceptable but its content failed further parsing.
    InvalidValue,
    /// A fixed-size payload received the wrong byte count.
    InvalidLength,
    /// Free-text fault: raw-buffer structural faults and unsupported markers.
    Custom,
}

/// A decoding error. Every bridge operation returns a `Result` with this
/// error; the first error aborts the whole decode.
#[derive(Debug, Clone, PartialEq)]
pub enum Error {
    /// A value was required but the source was already exhausted.
    EndOfStream,
    /// The offered shape does not match what the target required:
    /// `found` renders what was received, `expected` the required shape.
    InvalidType { expected: String, found: String },
    /// The shape was acceptable but its content failed further parsing:
    /// `found` renders the received content, `expected` the format it missed.
    InvalidValue { expected: String, found: String },
    /// A fixed-size payload received `found` bytes instead of `expected`.
    InvalidLength { expected: usize, found: usize },
    /// Free-text fault.
    Custom { message: String },
}

impl Error {
    /// The taxonomy kind of this error.
    pub open spec fn kind(&self) -> ErrorKind {
        match self {
            Error::EndOfStream => ErrorKind::EndOfStream,
            Error::InvalidType { .. } => ErrorKind::InvalidType,
            Error::InvalidValue { .. } => ErrorKind::InvalidValue,
            Error::InvalidLength { .. } => ErrorKind::InvalidLength,
            Error::Custom { .. } => ErrorKind::Custom,
        }
    }

    /// A rendering of the error for display by callers.
    pub fn message(&self) -> (r: String)
        ensures
            self matches Error::Custom { message } ==> r@ == message@,
    {
        match self {
            Error::EndOfStream => "end of stream".to_owned(),
            Error::InvalidType { expected, found } => {
                let mut m = "invalid type: found ".to_owned();
                m.append(found.as_str());
                m.append(", expected ");
                m.append(expected.as_str());
                m
            }
            Error::InvalidValue { expected, found } => {
                let mut m = "invalid value: found ".to_owned();
                m.append(found.as_str());
                m.append(", expected ");
                m.append(expected.as_str());
                m
            }
            Error::InvalidLength { expected: _, found: _ } => {
                "invalid length".to_owned()
            }
            Error::Custom { message } => message.clone(),
        }
    }
}

} // verus!
