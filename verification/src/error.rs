//! Errors of the transport, and what the command layer makes of a reply.

use bytes::Bytes;
use vstd::prelude::*;

verus! {

/// How a failure bears on the command that met it in the reply to its frame.
#[derive(Clone, Copy, Debug, PartialEq, Eq)]
pub enum ErrorClass {
    /// It may clear when the command is tried again.
    Recoverable,
    /// The device could not make sense of the command: the pass is given up.
    ParseFailure,
    /// No valid reply came: the command is tried again.
    Timeout,
    /// It will not clear: it goes to the caller at once.
    Fatal,
}

/// Why an operation of the transport failed.
#[derive(Clone, Copy, Debug, PartialEq, Eq)]
pub enum Error {
    /// No valid reply came within the attempts allowed, or a reply declared a
    /// length that no frame can have.
    Timeout,
    /// The device reported a fault, with its code; whether trying again may
    /// clear it.
    Device { code: u8, recoverable: bool },
    /// What the device sent could not be read as a response, or the device
    /// could not read what it was sent.
    ParseFailure,
    /// The serial device could not be opened or written.
    PortFailure,
}

/// What the command layer makes of one logical reply.
#[derive(Debug, PartialEq, Eq)]
pub enum Reply {
    /// A payload.
    Data(Bytes),
    /// A fault that the device reports, with its code.
    DeviceError { code: u8, recoverable: bool },
    /// The device reports that it could not parse the command.
    ParseFailure,
    /// The bytes are no response at all.
    Malformed,
}

impl Error {
    /// The class of this error.
    pub open spec fn class_spec(self) -> ErrorClass {
        match self {
            Error::Timeout => ErrorClass::Timeout,
            Error::Device { code, recoverable } => if recoverable {
                ErrorClass::Recoverable
            } else {
                ErrorClass::Fatal
            },
            Error::ParseFailure => ErrorClass::ParseFailure,
            Error::PortFailure => ErrorClass::Fatal,
        }
    }

    /// The class of this error.
    pub fn class(&self) -> (class: ErrorClass)
        ensures
            class == self.class_spec(),
    {
        match self {
            Error::Timeout => ErrorClass::Timeout,
            Error::Device { code: _, recoverable } => if *recoverable {
                ErrorClass::Recoverable
            } else {
                ErrorClass::Fatal
            },
            Error::ParseFailure => ErrorClass::ParseFailure,
            Error::PortFailure => ErrorClass::Fatal,
        }
    }
}

impl Reply {
    /// The class of the failure that this reply reports; none for a payload.
    pub open spec fn class_spec(self) -> Option<ErrorClass> {
        match self {
            Reply::Data(_) => None,
            Reply::DeviceError { code, recoverable } => if recoverable {
                Some(ErrorClass::Recoverable)
            } else {
                Some(ErrorClass::Fatal)
            },
            Reply::ParseFailure => Some(ErrorClass::ParseFailure),
            Reply::Malformed => Some(ErrorClass::Timeout),
        }
    }

    /// The class of the failure that this reply reports; none for a payload.
    pub fn class(&self) -> (class: Option<ErrorClass>)
        ensures
            class == self.class_spec(),
    {
        match self {
            Reply::Data(_) => None,
            Reply::DeviceError { code: _, recoverable } => if *recoverable {
                Some(ErrorClass::Recoverable)
            } else {
                Some(ErrorClass::Fatal)
            },
            Reply::ParseFailure => Some(ErrorClass::ParseFailure),
            Reply::Malformed => Some(ErrorClass::Timeout),
        }
    }
}

} // verus!
