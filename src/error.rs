//! The library's error type.
use plist::Error as PlistError;
use vstd::prelude::*;

verus! {

#[verifier::external_type_specification]
#[verifier::external_body]
pub struct ExIoError(std::io::Error);

#[verifier::external_type_specification]
#[verifier::external_body]
pub struct ExPlistError(PlistError);

/// What can go wrong while talking to the daemon.
#[derive(Debug)]
pub enum Error {
    /// Connecting, reading or writing failed, a timeout included.
    Io(std::io::Error),
    /// A payload could not be serialized or parsed as a property list.
    Plist(PlistError),
    /// A reply arrived but does not have the shape the operation expects.
    UnexpectedFormat,
    /// The daemon reports that the device is not attached.
    DeviceIsNotConnected,
    /// The daemon reports that nothing listens on the port of the device.
    PortIsNotAvailable,
}

impl Error {
    /// A short description; for a wrapped cause, the cause's own message.
    pub fn description(&self) -> (r: String)
        ensures
            self is UnexpectedFormat ==> r@ == "unexpected format"@,
            self is DeviceIsNotConnected ==> r@ == "device is not connected"@,
            self is PortIsNotAvailable ==> r@ == "port is not available"@,
    {
        match self {
            Error::Io(e) => e.to_string(),
            Error::Plist(e) => e.to_string(),
            Error::UnexpectedFormat => "unexpected format".to_owned(),
            Error::DeviceIsNotConnected => "device is not connected".to_owned(),
            Error::PortIsNotAvailable => "port is not available".to_owned(),
        }
    }

    /// Whether the error wraps an underlying cause.
    pub fn has_cause(&self) -> (r: bool)
        ensures
            r == (self is Io || self is Plist),
    {
        match self {
            Error::Io(_) => true,
            Error::Plist(_) => true,
            _ => false,
        }
    }
}

impl From<std::io::Error> for Error {
    fn from(e: std::io::Error) -> (r: Error) {
        Error::Io(e)
    }
}

impl vstd::std_specs::convert::FromSpecImpl<std::io::Error> for Error {
    open spec fn obeys_from_spec() -> bool {
        true
    }

    open spec fn from_spec(e: std::io::Error) -> Error {
        Error::Io(e)
    }
}

impl From<PlistError> for Error {
    fn from(e: PlistError) -> (r: Error) {
        Error::Plist(e)
    }
}

impl vstd::std_specs::convert::FromSpecImpl<PlistError> for Error {
    open spec fn obeys_from_spec() -> bool {
        true
    }

    open spec fn from_spec(e: PlistError) -> Error {
        Error::Plist(e)
    }
}

} // verus!
