//! Types shared with serial-port transports: the errors a serial byte source
//! can raise, and the port list handed to callers that enumerate devices.
//! The transport driver itself polls the device asynchronously and lives
//! outside the verified library.

use vstd::prelude::*;

verus! {

/// Failures of a serial transport: a setup problem when opening or
/// configuring the port, or an unrecoverable read failure that terminates
/// the source.
#[derive(Debug)]
pub enum SerialError {
    Setup(String),
    Unrecoverable(String),
}

impl SerialError {
    /// The human-readable detail carried by the error.
    pub fn details(&self) -> (r: &String)
        ensures
            match *self {
                SerialError::Setup(s) => *r == s,
                SerialError::Unrecoverable(s) => *r == s,
            },
    {
        match self {
            SerialError::Setup(s) => s,
            SerialError::Unrecoverable(s) => s,
        }
    }
}

/// A list of serial ports: each entry names one serial device available on
/// the system.
#[derive(Clone, Debug)]
pub struct SerialPortsList(pub Vec<String>);

} // verus!
