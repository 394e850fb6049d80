//! The error taxonomy: one variant per failure domain. Errors are resolved
//! at the lowest level that can make a safe decision; only configuration
//! problems that leave no monitor active are fatal to the process.

use vstd::prelude::*;

verus! {

#[derive(Clone, Debug, PartialEq, Eq)]
pub enum DmsError {
    /// A configuration value was rejected or could not be derived.
    Config(String),
    /// A socket operation failed.
    Network(String),
    /// Device enumeration failed.
    Usb(String),
    /// The remote-command channel failed.
    Telegram(String),
    /// The button channel failed.
    Flic(String),
    /// A concurrent unit of work could not be joined.
    Join(String),
}

impl DmsError {
    /// The text carried by the error, whichever domain it is from.
    pub fn detail(&self) -> (r: &String)
        ensures
            (match self {
                DmsError::Config(m) => m,
                DmsError::Network(m) => m,
                DmsError::Usb(m) => m,
                DmsError::Telegram(m) => m,
                DmsError::Flic(m) => m,
                DmsError::Join(m) => m,
            }) == r,
    {
        match self {
            DmsError::Config(m) => m,
            DmsError::Network(m) => m,
            DmsError::Usb(m) => m,
            DmsError::Telegram(m) => m,
            DmsError::Flic(m) => m,
            DmsError::Join(m) => m,
        }
    }
}

} // verus!
