//! The error enum for errors that can occur while using this library.

use vstd::prelude::*;

verus! {

/// An enum that represents errors that can occur while using this library.
#[derive(Debug, Copy, Clone, PartialEq, Eq, Hash, Structural)]
pub enum Error {
    /// The file already exists
    FileExists,
    /// The invalid opacity value
    InvalidOpacity,
    /// The invalid size of the image
    InvalidSize,
    /// The invalid type
    InvalidType,
    /// The index is out of bounds
    IndexOutOfBounds,
    /// The given color is wrong
    WrongColor,
}

impl Error {
    /// The message of the error, as the original `Display` output writes it.
    pub open spec fn spec_message(self) -> Seq<char> {
        match self {
            Error::FileExists => "Error: File already exists!"@,
            Error::InvalidOpacity => "Error: Invalid opacity value!"@,
            Error::InvalidSize => "Error: The size of the image is invalid!"@,
            Error::InvalidType => "Error: The unsupported type!"@,
            Error::IndexOutOfBounds => "Error: Index out of bounds!"@,
            Error::WrongColor => "Error: Wrong color!"@,
        }
    }

    /// Returns the message that describes the error.
    pub fn to_string(&self) -> (s: String)
        ensures
            s@ == self.spec_message(),
    {
        match self {
            Error::FileExists => String::from_str("Error: File already exists!"),
            Error::InvalidOpacity => String::from_str("Error: Invalid opacity value!"),
            Error::InvalidSize => String::from_str("Error: The size of the image is invalid!"),
            Error::InvalidType => String::from_str("Error: The unsupported type!"),
            Error::IndexOutOfBounds => String::from_str("Error: Index out of bounds!"),
            Error::WrongColor => String::from_str("Error: Wrong color!"),
        }
    }
}

} // verus!
