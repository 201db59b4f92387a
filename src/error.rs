//! The errors of decoding and of client operations.

use vstd::prelude::*;

verus! {

/// Why a wire value could not be turned into the typed value it stands for.
#[derive(Debug, Clone, PartialEq, Eq)]
pub enum DecodeError {
    /// Nothing in the string could belong to an amount.
    EmptyAmount,
    /// The separators do not follow either numeral convention.
    MalformedAmount,
    /// Both `.` and `,` occur more than once.
    TooManySeparators,
    /// A `.` and a `,` were found at the same position.
    SeparatorClash,
    /// More digits than a decimal amount can hold exactly.
    AmountOutOfRange,
    /// An integer that is neither 1 nor 0 where a boolean was expected.
    NumberNotBinary,
    /// A floating-point number that is neither 1.0 nor 0.0 where a boolean was expected.
    FloatNotBinary,
    /// A string that no boolean rule accepts.
    NotABoolean { input: String },
    /// A date-time string that does not follow `YYYY-MM-DD HH:MM:SS`.
    InvalidTimestampFormat,
    /// A date-time of the right shape that is no calendar date and time.
    InvalidTimestamp,
    /// A local time that the civil time zone skips or repeats.
    UnmappableLocalTime,
    /// A date string that does not follow its pattern.
    InvalidDate,
    /// A string where a non-negative integer was expected.
    InvalidNumber,
    /// A null where a value is required.
    UnexpectedNull,
}

/// An error of this client, with a message for its user.
#[derive(Debug, Clone, PartialEq, Eq)]
pub struct LufaError {
    pub message: String,
}

/// Everything a client operation can fail with.
#[derive(Debug, Clone, PartialEq, Eq)]
pub enum Error {
    /// Authentication is missing or failed.
    Lufa { source: LufaError },
    /// The session cookie is not valid percent-encoded UTF-8.
    UrlEncoding,
    /// The session payload could not be read as a serialized array.
    SerdePhp { message: String },
    /// The transport failed; its message is passed on unchanged.
    Reqwest { message: String },
    /// A field of a response could not be decoded.
    Decode { error: DecodeError },
}

impl LufaError {
    /// The message of the error.
    pub fn to_string(&self) -> (r: String)
        ensures
            r@ == self.message@,
    {
        self.message.clone()
    }
}

} // verus!
