//! The failures that the daemon tells apart.

use vstd::prelude::*;
use vstd::string::StringExecFns;

verus! {

/// Why a text is no decimal integer of 32 bits.
#[derive(Clone, Copy, Debug, PartialEq, Eq, Structural)]
pub enum ParseFailure {
    /// There is no text.
    Empty,
    /// There is no digit, or a character that is none.
    InvalidDigit,
    /// The number is above the largest value.
    PosOverflow,
    /// The number is below the smallest value.
    NegOverflow,
}

/// A failure of the daemon. Where the cause lies outside the library the
/// variant carries its description.
#[derive(Clone, Debug, PartialEq, Eq)]
pub enum LumdError {
    /// A node or the socket could not be read or written.
    Io(String),
    /// A node holds no integer.
    Parse(ParseFailure),
    /// A node holds no decimal fraction.
    ParseFloat(String),
    /// No backlight or no sensor was found.
    DeviceNotFound(String),
    /// The configuration or a directory is unusable.
    InvalidData(String),
    /// The command channel has no receiver.
    Communication(String),
}

impl ParseFailure {
    /// The words that describe the failure.
    pub open spec fn description_spec(self) -> Seq<char> {
        match self {
            ParseFailure::Empty => "cannot parse integer from empty string"@,
            ParseFailure::InvalidDigit => "invalid digit found in string"@,
            ParseFailure::PosOverflow => "number too large to fit in target type"@,
            ParseFailure::NegOverflow => "number too small to fit in target type"@,
        }
    }

    /// Describes the failure in words.
    pub fn description(&self) -> (text: &'static str)
        ensures
            text@ == self.description_spec(),
    {
        match self {
            ParseFailure::Empty => "cannot parse integer from empty string",
            ParseFailure::InvalidDigit => "invalid digit found in string",
            ParseFailure::PosOverflow => "number too large to fit in target type",
            ParseFailure::NegOverflow => "number too small to fit in target type",
        }
    }
}

impl LumdError {
    /// The heading under which a failure of this kind is reported.
    pub open spec fn heading(self) -> Seq<char> {
        match self {
            LumdError::Io(_) => "IO error: "@,
            LumdError::Parse(_) => "Parse error: "@,
            LumdError::ParseFloat(_) => "Parse float error: "@,
            LumdError::DeviceNotFound(_) => "Device not found: "@,
            LumdError::InvalidData(_) => "Invalid data: "@,
            LumdError::Communication(_) => "Communication error: "@,
        }
    }

    /// The description that the failure carries.
    pub open spec fn detail(self) -> Seq<char> {
        match self {
            LumdError::Io(s) => s@,
            LumdError::Parse(e) => e.description_spec(),
            LumdError::ParseFloat(s) => s@,
            LumdError::DeviceNotFound(s) => s@,
            LumdError::InvalidData(s) => s@,
            LumdError::Communication(s) => s@,
        }
    }

    /// Renders the failure as one line: its heading, then its description.
    pub fn message(&self) -> (line: String)
        ensures
            line@ == self.heading() + self.detail(),
    {
        match self {
            LumdError::Io(s) => String::from_str("IO error: ").concat(s.as_str()),
            LumdError::Parse(e) => String::from_str("Parse error: ").concat(e.description()),
            LumdError::ParseFloat(s) => String::from_str("Parse float error: ").concat(s.as_str()),
            LumdError::DeviceNotFound(s) => String::from_str("Device not found: ").concat(
                s.as_str(),
            ),
            LumdError::InvalidData(s) => String::from_str("Invalid data: ").concat(s.as_str()),
            LumdError::Communication(s) => String::from_str("Communication error: ").concat(
                s.as_str(),
            ),
        }
    }
}

} // verus!
