//! What can go wrong in a conversion.

use vstd::prelude::*;
use vstd::string::*;

verus! {

/// The input cannot be converted as it stands. Retrying without changing the
/// input cannot help.
#[derive(Clone, Copy, Debug, PartialEq, Eq, Structural)]
pub enum FormatError {
    /// The bytes are not a readable package.
    Container,
    /// A paragraph refers to a numbering but does not say which.
    NumberingId,
    /// A list paragraph does not say at which level it stands.
    NumberingLevel,
    /// Lists are nested more deeply than an indentation can be computed for.
    Nesting,
    /// A picture's bytes cannot be decoded.
    Picture,
}

/// Why a document could not be written.
#[derive(Clone, Copy, Debug, PartialEq, Eq, Structural)]
pub enum GenerateError {
    /// The document holds something the package cannot represent.
    Format(FormatError),
    /// The package could not be finalized.
    Encoding,
}

impl FormatError {
    /// A sentence naming the stage that failed.
    pub fn message(&self) -> (text: String)
        ensures
            text@ == self.message_text(),
    {
        match self {
            FormatError::Container => String::from_str(
                "container read: the bytes are not a readable package",
            ),
            FormatError::NumberingId => String::from_str(
                "numbering resolution: a numbering reference has no id",
            ),
            FormatError::NumberingLevel => String::from_str(
                "numbering resolution: a list paragraph has no level",
            ),
            FormatError::Nesting => String::from_str(
                "element classification: lists are nested too deeply",
            ),
            FormatError::Picture => String::from_str("image encode: a picture cannot be decoded"),
        }
    }
}

impl GenerateError {
    /// A sentence naming the stage that failed.
    pub fn message(&self) -> (text: String)
        ensures
            text@ == match *self {
                GenerateError::Format(e) => e.message_text(),
                GenerateError::Encoding => "container write: the package could not be finalized"@,
            },
    {
        match self {
            GenerateError::Format(e) => e.message(),
            GenerateError::Encoding => String::from_str(
                "container write: the package could not be finalized",
            ),
        }
    }
}

impl FormatError {
    /// The text of [`FormatError::message`].
    pub open spec fn message_text(&self) -> Seq<char> {
        match *self {
            FormatError::Container => "container read: the bytes are not a readable package"@,
            FormatError::NumberingId => "numbering resolution: a numbering reference has no id"@,
            FormatError::NumberingLevel => "numbering resolution: a list paragraph has no level"@,
            FormatError::Nesting => "element classification: lists are nested too deeply"@,
            FormatError::Picture => "image encode: a picture cannot be decoded"@,
        }
    }
}

} // verus!
