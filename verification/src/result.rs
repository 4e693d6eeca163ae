//! The failures that reading an EPUB can end in.

use vstd::prelude::*;
use vstd::string::*;

verus! {

/// Why an EPUB could not be read. Each variant carries the message of the
/// failure that caused it.
#[derive(Debug, PartialEq)]
pub enum EpubError {
    /// A file or an entry could not be read.
    IO(String),
    /// The input is no archive, is corrupt, or lacks an entry that every EPUB
    /// must have.
    InvalidEpub(String),
    /// A document of the archive is not the well-formed markup it must be.
    XmlDeserilize(String),
}

impl EpubError {
    /// The text that describes this failure to a reader.
    pub open spec fn message_text(&self) -> Seq<char> {
        match self {
            EpubError::IO(cause) => cause@,
            EpubError::InvalidEpub(cause) => "Invalid EPUB file: "@ + cause@,
            EpubError::XmlDeserilize(cause) => "Deserialize xml failed: "@ + cause@,
        }
    }

    /// The text that describes this failure to a reader.
    pub fn message(&self) -> (text: String)
        ensures
            text@ == self.message_text(),
    {
        match self {
            EpubError::IO(cause) => cause.clone(),
            EpubError::InvalidEpub(cause) => {
                let mut text = String::from_str("Invalid EPUB file: ");
                text.append(cause.as_str());
                text
            },
            EpubError::XmlDeserilize(cause) => {
                let mut text = String::from_str("Deserialize xml failed: ");
                text.append(cause.as_str());
                text
            },
        }
    }
}

} // verus!
