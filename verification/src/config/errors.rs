use crate::utils::text::{decimal, decimal_text};
use vstd::prelude::*;
use vstd::string::*;

verus! {

/// Why a configuration could not be loaded.
#[derive(Debug, Clone, PartialEq, Eq)]
pub enum ConfigParseError {
    /// The file could not be read; the text says why.
    ReadError(String),
    /// The document is not a valid configuration. `location` is the line and
    /// column of the fault, where they are known.
    InvalidSyntax { location: Option<(usize, usize)>, message: String },
    /// A rule's path pattern is no valid regular expression.
    InvalidRegexRule,
}

/// What opens the message of a read error.
pub open spec fn read_error_prefix() -> Seq<char> {
    "The following error occured while reading config file: "@
}

/// The message of a syntax error whose place is known.
pub open spec fn located_syntax_message(line: nat, column: nat, message: Seq<char>) -> Seq<char> {
    "Invalid syntax at line: "@ + decimal(line) + " col: "@ + decimal(column)
        + " with error: "@ + message
}

impl ConfigParseError {
    /// The message that describes this error.
    pub open spec fn message_text(&self) -> Seq<char> {
        match self {
            ConfigParseError::ReadError(err) => read_error_prefix() + err@,
            ConfigParseError::InvalidSyntax { location: None, message } => message@,
            ConfigParseError::InvalidSyntax { location: Some(place), message } => {
                located_syntax_message(place.0 as nat, place.1 as nat, message@)
            },
            ConfigParseError::InvalidRegexRule => "Invalid regex rule"@,
        }
    }

    /// Writes out the message that describes this error.
    pub fn message(&self) -> (content: String)
        ensures
            content@ == self.message_text(),
    {
        match self {
            ConfigParseError::ReadError(err) => {
                let mut content = String::from_str(
                    "The following error occured while reading config file: ",
                );
                content.append(err.as_str());
                content
            },
            ConfigParseError::InvalidSyntax { location, message } => match location {
                None => message.clone(),
                Some(place) => {
                    let line = decimal_text(place.0);
                    let column = decimal_text(place.1);
                    let mut content = String::from_str("Invalid syntax at line: ");
                    content.append(line.as_str());
                    content.append(" col: ");
                    content.append(column.as_str());
                    content.append(" with error: ");
                    content.append(message.as_str());
                    content
                },
            },
            ConfigParseError::InvalidRegexRule => String::from_str("Invalid regex rule"),
        }
    }
}

} // verus!
