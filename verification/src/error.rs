//! Errors reported when an input is not a single complete EGL program.

use vstd::prelude::*;
use vstd::string::StringExecFns;

verus! {

/// The token the parser needed and did not find, reported with the
/// character offset at which it was needed.
#[derive(Clone, Copy, Debug, PartialEq, Eq)]
pub enum Expected {
    /// The two-character start keyword `HI`.
    StartKeyword,
    /// The block-opening delimiter `{` (reported where neither an end
    /// marker nor a block follows the start keyword).
    OpenDelimiter,
    /// The block-closing delimiter `}`.
    CloseDelimiter,
    /// The end marker `!`.
    EndMarker,
}

/// Why a parse failed.
#[derive(Debug, PartialEq, Eq)]
pub enum ParseError {
    /// An expression was parsed but input remained after it; carries the
    /// unconsumed remainder.
    TrailingInput { remainder: String },
    /// The input does not match the grammar; carries the character offset
    /// of the failure and the token that was expected there.
    GrammarFailure { offset: usize, expected: Expected },
}

impl ParseError {
    /// A human-readable description of the failure.  The failure offset
    /// of a grammar failure stays available in the structured field.
    pub fn description(&self) -> (d: String)
        ensures
            match self {
                ParseError::TrailingInput { remainder } => d@ == "Expected end of input, but found '"@
                    + remainder@ + "'"@,
                ParseError::GrammarFailure { offset, expected } => d@ == match expected {
                    Expected::StartKeyword => "Expected the start keyword 'HI'"@,
                    Expected::OpenDelimiter => "Expected an end marker '!' or an open delimiter '{'"@,
                    Expected::CloseDelimiter => "Expected a close delimiter '}'"@,
                    Expected::EndMarker => "Expected an end marker '!'"@,
                },
            },
    {
        match self {
            ParseError::TrailingInput { remainder } => {
                let d = String::from_str("Expected end of input, but found '");
                let d = d.concat(remainder.as_str());
                d.concat("'")
            },
            ParseError::GrammarFailure { offset: _, expected } => match expected {
                Expected::StartKeyword => String::from_str("Expected the start keyword 'HI'"),
                Expected::OpenDelimiter => String::from_str(
                    "Expected an end marker '!' or an open delimiter '{'",
                ),
                Expected::CloseDelimiter => String::from_str("Expected a close delimiter '}'"),
                Expected::EndMarker => String::from_str("Expected an end marker '!'"),
            },
        }
    }
}

} // verus!
