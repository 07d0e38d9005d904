use vstd::prelude::*;
use vstd::string::StringExecFns;

use crate::text::decimal_digits;
use crate::text::decimal_string;
use crate::text::push_char;

verus! {

/// A fatal tokenization error. Both variants carry the 1-based line number
/// (`row`) and the 1-based position of the offending character within that
/// line (`col`, counting every character the tokenizer examined, skipped
/// whitespace included).
#[derive(Clone, Copy, Debug, PartialEq, Eq)]
pub enum ParseError {
    /// The character at the current position does not match the character the
    /// state machine requires next: a field was not opened by the value
    /// delimiter, a stray character precedes an opening delimiter, or a field
    /// was not closed before the next separator was due.
    UnexpectedCharacter { expected: char, found: char, row: usize, col: usize },
    /// An escape character appeared while not positioned inside an open field.
    EscapeOutsideValue { escape_character: char, row: usize, col: usize },
}

/// The 1-based column of the offending character that `error` names.
pub open spec fn column_of(error: ParseError) -> usize {
    match error {
        ParseError::UnexpectedCharacter { col, .. } => col,
        ParseError::EscapeOutsideValue { col, .. } => col,
    }
}

/// The one-line description of `error`, with the offending characters quoted
/// in backticks and the 1-based line and column written in decimal.
pub open spec fn message_of(error: ParseError) -> Seq<char> {
    match error {
        ParseError::UnexpectedCharacter { expected, found, row, col } => "Expected `"@ + seq![
            expected,
        ] + "`, but found `"@ + seq![found] + "` on line "@ + decimal_digits(row as int)
            + ", character "@ + decimal_digits(col as int) + "."@,
        ParseError::EscapeOutsideValue { escape_character, row, col } =>
        "Encountered an escape character (`"@ + seq![escape_character]
            + "`) outside value on line "@ + decimal_digits(row as int) + ", character "@
            + decimal_digits(col as int) + "."@,
    }
}

impl ParseError {
    /// Renders this error as its one-line description.
    pub fn message(&self) -> (s: String)
        ensures
            s@ == message_of(*self),
    {
        match self {
            ParseError::UnexpectedCharacter { expected, found, row, col } => {
                let mut s = String::new();
                s.append("Expected `");
                push_char(&mut s, *expected);
                s.append("`, but found `");
                push_char(&mut s, *found);
                s.append("` on line ");
                let row_digits = decimal_string(*row);
                s.append(row_digits.as_str());
                s.append(", character ");
                let col_digits = decimal_string(*col);
                s.append(col_digits.as_str());
                s.append(".");
                proof {
                    assert(s@ =~= message_of(*self));
                }
                s
            },
            ParseError::EscapeOutsideValue { escape_character, row, col } => {
                let mut s = String::new();
                s.append("Encountered an escape character (`");
                push_char(&mut s, *escape_character);
                s.append("`) outside value on line ");
                let row_digits = decimal_string(*row);
                s.append(row_digits.as_str());
                s.append(", character ");
                let col_digits = decimal_string(*col);
                s.append(col_digits.as_str());
                s.append(".");
                proof {
                    assert(s@ =~= message_of(*self));
                }
                s
            },
        }
    }
}

} // verus!
