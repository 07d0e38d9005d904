use vstd::prelude::*;

verus! {

/// The three control characters that drive tokenization: a field's content is
/// opened and closed by `value_delimiter`, consecutive fields are joined by
/// `value_separator`, and `escape_character` makes the character after it
/// literal inside a field.
///
/// Any three characters may be supplied; no distinctness between them is
/// required, and overlapping choices get the literal behavior of the
/// tokenizer's transition rules. A configuration is immutable once
/// constructed and is shared by reference across a whole parse.
#[derive(Clone, Copy, Debug)]
pub struct Format {
    pub value_delimiter: char,
    pub value_separator: char,
    pub escape_character: char,
}

impl Format {
    /// Builds a configuration from the three control characters.
    pub fn new(value_delimiter: char, value_separator: char, escape_character: char) -> (format: Format)
        ensures
            format.value_delimiter == value_delimiter,
            format.value_separator == value_separator,
            format.escape_character == escape_character,
    {
        Format { value_delimiter, value_separator, escape_character }
    }
}

} // verus!
