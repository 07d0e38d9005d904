use delimited::error::ParseError;
use delimited::format::Format;
use delimited::parser::parse;

#[test]
fn message_for_unexpected_character() {
    let error = ParseError::UnexpectedCharacter { expected: '\'', found: 'f', row: 1, col: 1 };
    assert_eq!(error.message(), "Expected `'`, but found `f` on line 1, character 1.");
}

#[test]
fn message_for_escape_outside_value() {
    let error = ParseError::EscapeOutsideValue { escape_character: '\\', row: 12, col: 34 };
    assert_eq!(
        error.message(),
        "Encountered an escape character (`\\`) outside value on line 12, character 34."
    );
}

#[test]
fn message_writes_multi_digit_positions_with_zeros() {
    let error = ParseError::UnexpectedCharacter { expected: ',', found: 'x', row: 907, col: 100 };
    assert_eq!(error.message(), "Expected `,`, but found `x` on line 907, character 100.");
}

#[test]
fn message_of_a_parse_failure() {
    let format = Format::new('\'', ',', '\\');
    let error = parse(&format, "foo','bar'".chars().collect()).unwrap_err();
    assert_eq!(error.message(), "Expected `'`, but found `f` on line 1, character 1.");
}
