use delimited::error::ParseError;
use delimited::format::Format;
use delimited::parser::parse;

fn chars(text: &str) -> Vec<char> {
    text.chars().collect()
}

#[test]
fn parse_empty_input_yields_empty_document() {
    let format = Format::new('\'', ',', '\\');
    let document = parse(&format, Vec::new()).unwrap();
    assert_eq!(document, Vec::<Vec<String>>::new());
}

#[test]
fn parse_single_line() {
    let format = Format::new('\'', ',', '\\');
    let document = parse(&format, chars("'foo','bar','baz'")).unwrap();
    assert_eq!(document, vec![vec!["foo", "bar", "baz"]]);
}

#[test]
fn parse_two_lines() {
    let format = Format::new('\'', ',', '\\');
    let document = parse(&format, chars("'foo','bar'\n'baz','qux'")).unwrap();
    assert_eq!(document, vec![vec!["foo", "bar"], vec!["baz", "qux"]]);
}

#[test]
fn parse_value_delimiter_hash() {
    let format = Format::new('#', ',', '\\');
    let document = parse(&format, chars("#foo#,#bar#,#baz#")).unwrap();
    assert_eq!(document, vec![vec!["foo", "bar", "baz"]]);
}

#[test]
fn parse_value_separator_hash() {
    let format = Format::new('\'', '#', '\\');
    let document = parse(&format, chars("'foo'#'bar'#'baz'")).unwrap();
    assert_eq!(document, vec![vec!["foo", "bar", "baz"]]);
}

#[test]
fn parse_escaped_delimiters() {
    let format = Format::new('\'', ',', '\\');
    let document = parse(&format, chars("'\\'FOO\\'','\\'BAR\\'','\\'BAZ\\''")).unwrap();
    assert_eq!(document, vec![vec!["'FOO'", "'BAR'", "'BAZ'"]]);
}

#[test]
fn parse_escaped_delimiters_hash_escape() {
    let format = Format::new('\'', ',', '#');
    let document = parse(&format, chars("'#'FOO#'','#'BAR#'','#'BAZ#''")).unwrap();
    assert_eq!(document, vec![vec!["'FOO'", "'BAR'", "'BAZ'"]]);
}

#[test]
fn parse_escaped_escape_character() {
    let format = Format::new('\'', ',', '\\');
    let document = parse(&format, chars("'a\\\\b'")).unwrap();
    assert_eq!(document, vec![vec!["a\\b"]]);
}

#[test]
fn parse_keeps_whitespace_inside_values() {
    let format = Format::new('\'', ',', '\\');
    let document = parse(&format, chars("'foo  ', ' bar ',   '   baz'")).unwrap();
    assert_eq!(document, vec![vec!["foo  ", " bar ", "   baz"]]);
}

#[test]
fn parse_discards_whitespace_around_values() {
    let format = Format::new('\'', ',', '\\');
    let document = parse(
        &format,
        chars("   'foo  ',     ' bar '         ,   '   baz'      "),
    )
    .unwrap();
    assert_eq!(document, vec![vec!["foo  ", " bar ", "   baz"]]);
}

#[test]
fn parse_errors_on_unopened_first_field() {
    let format = Format::new('\'', ',', '\\');
    let result = parse(&format, chars("foo','bar','baz'"));
    assert_eq!(
        result,
        Err(ParseError::UnexpectedCharacter { expected: '\'', found: 'f', row: 1, col: 1 })
    );
}

#[test]
fn parse_errors_on_unterminated_field() {
    let format = Format::new('\'', ',', '\\');
    let result = parse(&format, chars("'foo,'bar','baz'"));
    assert_eq!(
        result,
        Err(ParseError::UnexpectedCharacter { expected: ',', found: 'b', row: 1, col: 7 })
    );
}

#[test]
fn parse_errors_on_stray_character_before_field() {
    let format = Format::new('\'', ',', '\\');
    let result = parse(&format, chars("f'oo','bar','baz'"));
    assert_eq!(
        result,
        Err(ParseError::UnexpectedCharacter { expected: '\'', found: 'f', row: 1, col: 1 })
    );
}

#[test]
fn parse_error_column_counts_skipped_whitespace() {
    let format = Format::new('\'', ',', '\\');
    let result = parse(&format, chars("  foo'"));
    assert_eq!(
        result,
        Err(ParseError::UnexpectedCharacter { expected: '\'', found: 'f', row: 1, col: 3 })
    );
}

#[test]
fn parse_errors_on_escape_outside_value() {
    let format = Format::new('\'', ',', '\\');
    let result = parse(&format, chars("'a', \\'b'"));
    assert_eq!(
        result,
        Err(ParseError::EscapeOutsideValue { escape_character: '\\', row: 1, col: 6 })
    );
}

#[test]
fn parse_errors_carry_the_failing_line_number() {
    let format = Format::new('\'', ',', '\\');
    let result = parse(&format, chars("'a'\n'b',\\"));
    assert_eq!(
        result,
        Err(ParseError::EscapeOutsideValue { escape_character: '\\', row: 2, col: 5 })
    );
}

#[test]
fn parse_discards_earlier_rows_on_failure() {
    let format = Format::new('\'', ',', '\\');
    let result = parse(&format, chars("'a','b'\nc"));
    assert_eq!(
        result,
        Err(ParseError::UnexpectedCharacter { expected: '\'', found: 'c', row: 2, col: 1 })
    );
}

#[test]
fn parse_empty_middle_line_yields_empty_row() {
    let format = Format::new('\'', ',', '\\');
    let document = parse(&format, chars("'a'\n\n'b'")).unwrap();
    assert_eq!(document, vec![vec!["a"], Vec::<&str>::new(), vec!["b"]]);
}

#[test]
fn parse_trailing_terminator_adds_no_row() {
    let format = Format::new('\'', ',', '\\');
    let document = parse(&format, chars("'a'\n")).unwrap();
    assert_eq!(document, vec![vec!["a"]]);
}

#[test]
fn parse_whitespace_only_line_yields_empty_row() {
    let format = Format::new('\'', ',', '\\');
    let document = parse(&format, chars("  \n'a'")).unwrap();
    assert_eq!(document, vec![Vec::<&str>::new(), vec!["a"]]);
}

#[test]
fn parse_drops_a_field_still_open_at_line_end() {
    let format = Format::new('\'', ',', '\\');
    let document = parse(&format, chars("'a','bc")).unwrap();
    assert_eq!(document, vec![vec!["a"]]);
}

#[test]
fn parse_discards_tabs_between_values() {
    let format = Format::new('\'', ',', '\\');
    let document = parse(&format, chars("\t'a',\t'b'\t")).unwrap();
    assert_eq!(document, vec![vec!["a", "b"]]);
}

#[test]
fn parse_discards_unicode_whitespace_outside_values() {
    let format = Format::new('\'', ',', '\\');
    let document = parse(&format, chars("\u{3000}'a',\u{a0}'b'")).unwrap();
    assert_eq!(document, vec![vec!["a", "b"]]);
}

#[test]
fn parse_with_equal_delimiter_and_separator_keeps_the_literal_rules() {
    // The first quote is consumed as the required opening character and, being
    // also the separator, is consumed outright; the next quote opens the
    // field, the one after it closes it, and the final quote is consumed as
    // the required separator.
    let format = Format::new('\'', '\'', '\\');
    let document = parse(&format, chars("''a''")).unwrap();
    assert_eq!(document, vec![vec!["a"]]);
}

#[test]
fn parse_twice_yields_identical_documents() {
    let format = Format::new('\'', ',', '\\');
    let text = "'foo','bar'\n'baz', 'qux'";
    let first = parse(&format, chars(text));
    let second = parse(&format, chars(text));
    assert_eq!(first, second);
    let failing = "'foo','bar'\nbroken";
    let first_err = parse(&format, chars(failing));
    let second_err = parse(&format, chars(failing));
    assert_eq!(first_err, second_err);
}
