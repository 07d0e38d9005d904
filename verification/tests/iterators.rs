use delimited::error::ParseError;
use delimited::format::Format;
use delimited::splitter::CharLines;
use delimited::tokenizer::CharValues;
use delimited::tokenizer::Cursor;

#[test]
fn char_lines_should_iterate() {
    let csv_characters: Vec<char> = "'foo', 'bar'\n'baz', 'qux'".chars().collect();
    let format = Format::new('\'', ',', '\n');
    let mut char_lines = CharLines::new(csv_characters, format);
    let mut lines: Vec<String> = Vec::new();
    while let Some(line) = char_lines.next() {
        lines.push(line.into_iter().collect::<String>());
    }
    assert_eq!(lines, vec!["'foo', 'bar'", "'baz', 'qux'"]);
}

#[test]
fn char_values_should_iterate() {
    let csv_characters: Vec<char> = "'foo', 'bar'".chars().collect();
    let format = Format::new('\'', ',', '\n');
    let mut char_values = CharValues::new(csv_characters, 0, format);
    let mut values: Vec<String> = Vec::new();
    while let Some(item) = char_values.next() {
        values.push(item.unwrap());
    }
    assert_eq!(values, vec!["foo", "bar"]);
}

#[test]
fn char_lines_empty_input_has_no_lines() {
    let format = Format::new('\'', ',', '\\');
    let mut char_lines = CharLines::new(Vec::new(), format);
    assert!(char_lines.next().is_none());
}

#[test]
fn char_lines_trailing_terminator_adds_no_line() {
    let csv_characters: Vec<char> = "one\n".chars().collect();
    let format = Format::new('\'', ',', '\\');
    let mut char_lines = CharLines::new(csv_characters, format);
    let first = char_lines.next().unwrap();
    assert_eq!(first.into_iter().collect::<String>(), "one");
    assert!(char_lines.next().is_none());
}

#[test]
fn char_lines_stays_exhausted() {
    let format = Format::new('\'', ',', '\\');
    let mut char_lines = CharLines::new("one".chars().collect(), format);
    assert!(char_lines.next().is_some());
    assert!(char_lines.next().is_none());
    assert!(char_lines.next().is_none());
}

#[test]
fn char_values_stays_exhausted() {
    let format = Format::new('\'', ',', '\\');
    let mut char_values = CharValues::new("'a'".chars().collect(), 1, format);
    assert_eq!(char_values.next(), Some(Ok(String::from("a"))));
    assert!(char_values.next().is_none());
    assert!(char_values.next().is_none());
}

#[test]
fn char_values_resumes_past_the_offending_character() {
    let format = Format::new('\'', ',', '\\');
    let mut char_values = CharValues::new("x'a'".chars().collect(), 1, format);
    assert_eq!(
        char_values.next(),
        Some(Err(ParseError::UnexpectedCharacter { expected: '\'', found: 'x', row: 1, col: 1 }))
    );
    assert_eq!(char_values.cursor.char_index, 1);
    assert_eq!(char_values.next(), Some(Ok(String::from("a"))));
    assert!(char_values.next().is_none());
}

#[test]
fn cursor_starts_before_the_first_field() {
    let format = Format::new('\'', ',', '\\');
    let cursor = Cursor::new(3, &format);
    assert_eq!(cursor.row_index, 3);
    assert_eq!(cursor.char_index, 0);
    assert!(!cursor.escape);
    assert!(!cursor.in_value);
    assert!(cursor.value_chars.is_empty());
    assert_eq!(cursor.expect, Some('\''));
}
