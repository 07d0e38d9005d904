use vstd::prelude::*;

use crate::error::ParseError;
use crate::format::Format;
use crate::splitter::CharLines;
use crate::splitter::lemma_split_lines_count;
use crate::splitter::split_lines;
use crate::tokenizer::CharValues;
use crate::tokenizer::TokenRun;
use crate::tokenizer::tokenize_line;

verus! {

/// The rows of `lines[i..]`, each line tokenized on its own under its 1-based
/// line number, or the first error among them. No partial document: one
/// failing line fails the whole rest.
pub open spec fn rows_from(format: Format, lines: Seq<Seq<char>>, i: int) -> Result<
    Seq<Seq<Seq<char>>>,
    ParseError,
>
    decreases lines.len() - i,
{
    if i < 0 || i >= lines.len() {
        Ok(Seq::<Seq<Seq<char>>>::empty())
    } else {
        let run = tokenize_line(format, lines[i], (i + 1) as usize);
        if run.err is Some {
            Err(run.err->0)
        } else {
            match rows_from(format, lines, i + 1) {
                Ok(rest) => Ok(seq![run.fields] + rest),
                Err(e) => Err(e),
            }
        }
    }
}

/// What parsing `characters` under `format` returns: one row per line of the
/// input, in order, or the first error anywhere in the document.
pub open spec fn parse_result(format: Format, characters: Seq<char>) -> Result<
    Seq<Seq<Seq<char>>>,
    ParseError,
> {
    rows_from(format, split_lines(characters), 0)
}

/// Empty input parses to the empty document, under every format.
pub proof fn lemma_parse_empty(format: Format)
    ensures
        parse_result(format, Seq::<char>::empty()) == Ok::<Seq<Seq<Seq<char>>>, ParseError>(
            Seq::<Seq<Seq<char>>>::empty(),
        ),
{
    assert(split_lines(Seq::<char>::empty()) =~~= Seq::<Seq<char>>::empty());
}

/// Parsing is a function of the format and the characters alone: the same
/// input parsed twice under the same format yields the same document or
/// error, with no state carried over between calls.
pub proof fn lemma_parse_deterministic(
    format: Format,
    characters: Seq<char>,
    first: Result<Seq<Seq<Seq<char>>>, ParseError>,
    second: Result<Seq<Seq<Seq<char>>>, ParseError>,
)
    requires
        first == parse_result(format, characters),
        second == parse_result(format, characters),
    ensures
        first == second,
{
}

/// Runs one line's tokenizer to completion: all the fields of the rest of the
/// line as a row, or the first error on it.
fn read_row(values: &mut CharValues) -> (r: Result<Vec<String>, ParseError>)
    requires
        old(values).wf(),
    ensures
        (match r {
            Ok(row) => {
                &&& old(values).pending().err is None
                &&& row.deep_view() == old(values).pending().fields
            },
            Err(e) => old(values).pending().err == Some(e),
        }),
{
    let ghost run: TokenRun = values.pending();
    let ghost mut consumed: int = 0;
    let mut row: Vec<String> = Vec::new();
    proof {
        assert(row.deep_view() =~~= run.fields.take(0));
    }
    loop
        invariant
            values.wf(),
            run == old(values).pending(),
            0 <= consumed <= run.fields.len(),
            row.deep_view() == run.fields.take(consumed),
            values.pending() == (TokenRun { fields: run.fields.skip(consumed), err: run.err }),
        decreases run.fields.len() - consumed,
    {
        match values.next() {
            None => {
                proof {
                    assert(run.fields.skip(consumed).len() == 0);
                    assert(row.deep_view() =~~= run.fields);
                }
                return Ok(row);
            },
            Some(item) => match item {
                Ok(value) => {
                    proof {
                        assert(run.fields.skip(consumed)[0] == run.fields[consumed]);
                    }
                    let ghost prev: Seq<Seq<char>> = row.deep_view();
                    row.push(value);
                    proof {
                        consumed = consumed + 1;
                        assert(prev.len() == consumed - 1);
                        assert(row.deep_view() == Seq::new(row@.len(), |t: int| row@[t].deep_view()));
                        assert(row.deep_view().len() == consumed);
                        assert forall|t: int| 0 <= t < consumed implies #[trigger] row.deep_view()[t]
                            == run.fields[t] by {
                            if t < consumed - 1 {
                                assert(row.deep_view()[t] == prev[t]);
                                assert(prev[t] == run.fields.take(consumed - 1)[t]);
                            } else {
                                assert(row@[t] == value);
                                assert(value@ == run.fields[consumed - 1]);
                            }
                        }
                        assert(row.deep_view() =~~= run.fields.take(consumed));
                        assert(run.fields.skip(consumed - 1).drop_first() =~= run.fields.skip(
                            consumed,
                        ));
                    }
                },
                Err(e) => {
                    return Err(e);
                },
            },
        }
    }
}

/// Parses the whole document: splits `characters` into lines and tokenizes
/// each line under its 1-based line number into a row of fields. Returns the
/// document of all rows, or the first error anywhere in the input — no
/// partial document survives a failure.
pub fn parse(format: &Format, characters: Vec<char>) -> (r: Result<Vec<Vec<String>>, ParseError>)
    ensures
        (match parse_result(*format, characters@) {
            Ok(document) => r matches Ok(d) && d.deep_view() == document,
            Err(e) => r == Err::<Vec<Vec<String>>, ParseError>(e),
        }),
{
    let ghost all: Seq<char> = characters@;
    let ghost lines: Seq<Seq<char>> = split_lines(all);
    proof {
        assert(characters.len() == all.len());
        lemma_split_lines_count(all);
        assert(split_lines(all) =~~= lines.skip(0));
    }
    let mut char_lines = CharLines::new(characters, *format);
    let mut document: Vec<Vec<String>> = Vec::new();
    let mut row_index: usize = 0;
    proof {
        assert(char_lines.remaining() =~= all);
        assert(lines.skip(0) =~= lines);
        match rows_from(*format, lines, 0) {
            Ok(rest) => {
                assert(document.deep_view() + rest =~~= rest);
            },
            Err(e) => {},
        }
    }
    loop
        invariant
            all == characters@,
            char_lines.position <= char_lines.characters@.len(),
            char_lines.characters@ == all,
            char_lines.format == *format,
            lines == split_lines(all),
            lines.len() <= all.len() <= usize::MAX,
            row_index as int <= lines.len(),
            split_lines(char_lines.remaining()) == lines.skip(row_index as int),
            (match rows_from(*format, lines, row_index as int) {
                Ok(rest) => parse_result(*format, all) == Ok::<Seq<Seq<Seq<char>>>, ParseError>(
                    document.deep_view() + rest,
                ),
                Err(e) => parse_result(*format, all) == Err::<Seq<Seq<Seq<char>>>, ParseError>(e),
            }),
        decreases lines.len() - row_index,
    {
        match char_lines.next() {
            None => {
                proof {
                    assert(lines.skip(row_index as int).len() == 0);
                    assert(rows_from(*format, lines, row_index as int) == Ok::<
                        Seq<Seq<Seq<char>>>,
                        ParseError,
                    >(Seq::<Seq<Seq<char>>>::empty()));
                    assert(document.deep_view() + Seq::<Seq<Seq<char>>>::empty() =~~= (
                    document.deep_view()));
                }
                return Ok(document);
            },
            Some(line) => {
                let ghost line_chars: Seq<char> = line@;
                let ghost k: int = row_index as int;
                proof {
                    assert(lines.skip(k).len() >= 1);
                    assert(lines.skip(k)[0] == lines[k]);
                    assert(line_chars == lines[k]);
                }
                row_index = row_index + 1;
                proof {
                    assert((k + 1) as usize == row_index);
                }
                let mut values = CharValues::new(line, row_index, *format);
                let ghost run: TokenRun = tokenize_line(*format, line_chars, row_index);
                let ghost doc0: Seq<Seq<Seq<char>>> = document.deep_view();
                match read_row(&mut values) {
                    Ok(row) => {
                        let ghost row_fields: Seq<Seq<char>> = row.deep_view();
                        document.push(row);
                        proof {
                            assert(run.err is None);
                            assert(row_fields == run.fields);
                            assert(document.deep_view() =~~= doc0.push(run.fields));
                            match rows_from(*format, lines, k + 1) {
                                Ok(rest) => {
                                    assert(rows_from(*format, lines, k) == Ok::<
                                        Seq<Seq<Seq<char>>>,
                                        ParseError,
                                    >(seq![run.fields] + rest));
                                    assert(doc0 + (seq![run.fields] + rest) =~~= (doc0.push(
                                        run.fields,
                                    ) + rest));
                                },
                                Err(e) => {
                                    assert(rows_from(*format, lines, k) == Err::<
                                        Seq<Seq<Seq<char>>>,
                                        ParseError,
                                    >(e));
                                },
                            }
                            assert(lines.skip(k).drop_first() =~= lines.skip(k + 1));
                        }
                    },
                    Err(e) => {
                        proof {
                            assert(run.err == Some(e));
                            assert(rows_from(*format, lines, k) == Err::<
                                Seq<Seq<Seq<char>>>,
                                ParseError,
                            >(e));
                        }
                        return Err(e);
                    },
                }
            },
        }
    }
}

} // verus!
