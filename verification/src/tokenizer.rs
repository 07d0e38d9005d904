use vstd::prelude::*;

use crate::error::ParseError;
use crate::error::column_of;
use crate::format::Format;
use crate::text::chars_to_string;

verus! {

/// The characters with the Unicode `White_Space` property. Whitespace outside
/// a field is insignificant and skipped; whitespace inside a field is content.
pub open spec fn is_whitespace_char(c: char) -> bool {
    ||| c == '\u{9}'
    ||| c == '\u{A}'
    ||| c == '\u{B}'
    ||| c == '\u{C}'
    ||| c == '\u{D}'
    ||| c == ' '
    ||| c == '\u{85}'
    ||| c == '\u{A0}'
    ||| c == '\u{1680}'
    ||| c == '\u{2000}'
    ||| c == '\u{2001}'
    ||| c == '\u{2002}'
    ||| c == '\u{2003}'
    ||| c == '\u{2004}'
    ||| c == '\u{2005}'
    ||| c == '\u{2006}'
    ||| c == '\u{2007}'
    ||| c == '\u{2008}'
    ||| c == '\u{2009}'
    ||| c == '\u{200A}'
    ||| c == '\u{2028}'
    ||| c == '\u{2029}'
    ||| c == '\u{202F}'
    ||| c == '\u{205F}'
    ||| c == '\u{3000}'
}

/// Decides `is_whitespace_char`.
pub fn is_whitespace(c: char) -> (b: bool)
    ensures
        b == is_whitespace_char(c),
{
    c == '\u{9}' || c == '\u{A}' || c == '\u{B}' || c == '\u{C}' || c == '\u{D}' || c == ' '
        || c == '\u{85}' || c == '\u{A0}' || c == '\u{1680}' || c == '\u{2000}' || c == '\u{2001}'
        || c == '\u{2002}' || c == '\u{2003}' || c == '\u{2004}' || c == '\u{2005}'
        || c == '\u{2006}' || c == '\u{2007}' || c == '\u{2008}' || c == '\u{2009}'
        || c == '\u{200A}' || c == '\u{2028}' || c == '\u{2029}' || c == '\u{202F}'
        || c == '\u{205F}' || c == '\u{3000}'
}

/// The state machine's view of one line in flight: whether the last character
/// was an unconsumed escape character, whether the position lies between an
/// opening and a closing delimiter, the characters accumulated for the open
/// field, and the character required next, if one is.
#[verifier::ext_equal]
pub struct LineState {
    pub escape: bool,
    pub in_value: bool,
    pub buffer: Seq<char>,
    pub expect: Option<char>,
}

/// Why one character stops the machine.
pub enum StepFailure {
    /// The character is not the one the machine requires here.
    ExpectedOther { expected: char, found: char },
    /// An escape character outside an open field.
    EscapeOutside { escape_character: char },
}

/// What one character does to the machine: either a successor state, with the
/// completed field when the character closed one, or a failure.
#[verifier::ext_equal]
pub enum StepOutcome {
    Proceed { next: LineState, emit: Option<Seq<char>> },
    Fail { failure: StepFailure },
}

/// The state a line's tokenization starts in: outside any field, with the
/// opening delimiter of the first field required next.
pub open spec fn initial_state(format: Format) -> LineState {
    LineState {
        escape: false,
        in_value: false,
        buffer: Seq::<char>::empty(),
        expect: Some(format.value_delimiter),
    }
}

/// One transition of the state machine, in the order the rules apply:
/// whitespace outside a field is skipped; a required character must match, a
/// matched separator being consumed outright; after an unconsumed escape
/// character any character is content; an escape character is legal only
/// inside a field and marks the next character literal; a delimiter opens a
/// field or closes it, completing the accumulated content; anything else is
/// content of the open field.
pub open spec fn step(format: Format, st: LineState, c: char) -> StepOutcome {
    if is_whitespace_char(c) && !st.in_value {
        StepOutcome::Proceed { next: st, emit: None }
    } else if st.expect is Some && c != st.expect->0 {
        StepOutcome::Fail {
            failure: StepFailure::ExpectedOther { expected: st.expect->0, found: c },
        }
    } else if st.expect is Some && c == format.value_separator {
        StepOutcome::Proceed {
            next: LineState {
                escape: st.escape,
                in_value: st.in_value,
                buffer: st.buffer,
                expect: None,
            },
            emit: None,
        }
    } else {
        let cleared = LineState {
            escape: st.escape,
            in_value: st.in_value,
            buffer: st.buffer,
            expect: None,
        };
        if cleared.escape {
            StepOutcome::Proceed {
                next: LineState {
                    escape: false,
                    in_value: cleared.in_value,
                    buffer: cleared.buffer.push(c),
                    expect: None,
                },
                emit: None,
            }
        } else if c == format.escape_character {
            if !cleared.in_value {
                StepOutcome::Fail {
                    failure: StepFailure::EscapeOutside { escape_character: c },
                }
            } else {
                StepOutcome::Proceed {
                    next: LineState {
                        escape: true,
                        in_value: cleared.in_value,
                        buffer: cleared.buffer,
                        expect: None,
                    },
                    emit: None,
                }
            }
        } else if c == format.value_delimiter {
            if cleared.in_value {
                StepOutcome::Proceed {
                    next: LineState {
                        escape: false,
                        in_value: false,
                        buffer: Seq::<char>::empty(),
                        expect: Some(format.value_separator),
                    },
                    emit: Some(cleared.buffer),
                }
            } else {
                StepOutcome::Proceed {
                    next: LineState {
                        escape: false,
                        in_value: true,
                        buffer: cleared.buffer,
                        expect: None,
                    },
                    emit: None,
                }
            }
        } else {
            StepOutcome::Proceed {
                next: LineState {
                    escape: cleared.escape,
                    in_value: cleared.in_value,
                    buffer: cleared.buffer.push(c),
                    expect: None,
                },
                emit: None,
            }
        }
    }
}

/// The failure of a step at 1-based line `row` and column `col`, as an error.
pub open spec fn failure_error(failure: StepFailure, row: usize, col: usize) -> ParseError {
    match failure {
        StepFailure::ExpectedOther { expected, found } => ParseError::UnexpectedCharacter {
            expected,
            found,
            row,
            col,
        },
        StepFailure::EscapeOutside { escape_character } => ParseError::EscapeOutsideValue {
            escape_character,
            row,
            col,
        },
    }
}

/// What tokenizing the rest of a line produces, lazily: the fields completed
/// before the line ends or the first error stops it, and that error if one
/// does. Content accumulated for a field that is still open when the line
/// ends completes no field.
#[verifier::ext_equal]
pub struct TokenRun {
    pub fields: Seq<Seq<char>>,
    pub err: Option<ParseError>,
}

/// Tokenizes `line` from position `i` in state `st`, on line `row`. The
/// column reported for the character at position `i` is `i + 1`.
pub open spec fn tokens_from(
    format: Format,
    line: Seq<char>,
    i: int,
    st: LineState,
    row: usize,
) -> TokenRun
    decreases line.len() - i,
{
    if i < 0 || i >= line.len() {
        TokenRun { fields: Seq::<Seq<char>>::empty(), err: None }
    } else {
        match step(format, st, line[i]) {
            StepOutcome::Proceed { next, emit } => {
                let rest = tokens_from(format, line, i + 1, next, row);
                match emit {
                    Some(value) => TokenRun {
                        fields: seq![value] + rest.fields,
                        err: rest.err,
                    },
                    None => rest,
                }
            },
            StepOutcome::Fail { failure } => TokenRun {
                fields: Seq::<Seq<char>>::empty(),
                err: Some(failure_error(failure, row, (i + 1) as usize)),
            },
        }
    }
}

/// The whole of one line's tokenization, from its start in the initial state.
pub open spec fn tokenize_line(format: Format, line: Seq<char>, row: usize) -> TokenRun {
    tokens_from(format, line, 0, initial_state(format), row)
}

/// Per-line mutable parse state: the 1-based line number, the count of
/// characters examined so far on the line (the next character's 0-based
/// position, and the 1-based column of the last one examined), and the state
/// machine's three-part state with the content accumulated for the open
/// field.
pub struct Cursor {
    pub row_index: usize,
    pub char_index: usize,
    pub escape: bool,
    pub in_value: bool,
    pub value_chars: Vec<char>,
    pub expect: Option<char>,
}

impl Cursor {
    /// The state machine's view of this cursor.
    pub open spec fn state(self) -> LineState {
        LineState {
            escape: self.escape,
            in_value: self.in_value,
            buffer: self.value_chars@,
            expect: self.expect,
        }
    }

    /// A fresh cursor for 1-based line `row_index`: no character examined
    /// yet, outside any field, with the opening delimiter of the first field
    /// required next.
    pub fn new(row_index: usize, format: &Format) -> (cursor: Cursor)
        ensures
            cursor.row_index == row_index,
            cursor.char_index == 0,
            cursor.state() == initial_state(*format),
    {
        let cursor = Cursor {
            row_index,
            char_index: 0,
            escape: false,
            in_value: false,
            value_chars: Vec::new(),
            expect: Some(format.value_delimiter),
        };
        proof {
            assert(cursor.state() =~= initial_state(*format));
        }
        cursor
    }
}

/// Tokenizes one line into its fields, one field per call, stopping the line
/// at its end or at the first error.
pub struct CharValues {
    pub characters: Vec<char>,
    pub cursor: Cursor,
    pub format: Format,
}

impl CharValues {
    /// The cursor has not run past the end of the line.
    pub open spec fn wf(self) -> bool {
        self.cursor.char_index <= self.characters@.len()
    }

    /// What tokenizing the rest of the line will produce.
    pub open spec fn pending(self) -> TokenRun {
        tokens_from(
            self.format,
            self.characters@,
            self.cursor.char_index as int,
            self.cursor.state(),
            self.cursor.row_index,
        )
    }

    /// A tokenizer over one line's characters, for 1-based line `row_index`,
    /// with a fresh cursor: no character consumed yet, outside any field,
    /// no escape pending, an empty buffer, and the opening delimiter of the
    /// first field required next.
    pub fn new(characters: Vec<char>, row_index: usize, format: Format) -> (values: CharValues)
        ensures
            values.characters@ == characters@,
            values.format == format,
            values.cursor.row_index == row_index,
            values.cursor.char_index == 0,
            values.cursor.state() == initial_state(format),
            values.wf(),
            values.pending() == tokenize_line(format, characters@, row_index),
    {
        CharValues { characters, cursor: Cursor::new(row_index, &format), format }
    }

    /// Produces the next completed field, the error that stops the line, or
    /// `None` once the line is done: exactly the fields and error of
    /// `pending()` on entry, one item per call. An exhausted tokenizer stays
    /// exhausted; after an error the cursor stands just past the offending
    /// character, whose column the error names, so a further call resumes
    /// scanning from there.
    pub fn next(&mut self) -> (r: Option<Result<String, ParseError>>)
        requires
            old(self).wf(),
        ensures
            final(self).wf(),
            final(self).characters@ == old(self).characters@,
            final(self).format == old(self).format,
            final(self).cursor.row_index == old(self).cursor.row_index,
            (match r {
                None => {
                    &&& old(self).pending() == (TokenRun {
                        fields: Seq::<Seq<char>>::empty(),
                        err: None::<ParseError>,
                    })
                    &&& final(self).pending() == old(self).pending()
                },
                Some(item) => match item {
                    Ok(value) => {
                        &&& old(self).pending().fields.len() >= 1
                        &&& value@ == old(self).pending().fields[0]
                        &&& final(self).pending() == (TokenRun {
                            fields: old(self).pending().fields.drop_first(),
                            err: old(self).pending().err,
                        })
                    },
                    Err(e) => {
                        &&& old(self).pending().fields.len() == 0
                        &&& old(self).pending().err == Some(e)
                        &&& final(self).cursor.char_index == column_of(e)
                    },
                },
            }),
    {
        while self.cursor.char_index < self.characters.len()
            invariant
                self.cursor.char_index <= self.characters@.len(),
                self.characters@ == old(self).characters@,
                self.format == old(self).format,
                self.cursor.row_index == old(self).cursor.row_index,
                self.pending() == old(self).pending(),
            decreases self.characters@.len() - self.cursor.char_index,
        {
            let c = self.characters[self.cursor.char_index];
            let ghost cs: Seq<char> = self.characters@;
            let ghost f: Format = self.format;
            let ghost row: usize = self.cursor.row_index;
            let ghost i: int = self.cursor.char_index as int;
            let ghost pre: LineState = self.cursor.state();
            self.cursor.char_index = self.cursor.char_index + 1;

            // Ignore whitespace outside values.
            if is_whitespace(c) && !self.cursor.in_value {
                proof {
                    assert(self.cursor.state() == pre);
                    assert(tokens_from(f, cs, i, pre, row) == tokens_from(
                        f,
                        cs,
                        i + 1,
                        self.cursor.state(),
                        row,
                    ));
                }
                continue;
            }

            // A required character must be present.
            if let Some(expected) = self.cursor.expect {
                if c != expected {
                    proof {
                        assert(tokens_from(f, cs, i, pre, row) == (TokenRun {
                            fields: Seq::<Seq<char>>::empty(),
                            err: Some(ParseError::UnexpectedCharacter {
                                expected,
                                found: c,
                                row,
                                col: (i + 1) as usize,
                            }),
                        }));
                    }
                    return Some(
                        Err(
                            ParseError::UnexpectedCharacter {
                                expected,
                                found: c,
                                row: self.cursor.row_index,
                                col: self.cursor.char_index,
                            },
                        ),
                    );
                }
                self.cursor.expect = None;
                // A matched value separator is consumed outright.
                if c == self.format.value_separator {
                    proof {
                        assert(tokens_from(f, cs, i, pre, row) == tokens_from(
                            f,
                            cs,
                            i + 1,
                            self.cursor.state(),
                            row,
                        ));
                    }
                    continue;
                }
            }

            // After an unconsumed escape character, any character is content.
            if self.cursor.escape {
                self.cursor.value_chars.push(c);
                self.cursor.escape = false;
                proof {
                    assert(tokens_from(f, cs, i, pre, row) == tokens_from(
                        f,
                        cs,
                        i + 1,
                        self.cursor.state(),
                        row,
                    ));
                }
                continue;
            }

            // An escape character is legal only inside a value; inside one it
            // marks the next character literal.
            if c == self.format.escape_character {
                if !self.cursor.in_value {
                    proof {
                        assert(tokens_from(f, cs, i, pre, row) == (TokenRun {
                            fields: Seq::<Seq<char>>::empty(),
                            err: Some(ParseError::EscapeOutsideValue {
                                escape_character: c,
                                row,
                                col: (i + 1) as usize,
                            }),
                        }));
                    }
                    return Some(
                        Err(
                            ParseError::EscapeOutsideValue {
                                escape_character: c,
                                row: self.cursor.row_index,
                                col: self.cursor.char_index,
                            },
                        ),
                    );
                }
                self.cursor.escape = true;
                proof {
                    assert(tokens_from(f, cs, i, pre, row) == tokens_from(
                        f,
                        cs,
                        i + 1,
                        self.cursor.state(),
                        row,
                    ));
                }
                continue;
            }

            // A delimiter closes the open value, completing its content as a
            // field, or opens a new one.
            if c == self.format.value_delimiter {
                if self.cursor.in_value {
                    let value = chars_to_string(&self.cursor.value_chars);
                    self.cursor.value_chars = Vec::new();
                    self.cursor.in_value = false;
                    self.cursor.expect = Some(self.format.value_separator);
                    proof {
                        let run = tokens_from(f, cs, i, pre, row);
                        let rest = tokens_from(f, cs, i + 1, self.cursor.state(), row);
                        assert(run.fields == seq![pre.buffer] + rest.fields);
                        assert(run.err == rest.err);
                        assert(run.fields.drop_first() =~= rest.fields);
                        assert(self.pending() == (TokenRun {
                            fields: old(self).pending().fields.drop_first(),
                            err: old(self).pending().err,
                        }));
                    }
                    return Some(Ok(value));
                }
                self.cursor.in_value = true;
                proof {
                    assert(tokens_from(f, cs, i, pre, row) == tokens_from(
                        f,
                        cs,
                        i + 1,
                        self.cursor.state(),
                        row,
                    ));
                }
                continue;
            }

            // Any remaining character is content of the open value.
            self.cursor.value_chars.push(c);
            proof {
                assert(tokens_from(f, cs, i, pre, row) == tokens_from(
                    f,
                    cs,
                    i + 1,
                    self.cursor.state(),
                    row,
                ));
            }
        }
        None
    }
}

/// The machine's reachability invariant: an unconsumed escape character can
/// only be pending inside an open field. The initial state satisfies it, and
/// every step preserves it.
pub proof fn lemma_step_keeps_escape_inside_value(format: Format, st: LineState, c: char)
    requires
        st.escape ==> st.in_value,
    ensures
        step(format, st, c) matches StepOutcome::Proceed { next, .. } ==> (next.escape
            ==> next.in_value),
{
}

/// Whitespace outside a field is insignificant: a step on it changes nothing
/// and completes nothing.
pub proof fn lemma_whitespace_outside_value_skipped(format: Format, st: LineState, c: char)
    requires
        !st.in_value,
        is_whitespace_char(c),
    ensures
        step(format, st, c) == (StepOutcome::Proceed { next: st, emit: None }),
{
}

/// Whitespace inside a field is content like any other character: a step on
/// it, when the character is not itself a control character of the format,
/// appends it verbatim to the open field.
pub proof fn lemma_whitespace_inside_value_kept(format: Format, st: LineState, c: char)
    requires
        st.in_value,
        st.expect is None,
        !st.escape,
        is_whitespace_char(c),
        c != format.escape_character,
        c != format.value_delimiter,
    ensures
        step(format, st, c) == (StepOutcome::Proceed {
            next: LineState { escape: false, in_value: true, buffer: st.buffer.push(c), expect: None },
            emit: None,
        }),
{
    assert(step(format, st, c) =~~= (StepOutcome::Proceed {
        next: LineState { escape: false, in_value: true, buffer: st.buffer.push(c), expect: None },
        emit: None,
    }));
}

} // verus!
