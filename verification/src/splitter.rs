use vstd::prelude::*;

use crate::format::Format;

verus! {

/// The character on which the line splitter divides its input. It is consumed
/// and belongs to no line.
pub open spec fn line_terminator() -> char {
    '\n'
}

/// The lines of `cs`: the segments between terminator characters, in order.
/// The terminator belongs to no line, the final line is produced even without
/// a trailing terminator, and a trailing empty line is not produced. Empty
/// input has no lines.
pub open spec fn split_lines(cs: Seq<char>) -> Seq<Seq<char>>
    decreases cs.len(),
{
    if cs.len() == 0 {
        Seq::<Seq<char>>::empty()
    } else if cs[0] == line_terminator() {
        seq![Seq::<char>::empty()] + split_lines(cs.drop_first())
    } else {
        let rest = split_lines(cs.drop_first());
        if rest.len() == 0 {
            seq![seq![cs[0]]]
        } else {
            seq![seq![cs[0]] + rest[0]] + rest.drop_first()
        }
    }
}

/// A terminator after a terminator-free prefix closes exactly that prefix as
/// the first line; the remainder is split on its own.
pub proof fn lemma_split_lines_terminator(prefix: Seq<char>, rest: Seq<char>)
    requires
        forall|k: int| 0 <= k < prefix.len() ==> prefix[k] != line_terminator(),
    ensures
        split_lines(prefix + seq![line_terminator()] + rest) == seq![prefix] + split_lines(rest),
    decreases prefix.len(),
{
    let whole = prefix + seq![line_terminator()] + rest;
    if prefix.len() == 0 {
        assert(whole =~= seq![line_terminator()] + rest);
        assert(whole.drop_first() =~= rest);
        assert(split_lines(whole) =~~= seq![prefix] + split_lines(rest));
    } else {
        assert(whole[0] == prefix[0]);
        assert(whole.drop_first() =~= prefix.drop_first() + seq![line_terminator()] + rest);
        lemma_split_lines_terminator(prefix.drop_first(), rest);
        let inner = split_lines(whole.drop_first());
        assert(inner == seq![prefix.drop_first()] + split_lines(rest));
        assert(inner.len() >= 1);
        assert(seq![whole[0]] + inner[0] =~= prefix);
        assert(split_lines(whole) =~~= seq![prefix] + split_lines(rest));
    }
}

/// A non-empty input without a terminator is a single line: itself.
pub proof fn lemma_split_lines_single(cs: Seq<char>)
    requires
        cs.len() > 0,
        forall|k: int| 0 <= k < cs.len() ==> cs[k] != line_terminator(),
    ensures
        split_lines(cs) == seq![cs],
    decreases cs.len(),
{
    if cs.len() == 1 {
        assert(cs.drop_first() =~= Seq::<char>::empty());
        assert(split_lines(Seq::<char>::empty()) =~~= Seq::<Seq<char>>::empty());
        assert(split_lines(cs) =~~= seq![cs]);
    } else {
        lemma_split_lines_single(cs.drop_first());
        assert(seq![cs[0]] + cs.drop_first() =~= cs);
        assert(split_lines(cs) =~~= seq![cs]);
    }
}

/// There are never more lines than characters.
pub proof fn lemma_split_lines_count(cs: Seq<char>)
    ensures
        split_lines(cs).len() <= cs.len(),
    decreases cs.len(),
{
    if cs.len() > 0 {
        lemma_split_lines_count(cs.drop_first());
    }
}

/// Divides a character sequence into lines, one line per call.
pub struct CharLines {
    pub characters: Vec<char>,
    pub position: usize,
    pub format: Format,
}

impl CharLines {
    /// The characters not yet consumed.
    pub open spec fn remaining(self) -> Seq<char> {
        self.characters@.skip(self.position as int)
    }

    /// A splitter over `characters`, positioned before the first line. The
    /// format plays no part in splitting; it is kept for the tokenization of
    /// the lines produced.
    pub fn new(characters: Vec<char>, format: Format) -> (lines: CharLines)
        ensures
            lines.characters@ == characters@,
            lines.position == 0,
            lines.format == format,
    {
        CharLines { characters, position: 0, format }
    }

    /// Produces the next line, without its terminator, or `None` once the
    /// input is exhausted. The lines produced, in order, are exactly
    /// `split_lines` of the input; an exhausted splitter stays exhausted.
    pub fn next(&mut self) -> (r: Option<Vec<char>>)
        requires
            old(self).position <= old(self).characters@.len(),
        ensures
            final(self).characters@ == old(self).characters@,
            final(self).format == old(self).format,
            final(self).position <= final(self).characters@.len(),
            (match r {
                None => {
                    &&& old(self).remaining().len() == 0
                    &&& split_lines(old(self).remaining()).len() == 0
                    &&& final(self).remaining() == old(self).remaining()
                },
                Some(line) => {
                    &&& split_lines(old(self).remaining()).len() >= 1
                    &&& line@ == split_lines(old(self).remaining())[0]
                    &&& split_lines(final(self).remaining())
                        == split_lines(old(self).remaining()).drop_first()
                },
            }),
    {
        let ghost initial: Seq<char> = self.remaining();
        let ghost start: int = self.position as int;
        let mut buffer: Vec<char> = Vec::new();
        proof {
            assert(buffer@ =~= self.characters@.subrange(start, self.position as int));
        }
        while self.position < self.characters.len()
            invariant
                self.position <= self.characters@.len(),
                self.characters@ == old(self).characters@,
                self.format == old(self).format,
                start == old(self).position as int,
                initial == old(self).remaining(),
                0 <= start <= self.position as int,
                initial == self.characters@.skip(start),
                buffer@ == self.characters@.subrange(start, self.position as int),
                forall|k: int| 0 <= k < buffer@.len() ==> buffer@[k] != line_terminator(),
            decreases self.characters@.len() - self.position,
        {
            let character = self.characters[self.position];
            self.position = self.position + 1;
            if character == '\n' {
                proof {
                    assert(initial =~= buffer@ + seq![line_terminator()] + self.remaining());
                    lemma_split_lines_terminator(buffer@, self.remaining());
                }
                return Some(buffer);
            }
            buffer.push(character);
            proof {
                assert(buffer@ =~= self.characters@.subrange(start, self.position as int));
            }
        }
        // The input is exhausted: produce the last of the line, unless it is
        // empty.
        proof {
            assert(initial =~= buffer@);
        }
        if buffer.len() == 0 {
            None
        } else {
            proof {
                lemma_split_lines_single(buffer@);
            }
            Some(buffer)
        }
    }
}

} // verus!
