//! Command lines: a program and its arguments, parted by single spaces.
//!
//! There is no quoting and no escaping. Every space parts two pieces, so two
//! spaces in a row hold an empty piece between them, and a line without a
//! space is a program without arguments.

use vstd::prelude::*;

verus! {

/// The pieces of a line, read from left to right: a space closes the piece
/// before it and opens a new one, any other character goes to the last piece.
pub open spec fn split_spaces(line: Seq<char>) -> Seq<Seq<char>>
    decreases line.len(),
{
    if line.len() == 0 {
        seq![Seq::empty()]
    } else {
        let before = split_spaces(line.drop_last());
        if line.last() == ' ' {
            before.push(Seq::empty())
        } else {
            before.drop_last().push(before.last().push(line.last()))
        }
    }
}

/// The pieces in a row, with one space between each two of them.
pub open spec fn join_spaces(pieces: Seq<Seq<char>>) -> Seq<char>
    decreases pieces.len(),
{
    if pieces.len() == 0 {
        Seq::empty()
    } else if pieces.len() == 1 {
        pieces[0]
    } else {
        join_spaces(pieces.drop_last()).push(' ') + pieces.last()
    }
}

/// Whether the text holds no space.
pub open spec fn space_free(text: Seq<char>) -> bool {
    forall|i: int| 0 <= i < text.len() ==> text[i] != ' '
}

/// A line always has a first piece, and one piece more for each space.
pub proof fn law_split_is_not_empty(line: Seq<char>)
    ensures
        split_spaces(line).len() >= 1,
    decreases line.len(),
{
    if line.len() > 0 {
        law_split_is_not_empty(line.drop_last());
    }
}

/// No piece of a line holds a space.
pub proof fn law_pieces_are_space_free(line: Seq<char>)
    ensures
        forall|k: int| 0 <= k < split_spaces(line).len() ==> space_free(#[trigger] split_spaces(line)[k]),
    decreases line.len(),
{
    if line.len() > 0 {
        law_split_is_not_empty(line.drop_last());
        law_pieces_are_space_free(line.drop_last());
    }
}

/// Joining the pieces of a line gives the line back: splitting loses
/// nothing and adds nothing.
pub proof fn law_join_undoes_split(line: Seq<char>)
    ensures
        join_spaces(split_spaces(line)) == line,
    decreases line.len(),
{
    if line.len() > 0 {
        let shorter = line.drop_last();
        let before = split_spaces(shorter);
        law_split_is_not_empty(shorter);
        law_join_undoes_split(shorter);
        if line.last() == ' ' {
            assert(before.push(Seq::empty()).drop_last() == before);
        } else {
            let grown = before.last().push(line.last());
            assert(before.drop_last().push(grown).drop_last() == before.drop_last());
            assert(shorter.push(line.last()) == line);
        }
    }
}

/// Splitting is the only way to part a line into pieces without a space
/// that have one space between each two of them.
pub proof fn law_split_is_the_only_parting(line: Seq<char>, pieces: Seq<Seq<char>>)
    requires
        pieces.len() >= 1,
        forall|k: int| 0 <= k < pieces.len() ==> space_free(#[trigger] pieces[k]),
        join_spaces(pieces) == line,
    ensures
        pieces == split_spaces(line),
    decreases line.len(),
{
    let front = pieces.drop_last();
    let tail = pieces.last();
    if tail.len() == 0 {
        // The line is empty, or it ends with the space before the last piece.
        assert(tail == Seq::<char>::empty());
        if pieces.len() > 1 {
            assert(line.drop_last() == join_spaces(front));
            law_split_is_the_only_parting(line.drop_last(), front);
        }
    } else {
        // The line ends with the last character of the last piece.
        let shorter = front.push(tail.drop_last());
        assert(shorter.drop_last() == front);
        assert(line.last() == tail.last());
        assert(join_spaces(shorter) == line.drop_last());
        assert forall|k: int| 0 <= k < shorter.len() implies space_free(#[trigger] shorter[k]) by {
            assert(space_free(pieces[k]));
        }
        law_split_is_the_only_parting(line.drop_last(), shorter);
        assert(tail.drop_last().push(tail.last()) == tail);
    }
}

/// A program and the arguments to start it with.
#[derive(PartialEq, Eq, Debug)]
pub struct Command {
    pub program: String,
    pub args: Vec<String>,
}

/// A [`Command`] as a mathematical value.
pub struct CommandView {
    pub program: Seq<char>,
    pub args: Seq<Seq<char>>,
}

/// The texts that a row of strings holds.
pub open spec fn texts(strings: Seq<String>) -> Seq<Seq<char>> {
    strings.map_values(|s: String| s@)
}

impl View for Command {
    type V = CommandView;

    open spec fn view(&self) -> CommandView {
        CommandView { program: self.program@, args: texts(self.args@) }
    }
}

/// The command that a line stands for: its first piece is the program, the
/// pieces after it are the arguments.
pub open spec fn command_of(line: Seq<char>) -> CommandView {
    let pieces = split_spaces(line);
    CommandView { program: pieces.first(), args: pieces.drop_first() }
}

impl Command {
    /// Reads a command line.
    pub fn parse(line: &str) -> (command: Command)
        ensures
            command@ == command_of(line@),
    {
        let total = line.unicode_len();
        let mut pieces: Vec<String> = Vec::new();
        let mut start: usize = 0;
        let mut at: usize = 0;
        assert(line@.subrange(0, 0) == Seq::<char>::empty());
        for c in it: line.chars()
            invariant
                total == line@.len(),
                it.seq() == line@,
                at == it.index(),
                start <= at <= total,
                split_spaces(line@.take(at as int)) == texts(pieces@).push(
                    line@.subrange(start as int, at as int),
                ),
        {
            assert(line@.take(at + 1).drop_last() == line@.take(at as int));
            if c == ' ' {
                let piece = line.substring_char(start, at).to_owned();
                pieces.push(piece);
                start = at + 1;
                assert(line@.subrange(start as int, at + 1) == Seq::<char>::empty());
            } else {
                assert(line@.subrange(start as int, at + 1) == line@.subrange(
                    start as int,
                    at as int,
                ).push(c));
            }
            at = at + 1;
        }
        assert(line@.take(at as int) == line@);
        let last = line.substring_char(start, total).to_owned();
        pieces.push(last);
        let program = pieces.remove(0);
        assert(texts(pieces@) == split_spaces(line@).drop_first());
        Command { program, args: pieces }
    }
}

} // verus!
