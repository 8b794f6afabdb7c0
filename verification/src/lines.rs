//! The report as a sequence of lines that is read once, from front to back.

use vstd::prelude::*;

verus! {

/// One line of the report as the reader found it.
#[derive(Clone, Debug, PartialEq, Eq)]
pub enum Line {
    /// The text of the line, without the line break.
    Text(String),
    /// The line could not be read.
    Unreadable,
}

impl View for Line {
    type V = Option<Seq<char>>;

    open spec fn view(&self) -> Option<Seq<char>> {
        match self {
            Line::Text(text) => Some(text@),
            Line::Unreadable => None,
        }
    }
}

/// What a sequence of lines holds, line by line: the text of each line that
/// could be read.
pub open spec fn texts(lines: Seq<Line>) -> Seq<Option<Seq<char>>> {
    lines.map_values(|line: Line| line@)
}

/// The text at place `i` of a report. There is none where the report has no
/// such line, or where that line could not be read.
pub open spec fn text_at(report: Seq<Option<Seq<char>>>, i: int) -> Option<Seq<char>> {
    if 0 <= i < report.len() {
        report[i]
    } else {
        None
    }
}

/// The smaller of two numbers.
pub open spec fn least(a: int, b: int) -> int {
    if a <= b {
        a
    } else {
        b
    }
}

/// A cursor over the lines of a report. It moves forward only: a line that was
/// passed is not handed out again.
pub struct LineReader<'a> {
    lines: &'a [Line],
    position: usize,
}

impl<'a> LineReader<'a> {
    #[verifier::type_invariant]
    spec fn position_within(self) -> bool {
        self.position <= self.lines@.len()
    }

    /// All the lines of the report, those that were passed too.
    pub closed spec fn report(&self) -> Seq<Option<Seq<char>>> {
        texts(self.lines@)
    }

    /// How many lines the cursor has passed.
    pub closed spec fn consumed(&self) -> nat {
        self.position as nat
    }

    /// The lines that the cursor has yet to pass.
    pub open spec fn rest(&self) -> Seq<Option<Seq<char>>> {
        self.report().skip(self.consumed() as int)
    }

    /// A cursor before the first of `lines`.
    pub fn new(lines: &'a [Line]) -> (reader: Self)
        ensures
            reader.report() == texts(lines@),
            reader.consumed() == 0,
    {
        LineReader { lines, position: 0 }
    }

    /// The number of lines passed so far.
    pub fn position(&self) -> (n: usize)
        ensures
            n == self.consumed(),
            n <= self.report().len(),
    {
        proof {
            use_type_invariant(self);
        }
        self.position
    }

    /// The number of lines that are left to pass.
    pub fn remaining(&self) -> (n: usize)
        ensures
            n == self.rest().len(),
            n == self.report().len() - self.consumed(),
    {
        proof {
            use_type_invariant(self);
        }
        self.lines.len() - self.position
    }

    /// Passes `n` lines, or all that are left where they are fewer.
    pub fn skip(&mut self, n: usize)
        ensures
            final(self).report() == old(self).report(),
            old(self).consumed() <= old(self).report().len(),
            final(self).consumed() == least(
                old(self).consumed() + n,
                old(self).report().len() as int,
            ),
    {
        proof {
            use_type_invariant(&*self);
        }
        if n < self.lines.len() - self.position {
            self.position = self.position + n;
        } else {
            self.position = self.lines.len();
        }
    }

    /// Passes `n` lines and hands out the line after them, which it passes
    /// too. Where fewer than `n + 1` lines are left it passes them all and
    /// hands out none.
    pub fn nth(&mut self, n: usize) -> (line: Option<&'a Line>)
        ensures
            final(self).report() == old(self).report(),
            old(self).consumed() <= old(self).report().len(),
            final(self).consumed() == least(
                old(self).consumed() + n + 1,
                old(self).report().len() as int,
            ),
            match line {
                Some(found) => n < old(self).rest().len() && found@ == old(self).rest()[n as int],
                None => n >= old(self).rest().len(),
            },
    {
        proof {
            use_type_invariant(&*self);
        }
        if n < self.lines.len() - self.position {
            let found = &self.lines[self.position + n];
            self.position = self.position + n + 1;
            Some(found)
        } else {
            self.position = self.lines.len();
            None
        }
    }
}

} // verus!
