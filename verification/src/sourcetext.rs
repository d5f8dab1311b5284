//! The source text, with offset-to-location mapping for rendering
//! diagnostics: a 1-based line number, a 0-based column, and the text of
//! a line.  Offsets count characters, and lines are separated by `'\n'`.

use vstd::prelude::*;
use vstd::string::StrSliceExecFns;

verus! {

/// How many line breaks occur strictly before `index`.
pub open spec fn spec_newlines_before(s: Seq<char>, index: int) -> int
    decreases (if index > 0 { index } else { 0 }),
{
    if index <= 0 || index > s.len() {
        0
    } else {
        spec_newlines_before(s, index - 1) + (if s[index - 1] == '\n' {
            1int
        } else {
            0int
        })
    }
}

/// The start of the line containing `index`: the position right after
/// the last line break strictly before it.
pub open spec fn spec_line_start(s: Seq<char>, index: int) -> int
    decreases (if index > 0 { index } else { 0 }),
{
    if index <= 0 || index > s.len() {
        0
    } else if s[index - 1] == '\n' {
        index
    } else {
        spec_line_start(s, index - 1)
    }
}

/// The end of the line starting at or after `from`: the position of the
/// next line break, or the end of the text.
pub open spec fn spec_line_end(s: Seq<char>, from: int) -> int
    decreases s.len() - from,
{
    if from < 0 || from >= s.len() {
        s.len() as int
    } else if s[from] == '\n' {
        from
    } else {
        spec_line_end(s, from + 1)
    }
}

/// The 1-based line number of `index`.
pub open spec fn spec_line_number(s: Seq<char>, index: int) -> int {
    1 + spec_newlines_before(s, index)
}

/// The 0-based column of `index` within its line.
pub open spec fn spec_column(s: Seq<char>, index: int) -> int {
    index - spec_line_start(s, index)
}

/// An immutable source text.
#[derive(Debug)]
pub struct SourceText {
    pub input: String,
}

impl SourceText {
    pub fn new(input: String) -> (r: SourceText)
        ensures
            r.input@ == input@,
    {
        SourceText { input }
    }

    /// The 1-based line number of the character at `index`.
    pub fn get_linenumber(&self, index: usize) -> (r: usize)
        requires
            index <= self.input@.len(),
            index < usize::MAX,
        ensures
            r == spec_line_number(self.input@, index as int),
    {
        let mut i: usize = 0;
        let mut count: usize = 1;
        while i < index
            invariant
                i <= index <= self.input@.len(),
                index < usize::MAX,
                count == 1 + spec_newlines_before(self.input@, i as int),
                count <= 1 + i,
            decreases index - i,
        {
            if self.input.as_str().get_char(i) == '\n' {
                count = count + 1;
            }
            i = i + 1;
        }
        count
    }

    /// The 0-based column of the character at `index` within its line.
    pub fn get_column(&self, index: usize) -> (r: usize)
        requires
            index <= self.input@.len(),
        ensures
            r == spec_column(self.input@, index as int),
    {
        let mut start: usize = 0;
        let mut i: usize = 0;
        while i < index
            invariant
                i <= index <= self.input@.len(),
                start == spec_line_start(self.input@, i as int),
                start <= i,
            decreases index - i,
        {
            i = i + 1;
            if self.input.as_str().get_char(i - 1) == '\n' {
                start = i;
            }
        }
        index - start
    }

    /// The text of the line containing `index`, without its line break.
    pub fn get_line(&self, index: usize) -> (r: String)
        requires
            index <= self.input@.len(),
        ensures
            r@ == self.input@.subrange(
                spec_line_start(self.input@, index as int),
                spec_line_end(self.input@, spec_line_start(self.input@, index as int)),
            ),
    {
        let mut start: usize = 0;
        let mut i: usize = 0;
        while i < index
            invariant
                i <= index <= self.input@.len(),
                start == spec_line_start(self.input@, i as int),
                start <= i,
            decreases index - i,
        {
            i = i + 1;
            if self.input.as_str().get_char(i - 1) == '\n' {
                start = i;
            }
        }
        let n = self.input.as_str().unicode_len();
        let mut end: usize = start;
        while end < n && self.input.as_str().get_char(end) != '\n'
            invariant
                start <= end <= n,
                n == self.input@.len(),
                spec_line_end(self.input@, start as int)
                    == spec_line_end(self.input@, end as int),
            decreases n - end,
        {
            end = end + 1;
        }
        self.input.as_str().substring_char(start, end).to_owned()
    }

    /// The line text and the 0-based column for the character at
    /// `index`.
    pub fn get_location(&self, index: usize) -> (r: (String, usize))
        requires
            index <= self.input@.len(),
        ensures
            r.0@ == self.input@.subrange(
                spec_line_start(self.input@, index as int),
                spec_line_end(self.input@, spec_line_start(self.input@, index as int)),
            ),
            r.1 == spec_column(self.input@, index as int),
    {
        (self.get_line(index), self.get_column(index))
    }
}

} // verus!
