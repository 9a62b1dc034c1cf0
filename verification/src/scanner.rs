//! The lines of a buffer, from the last to the first.
//!
//! A line is a run of bytes between two boundaries; a boundary is a newline
//! byte or an end of the buffer. The scanner walks backwards from the end
//! and hands out one line at a time as a view into the buffer.

use vstd::prelude::*;
use vstd::slice::slice_subrange;

verus! {

/// The byte that ends a line.
pub const NEWLINE: u8 = 10;

/// Where the line that ends at `end` begins: behind the last newline before
/// `end`, or at 0 where there is none.
pub open spec fn line_start(s: Seq<u8>, end: int) -> int
    decreases end,
{
    if end <= 0 {
        0
    } else if s[end - 1] == NEWLINE {
        end
    } else {
        line_start(s, end - 1)
    }
}

/// The lines of the first `end` bytes of `s`, the last line first.
pub open spec fn lines_before(s: Seq<u8>, end: int) -> Seq<Seq<u8>>
    decreases end,
    via lines_before_decreases
{
    let start = line_start(s, end);
    if start <= 0 {
        seq![s.subrange(0, end)]
    } else {
        seq![s.subrange(start, end)] + lines_before(s, start - 1)
    }
}

#[via_fn]
proof fn lines_before_decreases(s: Seq<u8>, end: int) {
    lemma_line_start_bounds(s, end);
}

/// The lines of `s`, the last line first.
pub open spec fn lines_from_end(s: Seq<u8>) -> Seq<Seq<u8>> {
    lines_before(s, s.len() as int)
}

/// Lines in the order of the file, with a newline between neighbours.
pub open spec fn joined_lines(lines: Seq<Seq<u8>>) -> Seq<u8>
    decreases lines.len(),
{
    if lines.len() == 0 {
        Seq::empty()
    } else if lines.len() == 1 {
        lines[0]
    } else {
        joined_lines(lines.drop_last()) + seq![NEWLINE] + lines.last()
    }
}

/// The number of newline bytes among the first `end` bytes of `s`.
pub open spec fn newline_count(s: Seq<u8>, end: int) -> int
    decreases end,
{
    if end <= 0 {
        0
    } else if s[end - 1] == NEWLINE {
        newline_count(s, end - 1) + 1
    } else {
        newline_count(s, end - 1)
    }
}

/// A line begins within the part it ends, holds no newline, and has a
/// boundary in front of it.
pub proof fn lemma_line_start_bounds(s: Seq<u8>, end: int)
    ensures
        0 <= end ==> 0 <= line_start(s, end) <= end,
        forall|i: int| line_start(s, end) <= i < end ==> s[i] != NEWLINE,
        line_start(s, end) > 0 ==> s[line_start(s, end) - 1] == NEWLINE,
        newline_count(s, end) == newline_count(s, line_start(s, end)),
    decreases end,
{
    if end > 0 && s[end - 1] != NEWLINE {
        lemma_line_start_bounds(s, end - 1);
    }
}

/// What holds of the lines of the first `end` bytes of `s`: there is one
/// more of them than there are newlines, none holds a newline, and joined
/// in the order of the file they give those bytes back.
pub proof fn lemma_lines_before(s: Seq<u8>, end: int)
    requires
        0 <= end <= s.len(),
    ensures
        lines_before(s, end).len() == newline_count(s, end) + 1,
        joined_lines(lines_before(s, end).reverse()) == s.subrange(0, end),
        forall|k: int, i: int|
            0 <= k < lines_before(s, end).len() && 0 <= i < lines_before(s, end)[k].len()
                ==> #[trigger] lines_before(s, end)[k][i] != NEWLINE,
    decreases end,
{
    lemma_line_start_bounds(s, end);
    let start = line_start(s, end);
    if start > 0 {
        lemma_lines_before(s, start - 1);
        assert(lines_before(s, end).reverse().drop_last() =~= lines_before(
            s,
            start - 1,
        ).reverse());
    }
}

/// The lines of a buffer, handed out from the last to the first, are one
/// more than the buffer has newlines, hold no newline themselves and, put
/// back into the order of the file with a newline between neighbours, are
/// the buffer again.
pub proof fn lemma_lines_round_trip(s: Seq<u8>)
    ensures
        lines_from_end(s).len() == newline_count(s, s.len() as int) + 1,
        joined_lines(lines_from_end(s).reverse()) == s,
        forall|k: int, i: int|
            0 <= k < lines_from_end(s).len() && 0 <= i < lines_from_end(s)[k].len()
                ==> #[trigger] lines_from_end(s)[k][i] != NEWLINE,
{
    lemma_lines_before(s, s.len() as int);
}

/// A cursor over the lines of a buffer, last line first.
pub struct LineScanner<'a> {
    buf: &'a [u8],
    /// What is left to scan is `buf[..end]`.
    end: usize,
    /// Set once the first line of the buffer has been handed out.
    done: bool,
}

impl<'a> LineScanner<'a> {
    #[verifier::type_invariant]
    spec fn well_formed(self) -> bool {
        self.end <= self.buf@.len()
    }

    /// The buffer that is scanned.
    pub closed spec fn buffer(self) -> Seq<u8> {
        self.buf@
    }

    /// The lines that are still to come, in the order in which they come.
    pub closed spec fn pending(self) -> Seq<Seq<u8>> {
        if self.done {
            Seq::empty()
        } else {
            lines_before(self.buf@, self.end as int)
        }
    }

    /// A scanner that stands behind the last line of `buf`.
    pub fn new(buf: &'a [u8]) -> (scanner: Self)
        ensures
            scanner.buffer() == buf@,
            scanner.pending() == lines_from_end(buf@),
    {
        LineScanner { buf, end: buf.len(), done: false }
    }

    /// Hands out the next line towards the start of the buffer, without the
    /// newline that ends it; `None` once the first line has been handed out.
    pub fn next_line(&mut self) -> (line: Option<&'a [u8]>)
        ensures
            final(self).buffer() == old(self).buffer(),
            match line {
                None => old(self).pending().len() == 0 && final(self).pending().len() == 0,
                Some(bytes) => {
                    &&& old(self).pending().len() > 0
                    &&& bytes@ == old(self).pending()[0]
                    &&& final(self).pending() == old(self).pending().drop_first()
                },
            },
    {
        proof {
            use_type_invariant(&*self);
        }
        if self.done {
            return None;
        }
        let buf = self.buf;
        let end = self.end;
        let mut start = end;
        while start > 0 && buf[start - 1] != NEWLINE
            invariant
                start <= end <= buf@.len(),
                line_start(buf@, start as int) == line_start(buf@, end as int),
            decreases start,
        {
            start -= 1;
        }
        let line = slice_subrange(buf, start, end);
        if start == 0 {
            self.done = true;
        } else {
            self.end = start - 1;
        }
        Some(line)
    }
}

} // verus!
