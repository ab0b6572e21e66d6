//! Character ranges into the source text, used by every token, expression
//! node and error to point back at the place it came from.

use vstd::prelude::*;

verus! {

/// A half-open range `[start, end)` of character offsets into the source
/// text. Spans are informational only: they drive diagnostics and never
/// affect the semantic content of a value.
#[derive(Debug, Copy, Clone, PartialEq, Eq, PartialOrd, Ord, Hash, Structural)]
pub struct LexicalSpan {
    pub start: usize,
    pub end: usize,
}

impl LexicalSpan {
    pub open spec fn spec_start(&self) -> usize {
        self.start
    }

    pub open spec fn spec_end(&self) -> usize {
        self.end
    }

    /// The zero-width span at offset zero, used for programmatically built
    /// expressions that have no place in any source text.
    pub fn zeros() -> (r: LexicalSpan)
        ensures
            r.spec_start() == 0,
            r.spec_end() == 0,
    {
        LexicalSpan { start: 0, end: 0 }
    }

    pub fn new(start: usize, end: usize) -> (r: LexicalSpan)
        ensures
            r.spec_start() == start,
            r.spec_end() == end,
    {
        LexicalSpan { start, end }
    }

    #[verifier::when_used_as_spec(spec_start)]
    pub fn start(&self) -> (r: usize)
        ensures
            r == self.spec_start(),
    {
        self.start
    }

    #[verifier::when_used_as_spec(spec_end)]
    pub fn end(&self) -> (r: usize)
        ensures
            r == self.spec_end(),
    {
        self.end
    }

    /// The union of two spans: the smallest range covering both.
    pub open spec fn spec_combine(self, other: LexicalSpan) -> LexicalSpan {
        LexicalSpan {
            start: if self.start <= other.start {
                self.start
            } else {
                other.start
            },
            end: if self.end >= other.end {
                self.end
            } else {
                other.end
            },
        }
    }

    /// The union of two spans: the smallest range covering both.
    pub fn combine(self, other: LexicalSpan) -> (r: LexicalSpan)
        ensures
            r == self.spec_combine(other),
    {
        let start = if self.start <= other.start {
            self.start
        } else {
            other.start
        };
        let end = if self.end >= other.end {
            self.end
        } else {
            other.end
        };
        LexicalSpan { start, end }
    }

    /// What `slice` returns: the characters the span covers, or the empty
    /// sequence when the span is empty or reaches past the end of the text.
    pub open spec fn spec_slice(&self, item: Seq<char>) -> Seq<char> {
        if self.spec_end() <= self.spec_start() || self.spec_end() > item.len() {
            Seq::<char>::empty()
        } else {
            item.subrange(self.spec_start() as int, self.spec_end() as int)
        }
    }

    /// Slice the covered characters back out of the source text.
    pub fn slice<'a>(&self, item: &'a str) -> (r: &'a str)
        ensures
            r@ == self.spec_slice(item@),
    {
        proof {
            reveal_strlit("");
        }
        if self.end <= self.start {
            let r = "";
            assert(r@ =~= self.spec_slice(item@));
            r
        } else {
            let n = item.unicode_len();
            if self.end > n {
                let r = "";
                assert(r@ =~= self.spec_slice(item@));
                r
            } else {
                item.substring_char(self.start, self.end)
            }
        }
    }

    /// The row (1-based) that a scan of the text up to an offset ends on:
    /// one more than the number of newline characters before it.
    pub open spec fn spec_row(text: Seq<char>) -> int
        decreases text.len(),
    {
        if text.len() == 0 {
            1
        } else if text.last() == '\n' {
            Self::spec_row(text.drop_last()) + 1
        } else {
            Self::spec_row(text.drop_last())
        }
    }

    /// The column such a scan ends on: the number of characters after the
    /// last newline (or since the start of the text if there is none).
    pub open spec fn spec_column(text: Seq<char>) -> int
        decreases text.len(),
    {
        if text.len() == 0 {
            0
        } else if text.last() == '\n' {
            0
        } else {
            Self::spec_column(text.drop_last()) + 1
        }
    }

    /// The row and column a span's start falls on, both 1-based: the
    /// position of the offending character, counted over the text before
    /// it (clamped to the end when the span lies past the text). A prefix
    /// too large for the machine to address gets the fallback position, a
    /// case no real source can reach.
    pub open spec fn spec_row_and_column(self, text: Seq<char>) -> (int, int) {
        let upto = if self.spec_start() <= text.len() {
            self.spec_start() as int
        } else {
            text.len() as int
        };
        if upto < usize::MAX {
            (Self::spec_row(text.take(upto)), Self::spec_column(text.take(upto)) + 1)
        } else {
            (1, 1)
        }
    }

    /// Row and column of this span's start within the given source text,
    /// for diagnostics.
    pub fn find_row_and_column(&self, source_text: &str) -> (r: (usize, usize))
        ensures
            (r.0 as int, r.1 as int) == self.spec_row_and_column(source_text@),
    {
        let len = source_text.unicode_len();
        let n: usize = if self.start <= len {
            self.start
        } else {
            len
        };
        if n == usize::MAX {
            return (1, 1);
        }
        let ghost upto = source_text@.take(n as int);
        let mut row: usize = 1;
        let mut col: usize = 0;
        let mut i: usize = 0;
        while i < n
            invariant
                i <= n,
                n < usize::MAX,
                n <= source_text@.len(),
                upto == source_text@.take(n as int),
                row == Self::spec_row(source_text@.take(i as int)),
                col == Self::spec_column(source_text@.take(i as int)),
                row <= 1 + i,
                col <= i,
            decreases n - i,
        {
            let chr = source_text.get_char(i);
            assert(source_text@.take(i + 1).drop_last() =~= source_text@.take(i as int));
            assert(source_text@.take(i + 1).last() == source_text@[i as int]);
            if chr == '\n' {
                row = row + 1;
                col = 0;
            } else {
                col = col + 1;
            }
            i = i + 1;
        }
        (row, col + 1)
    }
}

} // verus!
