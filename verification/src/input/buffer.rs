//! The editable text of the input line and its cursor.
use core::ops::Range;
use vstd::prelude::*;
use vstd::utf8::*;

use crate::input::wrap::{range_pairs, rows_well_formed, wrap_ranges, wrap_spec};
use crate::strings::{
    char_utf8_len, string_insert_char, string_insert_str, string_remove_range, substr, utf8,
};
use crate::unicode::{
    display_width, display_width_of, ends_in_ascii_pair, grapheme_spans, grapheme_spans_of, spans_tile,
};
use crate::utf8_facts::{
    lemma_ascii_next_boundary, lemma_boundary_byte, lemma_boundary_concat, lemma_encode_concat,
    lemma_split_at_boundary, lemma_sub_boundary,
};

verus! {

broadcast use encode_utf8_valid_utf8, encode_utf8_decode_utf8;

/// Text being typed, with a cursor given as a byte offset into it.
pub struct InputBuffer {
    text: String,
    cursor: usize,
}

/// `bytes` with the bytes in `start..end` removed.
pub open spec fn cut(bytes: Seq<u8>, start: int, end: int) -> Seq<u8> {
    bytes.subrange(0, start) + bytes.subrange(end, bytes.len() as int)
}

/// `bytes` with `ins` inserted at offset `at`.
pub open spec fn splice_in(bytes: Seq<u8>, at: int, ins: Seq<u8>) -> Seq<u8> {
    bytes.subrange(0, at) + ins + bytes.subrange(at, bytes.len() as int)
}

/// The chars of the bytes `start..end` of `text`.
pub open spec fn slice_chars(text: Seq<char>, start: int, end: int) -> Seq<char> {
    decode_utf8(utf8(text).subrange(start, end))
}

/// Where the grapheme ending at `cursor` starts: the last grapheme of the text before the cursor.
pub open spec fn prev_grapheme_spec(text: Seq<char>, cursor: int) -> Option<int> {
    if cursor == 0 {
        None
    } else {
        let spans = grapheme_spans_of(slice_chars(text, 0, cursor));
        if spans.len() == 0 {
            None
        } else {
            Some(spans.last().0 as int)
        }
    }
}

/// Where the grapheme after the one starting at `cursor` starts (the end of the
/// text when that grapheme is the last), segmenting the text from the cursor on.
pub open spec fn next_grapheme_spec(text: Seq<char>, cursor: int) -> Option<int> {
    let b = utf8(text);
    if cursor >= b.len() {
        None
    } else {
        let spans = grapheme_spans_of(slice_chars(text, cursor, b.len() as int));
        if spans.len() >= 2 {
            Some(cursor + spans[1].0)
        } else {
            Some(b.len() as int)
        }
    }
}

/// The offset just past the last line feed before `end`, or 0 when there is none.
pub open spec fn line_start_before(b: Seq<u8>, end: int) -> int
    decreases end,
{
    if end <= 0 {
        0
    } else if b[end - 1] == 10u8 {
        end
    } else {
        line_start_before(b, end - 1)
    }
}

/// The offset of the first line feed at or after `start`, or the end of `b`.
pub open spec fn line_end_from(b: Seq<u8>, start: int) -> int
    decreases b.len() - start,
{
    if start >= b.len() {
        b.len() as int
    } else if b[start] == 10u8 {
        start
    } else {
        line_end_from(b, start + 1)
    }
}

/// The index of the first row from `i` on that contains offset `c` (ends included).
pub open spec fn row_of(rows: Seq<(int, int)>, c: int, i: int) -> Option<int>
    decreases rows.len() - i,
{
    if i < 0 || i >= rows.len() {
        None
    } else if rows[i].0 <= c <= rows[i].1 {
        Some(i)
    } else {
        row_of(rows, c, i + 1)
    }
}

/// The (row, column) of `cursor` when `text` is wrapped at `width`: the first
/// row containing it, and the display width of that row's text before it.
pub open spec fn cursor_position_spec(text: Seq<char>, cursor: int, width: u16) -> (u16, u16) {
    let rows = wrap_spec(text, width);
    match row_of(rows, cursor, 0) {
        Some(r) => (
            r as u16,
            display_width_of(slice_chars(text, rows[r].0, cursor)) as u16,
        ),
        None => (0u16, 0u16),
    }
}

/// Scanning the graphemes of the bytes `start..end` of `text` from the `k`-th on, with
/// `width` columns counted so far: the end of the first grapheme at which the count
/// (wrapping at `usize`, compared as `u16`) reaches `target`, else `end`.
pub open spec fn column_scan(text: Seq<char>, start: int, end: int, target: u16, k: int, width: usize) -> int
    decreases grapheme_spans_of(slice_chars(text, start, end)).len() - k,
{
    let sl = slice_chars(text, start, end);
    let spans = grapheme_spans_of(sl);
    if k < 0 || k >= spans.len() {
        end
    } else {
        let sp = spans[k];
        let w = width.wrapping_add(display_width_of(slice_chars(sl, sp.0 as int, sp.0 + sp.1)));
        if (w as u16) >= target {
            start + sp.0 + sp.1
        } else {
            column_scan(text, start, end, target, k + 1, w)
        }
    }
}

/// The offset in the row `start..end` of `text` where a cursor aiming at column `target` lands.
pub open spec fn cursor_at_column_spec(text: Seq<char>, start: int, end: int, target: u16) -> int {
    column_scan(text, start, end, target, 0, 0)
}

/// `after` is `before` with `ch` inserted at the cursor and the cursor moved past it.
pub open spec fn char_inserted(before: InputBuffer, after: InputBuffer, ch: char) -> bool {
    &&& after.wf()
    &&& after.bytes() == splice_in(before.bytes(), before.cursor_at(), utf8(seq![ch]))
    &&& after.cursor_at() == before.cursor_at() + utf8(seq![ch]).len()
}

/// `after` is `before` with the grapheme before the cursor deleted and the
/// cursor moved to where it started; nothing changes at the start of the
/// text. Where the text before the cursor ends in a printable ASCII char that
/// is alone or follows an ASCII char, that grapheme is the one byte of it.
pub open spec fn backspaced(before: InputBuffer, after: InputBuffer) -> bool {
    &&& after.wf()
    &&& match prev_grapheme_spec(before.content(), before.cursor_at()) {
        Some(p) => after.bytes() == cut(before.bytes(), p, before.cursor_at()) && after.cursor_at()
            == p,
        None => after.content() == before.content() && after.cursor_at() == before.cursor_at(),
    }
    &&& ends_in_ascii_pair(slice_chars(before.content(), 0, before.cursor_at())) ==> after.bytes()
        == cut(before.bytes(), before.cursor_at() - 1, before.cursor_at()) && after.cursor_at()
        == before.cursor_at() - 1
}

impl InputBuffer {
    /// The text's chars.
    pub closed spec fn content(self) -> Seq<char> {
        self.text@
    }

    /// The cursor's byte offset.
    pub closed spec fn cursor_at(self) -> int {
        self.cursor as int
    }

    /// The text's UTF-8 bytes.
    pub open spec fn bytes(self) -> Seq<u8> {
        utf8(self.content())
    }

    /// The cursor lies on a char boundary of the text.
    pub open spec fn wf(self) -> bool {
        &&& 0 <= self.cursor_at() <= self.bytes().len()
        &&& is_char_boundary(self.bytes(), self.cursor_at())
    }

    /// The text.
    pub fn text(&self) -> (t: &str)
        ensures
            t@ == self.content(),
    {
        self.text.as_str()
    }

    /// The text is empty.
    pub fn is_empty(&self) -> (b: bool)
        ensures
            b == (self.content().len() == 0),
    {
        self.text.as_str().is_empty()
    }

    fn byte_len(&self) -> (n: usize)
        ensures
            n == self.bytes().len(),
    {
        self.text.as_str().as_bytes().len()
    }

    /// Replaces the text; the cursor keeps its offset, clamped to the new text's length.
    pub fn set_text(&mut self, value: String)
        ensures
            final(self).content() == value@,
            final(self).cursor_at() == if old(self).cursor_at() <= utf8(value@).len() {
                old(self).cursor_at()
            } else {
                utf8(value@).len() as int
            },
    {
        self.text = value;
        let len = self.byte_len();
        if len < self.cursor {
            self.cursor = len;
        }
    }

    /// Hands out the text, leaving the buffer empty with the cursor at 0.
    pub fn take_text(&mut self) -> (t: String)
        ensures
            t@ == old(self).content(),
            final(self).content().len() == 0,
            final(self).cursor_at() == 0,
            final(self).wf(),
    {
        self.cursor = 0;
        let mut out = String::new();
        core::mem::swap(&mut out, &mut self.text);
        proof {
            is_char_boundary_start_end_of_seq(utf8(self.text@));
        }
        out
    }

    fn prev_grapheme_start(&self) -> (r: Option<usize>)
        requires
            self.wf(),
        ensures
            match r {
                Some(p) => prev_grapheme_spec(self.content(), self.cursor_at()) == Some(p as int)
                    && p < self.cursor_at() && is_char_boundary(self.bytes(), p as int),
                None => prev_grapheme_spec(self.content(), self.cursor_at()) is None,
            },
            r is None <==> self.cursor_at() == 0,
            ends_in_ascii_pair(slice_chars(self.content(), 0, self.cursor_at())) ==> r == Some(
                (self.cursor_at() - 1) as usize,
            ),
    {
        if self.cursor == 0 {
            return None;
        }
        let ghost b = self.bytes();
        let prefix = substr(self.text.as_str(), 0, self.cursor);
        let spans = grapheme_spans(prefix);
        proof {
            lemma_split_at_boundary(b, self.cursor as int);
            assert(utf8(prefix@) =~= b.subrange(0, self.cursor as int));
        }
        let n = spans.len();
        let (start, len) = spans[n - 1];
        proof {
            assert(spans@.last() == spans@[n - 1]);
            assert(is_char_boundary(utf8(prefix@), start as int));
        }
        Some(start)
    }

    fn next_grapheme_start(&self) -> (r: Option<usize>)
        requires
            self.wf(),
        ensures
            match r {
                Some(p) => next_grapheme_spec(self.content(), self.cursor_at()) == Some(p as int)
                    && self.cursor_at() < p <= self.bytes().len() && is_char_boundary(
                    self.bytes(),
                    p as int,
                ),
                None => next_grapheme_spec(self.content(), self.cursor_at()) is None,
            },
            r is None <==> self.cursor_at() == self.bytes().len(),
    {
        let len = self.byte_len();
        if self.cursor >= len {
            return None;
        }
        let ghost b = self.bytes();
        proof {
            is_char_boundary_start_end_of_seq(b);
        }
        let rest = substr(self.text.as_str(), self.cursor, len);
        let spans = grapheme_spans(rest);
        proof {
            lemma_split_at_boundary(b, self.cursor as int);
            is_char_boundary_start_end_of_seq(b);
            assert(utf8(rest@) =~= b.subrange(self.cursor as int, b.len() as int));
        }
        if spans.len() >= 2 {
            let (off, _) = spans[1];
            proof {
                assert(spans@[1].0 == spans@[0].0 + spans@[0].1);
                assert(is_char_boundary(utf8(rest@), off as int));
                lemma_boundary_byte(utf8(rest@), off as int);
            }
            Some(self.cursor + off)
        } else {
            Some(len)
        }
    }

    /// Deletes the grapheme before the cursor, moving the cursor to where it
    /// started (see [`backspaced`]).
    pub fn backspace(&mut self)
        requires
            old(self).wf(),
        ensures
            backspaced(*old(self), *final(self)),
    {
        if let Some(prev) = self.prev_grapheme_start() {
            let ghost b = self.bytes();
            string_remove_range(&mut self.text, prev, self.cursor);
            self.cursor = prev;
            proof {
                lemma_split_at_boundary(b, prev as int);
                lemma_split_at_boundary(b, old(self).cursor as int);
                let x = b.subrange(0, prev as int);
                let y = b.subrange(old(self).cursor as int, b.len() as int);
                lemma_split_at_boundary(b.subrange(0, old(self).cursor as int), prev as int);
                assert(x =~= b.subrange(0, old(self).cursor as int).subrange(0, prev as int));
                lemma_boundary_concat(x, y, prev as int);
                is_char_boundary_start_end_of_seq(x);
            }
        }
    }

    /// Deletes the grapheme at the cursor; the cursor stays.
    pub fn delete(&mut self)
        requires
            old(self).wf(),
        ensures
            final(self).wf(),
            final(self).cursor_at() == old(self).cursor_at(),
            match next_grapheme_spec(old(self).content(), old(self).cursor_at()) {
                Some(n) => final(self).bytes() == cut(old(self).bytes(), old(self).cursor_at(), n),
                None => final(self).content() == old(self).content(),
            },
    {
        let next = self.next_grapheme_start();
        if let Some(next_idx) = next {
            let ghost b = self.bytes();
            string_remove_range(&mut self.text, self.cursor, next_idx);
            proof {
                let c = self.cursor as int;
                lemma_split_at_boundary(b, c);
                lemma_split_at_boundary(b, next_idx as int);
                let x = b.subrange(0, c);
                let y = b.subrange(next_idx as int, b.len() as int);
                lemma_boundary_concat(x, y, c);
                is_char_boundary_start_end_of_seq(x);
            }
        }
    }

    /// Moves the cursor to the start of the grapheme before it.
    pub fn move_left(&mut self)
        requires
            old(self).wf(),
        ensures
            final(self).wf(),
            final(self).content() == old(self).content(),
            final(self).cursor_at() == match prev_grapheme_spec(
                old(self).content(),
                old(self).cursor_at(),
            ) {
                Some(p) => p,
                None => old(self).cursor_at(),
            },
    {
        if let Some(prev) = self.prev_grapheme_start() {
            self.cursor = prev;
        }
    }

    /// Inserts `value` at the cursor and moves the cursor past it.
    pub fn insert_str(&mut self, value: &str)
        requires
            old(self).wf(),
        ensures
            final(self).wf(),
            final(self).bytes() == splice_in(old(self).bytes(), old(self).cursor_at(), utf8(value@)),
            final(self).cursor_at() == old(self).cursor_at() + utf8(value@).len(),
    {
        let len = self.byte_len();
        let pos = if self.cursor <= len {
            self.cursor
        } else {
            len
        };
        let ghost b = self.bytes();
        let vlen = value.as_bytes().len();
        string_insert_str(&mut self.text, pos, value);
        let new_len = self.byte_len();
        proof {
            lemma_split_at_boundary(b, pos as int);
            let x = b.subrange(0, pos as int);
            let y = b.subrange(pos as int, b.len() as int);
            let v = utf8(value@);
            lemma_boundary_concat(x, v, (x.len() + v.len()) as int);
            is_char_boundary_start_end_of_seq(v);
            lemma_boundary_concat(x + v, y, (x.len() + v.len()) as int);
            is_char_boundary_start_end_of_seq(x + v);
        }
        self.cursor = pos + vlen;
    }

    /// Inserts `ch` at the cursor and moves the cursor past it (see [`char_inserted`]).
    pub fn insert_char(&mut self, ch: char)
        requires
            old(self).wf(),
        ensures
            char_inserted(*old(self), *final(self), ch),
    {
        let len = self.byte_len();
        let pos = if self.cursor <= len {
            self.cursor
        } else {
            len
        };
        let ghost b = self.bytes();
        let clen = char_utf8_len(ch);
        string_insert_char(&mut self.text, pos, ch);
        let new_len = self.byte_len();
        proof {
            lemma_split_at_boundary(b, pos as int);
            let x = b.subrange(0, pos as int);
            let y = b.subrange(pos as int, b.len() as int);
            let v = utf8(seq![ch]);
            lemma_boundary_concat(x, v, (x.len() + v.len()) as int);
            is_char_boundary_start_end_of_seq(v);
            lemma_boundary_concat(x + v, y, (x.len() + v.len()) as int);
            is_char_boundary_start_end_of_seq(x + v);
        }
        self.cursor = pos + clen;
    }

    /// Inserts a line feed at the cursor.
    pub fn newline(&mut self)
        requires
            old(self).wf(),
        ensures
            final(self).wf(),
            final(self).bytes() == splice_in(old(self).bytes(), old(self).cursor_at(), seq![10u8]),
            final(self).cursor_at() == old(self).cursor_at() + 1,
    {
        proof {
            assert(utf8(seq!['\n']) =~= seq![10u8]) by {
                assert(seq!['\n'].drop_first() =~= Seq::<char>::empty());
                assert(encode_utf8(seq!['\n'].drop_first()) =~= Seq::<u8>::empty());
                assert(seq!['\n'][0] == '\n');
                assert(('\n' as u32) == 10);
                assert((10u32 & 0x7Fu32) as u8 == 10u8) by (bit_vector);
                assert(encode_scalar(10u32) =~= seq![10u8]);
            }
        }
        self.insert_char('\n');
    }

    /// Moves the cursor to the start of its line: just past the last line feed before it.
    pub fn move_home(&mut self)
        requires
            old(self).wf(),
        ensures
            final(self).wf(),
            final(self).content() == old(self).content(),
            final(self).cursor_at() == line_start_before(old(self).bytes(), old(self).cursor_at()),
    {
        let ghost b = self.bytes();
        let bytes = self.text.as_str().as_bytes();
        let mut i = self.cursor;
        while i > 0 && bytes[i - 1] != 10u8
            invariant
                0 <= i <= self.cursor,
                self.cursor <= bytes@.len(),
                bytes@ == b,
                line_start_before(b, self.cursor as int) == line_start_before(b, i as int),
            decreases i,
        {
            i = i - 1;
        }
        proof {
            if i > 0 {
                lemma_boundary_byte(b, i - 1);
                lemma_ascii_next_boundary(b, i - 1);
            } else {
                is_char_boundary_start_end_of_seq(b);
            }
        }
        self.cursor = i;
    }

    /// Moves the cursor to the end of its line: the first line feed at or after it, or the end.
    pub fn move_end(&mut self)
        requires
            old(self).wf(),
        ensures
            final(self).wf(),
            final(self).content() == old(self).content(),
            final(self).cursor_at() == line_end_from(old(self).bytes(), old(self).cursor_at()),
    {
        let ghost b = self.bytes();
        let bytes = self.text.as_str().as_bytes();
        let len = bytes.len();
        let mut i = self.cursor;
        while i < len && bytes[i] != 10u8
            invariant
                self.cursor <= i <= len,
                len == bytes@.len(),
                bytes@ == b,
                line_end_from(b, self.cursor as int) == line_end_from(b, i as int),
            decreases len - i,
        {
            i = i + 1;
        }
        proof {
            lemma_boundary_byte(b, i as int);
        }
        self.cursor = i;
    }

    /// The rows of the text wrapped at `width` columns.
    pub fn wrapped_lines(&self, width: u16) -> (lines: Vec<String>)
        ensures
            lines.len() == wrap_spec(self.content(), width).len(),
            forall|i: int|
                0 <= i < lines.len() ==> #[trigger] lines[i]@ == slice_chars(
                    self.content(),
                    wrap_spec(self.content(), width)[i].0,
                    wrap_spec(self.content(), width)[i].1,
                ),
    {
        let text = self.text.as_str();
        let ranges = wrap_ranges(text, width);
        let ghost rows = range_pairs(ranges@);
        let mut lines: Vec<String> = Vec::new();
        let mut i: usize = 0;
        while i < ranges.len()
            invariant
                0 <= i <= ranges.len(),
                rows == range_pairs(ranges@),
                rows == wrap_spec(self.content(), width),
                rows_well_formed(rows, utf8(text@)),
                text@ == self.content(),
                lines.len() == i,
                forall|j: int|
                    0 <= j < i ==> #[trigger] lines[j]@ == slice_chars(
                        self.content(),
                        rows[j].0,
                        rows[j].1,
                    ),
            decreases ranges.len() - i,
        {
            let start = ranges[i].start;
            let end = ranges[i].end;
            assert(rows[i as int] == (start as int, end as int));
            assert(0 <= rows[i as int].0 <= rows[i as int].1);
            let piece = substr(text, start, end);
            lines.push(piece.to_owned());
            i = i + 1;
        }
        lines
    }

    /// The (row, column) of the cursor in the text wrapped at `width` columns.
    pub fn cursor_position(&self, width: u16) -> (pos: (u16, u16))
        requires
            self.wf(),
        ensures
            pos == cursor_position_spec(self.content(), self.cursor_at(), width),
    {
        let text = self.text.as_str();
        let ranges = wrap_ranges(text, width);
        let ghost rows = range_pairs(ranges@);
        let ghost b = utf8(text@);
        let mut row: usize = 0;
        while row < ranges.len()
            invariant
                0 <= row <= ranges.len(),
                rows == range_pairs(ranges@),
                rows == wrap_spec(self.content(), width),
                rows_well_formed(rows, b),
                b == utf8(text@),
                text@ == self.content(),
                self.wf(),
                row_of(rows, self.cursor as int, 0) == row_of(rows, self.cursor as int, row as int),
            decreases ranges.len() - row,
        {
            let start = ranges[row].start;
            let end = ranges[row].end;
            assert(rows[row as int] == (start as int, end as int));
            if self.cursor >= start && self.cursor <= end {
                let slice = substr(text, start, self.cursor);
                let col = display_width(slice) as u16;
                return (row as u16, col);
            }
            row = row + 1;
        }
        (0, 0)
    }

    /// Moves the cursor to the row above, at the column it had.
    pub fn move_up(&mut self, width: u16)
        requires
            old(self).wf(),
        ensures
            final(self).wf(),
            final(self).content() == old(self).content(),
            ({
                let pos = cursor_position_spec(old(self).content(), old(self).cursor_at(), width);
                let rows = wrap_spec(old(self).content(), width);
                final(self).cursor_at() == if pos.0 == 0 || pos.0 - 1 >= rows.len() {
                    old(self).cursor_at()
                } else {
                    cursor_at_column_spec(
                        old(self).content(),
                        rows[pos.0 - 1].0,
                        rows[pos.0 - 1].1,
                        pos.1,
                    )
                }
            }),
    {
        let (row, col) = self.cursor_position(width);
        if row == 0 {
            return;
        }
        let ranges = wrap_ranges(self.text.as_str(), width);
        let target = (row - 1) as usize;
        if target < ranges.len() {
            let start = ranges[target].start;
            let end = ranges[target].end;
            assert(range_pairs(ranges@)[target as int] == (start as int, end as int));
            assert(0 <= range_pairs(ranges@)[target as int].0 <= range_pairs(ranges@)[target as int].1);
            self.cursor = cursor_at_column(self.text.as_str(), start, end, col);
        }
    }

    /// Moves the cursor to the row below, at the column it had.
    pub fn move_down(&mut self, width: u16)
        requires
            old(self).wf(),
        ensures
            final(self).wf(),
            final(self).content() == old(self).content(),
            ({
                let pos = cursor_position_spec(old(self).content(), old(self).cursor_at(), width);
                let rows = wrap_spec(old(self).content(), width);
                final(self).cursor_at() == if pos.0 + 1 >= rows.len() {
                    old(self).cursor_at()
                } else {
                    cursor_at_column_spec(
                        old(self).content(),
                        rows[pos.0 + 1].0,
                        rows[pos.0 + 1].1,
                        pos.1,
                    )
                }
            }),
    {
        let (row, col) = self.cursor_position(width);
        let ranges = wrap_ranges(self.text.as_str(), width);
        let next = row as usize + 1;
        if next >= ranges.len() {
            return;
        }
        let start = ranges[next].start;
        let end = ranges[next].end;
        assert(range_pairs(ranges@)[next as int] == (start as int, end as int));
        assert(0 <= range_pairs(ranges@)[next as int].0 <= range_pairs(ranges@)[next as int].1);
        self.cursor = cursor_at_column(self.text.as_str(), start, end, col);
    }

    /// Moves the cursor past the grapheme at it.
    pub fn move_right(&mut self)
        requires
            old(self).wf(),
        ensures
            final(self).wf(),
            final(self).content() == old(self).content(),
            final(self).cursor_at() == match next_grapheme_spec(
                old(self).content(),
                old(self).cursor_at(),
            ) {
                Some(n) => n,
                None => old(self).cursor_at(),
            },
    {
        if let Some(next) = self.next_grapheme_start() {
            self.cursor = next;
        }
    }
}

impl Default for InputBuffer {
    fn default() -> (buf: Self)
        ensures
            buf.content().len() == 0,
            buf.cursor_at() == 0,
            buf.wf(),
    {
        let buf = InputBuffer { text: String::new(), cursor: 0 };
        proof {
            is_char_boundary_start_end_of_seq(utf8(buf.text@));
        }
        buf
    }
}

/// The offset in the row `start..end` of `text` where a cursor aiming at column
/// `target_col` lands: the end of the first grapheme that brings the row's width
/// to at least `target_col`, or the row's end.
fn cursor_at_column(text: &str, start: usize, end: usize, target_col: u16) -> (pos: usize)
    requires
        start <= end,
        is_char_boundary(utf8(text@), start as int),
        is_char_boundary(utf8(text@), end as int),
    ensures
        pos == cursor_at_column_spec(text@, start as int, end as int, target_col),
        start <= pos <= end,
        is_char_boundary(utf8(text@), pos as int),
{
    let ghost b = utf8(text@);
    let slice = substr(text, start, end);
    proof {
        lemma_sub_boundary(b, start as int, end as int);
        assert(utf8(slice@) == b.subrange(start as int, end as int));
    }
    let spans = grapheme_spans(slice);
    let ghost sb = utf8(slice@);
    let mut width: usize = 0;
    let mut k: usize = 0;
    while k < spans.len()
        invariant
            0 <= k <= spans.len(),
            spans@ == grapheme_spans_of(slice@),
            spans_tile(spans@, sb),
            sb == utf8(slice@),
            sb == b.subrange(start as int, end as int),
            slice@ == slice_chars(text@, start as int, end as int),
            b == utf8(text@),
            start <= end <= b.len(),
            valid_utf8(sb),
            forall|j: int|
                0 <= j <= end - start ==> (#[trigger] is_char_boundary(sb, j) <==> is_char_boundary(
                    b,
                    start + j,
                )),
            column_scan(text@, start as int, end as int, target_col, 0, 0) == column_scan(
                text@,
                start as int,
                end as int,
                target_col,
                k as int,
                width,
            ),
        decreases spans.len() - k,
    {
        let (idx, glen) = spans[k];
        proof {
            if k + 1 < spans.len() {
                assert(spans@[k + 1].0 == spans@[k as int].0 + spans@[k as int].1);
                assert(is_char_boundary(sb, spans@[k + 1].0 as int));
            } else {
                assert(spans@.last() == spans@[k as int]);
                is_char_boundary_start_end_of_seq(sb);
            }
            assert(spans@[k as int].1 > 0);
            assert(is_char_boundary(sb, idx as int));
            lemma_boundary_byte(sb, idx as int);
            lemma_boundary_byte(sb, idx + glen);
        }
        let g = substr(slice, idx, idx + glen);
        width = width.wrapping_add(display_width(g));
        if width as u16 >= target_col {
            return start + idx + glen;
        }
        k = k + 1;
    }
    end
}


proof fn lemma_row_of_first(rows: Seq<(int, int)>, c: int, i: int, r: int)
    requires
        0 <= i <= r < rows.len(),
        rows[r].0 <= c <= rows[r].1,
        forall|j: int| 0 <= j < r ==> !(#[trigger] rows[j].0 <= c <= rows[j].1),
    ensures
        row_of(rows, c, i) == Some(r),
    decreases r - i,
{
    if i < r {
        lemma_row_of_first(rows, c, i + 1, r);
    }
}

/// The cursor's position is on the first wrapped row that holds it, and its
/// column is the display width of that row's text before the cursor (a wide
/// char counts its columns, not its bytes).
pub proof fn law_cursor_column_is_display_width(text: Seq<char>, cursor: int, width: u16, r: int)
    requires
        0 <= r < wrap_spec(text, width).len(),
        wrap_spec(text, width)[r].0 <= cursor <= wrap_spec(text, width)[r].1,
        forall|j: int|
            0 <= j < r ==> !(#[trigger] wrap_spec(text, width)[j].0 <= cursor <= wrap_spec(
                text,
                width,
            )[j].1),
    ensures
        cursor_position_spec(text, cursor, width) == (
            r as u16,
            display_width_of(slice_chars(text, wrap_spec(text, width)[r].0, cursor)) as u16,
        ),
{
    lemma_row_of_first(wrap_spec(text, width), cursor, 0, r);
}

/// When the whole text fits on the first row, the cursor at its end stands
/// at the column of the text's display width.
pub proof fn law_end_of_single_row_is_text_width(text: Seq<char>, width: u16)
    requires
        wrap_spec(text, width).len() > 0,
        wrap_spec(text, width)[0] == (0int, utf8(text).len() as int),
    ensures
        cursor_position_spec(text, utf8(text).len() as int, width) == (0u16, display_width_of(text) as u16),
{
    law_cursor_column_is_display_width(text, utf8(text).len() as int, width, 0);
    assert(utf8(text).subrange(0, utf8(text).len() as int) =~= utf8(text));
}

/// Backspace undoes typing a printable ASCII char where the text before the
/// cursor is ASCII: the text and the cursor are back to what they were.
pub proof fn law_backspace_undoes_ascii_insert(
    before: InputBuffer,
    inserted: InputBuffer,
    after: InputBuffer,
    ch: char,
)
    requires
        before.wf(),
        0x20 <= (ch as u32) <= 0x7e,
        forall|i: int|
            0 <= i < slice_chars(before.content(), 0, before.cursor_at()).len() ==> (
            #[trigger] slice_chars(before.content(), 0, before.cursor_at())[i] as u32) < 0x80,
        char_inserted(before, inserted, ch),
        backspaced(inserted, after),
    ensures
        after.content() == before.content(),
        after.cursor_at() == before.cursor_at(),
{
    let k = before.cursor_at();
    let b = before.bytes();
    lemma_split_at_boundary(b, k);
    let x = b.subrange(0, k);
    let y = b.subrange(k, b.len() as int);
    let pre = slice_chars(before.content(), 0, k);
    decode_utf8_encode_utf8(x);
    assert(utf8(pre) == x);
    let e = utf8(seq![ch]);
    assert(seq![ch].drop_first() =~= Seq::<char>::empty());
    assert(encode_utf8(seq![ch].drop_first()) =~= Seq::<u8>::empty());
    assert(e.len() == 1);
    let ib = inserted.bytes();
    assert(ib == x + e + y);
    assert(ib.subrange(0, k + 1) =~= x + e);
    lemma_encode_concat(pre, seq![ch]);
    assert(pre + seq![ch] == pre.push(ch));
    assert(slice_chars(inserted.content(), 0, inserted.cursor_at()) == pre.push(ch));
    if pre.len() > 0 {
        assert(pre.push(ch)[pre.len() - 1] == pre[pre.len() - 1]);
    }
    assert(ends_in_ascii_pair(pre.push(ch)));
    assert(after.bytes() =~= x + y);
    assert(after.bytes() == b);
    decode_utf8_encode_utf8(b);
    assert(after.content() == decode_utf8(after.bytes()));
}


/// Backspace at the start of the text changes nothing.
pub proof fn law_backspace_at_start_changes_nothing(before: InputBuffer, after: InputBuffer)
    requires
        before.wf(),
        before.cursor_at() == 0,
        backspaced(before, after),
    ensures
        after.content() == before.content(),
        after.cursor_at() == 0,
{
}

} // verus!
