//! Soft wrapping of text into display rows.
use core::ops::Range;
use vstd::prelude::*;
use vstd::utf8::*;

use crate::strings::{substr, utf8};
use crate::unicode::{display_width, display_width_of, grapheme_spans, grapheme_spans_of, spans_tile};

verus! {

broadcast use encode_utf8_valid_utf8, encode_utf8_decode_utf8;

/// The bytes of the grapheme at `sp` in `text`.
pub open spec fn span_bytes(text: Seq<char>, sp: (usize, usize)) -> Seq<u8> {
    utf8(text).subrange(sp.0 as int, sp.0 + sp.1)
}

/// The display width of the grapheme at `sp` in `text`.
pub open spec fn span_width(text: Seq<char>, sp: (usize, usize)) -> int {
    display_width_of(decode_utf8(span_bytes(text, sp))) as int
}

/// The grapheme at `sp` is a single line feed.
pub open spec fn span_is_newline(text: Seq<char>, sp: (usize, usize)) -> bool {
    span_bytes(text, sp) == seq![10u8]
}

/// `a + b`, saturated at `usize::MAX`.
pub open spec fn sat_add(a: int, b: int) -> int {
    if a + b > usize::MAX {
        usize::MAX as int
    } else {
        a + b
    }
}

/// The wrapping state after the first `k` graphemes of `text`: the rows closed
/// so far, the byte offset where the open row starts, and its width so far.
/// A line feed closes the row before it; a grapheme that would push a non-empty
/// row past `max_width` starts a new row.
pub open spec fn wrap_state(text: Seq<char>, max_width: int, k: nat) -> (Seq<(int, int)>, int, int)
    decreases k,
{
    if k == 0 {
        (seq![], 0, 0)
    } else {
        let prev = wrap_state(text, max_width, (k - 1) as nat);
        let sp = grapheme_spans_of(text)[k - 1];
        let idx = sp.0 as int;
        if span_is_newline(text, sp) {
            (prev.0.push((prev.1, idx)), idx + sp.1, 0)
        } else {
            let g = span_width(text, sp);
            if prev.2 + g > max_width && prev.1 < idx {
                (prev.0.push((prev.1, idx)), idx, sat_add(0, g))
            } else {
                (prev.0, prev.1, sat_add(prev.2, g))
            }
        }
    }
}

/// The rows (as byte ranges) that `text` wraps into at `width` columns
/// (a width of 0 counts as 1).
pub open spec fn wrap_spec(text: Seq<char>, width: u16) -> Seq<(int, int)> {
    let max_width: int = if width >= 1 {
        width as int
    } else {
        1
    };
    let st = wrap_state(text, max_width, grapheme_spans_of(text).len());
    let rows = if st.1 <= utf8(text).len() {
        st.0.push((st.1, utf8(text).len() as int))
    } else {
        st.0
    };
    if rows.len() == 0 {
        seq![(0int, 0int)]
    } else {
        rows
    }
}

/// The ranges as pairs of integers.
pub open spec fn range_pairs(v: Seq<Range<usize>>) -> Seq<(int, int)> {
    v.map_values(|r: Range<usize>| (r.start as int, r.end as int))
}

/// Every row is a well-ordered byte range of `bytes` between char boundaries,
/// and the rows follow one another in order.
pub open spec fn rows_well_formed(rows: Seq<(int, int)>, bytes: Seq<u8>) -> bool {
    &&& forall|i: int|
        0 <= i < rows.len() ==> {
            &&& 0 <= #[trigger] rows[i].0 <= rows[i].1 <= bytes.len()
            &&& is_char_boundary(bytes, rows[i].0)
            &&& is_char_boundary(bytes, rows[i].1)
        }
    &&& forall|i: int| 0 <= i < rows.len() - 1 ==> #[trigger] rows[i].1 <= rows[i + 1].0
}

/// A row ending at `r.1` is followed by one starting at `next`: right after
/// it, or after the single line feed byte that ends it.
pub open spec fn joined(r: (int, int), next: int, bytes: Seq<u8>) -> bool {
    r.1 == next || (r.1 + 1 == next && bytes[r.1] == 10)
}

/// The rows cover the text: the first starts at its start, the last ends at
/// its end, and each follows the one before it directly or after a line feed.
pub open spec fn rows_cover(rows: Seq<(int, int)>, bytes: Seq<u8>) -> bool {
    &&& rows.len() > 0
    &&& rows[0].0 == 0
    &&& rows.last().1 == bytes.len()
    &&& forall|i: int| 0 <= i < rows.len() - 1 ==> joined(#[trigger] rows[i], rows[i + 1].0, bytes)
}

/// No row holds a grapheme that is a line feed.
pub open spec fn no_row_holds_line_feed(rows: Seq<(int, int)>, text: Seq<char>) -> bool {
    forall|k: int, i: int|
        0 <= k < grapheme_spans_of(text).len() && #[trigger] span_is_newline(
            text,
            grapheme_spans_of(text)[k],
        ) && 0 <= i < rows.len() ==> !(#[trigger] rows[i].0 <= grapheme_spans_of(text)[k].0
            < rows[i].1)
}

/// The display width of graphemes `j..k` of `text`, summed (saturating at
/// `usize::MAX`, as the wrapping sums them).
pub open spec fn widths(text: Seq<char>, j: int, k: int) -> int
    decreases k - j,
{
    if k <= j {
        0
    } else {
        sat_add(widths(text, j, k - 1), span_width(text, grapheme_spans_of(text)[k - 1]))
    }
}

/// Row `r` holds graphemes `j..k` of `text`.
pub open spec fn row_holds(text: Seq<char>, r: (int, int), j: int, k: int) -> bool {
    let spans = grapheme_spans_of(text);
    &&& 0 <= j <= k <= spans.len()
    &&& grapheme_pos(spans, j, utf8(text).len() as int) == r.0
    &&& grapheme_pos(spans, k, utf8(text).len() as int) == r.1
}

/// Row `r` fits in `max_width` columns or holds a single grapheme.
pub open spec fn row_fits(text: Seq<char>, r: (int, int), max_width: int) -> bool {
    exists|j: int, k: int|
        #[trigger] row_holds(text, r, j, k) && (widths(text, j, k) <= max_width || k == j + 1)
}

/// The grapheme right after row `r` would not fit in the row.
pub open spec fn next_does_not_fit(text: Seq<char>, r: (int, int), max_width: int) -> bool {
    exists|j: int, k: int|
        #[trigger] row_holds(text, r, j, k) && k < grapheme_spans_of(text).len() && widths(text, j, k)
            + span_width(text, grapheme_spans_of(text)[k]) > max_width
}

/// Each row fits in `max_width` columns or holds a single grapheme, and a
/// row ends where the next begins (not at a line feed) only because the
/// grapheme after it would not fit.
pub open spec fn rows_fit(rows: Seq<(int, int)>, text: Seq<char>, max_width: int) -> bool {
    &&& forall|i: int| 0 <= i < rows.len() ==> row_fits(text, #[trigger] rows[i], max_width)
    &&& forall|i: int|
        0 <= i < rows.len() - 1 && #[trigger] rows[i].1 == rows[i + 1].0 ==> next_does_not_fit(
            text,
            rows[i],
            max_width,
        )
}

/// The byte offset where grapheme `k` starts, or the end of the text.
pub open spec fn grapheme_pos(spans: Seq<(usize, usize)>, k: int, len: int) -> int {
    if k < spans.len() {
        spans[k].0 as int
    } else {
        len
    }
}

/// The tiling of the text's graphemes, as offsets: each starts where the one
/// before it ends, and all lie within the text.
proof fn lemma_positions(spans: Seq<(usize, usize)>, b: Seq<u8>, k: int)
    requires
        spans_tile(spans, b),
        0 <= k <= spans.len(),
    ensures
        0 <= grapheme_pos(spans, k, b.len() as int) <= b.len(),
        k < spans.len() ==> grapheme_pos(spans, k + 1, b.len() as int) == spans[k].0 + spans[k].1,
        k < spans.len() ==> spans[k].1 > 0,
    decreases spans.len() - k,
{
    if k < spans.len() {
        if k + 1 < spans.len() {
            assert(spans[k + 1].0 == spans[k].0 + spans[k].1);
        } else {
            assert(spans.last() == spans[k]);
        }
        lemma_positions(spans, b, k + 1);
        assert(spans[k].1 > 0);
    } else if spans.len() == 0 {
        assert(b.len() == 0);
    }
}

/// After the first `k` graphemes, the closed rows start at the text's start,
/// each follows the one before directly or after a line feed, the open row
/// follows the last closed one in the same way and starts no later than
/// grapheme `k`, and every line feed grapheme seen lies before the open row
/// and in no closed row.
proof fn lemma_wrap_state_shape(text: Seq<char>, max_width: int, k: nat)
    requires
        spans_tile(grapheme_spans_of(text), utf8(text)),
        k <= grapheme_spans_of(text).len(),
    ensures
        ({
            let spans = grapheme_spans_of(text);
            let b = utf8(text);
            let (rows, start, w) = wrap_state(text, max_width, k);
            &&& 0 <= start <= grapheme_pos(spans, k as int, b.len() as int)
            &&& rows.len() == 0 ==> start == 0
            &&& rows.len() > 0 ==> rows[0].0 == 0 && joined(rows.last(), start, b)
            &&& forall|i: int| 0 <= i < rows.len() - 1 ==> joined(#[trigger] rows[i], rows[i + 1].0, b)
            &&& forall|i: int| 0 <= i < rows.len() ==> #[trigger] rows[i].0 <= rows[i].1 <= start
            &&& forall|j: int|
                0 <= j < k && #[trigger] span_is_newline(text, spans[j]) ==> spans[j].0 < start
                    && forall|i: int|
                    0 <= i < rows.len() ==> !(#[trigger] rows[i].0 <= spans[j].0 < rows[i].1)
        }),
    decreases k,
{
    let spans = grapheme_spans_of(text);
    let b = utf8(text);
    if k > 0 {
        let km: int = k - 1;
        lemma_wrap_state_shape(text, max_width, (k - 1) as nat);
        lemma_positions(spans, b, km);
        lemma_positions(spans, b, k as int);
        let prev = wrap_state(text, max_width, (k - 1) as nat);
        let sp = spans[km];
        let idx = sp.0 as int;
        assert(grapheme_pos(spans, km, b.len() as int) == idx);
        if span_is_newline(text, sp) {
            assert(span_bytes(text, sp).len() == 1);
            assert(span_bytes(text, sp)[0] == b[idx]);
            let rows = prev.0.push((prev.1, idx));
            assert(rows.last() == (prev.1, idx));
            assert forall|i: int| 0 <= i < rows.len() - 1 implies joined(
                #[trigger] rows[i],
                rows[i + 1].0,
                b,
            ) by {
                if i < prev.0.len() - 1 {
                    assert(rows[i] == prev.0[i] && rows[i + 1] == prev.0[i + 1]);
                } else {
                    assert(rows[i] == prev.0.last());
                }
            }
            assert forall|i: int| 0 <= i < rows.len() implies #[trigger] rows[i].0 <= rows[i].1 <= idx + 1 by {
                if i < prev.0.len() {
                    assert(rows[i] == prev.0[i]);
                }
            }
            assert forall|j: int|
                0 <= j < k && #[trigger] span_is_newline(text, spans[j]) implies spans[j].0 < idx + 1
                && forall|i: int|
                0 <= i < rows.len() ==> !(#[trigger] rows[i].0 <= spans[j].0 < rows[i].1) by {
                if j < km {
                    lemma_positions(spans, b, j);
                    assert forall|i: int| 0 <= i < rows.len() implies !(#[trigger] rows[i].0
                        <= spans[j].0 < rows[i].1) by {
                        if i < prev.0.len() {
                            assert(rows[i] == prev.0[i]);
                        }
                    }
                } else {
                    assert forall|i: int| 0 <= i < rows.len() implies !(#[trigger] rows[i].0
                        <= spans[j].0 < rows[i].1) by {
                        if i < prev.0.len() {
                            assert(rows[i] == prev.0[i]);
                        }
                    }
                }
            }
        } else {
            let g = span_width(text, sp);
            if prev.2 + g > max_width && prev.1 < idx {
                let rows = prev.0.push((prev.1, idx));
                assert(rows.last() == (prev.1, idx));
                assert forall|i: int| 0 <= i < rows.len() - 1 implies joined(
                    #[trigger] rows[i],
                    rows[i + 1].0,
                    b,
                ) by {
                    if i < prev.0.len() - 1 {
                        assert(rows[i] == prev.0[i] && rows[i + 1] == prev.0[i + 1]);
                    } else {
                        assert(rows[i] == prev.0.last());
                    }
                }
                assert forall|i: int| 0 <= i < rows.len() implies #[trigger] rows[i].0 <= rows[i].1 <= idx by {
                    if i < prev.0.len() {
                        assert(rows[i] == prev.0[i]);
                    }
                }
                assert forall|j: int|
                    0 <= j < k && #[trigger] span_is_newline(text, spans[j]) implies spans[j].0 < idx
                    && forall|i: int|
                    0 <= i < rows.len() ==> !(#[trigger] rows[i].0 <= spans[j].0 < rows[i].1) by {
                    assert forall|i: int| 0 <= i < rows.len() implies !(#[trigger] rows[i].0
                        <= spans[j].0 < rows[i].1) by {
                        if i < prev.0.len() {
                            assert(rows[i] == prev.0[i]);
                        }
                    }
                }
            }
        }
    }
}

/// The rows of `wrap_spec` cover the text and hold no line feed grapheme.
proof fn lemma_wrap_spec_shape(text: Seq<char>, width: u16)
    requires
        spans_tile(grapheme_spans_of(text), utf8(text)),
    ensures
        rows_cover(wrap_spec(text, width), utf8(text)),
        no_row_holds_line_feed(wrap_spec(text, width), text),
{
    let spans = grapheme_spans_of(text);
    let b = utf8(text);
    let max_width: int = if width >= 1 {
        width as int
    } else {
        1
    };
    let n = spans.len();
    lemma_wrap_state_shape(text, max_width, n);
    lemma_positions(spans, b, n as int);
    let st = wrap_state(text, max_width, n);
    let rows = st.0.push((st.1, b.len() as int));
    assert(wrap_spec(text, width) == rows);
    assert forall|i: int| 0 <= i < rows.len() - 1 implies joined(#[trigger] rows[i], rows[i + 1].0, b) by {
        if i < st.0.len() - 1 {
            assert(rows[i] == st.0[i] && rows[i + 1] == st.0[i + 1]);
        } else {
            assert(rows[i] == st.0.last());
        }
    }
    assert forall|k: int, i: int|
        0 <= k < spans.len() && #[trigger] span_is_newline(text, spans[k]) && 0 <= i < rows.len()
        implies !(#[trigger] rows[i].0 <= spans[k].0 < rows[i].1) by {
        if i < st.0.len() {
            assert(rows[i] == st.0[i]);
        }
    }
}

/// Grapheme offsets strictly increase.
proof fn lemma_positions_increase(spans: Seq<(usize, usize)>, b: Seq<u8>, j: int, k: int)
    requires
        spans_tile(spans, b),
        0 <= j < k <= spans.len(),
    ensures
        grapheme_pos(spans, j, b.len() as int) < grapheme_pos(spans, k, b.len() as int),
    decreases k - j,
{
    lemma_positions(spans, b, j);
    if j + 1 < k {
        lemma_positions_increase(spans, b, j + 1, k);
    }
}

/// The widths the wrapping tracks: after the first `k` graphemes the open
/// row holds graphemes `j0..k` and its width so far is theirs; with `ids`,
/// the graphemes each closed row holds, every row fits or holds one
/// grapheme, and a row closed where the next starts was closed because the
/// next grapheme did not fit.
proof fn lemma_wrap_state_widths(text: Seq<char>, max_width: int, k: nat) -> (r: (int, Seq<(int, int)>))
    requires
        spans_tile(grapheme_spans_of(text), utf8(text)),
        k <= grapheme_spans_of(text).len(),
        max_width >= 1,
    ensures
        ({
            let spans = grapheme_spans_of(text);
            let b = utf8(text);
            let (rows, start, w) = wrap_state(text, max_width, k);
            let (j0, ids) = r;
            &&& 0 <= j0 <= k
            &&& grapheme_pos(spans, j0, b.len() as int) == start
            &&& w == widths(text, j0, k as int)
            &&& w <= max_width || k == j0 + 1
            &&& ids.len() == rows.len()
            &&& forall|i: int|
                0 <= i < rows.len() ==> #[trigger] row_holds(text, rows[i], ids[i].0, ids[i].1) && (
                widths(text, ids[i].0, ids[i].1) <= max_width || ids[i].1 == ids[i].0 + 1)
            &&& forall|i: int|
                0 <= i < rows.len() && #[trigger] rows[i].1 == (if i + 1 < rows.len() {
                    rows[i + 1].0
                } else {
                    start
                }) ==> ids[i].1 < spans.len() && widths(text, ids[i].0, ids[i].1) + span_width(
                    text,
                    spans[ids[i].1],
                ) > max_width
        }),
    decreases k,
{
    let spans = grapheme_spans_of(text);
    let b = utf8(text);
    if k == 0 {
        return (0, Seq::empty());
    }
    let km: int = k - 1;
    let (j0, ids) = lemma_wrap_state_widths(text, max_width, (k - 1) as nat);
    lemma_wrap_state_shape(text, max_width, (k - 1) as nat);
    lemma_positions(spans, b, km);
    let prev = wrap_state(text, max_width, (k - 1) as nat);
    let sp = spans[km];
    let idx = sp.0 as int;
    assert(grapheme_pos(spans, km, b.len() as int) == idx);
    if span_is_newline(text, sp) {
        assert(span_bytes(text, sp).len() == 1);
        let rows = prev.0.push((prev.1, idx));
        let nids = ids.push((j0, km));
        assert(row_holds(text, (prev.1, idx), j0, km));
        assert forall|i: int| 0 <= i < rows.len() implies #[trigger] row_holds(
            text,
            rows[i],
            nids[i].0,
            nids[i].1,
        ) && (widths(text, nids[i].0, nids[i].1) <= max_width || nids[i].1 == nids[i].0 + 1) by {
            if i < prev.0.len() {
                assert(rows[i] == prev.0[i] && nids[i] == ids[i]);
            }
        }
        assert forall|i: int|
            0 <= i < rows.len() && #[trigger] rows[i].1 == (if i + 1 < rows.len() {
                rows[i + 1].0
            } else {
                idx + 1
            }) implies nids[i].1 < spans.len() && widths(text, nids[i].0, nids[i].1) + span_width(
            text,
            spans[nids[i].1],
        ) > max_width by {
            if i < prev.0.len() {
                assert(rows[i] == prev.0[i] && nids[i] == ids[i]);
                if i + 1 < prev.0.len() {
                    assert(rows[i + 1] == prev.0[i + 1]);
                } else {
                    assert(rows[i + 1] == (prev.1, idx));
                }
            }
        }
        lemma_positions(spans, b, k as int);
        return (k as int, nids);
    } else {
        let g = span_width(text, sp);
        if prev.2 + g > max_width && prev.1 < idx {
            let rows = prev.0.push((prev.1, idx));
            let nids = ids.push((j0, km));
            assert(j0 <= km) by {
                if j0 == k as int {
                    assert(grapheme_pos(spans, j0, b.len() as int) >= idx) by {
                        lemma_positions(spans, b, k as int);
                    }
                }
            }
            assert(row_holds(text, (prev.1, idx), j0, km));
            assert forall|i: int| 0 <= i < rows.len() implies #[trigger] row_holds(
                text,
                rows[i],
                nids[i].0,
                nids[i].1,
            ) && (widths(text, nids[i].0, nids[i].1) <= max_width || nids[i].1 == nids[i].0 + 1) by {
                if i < prev.0.len() {
                    assert(rows[i] == prev.0[i] && nids[i] == ids[i]);
                }
            }
            assert forall|i: int|
                0 <= i < rows.len() && #[trigger] rows[i].1 == (if i + 1 < rows.len() {
                    rows[i + 1].0
                } else {
                    idx
                }) implies nids[i].1 < spans.len() && widths(text, nids[i].0, nids[i].1) + span_width(
                text,
                spans[nids[i].1],
            ) > max_width by {
                if i < prev.0.len() {
                    assert(rows[i] == prev.0[i] && nids[i] == ids[i]);
                    if i + 1 < prev.0.len() {
                        assert(rows[i + 1] == prev.0[i + 1]);
                    } else {
                        assert(rows[i + 1] == (prev.1, idx));
                    }
                }
            }
            assert(widths(text, km, km) == 0);
            assert(widths(text, km, k as int) == sat_add(0, g));
            return (km, nids);
        } else {
            assert(j0 <= km) by {
                if j0 == k as int {
                    lemma_positions(spans, b, k as int);
                }
            }
            if prev.1 >= idx {
                assert(j0 == km) by {
                    if j0 < km {
                        lemma_positions_increase(spans, b, j0, km);
                    }
                }
            }
            assert(widths(text, j0, k as int) == sat_add(widths(text, j0, km), g));
            return (j0, ids);
        }
    }
}

/// The rows of `wrap_spec` fit (see [`rows_fit`]).
proof fn lemma_wrap_spec_fit(text: Seq<char>, width: u16)
    requires
        spans_tile(grapheme_spans_of(text), utf8(text)),
    ensures
        rows_fit(
            wrap_spec(text, width),
            text,
            if width >= 1 {
                width as int
            } else {
                1
            },
        ),
{
    let spans = grapheme_spans_of(text);
    let b = utf8(text);
    let max_width: int = if width >= 1 {
        width as int
    } else {
        1
    };
    let n = spans.len();
    let (j0, ids) = lemma_wrap_state_widths(text, max_width, n);
    lemma_wrap_state_shape(text, max_width, n);
    lemma_positions(spans, b, n as int);
    let st = wrap_state(text, max_width, n);
    let rows = st.0.push((st.1, b.len() as int));
    let all = ids.push((j0, n as int));
    assert(wrap_spec(text, width) == rows);
    assert(row_holds(text, (st.1, b.len() as int), j0, n as int));
    assert forall|i: int| 0 <= i < rows.len() implies row_fits(text, #[trigger] rows[i], max_width) by {
        if i < st.0.len() {
            assert(rows[i] == st.0[i] && all[i] == ids[i]);
        } else {
            assert(rows[i] == (st.1, b.len() as int) && all[i] == (j0, n as int));
        }
        assert(row_holds(text, rows[i], all[i].0, all[i].1));
    }
    assert forall|i: int|
        0 <= i < rows.len() - 1 && #[trigger] rows[i].1 == rows[i + 1].0 implies next_does_not_fit(
        text,
        rows[i],
        max_width,
    ) by {
        assert(rows[i] == st.0[i]);
        if i + 1 < st.0.len() {
            assert(rows[i + 1] == st.0[i + 1]);
        } else {
            assert(rows[i + 1] == (st.1, b.len() as int));
        }
        assert(st.0[i].1 == (if i + 1 < st.0.len() {
            st.0[i + 1].0
        } else {
            st.1
        }));
        assert(row_holds(text, rows[i], ids[i].0, ids[i].1));
    }
    assert(rows_fit(rows, text, max_width));
}

/// Splits `text` into display rows no wider than `width` columns (at least one
/// column), breaking at line feeds and between graphemes.
pub fn wrap_ranges(text: &str, width: u16) -> (ranges: Vec<Range<usize>>)
    ensures
        range_pairs(ranges@) == wrap_spec(text@, width),
        ranges.len() >= 1,
        rows_well_formed(range_pairs(ranges@), utf8(text@)),
        range_pairs(ranges@).last().1 == utf8(text@).len(),
        rows_cover(range_pairs(ranges@), utf8(text@)),
        no_row_holds_line_feed(range_pairs(ranges@), text@),
        rows_fit(
            range_pairs(ranges@),
            text@,
            if width >= 1 {
                width as int
            } else {
                1
            },
        ),
{
    let max_width: usize = if width >= 1 {
        width as usize
    } else {
        1
    };
    let bytes = text.as_bytes();
    let ghost b = utf8(text@);
    assert(bytes@ == b);
    let spans = grapheme_spans(text);
    let n = spans.len();
    let mut ranges: Vec<Range<usize>> = Vec::new();
    let mut line_start: usize = 0;
    let mut line_width: usize = 0;
    let mut k: usize = 0;
    proof {
        is_char_boundary_start_end_of_seq(b);
    }
    while k < n
        invariant
            0 <= k <= n,
            n == spans@.len(),
            bytes@ == b,
            b == utf8(text@),
            spans@ == grapheme_spans_of(text@),
            spans_tile(spans@, b),
            max_width == (if width >= 1 {
                width as int
            } else {
                1
            }),
            wrap_state(text@, max_width as int, k as nat) == (
                range_pairs(ranges@),
                line_start as int,
                line_width as int,
            ),
            rows_well_formed(range_pairs(ranges@), b),
            line_start <= grapheme_pos(spans@, k as int, b.len() as int),
            is_char_boundary(b, line_start as int),
            range_pairs(ranges@).len() > 0 ==> range_pairs(ranges@).last().1 <= line_start,
        decreases n - k,
    {
        let (idx, glen) = spans[k];
        proof {
            is_char_boundary_start_end_of_seq(b);
            assert(spans@[k as int].1 > 0);
            if k + 1 < n {
                assert(spans@[k + 1].0 == spans@[k as int].0 + spans@[k as int].1);
                assert(is_char_boundary(b, spans@[k + 1].0 as int));
            } else {
                assert(spans@.last() == spans@[k as int]);
            }
        }
        let ghost next_pos = grapheme_pos(spans@, k + 1, b.len() as int);
        assert(next_pos == idx + glen);
        proof {
            crate::utf8_facts::lemma_boundary_byte(b, next_pos);
            crate::utf8_facts::lemma_boundary_byte(b, idx as int);
        }
        assert(idx + glen <= bytes.len());
        assert(is_char_boundary(b, idx as int));
        assert(is_char_boundary(b, next_pos));
        let ghost old_pairs = range_pairs(ranges@);
        let is_newline = glen == 1 && bytes[idx] == 10u8;
        assert(span_bytes(text@, spans@[k as int]).len() == glen);
        assert(is_newline == span_is_newline(text@, spans@[k as int])) by {
            if glen == 1 {
                assert(span_bytes(text@, spans@[k as int])[0] == b[idx as int]);
                assert(span_bytes(text@, spans@[k as int]) =~= seq![b[idx as int]]);
            }
        }
        if is_newline {
            ranges.push(Range { start: line_start, end: idx });
            assert(range_pairs(ranges@) =~= old_pairs.push((line_start as int, idx as int)));
            line_start = idx + glen;
            line_width = 0;
        } else {
            let g = substr(text, idx, idx + glen);
            let g_width = display_width(g);
            assert(g_width == span_width(text@, spans@[k as int]));
            let exceeds = g_width > max_width || line_width > max_width - g_width;
            assert(exceeds == (line_width + g_width > max_width));
            if exceeds && line_start < idx {
                ranges.push(Range { start: line_start, end: idx });
                assert(range_pairs(ranges@) =~= old_pairs.push((line_start as int, idx as int)));
                line_start = idx;
                line_width = 0;
            }
            line_width = line_width.saturating_add(g_width);
        }
        k = k + 1;
    }
    let ghost before = range_pairs(ranges@);
    ranges.push(Range { start: line_start, end: bytes.len() });
    assert(range_pairs(ranges@) =~= before.push((line_start as int, b.len() as int)));
    proof {
        is_char_boundary_start_end_of_seq(b);
        lemma_wrap_spec_shape(text@, width);
        lemma_wrap_spec_fit(text@, width);
    }
    ranges
}

} // verus!
