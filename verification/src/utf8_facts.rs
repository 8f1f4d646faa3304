//! Facts about UTF-8 encodings of char sequences: concatenation and char boundaries.
use vstd::prelude::*;
use vstd::utf8::*;

verus! {

broadcast use encode_utf8_valid_utf8, encode_utf8_decode_utf8;

/// Encoding distributes over concatenation.
pub proof fn lemma_encode_concat(a: Seq<char>, b: Seq<char>)
    ensures
        encode_utf8(a + b) == encode_utf8(a) + encode_utf8(b),
    decreases a.len(),
{
    if a.len() == 0 {
        assert(a + b =~= b);
        assert(encode_utf8(a) =~= Seq::<u8>::empty());
        assert(encode_utf8(a) + encode_utf8(b) =~= encode_utf8(b));
    } else {
        assert((a + b).drop_first() =~= a.drop_first() + b);
        assert((a + b)[0] == a[0]);
        lemma_encode_concat(a.drop_first(), b);
        assert(encode_utf8(a + b) =~= encode_scalar(a[0] as u32) + (encode_utf8(a.drop_first())
            + encode_utf8(b)));
    }
}

/// A byte position inside a valid UTF-8 sequence (strictly between its ends)
/// is a char boundary exactly when the byte there is not a continuation byte.
pub proof fn lemma_boundary_byte(bytes: Seq<u8>, i: int)
    requires
        valid_utf8(bytes),
    ensures
        is_char_boundary(bytes, i) <==> (i == 0 || i == bytes.len() || (0 < i < bytes.len()
            && !is_continuation_byte(bytes[i]))),
{
    is_char_boundary_start_end_of_seq(bytes);
    if 0 <= i < bytes.len() {
        is_char_boundary_iff_not_is_continuation_byte(bytes, i);
    } else if i != bytes.len() {
        reveal_with_fuel(is_char_boundary, 1);
    }
}

/// The char boundaries of a concatenation of two valid UTF-8 sequences are those of each part.
pub proof fn lemma_boundary_concat(x: Seq<u8>, y: Seq<u8>, i: int)
    requires
        valid_utf8(x),
        valid_utf8(y),
    ensures
        valid_utf8(x + y),
        is_char_boundary(x + y, i) <==> ((0 <= i <= x.len() && is_char_boundary(x, i)) || (
        x.len() <= i <= x.len() + y.len() && is_char_boundary(y, i - x.len()))),
{
    valid_utf8_concat(x, y);
    let xy = x + y;
    lemma_boundary_byte(xy, i);
    lemma_boundary_byte(x, i);
    lemma_boundary_byte(y, i - x.len());
    lemma_boundary_byte(y, 0);
    if y.len() > 0 {
        assert(xy[x.len() as int] == y[0]);
        lemma_boundary_byte(y, 0);
        is_char_boundary_iff_not_is_continuation_byte(y, 0);
        is_char_boundary_start_end_of_seq(y);
    }
    if 0 <= i < x.len() {
        assert(xy[i] == x[i]);
    }
    if x.len() <= i < x.len() + y.len() {
        assert(xy[i] == y[i - x.len()]);
    }
}

/// Splitting a valid UTF-8 sequence at a char boundary gives two valid sequences
/// whose boundaries are those of the whole, shifted.
pub proof fn lemma_split_at_boundary(b: Seq<u8>, m: int)
    requires
        valid_utf8(b),
        is_char_boundary(b, m),
    ensures
        0 <= m <= b.len(),
        valid_utf8(b.subrange(0, m)),
        valid_utf8(b.subrange(m, b.len() as int)),
        b.subrange(0, m) + b.subrange(m, b.len() as int) == b,
        forall|i: int|
            0 <= i <= m ==> (#[trigger] is_char_boundary(b.subrange(0, m), i)
                <==> is_char_boundary(b, i)),
        forall|i: int|
            0 <= i <= b.len() - m ==> (#[trigger] is_char_boundary(b.subrange(m, b.len() as int), i)
                <==> is_char_boundary(b, m + i)),
{
    lemma_boundary_byte(b, m);
    valid_utf8_split(b, m);
    let x = b.subrange(0, m);
    let y = b.subrange(m, b.len() as int);
    assert(x + y =~= b);
    assert forall|i: int| 0 <= i <= m implies (#[trigger] is_char_boundary(x, i)
        <==> is_char_boundary(b, i)) by {
        lemma_boundary_concat(x, y, i);
        is_char_boundary_start_end_of_seq(x);
        is_char_boundary_start_end_of_seq(y);
    }
    assert forall|i: int|
        0 <= i <= b.len() - m implies (#[trigger] is_char_boundary(y, i) <==> is_char_boundary(
        b,
        m + i,
    )) by {
        lemma_boundary_concat(x, y, m + i);
        lemma_boundary_byte(x, m);
    }
}

/// The bytes between two char boundaries of a valid UTF-8 sequence form a valid
/// sequence whose char boundaries are those of the whole, shifted.
pub proof fn lemma_sub_boundary(b: Seq<u8>, s: int, e: int)
    requires
        valid_utf8(b),
        s <= e,
        is_char_boundary(b, s),
        is_char_boundary(b, e),
    ensures
        0 <= s <= e <= b.len(),
        valid_utf8(b.subrange(s, e)),
        forall|j: int|
            0 <= j <= e - s ==> (#[trigger] is_char_boundary(b.subrange(s, e), j)
                <==> is_char_boundary(b, s + j)),
{
    lemma_split_at_boundary(b, s);
    let y = b.subrange(s, b.len() as int);
    assert(is_char_boundary(y, e - s));
    lemma_split_at_boundary(y, e - s);
    assert(y.subrange(0, e - s) =~= b.subrange(s, e));
}

/// In valid UTF-8, the position after an ASCII byte that starts a char is a char boundary.
pub proof fn lemma_ascii_next_boundary(b: Seq<u8>, i: int)
    requires
        valid_utf8(b),
        0 <= i < b.len(),
        is_char_boundary(b, i),
        b[i] < 0x80,
    ensures
        is_char_boundary(b, i + 1),
{
    lemma_split_at_boundary(b, i);
    let y = b.subrange(i, b.len() as int);
    assert(y[0] == b[i]);
    assert(length_of_first_scalar(y) == 1);
    let rest = pop_first_scalar(y);
    assert(valid_utf8(rest));
    lemma_boundary_byte(b, i + 1);
    if i + 1 < b.len() {
        assert(rest[0] == b[i + 1]);
        is_char_boundary_iff_not_is_continuation_byte(rest, 0);
        is_char_boundary_start_end_of_seq(rest);
    }
}

} // verus!
