//! Calls into `std` string operations that vstd leaves unspecified, each stated
//! over the UTF-8 encoding of the string's chars, as the std documentation gives it.
use vstd::prelude::*;
use vstd::utf8::*;

verus! {

broadcast use encode_utf8_valid_utf8, encode_utf8_decode_utf8;

/// The UTF-8 bytes of a char sequence.
pub open spec fn utf8(s: Seq<char>) -> Seq<u8> {
    encode_utf8(s)
}

/// The chars of an optional string.
pub open spec fn opt_view(o: Option<String>) -> Option<Seq<char>> {
    match o {
        Some(s) => Some(s@),
        None => None,
    }
}

/// `str::len`: the number of bytes in the UTF-8 encoding, as a `usize`.
pub open spec fn byte_len(s: Seq<char>) -> usize {
    utf8(s).len() as usize
}

/// Inserts `v` at byte index `idx` (a char boundary): the string's bytes
/// become those before `idx`, then the bytes of `v`, then those from `idx` on.
pub(crate) fn string_insert_str(s: &mut String, idx: usize, v: &str)
    requires
        is_char_boundary(utf8(old(s)@), idx as int),
    ensures
        utf8(final(s)@) == utf8(old(s)@).subrange(0, idx as int) + utf8(v@) + utf8(
            old(s)@,
        ).subrange(idx as int, utf8(old(s)@).len() as int),
{
    let ghost b = utf8(s@);
    let len = s.as_str().as_bytes().len();
    proof {
        is_char_boundary_start_end_of_seq(b);
    }
    let mut out = String::from_str(substr(s.as_str(), 0, idx));
    let ghost a = out@;
    out.append(v);
    let ghost av = out@;
    let tail = substr(s.as_str(), idx, len);
    out.append(tail);
    proof {
        crate::utf8_facts::lemma_encode_concat(a, v@);
        crate::utf8_facts::lemma_encode_concat(av, tail@);
    }
    *s = out;
}

/// `String::insert`: the char's encoding is placed at byte index `idx`, which
/// must be a char boundary (the std documentation says it panics otherwise).
#[verifier::external_body]
pub(crate) fn string_insert_char(s: &mut String, idx: usize, c: char)
    requires
        is_char_boundary(utf8(old(s)@), idx as int),
    ensures
        utf8(final(s)@) == utf8(old(s)@).subrange(0, idx as int) + utf8(seq![c]) + utf8(
            old(s)@,
        ).subrange(idx as int, utf8(old(s)@).len() as int),
{
    s.insert(idx, c)
}

/// Removes the bytes in `start..end`, both char boundaries.
pub(crate) fn string_remove_range(s: &mut String, start: usize, end: usize)
    requires
        start <= end,
        is_char_boundary(utf8(old(s)@), start as int),
        is_char_boundary(utf8(old(s)@), end as int),
    ensures
        utf8(final(s)@) == utf8(old(s)@).subrange(0, start as int) + utf8(old(s)@).subrange(
            end as int,
            utf8(old(s)@).len() as int,
        ),
{
    let ghost b = utf8(s@);
    let len = s.as_str().as_bytes().len();
    proof {
        is_char_boundary_start_end_of_seq(b);
        crate::utf8_facts::lemma_split_at_boundary(b, end as int);
    }
    let mut out = String::from_str(substr(s.as_str(), 0, start));
    let ghost a = out@;
    let tail = substr(s.as_str(), end, len);
    out.append(tail);
    proof {
        crate::utf8_facts::lemma_encode_concat(a, tail@);
    }
    *s = out;
}

/// The chars of `s`, in order.
pub(crate) fn chars_of(s: &str) -> (v: Vec<char>)
    ensures
        v@ == s@,
{
    broadcast use vstd::string::axiom_spec_iter, vstd::string::next_postcondition;

    let mut v: Vec<char> = Vec::new();
    for c in it: s.chars()
        invariant
            v@ == it.seq().subrange(0, it.index() as int),
    {
        v.push(c);
    }
    v
}

/// `String::from_iter` over chars: the string made of exactly these chars.
#[verifier::external_body]
pub(crate) fn string_from_chars(v: &[char]) -> (s: String)
    ensures
        s@ == v@,
{
    String::from_iter(v.iter())
}

/// What `str::to_lowercase` gives: the lowercase equivalent of each char, by
/// the Unicode `Lowercase` property and its special cases.
pub uninterp spec fn lowercase_of(s: Seq<char>) -> Seq<char>;

/// `str::to_lowercase`: the string as `lowercase_of` names it.
#[verifier::external_body]
pub(crate) fn to_lowercase(s: &str) -> (r: String)
    ensures
        r@ == lowercase_of(s@),
{
    s.to_lowercase()
}

/// The number of bytes in the UTF-8 encoding of `c`.
pub fn char_utf8_len(c: char) -> (n: usize)
    ensures
        n == utf8(seq![c]).len(),
        1 <= n <= 4,
{
    let v = c as u32;
    proof {
        char_is_scalar(c);
        assert(seq![c].drop_first() =~= Seq::<char>::empty());
        assert(encode_utf8(seq![c].drop_first()) =~= Seq::<u8>::empty());
        assert(seq![c][0] == c);
        assert(utf8(seq![c]) =~= encode_scalar(c as u32));
    }
    if v <= 0x7f {
        1
    } else if v <= 0x7ff {
        2
    } else if v <= 0xffff {
        3
    } else {
        4
    }
}

/// The sub-slice of `s` between two char boundaries.
pub fn substr(s: &str, start: usize, end: usize) -> (r: &str)
    requires
        start <= end,
        is_char_boundary(utf8(s@), start as int),
        is_char_boundary(utf8(s@), end as int),
    ensures
        utf8(r@) == utf8(s@).subrange(start as int, end as int),
        r@ == decode_utf8(utf8(s@).subrange(start as int, end as int)),
{
    let ghost b = utf8(s@);
    proof {
        crate::utf8_facts::lemma_split_at_boundary(b, end as int);
    }
    let (head, _) = s.split_at(end);
    assert(utf8(head@) =~= b.subrange(0, end as int));
    assert(is_char_boundary(utf8(head@), start as int));
    let (_, mid) = head.split_at(start);
    assert(utf8(mid@) =~= b.subrange(start as int, end as int));
    proof {
        encode_utf8_decode_utf8(mid@);
    }
    mid
}

} // verus!
