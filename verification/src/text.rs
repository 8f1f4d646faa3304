//! Plain text operations on char sequences: whitespace, trimming, prefixes,
//! line splitting and decimal parsing, with the meaning std gives them.
use vstd::prelude::*;

use crate::strings::{chars_of, string_from_chars};

verus! {

/// The Unicode `White_Space` property, which `char::is_whitespace` tests.
pub open spec fn is_ws(c: char) -> bool {
    let v = c as u32;
    ||| 0x09 <= v <= 0x0D
    ||| v == 0x20
    ||| v == 0x85
    ||| v == 0xA0
    ||| v == 0x1680
    ||| 0x2000 <= v <= 0x200A
    ||| v == 0x2028
    ||| v == 0x2029
    ||| v == 0x202F
    ||| v == 0x205F
    ||| v == 0x3000
}

/// Whether `c` is Unicode white space.
pub fn is_whitespace(c: char) -> (b: bool)
    ensures
        b == is_ws(c),
{
    let v = c as u32;
    (0x09 <= v && v <= 0x0D) || v == 0x20 || v == 0x85 || v == 0xA0 || v == 0x1680 || (0x2000
        <= v && v <= 0x200A) || v == 0x2028 || v == 0x2029 || v == 0x202F || v == 0x205F || v
        == 0x3000
}

/// Every char of `s` is white space (so `s` trims to nothing).
pub open spec fn all_ws(s: Seq<char>) -> bool {
    forall|i: int| 0 <= i < s.len() ==> is_ws(#[trigger] s[i])
}

/// Whether `s` is empty once trimmed.
pub fn is_blank(s: &str) -> (b: bool)
    ensures
        b == all_ws(s@),
{
    let v = chars_of(s);
    let mut i: usize = 0;
    while i < v.len()
        invariant
            0 <= i <= v.len(),
            v@ == s@,
            forall|j: int| 0 <= j < i ==> is_ws(#[trigger] s@[j]),
        decreases v.len() - i,
    {
        if !is_whitespace(v[i]) {
            return false;
        }
        i = i + 1;
    }
    true
}

/// The number of leading white-space chars of `s`.
pub open spec fn lead_ws(s: Seq<char>) -> int
    decreases s.len(),
{
    if s.len() == 0 || !is_ws(s[0]) {
        0
    } else {
        1 + lead_ws(s.drop_first())
    }
}

/// The number of trailing white-space chars of `s`.
pub open spec fn trail_ws(s: Seq<char>) -> int
    decreases s.len(),
{
    if s.len() == 0 || !is_ws(s.last()) {
        0
    } else {
        1 + trail_ws(s.drop_last())
    }
}

/// `s` without leading white space (`str::trim_start`).
pub open spec fn trim_start(s: Seq<char>) -> Seq<char> {
    s.subrange(lead_ws(s), s.len() as int)
}

/// `s` without trailing white space (`str::trim_end`).
pub open spec fn trim_end(s: Seq<char>) -> Seq<char> {
    s.subrange(0, s.len() - trail_ws(s))
}

/// `s` without leading or trailing white space (`str::trim`).
pub open spec fn trim(s: Seq<char>) -> Seq<char> {
    trim_end(trim_start(s))
}

proof fn lemma_lead_ws_bounds(s: Seq<char>)
    ensures
        0 <= lead_ws(s) <= s.len(),
        forall|i: int| 0 <= i < lead_ws(s) ==> is_ws(#[trigger] s[i]),
        lead_ws(s) < s.len() ==> !is_ws(s[lead_ws(s)]),
    decreases s.len(),
{
    if s.len() > 0 && is_ws(s[0]) {
        lemma_lead_ws_bounds(s.drop_first());
        assert forall|i: int| 0 <= i < lead_ws(s) implies is_ws(#[trigger] s[i]) by {
            if i > 0 {
                assert(s[i] == s.drop_first()[i - 1]);
            }
        }
    }
}

proof fn lemma_trail_ws_bounds(s: Seq<char>)
    ensures
        0 <= trail_ws(s) <= s.len(),
        forall|i: int| s.len() - trail_ws(s) <= i < s.len() ==> is_ws(#[trigger] s[i]),
        trail_ws(s) < s.len() ==> !is_ws(s[s.len() - trail_ws(s) - 1]),
    decreases s.len(),
{
    if s.len() > 0 && is_ws(s.last()) {
        lemma_trail_ws_bounds(s.drop_last());
        assert forall|i: int| s.len() - trail_ws(s) <= i < s.len() implies is_ws(#[trigger] s[i]) by {
            if i < s.len() - 1 {
                assert(s[i] == s.drop_last()[i]);
            }
        }
    }
}

/// Characterises the count of leading white space by its two properties.
proof fn lemma_lead_ws_unique(s: Seq<char>, n: int)
    requires
        0 <= n <= s.len(),
        forall|i: int| 0 <= i < n ==> is_ws(#[trigger] s[i]),
        n < s.len() ==> !is_ws(s[n]),
    ensures
        lead_ws(s) == n,
    decreases s.len(),
{
    if n > 0 {
        assert(is_ws(s[0]));
        let t = s.drop_first();
        assert forall|i: int| 0 <= i < n - 1 implies is_ws(#[trigger] t[i]) by {
            assert(t[i] == s[i + 1]);
        }
        if n - 1 < t.len() {
            assert(t[n - 1] == s[n]);
        }
        lemma_lead_ws_unique(t, n - 1);
    }
}

proof fn lemma_trail_ws_unique(s: Seq<char>, n: int)
    requires
        0 <= n <= s.len(),
        forall|i: int| s.len() - n <= i < s.len() ==> is_ws(#[trigger] s[i]),
        n < s.len() ==> !is_ws(s[s.len() - n - 1]),
    ensures
        trail_ws(s) == n,
    decreases s.len(),
{
    if n > 0 {
        assert(is_ws(s[s.len() - 1]));
        let t = s.drop_last();
        assert forall|i: int| t.len() - (n - 1) <= i < t.len() implies is_ws(#[trigger] t[i]) by {
            assert(t[i] == s[i]);
        }
        if n - 1 < t.len() {
            assert(t[t.len() - (n - 1) - 1] == s[s.len() - n - 1]);
        }
        lemma_trail_ws_unique(t, n - 1);
    }
}

/// `trim_end` keeps exactly the chars before `hi` when all those from `hi`
/// on are white space and the one before `hi` is not.
pub proof fn lemma_trim_end_at(s: Seq<char>, hi: int)
    requires
        0 <= hi <= s.len(),
        forall|i: int| hi <= i < s.len() ==> is_ws(#[trigger] s[i]),
        hi > 0 ==> !is_ws(s[hi - 1]),
    ensures
        trim_end(s) == s.subrange(0, hi),
{
    lemma_trail_ws_unique(s, s.len() - hi);
}

/// The bounds `lo..hi` of `v` that `trim` keeps.
pub fn trim_bounds(v: &Vec<char>) -> (r: (usize, usize))
    ensures
        r.0 <= r.1 <= v.len(),
        v@.subrange(r.0 as int, r.1 as int) == trim(v@),
{
    let mut lo: usize = 0;
    while lo < v.len() && is_whitespace(v[lo])
        invariant
            0 <= lo <= v.len(),
            forall|i: int| 0 <= i < lo ==> is_ws(#[trigger] v@[i]),
        decreases v.len() - lo,
    {
        lo = lo + 1;
    }
    proof {
        lemma_lead_ws_unique(v@, lo as int);
    }
    let ghost t = v@.subrange(lo as int, v.len() as int);
    let mut hi: usize = v.len();
    while hi > lo && is_whitespace(v[hi - 1])
        invariant
            lo <= hi <= v.len(),
            t == v@.subrange(lo as int, v.len() as int),
            forall|i: int| hi <= i < v.len() ==> is_ws(#[trigger] v@[i]),
        decreases hi,
    {
        hi = hi - 1;
    }
    proof {
        let n = (v.len() - hi) as int;
        assert forall|i: int| t.len() - n <= i < t.len() implies is_ws(#[trigger] t[i]) by {
            assert(t[i] == v@[lo + i]);
        }
        if n < t.len() {
            assert(t[t.len() - n - 1] == v@[hi - 1]);
        }
        lemma_trail_ws_unique(t, n);
        assert(v@.subrange(lo as int, hi as int) =~= t.subrange(0, t.len() - n));
    }
    (lo, hi)
}

/// The chars of `v` between `lo` and `hi`, as a string.
pub fn chars_between(v: &Vec<char>, lo: usize, hi: usize) -> (s: String)
    requires
        lo <= hi <= v.len(),
    ensures
        s@ == v@.subrange(lo as int, hi as int),
{
    string_from_chars(&v.as_slice()[lo..hi])
}

/// `s` begins with `p`.
pub open spec fn starts_with(s: Seq<char>, p: Seq<char>) -> bool {
    s.len() >= p.len() && s.subrange(0, p.len() as int) == p
}

/// Whether `v` begins with `p`.
pub fn has_prefix(v: &[char], p: &[char]) -> (b: bool)
    ensures
        b == starts_with(v@, p@),
{
    if v.len() < p.len() {
        return false;
    }
    let mut i: usize = 0;
    while i < p.len()
        invariant
            0 <= i <= p.len() <= v.len(),
            forall|j: int| 0 <= j < i ==> v@[j] == p@[j],
        decreases p.len() - i,
    {
        if v[i] != p[i] {
            assert(v@.subrange(0, p@.len() as int)[i as int] != p@[i as int]);
            return false;
        }
        i = i + 1;
    }
    assert(v@.subrange(0, p@.len() as int) =~= p@);
    true
}

/// Whether `a` and `b` hold the same text.
pub fn same_text(a: &str, b: &str) -> (r: bool)
    ensures
        r == (a@ == b@),
{
    let x = chars_of(a);
    let y = chars_of(b);
    if x.len() != y.len() {
        return false;
    }
    let r = has_prefix(x.as_slice(), y.as_slice());
    proof {
        assert(x@.subrange(0, y@.len() as int) =~= x@);
    }
    r
}

/// The index of the first line feed in `s` at or after `k`.
pub open spec fn first_nl_from(s: Seq<char>, k: int) -> Option<int>
    decreases s.len() - k,
{
    if k < 0 || k >= s.len() {
        None
    } else if s[k] == '\n' {
        Some(k)
    } else {
        first_nl_from(s, k + 1)
    }
}

/// A line without the carriage return before its line feed.
pub open spec fn strip_cr(l: Seq<char>) -> Seq<char> {
    if l.len() > 0 && l.last() == '\r' {
        l.drop_last()
    } else {
        l
    }
}

/// The lines of `s` as `str::lines` gives them: split after each line feed, a
/// final line feed ends the last line rather than starting an empty one, and a
/// carriage return right before a line feed is dropped.
pub open spec fn lines_spec(s: Seq<char>) -> Seq<Seq<char>>
    decreases s.len(),
{
    if s.len() == 0 {
        seq![]
    } else {
        match first_nl_from(s, 0) {
            Some(i) => if 0 <= i < s.len() {
                seq![strip_cr(s.subrange(0, i))] + lines_spec(s.subrange(i + 1, s.len() as int))
            } else {
                seq![s]
            },
            None => seq![s],
        }
    }
}

proof fn lemma_first_nl_found(s: Seq<char>, k: int, m: int)
    requires
        0 <= k <= m < s.len(),
        s[m] == '\n',
        forall|j: int| k <= j < m ==> s[j] != '\n',
    ensures
        first_nl_from(s, k) == Some(m),
    decreases m - k,
{
    if k < m {
        lemma_first_nl_found(s, k + 1, m);
    }
}

proof fn lemma_first_nl_none(s: Seq<char>, k: int)
    requires
        0 <= k <= s.len(),
        forall|j: int| k <= j < s.len() ==> s[j] != '\n',
    ensures
        first_nl_from(s, k) is None,
    decreases s.len() - k,
{
    if k < s.len() {
        lemma_first_nl_none(s, k + 1);
    }
}

/// The view of a vector of char vectors.
pub open spec fn vv_view(v: Seq<Vec<char>>) -> Seq<Seq<char>> {
    v.map_values(|l: Vec<char>| l@)
}

/// The chars `lo..hi` of `v`, copied.
pub fn copy_range(v: &Vec<char>, lo: usize, hi: usize) -> (r: Vec<char>)
    requires
        lo <= hi <= v.len(),
    ensures
        r@ == v@.subrange(lo as int, hi as int),
{
    let mut r: Vec<char> = Vec::new();
    let mut i = lo;
    while i < hi
        invariant
            lo <= i <= hi <= v.len(),
            r@ == v@.subrange(lo as int, i as int),
        decreases hi - i,
    {
        r.push(v[i]);
        assert(r@ =~= v@.subrange(lo as int, i + 1));
        i = i + 1;
    }
    r
}

/// Splits `v` into lines as `str::lines` does.
pub fn split_lines(v: &Vec<char>) -> (lines: Vec<Vec<char>>)
    ensures
        vv_view(lines@) == lines_spec(v@),
{
    let mut lines: Vec<Vec<char>> = Vec::new();
    let mut start: usize = 0;
    let mut i: usize = 0;
    assert(v@.subrange(0, v.len() as int) =~= v@);
    assert(vv_view(lines@) + lines_spec(v@) =~= lines_spec(v@));
    while i < v.len()
        invariant
            0 <= start <= i <= v.len(),
            lines_spec(v@) == vv_view(lines@) + lines_spec(v@.subrange(start as int, v.len() as int)),
            forall|j: int| start <= j < i ==> v@[j] != '\n',
        decreases v.len() - i,
    {
        if v[i] == '\n' {
            let ghost rest = v@.subrange(start as int, v.len() as int);
            proof {
                lemma_first_nl_found(rest, 0, i - start);
                assert(rest.subrange(0, i - start) =~= v@.subrange(start as int, i as int));
                assert(rest.subrange(i - start + 1, rest.len() as int) =~= v@.subrange(
                    i + 1,
                    v.len() as int,
                ));
            }
            let mut end = i;
            if end > start && v[end - 1] == '\r' {
                end = end - 1;
            }
            let line = copy_range(v, start, end);
            let ghost before = lines@;
            lines.push(line);
            proof {
                let raw = v@.subrange(start as int, i as int);
                assert(strip_cr(raw) =~= v@.subrange(start as int, end as int));
                assert(vv_view(lines@) =~= vv_view(before).push(line@));
                assert(lines_spec(rest) == seq![strip_cr(raw)] + lines_spec(
                    v@.subrange(i + 1, v.len() as int),
                ));
                assert(vv_view(before) + lines_spec(rest) =~= vv_view(lines@) + lines_spec(
                    v@.subrange(i + 1, v.len() as int),
                ));
            }
            start = i + 1;
        }
        i = i + 1;
    }
    let ghost rest = v@.subrange(start as int, v.len() as int);
    proof {
        lemma_first_nl_none(rest, 0);
    }
    if start < v.len() {
        let line = copy_range(v, start, v.len());
        let ghost before = lines@;
        lines.push(line);
        assert(vv_view(lines@) =~= vv_view(before).push(line@));
        assert(vv_view(before) + seq![rest] =~= vv_view(lines@));
    } else {
        assert(rest.len() == 0);
        assert(vv_view(lines@) + lines_spec(rest) =~= vv_view(lines@));
    }
    lines
}

/// `s` with every leading repetition of `p` removed (`str::trim_start_matches`).
pub open spec fn strip_all(s: Seq<char>, p: Seq<char>) -> Seq<char>
    decreases s.len(),
{
    if p.len() > 0 && starts_with(s, p) {
        strip_all(s.subrange(p.len() as int, s.len() as int), p)
    } else {
        s
    }
}

/// The offset in `v` from which `v` no longer starts with a repetition of `p`.
pub fn strip_all_from(v: &Vec<char>, lo: usize, p: &[char]) -> (r: usize)
    requires
        lo <= v.len(),
    ensures
        lo <= r <= v.len(),
        v@.subrange(r as int, v.len() as int) == strip_all(v@.subrange(lo as int, v.len() as int), p@),
    decreases v.len() - lo,
{
    let rest = copy_range(v, lo, v.len());
    if p.len() > 0 && has_prefix(rest.as_slice(), p) {
        assert(rest@.subrange(p@.len() as int, rest@.len() as int) =~= v@.subrange(
            lo + p@.len(),
            v.len() as int,
        ));
        strip_all_from(v, lo + p.len(), p)
    } else {
        lo
    }
}

/// The number of leading chars of `s` that are not white space.
pub open spec fn word_len(s: Seq<char>) -> int
    decreases s.len(),
{
    if s.len() == 0 || is_ws(s[0]) {
        0
    } else {
        1 + word_len(s.drop_first())
    }
}

/// The words of `s` as `str::split_whitespace` gives them: the maximal runs of
/// chars that are not white space, in order.
pub open spec fn split_ws(s: Seq<char>) -> Seq<Seq<char>>
    decreases s.len(),
{
    if s.len() == 0 {
        seq![]
    } else if is_ws(s[0]) {
        split_ws(s.drop_first())
    } else {
        let n = word_len(s);
        if 0 < n <= s.len() {
            seq![s.subrange(0, n)] + split_ws(s.subrange(n, s.len() as int))
        } else {
            seq![]
        }
    }
}

proof fn lemma_word_len_found(s: Seq<char>, n: int)
    requires
        0 <= n <= s.len(),
        forall|j: int| 0 <= j < n ==> !is_ws(#[trigger] s[j]),
        n < s.len() ==> is_ws(s[n]),
    ensures
        word_len(s) == n,
    decreases n,
{
    if n > 0 {
        let t = s.drop_first();
        assert forall|j: int| 0 <= j < n - 1 implies !is_ws(#[trigger] t[j]) by {
            assert(t[j] == s[j + 1]);
        }
        if n - 1 < t.len() {
            assert(t[n - 1] == s[n]);
        }
        lemma_word_len_found(t, n - 1);
    }
}

/// Splits `v` into its white-space separated words.
pub fn split_whitespace(v: &Vec<char>) -> (words: Vec<Vec<char>>)
    ensures
        vv_view(words@) == split_ws(v@),
{
    let mut words: Vec<Vec<char>> = Vec::new();
    let mut i: usize = 0;
    assert(v@.subrange(0, v.len() as int) =~= v@);
    assert(vv_view(words@) + split_ws(v@) =~= split_ws(v@));
    while i < v.len()
        invariant
            0 <= i <= v.len(),
            split_ws(v@) == vv_view(words@) + split_ws(v@.subrange(i as int, v.len() as int)),
        decreases v.len() - i,
    {
        let ghost rest = v@.subrange(i as int, v.len() as int);
        if is_whitespace(v[i]) {
            assert(rest.drop_first() =~= v@.subrange(i + 1, v.len() as int));
            i = i + 1;
        } else {
            let mut j = i;
            while j < v.len() && !is_whitespace(v[j])
                invariant
                    i <= j <= v.len(),
                    forall|k: int| i <= k < j ==> !is_ws(#[trigger] v@[k]),
                decreases v.len() - j,
            {
                j = j + 1;
            }
            proof {
                assert forall|k: int| 0 <= k < j - i implies !is_ws(#[trigger] rest[k]) by {
                    assert(rest[k] == v@[i + k]);
                }
                if j < v.len() {
                    assert(rest[j - i] == v@[j as int]);
                }
                lemma_word_len_found(rest, j - i);
                assert(rest.subrange(0, j - i) =~= v@.subrange(i as int, j as int));
                assert(rest.subrange(j - i, rest.len() as int) =~= v@.subrange(
                    j as int,
                    v.len() as int,
                ));
            }
            let word = copy_range(v, i, j);
            let ghost before = words@;
            words.push(word);
            assert(vv_view(words@) =~= vv_view(before).push(word@));
            assert(vv_view(before) + split_ws(rest) =~= vv_view(words@) + split_ws(
                v@.subrange(j as int, v.len() as int),
            ));
            i = j;
        }
    }
    assert(split_ws(v@.subrange(i as int, v.len() as int)) =~= Seq::<Seq<char>>::empty());
    assert(vv_view(words@) + Seq::<Seq<char>>::empty() =~= vv_view(words@));
    words
}

/// The first index at or after `k` where `s` holds "@@".
pub open spec fn find_double_at(s: Seq<char>, k: int) -> Option<int>
    decreases s.len() - k,
{
    if k < 0 || k + 1 >= s.len() {
        None
    } else if s[k] == '@' && s[k + 1] == '@' {
        Some(k)
    } else {
        find_double_at(s, k + 1)
    }
}

/// The first index at or after `k` where `v` holds "@@".
pub fn find_double_at_exec(v: &Vec<char>, k: usize) -> (r: Option<usize>)
    ensures
        match r {
            Some(i) => find_double_at(v@, k as int) == Some(i as int) && k <= i && i + 1 < v.len(),
            None => find_double_at(v@, k as int) is None,
        },
    decreases v.len() - k,
{
    if k >= v.len() || k + 1 >= v.len() {
        return None;
    }
    if v[k] == '@' && v[k + 1] == '@' {
        Some(k)
    } else {
        find_double_at_exec(v, k + 1)
    }
}

/// The value of a decimal digit char.
pub open spec fn digit_value(c: char) -> int {
    (c as u32) - ('0' as u32)
}

/// `c` is one of '0'..='9'.
pub open spec fn is_digit(c: char) -> bool {
    '0' <= c <= '9'
}

/// The value of the decimal digits `s`.
pub open spec fn decimal_value(s: Seq<char>) -> int
    decreases s.len(),
{
    if s.len() == 0 {
        0
    } else {
        decimal_value(s.drop_last()) * 10 + digit_value(s.last())
    }
}

/// `s` without one leading '+'.
pub open spec fn sign_stripped(s: Seq<char>) -> Seq<char> {
    if s.len() > 0 && s[0] == '+' {
        s.drop_first()
    } else {
        s
    }
}

/// `usize::from_str`: an optional '+' then one or more decimal digits whose value fits.
pub open spec fn parse_usize_spec(s: Seq<char>) -> Option<usize> {
    let digits = sign_stripped(s);
    if digits.len() == 0 {
        None
    } else if forall|i: int| 0 <= i < digits.len() ==> is_digit(#[trigger] digits[i]) {
        if decimal_value(digits) <= usize::MAX {
            Some(decimal_value(digits) as usize)
        } else {
            None
        }
    } else {
        None
    }
}

proof fn lemma_decimal_monotone(s: Seq<char>, i: int)
    requires
        0 <= i <= s.len(),
        forall|k: int| 0 <= k < s.len() ==> is_digit(#[trigger] s[k]),
    ensures
        decimal_value(s.subrange(0, i)) <= decimal_value(s),
        decimal_value(s) >= 0,
    decreases s.len(),
{
    if s.len() > 0 {
        let t = s.drop_last();
        assert forall|k: int| 0 <= k < t.len() implies is_digit(#[trigger] t[k]) by {
            assert(t[k] == s[k]);
        }
        if i <= t.len() {
            lemma_decimal_monotone(t, i);
            assert(t.subrange(0, i) =~= s.subrange(0, i));
        } else {
            assert(s.subrange(0, i) =~= s);
            lemma_decimal_monotone(t, 0);
        }
    } else {
        assert(s.subrange(0, i) =~= s);
    }
}

/// Parses `v` as `usize::from_str` does.
pub fn parse_usize(v: &[char]) -> (r: Option<usize>)
    ensures
        r == parse_usize_spec(v@),
{
    let start: usize = if v.len() > 0 && v[0] == '+' {
        1
    } else {
        0
    };
    let ghost digits = sign_stripped(v@);
    assert(digits =~= v@.subrange(start as int, v.len() as int));
    if start >= v.len() {
        return None;
    }
    let mut value: usize = 0;
    let mut i = start;
    while i < v.len()
        invariant
            start <= i <= v.len(),
            digits == v@.subrange(start as int, v.len() as int),
            digits == sign_stripped(v@),
            forall|k: int| start <= k < i ==> is_digit(#[trigger] v@[k]),
            value == decimal_value(v@.subrange(start as int, i as int)),
        decreases v.len() - i,
    {
        let c = v[i];
        assert(digits[i - start] == c);
        if !('0' <= c && c <= '9') {
            assert(!is_digit(digits[i - start]));
            assert(!(forall|k: int| 0 <= k < digits.len() ==> is_digit(#[trigger] digits[k])));
            return None;
        }
        let d = (c as u32 - '0' as u32) as usize;
        assert(v@.subrange(start as int, i + 1).drop_last() =~= v@.subrange(start as int, i as int));
        let ghost prefix = v@.subrange(start as int, i + 1);
        assert(prefix.last() == c);
        assert(prefix.drop_last() =~= v@.subrange(start as int, i as int));
        assert(decimal_value(prefix) == value * 10 + d);
        let next = match value.checked_mul(10) {
            Some(m) => m.checked_add(d),
            None => None,
        };
        match next {
            Some(a) => {
                value = a;
            },
            None => {
                proof {
                    assert(decimal_value(prefix) > usize::MAX);
                    if forall|k: int| 0 <= k < digits.len() ==> is_digit(#[trigger] digits[k]) {
                        lemma_decimal_monotone(digits, i + 1 - start);
                        assert(digits.subrange(0, i + 1 - start) =~= prefix);
                        assert(decimal_value(digits) > usize::MAX);
                    }
                    assert(parse_usize_spec(v@) is None);
                }
                return None;
            },
        }
        i = i + 1;
    }
    assert(v@.subrange(start as int, v.len() as int) =~= digits);
    Some(value)
}

} // verus!
