//! Whether a step runs: its condition, read against the chain's variables.
use vstd::prelude::*;

use crate::chain::memory::{lookup, Memory};
use crate::strings::{chars_of, string_from_chars};
use crate::text::{trim, trim_bounds};

verus! {

/// `p` occurs in `s` at position `i`.
pub open spec fn occurs_at(s: Seq<char>, p: Seq<char>, i: int) -> bool {
    0 <= i && i + p.len() <= s.len() && s.subrange(i, i + p.len()) == p
}

/// The first position at or after `k` where `p` occurs in `s`.
pub open spec fn first_occ_from(s: Seq<char>, p: Seq<char>, k: int) -> Option<int>
    decreases s.len() + 1 - k,
{
    if k < 0 || k + p.len() > s.len() {
        None
    } else if occurs_at(s, p, k) {
        Some(k)
    } else {
        first_occ_from(s, p, k + 1)
    }
}

/// `p` occurs somewhere in `s` (`str::contains`).
pub open spec fn contains_seq(s: Seq<char>, p: Seq<char>) -> bool {
    exists|i: int| #[trigger] occurs_at(s, p, i)
}

/// `s` without the leading and trailing chars equal to `c` (`str::trim_matches`).
pub open spec fn strip_char(s: Seq<char>, c: char) -> Seq<char>
    decreases s.len(),
{
    if s.len() > 0 && s[0] == c {
        strip_char(s.drop_first(), c)
    } else if s.len() > 0 && s.last() == c {
        strip_char(s.drop_last(), c)
    } else {
        s
    }
}

/// The word that asks whether a variable contains a text.
pub open spec fn contains_word() -> Seq<char> {
    seq!['c', 'o', 'n', 't', 'a', 'i', 'n', 's']
}

/// Whether a step whose condition is `cond` runs, given the variables:
/// - none, or empty: it runs;
/// - `name = value` (at the first `=`): the variable holds exactly `value`;
/// - `!name = value`: the variable does not hold `value` (or is unbound);
/// - `name contains text` (the word occurring once): the variable holds
///   `text`, with quotes around it dropped;
/// - `!name`: the variable is unbound or empty;
/// - `name`: the variable is bound and not empty.
/// Names and values are trimmed.
pub open spec fn condition_holds(cond: Option<Seq<char>>, mem: Seq<(Seq<char>, Seq<char>)>) -> bool {
    match cond {
        None => true,
        Some(c) => if c.len() == 0 {
            true
        } else {
            match first_occ_from(c, seq!['='], 0) {
                Some(pos) => {
                    let name = trim(c.subrange(0, pos));
                    let expected = trim(c.subrange(pos + 1, c.len() as int));
                    if name.len() > 0 && name[0] == '!' {
                        lookup(mem, trim(name.drop_first())) != Some(expected)
                    } else {
                        lookup(mem, name) == Some(expected)
                    }
                },
                None => match first_occ_from(c, contains_word(), 0) {
                    Some(i) => {
                        let after = i + contains_word().len();
                        if first_occ_from(c, contains_word(), after) is Some {
                            false
                        } else {
                            let search = strip_char(
                                strip_char(trim(c.subrange(after, c.len() as int)), '"'),
                                '\'',
                            );
                            match lookup(mem, trim(c.subrange(0, i))) {
                                Some(v) => contains_seq(v, search),
                                None => false,
                            }
                        }
                    },
                    None => if c[0] == '!' {
                        match lookup(mem, trim(c.drop_first())) {
                            Some(v) => v.len() == 0,
                            None => true,
                        }
                    } else {
                        match lookup(mem, trim(c)) {
                            Some(v) => v.len() > 0,
                            None => false,
                        }
                    },
                },
            }
        },
    }
}

proof fn lemma_first_occ(s: Seq<char>, p: Seq<char>, k: int)
    requires
        0 <= k,
    ensures
        match first_occ_from(s, p, k) {
            Some(i) => k <= i && occurs_at(s, p, i) && forall|j: int|
                k <= j < i ==> !#[trigger] occurs_at(s, p, j),
            None => forall|j: int| k <= j ==> !#[trigger] occurs_at(s, p, j),
        },
    decreases s.len() + 1 - k,
{
    if k + p.len() <= s.len() && !occurs_at(s, p, k) {
        lemma_first_occ(s, p, k + 1);
    }
}

/// The first position at or after `k` where `p` occurs in `v`.
fn find_from(v: &Vec<char>, p: &[char], k: usize) -> (r: Option<usize>)
    requires
        k <= v.len(),
    ensures
        match r {
            Some(i) => first_occ_from(v@, p@, k as int) == Some(i as int),
            None => first_occ_from(v@, p@, k as int) is None,
        },
{
    if p.len() > v.len() - k {
        return None;
    }
    if p.len() == 0 {
        assert(v@.subrange(k as int, k as int) =~= p@);
        return Some(k);
    }
    let last = v.len() - p.len();
    let mut i = k;
    while i <= last
        invariant
            k <= i <= last + 1,
            last < v.len(),
            last == v.len() - p.len(),
            first_occ_from(v@, p@, k as int) == first_occ_from(v@, p@, i as int),
        decreases last + 1 - i,
    {
        let mut j: usize = 0;
        let mut same = true;
        while same && j < p.len()
            invariant
                0 <= j <= p.len(),
                i + p.len() <= v.len(),
                same ==> forall|t: int| 0 <= t < j ==> v@[i + t] == p@[t],
                !same ==> !occurs_at(v@, p@, i as int),
            decreases p.len() - j + if same {
                1int
            } else {
                0int
            },
        {
            if v[i + j] != p[j] {
                assert(v@.subrange(i as int, i + p.len())[j as int] != p@[j as int]);
                same = false;
            } else {
                j = j + 1;
            }
        }
        if same {
            assert(v@.subrange(i as int, i + p.len()) =~= p@);
            return Some(i);
        }
        i = i + 1;
    }
    None
}

/// `s` with the chars equal to `c` dropped from both ends.
fn strip_char_exec(v: &Vec<char>, c: char) -> (r: Vec<char>)
    ensures
        r@ == strip_char(v@, c),
{
    let mut lo: usize = 0;
    let mut hi: usize = v.len();
    assert(v@.subrange(0, v.len() as int) =~= v@);
    while lo < hi && v[lo] == c
        invariant
            0 <= lo <= hi == v.len(),
            strip_char(v@, c) == strip_char(v@.subrange(lo as int, hi as int), c),
        decreases hi - lo,
    {
        let ghost t = v@.subrange(lo as int, hi as int);
        assert(t.drop_first() =~= v@.subrange(lo + 1, hi as int));
        lo = lo + 1;
    }
    while lo < hi && v[hi - 1] == c
        invariant
            0 <= lo <= hi <= v.len(),
            strip_char(v@, c) == strip_char(v@.subrange(lo as int, hi as int), c),
            lo < hi ==> v@[lo as int] != c,
        decreases hi - lo,
    {
        let ghost t = v@.subrange(lo as int, hi as int);
        assert(t.drop_last() =~= v@.subrange(lo as int, hi - 1));
        hi = hi - 1;
    }
    let r = copy_chars(v, lo, hi);
    r
}

/// The chars `lo..hi` of `v`.
fn copy_chars(v: &Vec<char>, lo: usize, hi: usize) -> (r: Vec<char>)
    requires
        lo <= hi <= v.len(),
    ensures
        r@ == v@.subrange(lo as int, hi as int),
{
    let mut r: Vec<char> = Vec::new();
    let mut i = lo;
    while i < hi
        invariant
            lo <= i <= hi <= v.len(),
            r@ == v@.subrange(lo as int, i as int),
        decreases hi - i,
    {
        r.push(v[i]);
        assert(r@ =~= v@.subrange(lo as int, i + 1));
        i = i + 1;
    }
    r
}

/// The trimmed chars `lo..hi` of `v`, as a string.
fn trimmed_part(v: &Vec<char>, lo: usize, hi: usize) -> (s: String)
    requires
        lo <= hi <= v.len(),
    ensures
        s@ == trim(v@.subrange(lo as int, hi as int)),
{
    let part = copy_chars(v, lo, hi);
    let (a, b) = trim_bounds(&part);
    string_from_chars(&part.as_slice()[a..b])
}

/// Whether `p` occurs in `s`.
fn contains_text(s: &str, p: &Vec<char>) -> (b: bool)
    ensures
        b == contains_seq(s@, p@),
{
    let v = chars_of(s);
    if p.len() > v.len() {
        assert forall|i: int| !#[trigger] occurs_at(s@, p@, i) by {}
        return false;
    }
    let r = find_from(&v, p.as_slice(), 0);
    proof {
        lemma_first_occ(v@, p@, 0);
        if r is Some {
            assert(occurs_at(s@, p@, r->0 as int));
        }
        if r is None {
            assert forall|i: int| !#[trigger] occurs_at(s@, p@, i) by {
                if i >= 0 {
                    assert(!occurs_at(v@, p@, i));
                }
            }
        }
    }
    r.is_some()
}

/// Whether a step with condition `condition` runs, given the variables in `memory`.
pub fn evaluate_condition(condition: &Option<String>, memory: &Memory) -> (b: bool)
    ensures
        b == condition_holds(
            match condition {
                Some(c) => Some(c@),
                None => None,
            },
            memory@,
        ),
{
    let c = match condition {
        Some(c) => c,
        None => return true,
    };
    let v = chars_of(c.as_str());
    if v.len() == 0 {
        return true;
    }
    let eq = ['='];
    assert(eq@ =~= seq!['=']);
    match find_from(&v, eq.as_slice(), 0) {
        Some(pos) => {
            proof {
                lemma_first_occ(v@, seq!['='], 0);
            }
            let name = trimmed_part(&v, 0, pos);
            let expected = trimmed_part(&v, pos + 1, v.len());
            let nv = chars_of(name.as_str());
            if nv.len() > 0 && nv[0] == '!' {
                let key = trimmed_part(&nv, 1, nv.len());
                assert(nv@.subrange(1, nv.len() as int) =~= nv@.drop_first());
                return match memory.get(key.as_str()) {
                    Some(actual) => !crate::text::same_text(actual.as_str(), expected.as_str()),
                    None => true,
                };
            }
            return match memory.get(name.as_str()) {
                Some(actual) => {
                    let same = crate::text::same_text(actual.as_str(), expected.as_str());
                    same
                },
                None => false,
            };
        },
        None => {},
    }
    let word = ['c', 'o', 'n', 't', 'a', 'i', 'n', 's'];
    assert(word@ =~= contains_word());
    match find_from(&v, word.as_slice(), 0) {
        Some(i) => {
            proof {
                lemma_first_occ(v@, contains_word(), 0);
            }
            let after = i + 8;
            if find_from(&v, word.as_slice(), after).is_some() {
                return false;
            }
            let name = trimmed_part(&v, 0, i);
            let rest = copy_chars(&v, after, v.len());
            let (a, b) = trim_bounds(&rest);
            let trimmed = copy_chars(&rest, a, b);
            let unquoted = strip_char_exec(&trimmed, '"');
            let search = strip_char_exec(&unquoted, '\'');
            return match memory.get(name.as_str()) {
                Some(actual) => contains_text(actual.as_str(), &search),
                None => false,
            };
        },
        None => {},
    }
    if v[0] == '!' {
        let name = trimmed_part(&v, 1, v.len());
        assert(v@.subrange(1, v.len() as int) =~= v@.drop_first());
        match memory.get(name.as_str()) {
            Some(actual) => actual.as_str().is_empty(),
            None => true,
        }
    } else {
        let name = trimmed_part(&v, 0, v.len());
        assert(v@.subrange(0, v.len() as int) =~= v@);
        match memory.get(name.as_str()) {
            Some(actual) => !actual.as_str().is_empty(),
            None => false,
        }
    }
}

} // verus!
