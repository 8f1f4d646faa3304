//! Filling a step's prompt template: each `{{name}}` is replaced by the
//! value of the variable `name`.
use vstd::prelude::*;

use crate::chain::memory::Memory;
use crate::strings::{chars_of, string_from_chars};

verus! {

/// `s` with each occurrence of `p` replaced by `r`, found from the left
/// without overlapping, as `str::replace` does (for a non-empty `p`).
pub open spec fn replace_spec(s: Seq<char>, p: Seq<char>, r: Seq<char>) -> Seq<char>
    decreases s.len(),
{
    if p.len() == 0 || s.len() < p.len() {
        s
    } else if s.subrange(0, p.len() as int) == p {
        r + replace_spec(s.subrange(p.len() as int, s.len() as int), p, r)
    } else {
        seq![s[0]] + replace_spec(s.drop_first(), p, r)
    }
}

/// The placeholder of variable `name`: `{{name}}`.
pub open spec fn placeholder(name: Seq<char>) -> Seq<char> {
    seq!['{', '{'] + name + seq!['}', '}']
}

/// `t` with the placeholders of `entries` replaced by their values, one
/// variable after the other in the order of `entries`.
pub open spec fn fill_spec(t: Seq<char>, entries: Seq<(Seq<char>, Seq<char>)>) -> Seq<char>
    decreases entries.len(),
{
    if entries.len() == 0 {
        t
    } else {
        fill_spec(
            replace_spec(t, placeholder(entries[0].0), entries[0].1),
            entries.drop_first(),
        )
    }
}

/// `s` with each occurrence of the non-empty `p` replaced by `r`.
pub fn replace(s: &str, p: &Vec<char>, r: &str) -> (out: String)
    requires
        p@.len() > 0,
    ensures
        out@ == replace_spec(s@, p@, r@),
{
    let v = chars_of(s);
    let rv = chars_of(r);
    let mut out: Vec<char> = Vec::new();
    let mut i: usize = 0;
    let plen = p.len();
    assert(v@.subrange(0, v.len() as int) =~= s@);
    assert(out@ + replace_spec(s@, p@, r@) =~= replace_spec(s@, p@, r@));
    while i < v.len()
        invariant
            0 <= i <= v.len(),
            v@ == s@,
            rv@ == r@,
            plen == p@.len() > 0,
            out@ + replace_spec(v@.subrange(i as int, v.len() as int), p@, r@) == replace_spec(
                s@,
                p@,
                r@,
            ),
        decreases v.len() - i,
    {
        let ghost rest = v@.subrange(i as int, v.len() as int);
        let mut matched = plen <= v.len() - i;
        let mut k: usize = 0;
        while matched && k < plen
            invariant
                0 <= k <= plen,
                plen == p@.len(),
                matched ==> i + plen <= v.len() && forall|j: int| 0 <= j < k ==> v@[i + j] == p@[j],
                !matched ==> !(rest.len() >= p@.len() && rest.subrange(0, p@.len() as int) == p@),
                rest == v@.subrange(i as int, v.len() as int),
            decreases plen - k + if matched {
                1int
            } else {
                0int
            },
        {
            if v[i + k] != p[k] {
                assert(rest.subrange(0, p@.len() as int)[k as int] != p@[k as int]);
                matched = false;
            } else {
                k = k + 1;
            }
        }
        if matched {
            assert(rest.subrange(0, p@.len() as int) =~= p@);
            let ghost before = out@;
            let mut j: usize = 0;
            while j < rv.len()
                invariant
                    0 <= j <= rv.len(),
                    out@ == before + rv@.subrange(0, j as int),
                decreases rv.len() - j,
            {
                out.push(rv[j]);
                assert(out@ =~= before + rv@.subrange(0, j + 1));
                j = j + 1;
            }
            assert(rv@.subrange(0, rv.len() as int) =~= rv@);
            assert(rest.subrange(p@.len() as int, rest.len() as int) =~= v@.subrange(
                i + plen,
                v.len() as int,
            ));
            assert(out@ + replace_spec(v@.subrange(i + plen, v.len() as int), p@, r@) =~= before
                + replace_spec(rest, p@, r@));
            i = i + plen;
        } else {
            let ghost before = out@;
            out.push(v[i]);
            assert(rest.drop_first() =~= v@.subrange(i + 1, v.len() as int));
            proof {
                if rest.len() < p@.len() {
                    assert(replace_spec(rest, p@, r@) == rest);
                    assert(replace_spec(rest.drop_first(), p@, r@) == rest.drop_first());
                    assert(rest =~= seq![rest[0]] + rest.drop_first());
                }
            }
            assert(out@ + replace_spec(v@.subrange(i + 1, v.len() as int), p@, r@) =~= before
                + replace_spec(rest, p@, r@));
            i = i + 1;
        }
    }
    assert(v@.subrange(i as int, v.len() as int) =~= Seq::<char>::empty());
    assert(out@ + Seq::<char>::empty() =~= out@);
    string_from_chars(out.as_slice())
}

/// The placeholder chars of variable `name`.
fn placeholder_of(name: &str) -> (p: Vec<char>)
    ensures
        p@ == placeholder(name@),
{
    let mut p: Vec<char> = Vec::new();
    p.push('{');
    p.push('{');
    let n = chars_of(name);
    let mut i: usize = 0;
    while i < n.len()
        invariant
            0 <= i <= n.len(),
            n@ == name@,
            p@ == seq!['{', '{'] + n@.subrange(0, i as int),
        decreases n.len() - i,
    {
        p.push(n[i]);
        assert(p@ =~= seq!['{', '{'] + n@.subrange(0, i + 1));
        i = i + 1;
    }
    p.push('}');
    p.push('}');
    assert(n@.subrange(0, n.len() as int) =~= n@);
    assert(p@ =~= placeholder(name@));
    p
}

/// `template` with each `{{name}}` replaced by the value of variable `name`,
/// the variables taken in the order they were bound.
pub fn apply_template(template: &str, memory: &Memory) -> (out: String)
    ensures
        out@ == fill_spec(template@, memory@),
{
    let entries = memory.entries();
    let ghost all = memory@;
    let mut result = String::from_str(template);
    let mut i: usize = 0;
    assert(all.subrange(0, all.len() as int) =~= all);
    while i < entries.len()
        invariant
            0 <= i <= entries.len(),
            entries@.map_values(|p: (String, String)| (p.0@, p.1@)) == all,
            fill_spec(result@, all.subrange(i as int, all.len() as int)) == fill_spec(
                template@,
                all,
            ),
        decreases entries.len() - i,
    {
        let (k, v) = &entries[i];
        assert(all[i as int] == (k@, v@));
        let p = placeholder_of(k.as_str());
        let ghost tail = all.subrange(i as int, all.len() as int);
        assert(tail.drop_first() =~= all.subrange(i + 1, all.len() as int));
        result = replace(result.as_str(), &p, v.as_str());
        i = i + 1;
    }
    assert(all.subrange(i as int, all.len() as int) =~= Seq::<(Seq<char>, Seq<char>)>::empty());
    result
}

/// No `{{` occurs in `s`.
pub open spec fn no_open_braces(s: Seq<char>) -> bool {
    forall|i: int| 0 <= i < s.len() - 1 ==> !(#[trigger] s[i] == '{' && s[i + 1] == '{')
}

proof fn lemma_replace_absent(s: Seq<char>, p: Seq<char>, r: Seq<char>)
    requires
        p.len() >= 2,
        p[0] == '{',
        p[1] == '{',
        no_open_braces(s),
    ensures
        replace_spec(s, p, r) == s,
    decreases s.len(),
{
    if s.len() >= p.len() {
        if s.subrange(0, p.len() as int) == p {
            assert(s[0] == s.subrange(0, p.len() as int)[0]);
            assert(s[1] == s.subrange(0, p.len() as int)[1]);
            assert(false);
        }
        let t = s.drop_first();
        assert(no_open_braces(t)) by {
            assert forall|i: int| 0 <= i < t.len() - 1 implies !(#[trigger] t[i] == '{' && t[i + 1] == '{') by {
                assert(t[i] == s[i + 1]);
                assert(t[i + 1] == s[i + 2]);
            }
        }
        lemma_replace_absent(t, p, r);
        assert(seq![s[0]] + t =~= s);
    }
}

/// A template without placeholders reads the same whatever the variables.
pub proof fn law_plain_template_unchanged(t: Seq<char>, entries: Seq<(Seq<char>, Seq<char>)>)
    requires
        no_open_braces(t),
    ensures
        fill_spec(t, entries) == t,
    decreases entries.len(),
{
    if entries.len() > 0 {
        let p = placeholder(entries[0].0);
        assert(p[0] == '{' && p[1] == '{');
        lemma_replace_absent(t, p, entries[0].1);
        law_plain_template_unchanged(t, entries.drop_first());
    }
}

} // verus!
