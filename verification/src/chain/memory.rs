//! The variables of a running chain: names bound to text, in the order
//! they were first bound.
use vstd::prelude::*;

use crate::text::same_text;

verus! {

/// The value bound to `key` in `entries`: that of the first entry with that key.
pub open spec fn lookup(entries: Seq<(Seq<char>, Seq<char>)>, key: Seq<char>) -> Option<Seq<char>>
    decreases entries.len(),
{
    if entries.len() == 0 {
        None
    } else if entries[0].0 == key {
        Some(entries[0].1)
    } else {
        lookup(entries.drop_first(), key)
    }
}

/// The index of the first entry with `key`.
pub open spec fn key_index(entries: Seq<(Seq<char>, Seq<char>)>, key: Seq<char>) -> Option<int>
    decreases entries.len(),
{
    if entries.len() == 0 {
        None
    } else if entries[0].0 == key {
        Some(0)
    } else {
        match key_index(entries.drop_first(), key) {
            Some(i) => Some(i + 1),
            None => None,
        }
    }
}

/// `entries` with `key` bound to `value`: the first entry with that key gets
/// the new value, or a new entry goes at the end.
pub open spec fn bind(entries: Seq<(Seq<char>, Seq<char>)>, key: Seq<char>, value: Seq<char>) -> Seq<
    (Seq<char>, Seq<char>),
> {
    match key_index(entries, key) {
        Some(i) => entries.update(i, (key, value)),
        None => entries.push((key, value)),
    }
}

/// No key occurs twice in `entries`.
pub open spec fn keys_distinct(entries: Seq<(Seq<char>, Seq<char>)>) -> bool {
    forall|i: int, j: int|
        0 <= i < j < entries.len() ==> #[trigger] entries[i].0 != #[trigger] entries[j].0
}

pub proof fn lemma_key_index(entries: Seq<(Seq<char>, Seq<char>)>, key: Seq<char>)
    ensures
        match key_index(entries, key) {
            Some(i) => 0 <= i < entries.len() && entries[i].0 == key && forall|j: int|
                0 <= j < i ==> #[trigger] entries[j].0 != key,
            None => forall|j: int| 0 <= j < entries.len() ==> #[trigger] entries[j].0 != key,
        },
        lookup(entries, key) == match key_index(entries, key) {
            Some(i) => Some(entries[i].1),
            None => None::<Seq<char>>,
        },
    decreases entries.len(),
{
    if entries.len() > 0 && entries[0].0 != key {
        let rest = entries.drop_first();
        lemma_key_index(rest, key);
        match key_index(rest, key) {
            Some(i) => {
                assert forall|j: int| 0 <= j < i + 1 implies #[trigger] entries[j].0 != key by {
                    if j > 0 {
                        assert(entries[j] == rest[j - 1]);
                    }
                }
            },
            None => {
                assert forall|j: int| 0 <= j < entries.len() implies #[trigger] entries[j].0 != key by {
                    if j > 0 {
                        assert(entries[j] == rest[j - 1]);
                    }
                }
            },
        }
    }
}

/// Variables and their values.
#[derive(Debug, Clone)]
pub struct Memory {
    entries: Vec<(String, String)>,
}

impl View for Memory {
    type V = Seq<(Seq<char>, Seq<char>)>;

    closed spec fn view(&self) -> Seq<(Seq<char>, Seq<char>)> {
        self.entries@.map_values(|e: (String, String)| (e.0@, e.1@))
    }
}

impl Memory {
    /// No variables.
    pub fn new() -> (m: Self)
        ensures
            m@ == Seq::<(Seq<char>, Seq<char>)>::empty(),
    {
        let m = Memory { entries: Vec::new() };
        assert(m@ =~= Seq::<(Seq<char>, Seq<char>)>::empty());
        m
    }

    /// The number of variables.
    pub fn len(&self) -> (n: usize)
        ensures
            n == self@.len(),
    {
        self.entries.len()
    }

    /// The position of the variable `key`.
    fn index_of(&self, key: &str) -> (r: Option<usize>)
        ensures
            match r {
                Some(i) => key_index(self@, key@) == Some(i as int),
                None => key_index(self@, key@) is None,
            },
    {
        proof {
            lemma_key_index(self@, key@);
        }
        let mut i: usize = 0;
        while i < self.entries.len()
            invariant
                0 <= i <= self.entries.len(),
                self@.len() == self.entries.len(),
                forall|j: int| 0 <= j < i ==> #[trigger] self@[j].0 != key@,
            decreases self.entries.len() - i,
        {
            assert(self@[i as int].0 == self.entries@[i as int].0@);
            if same_text(self.entries[i].0.as_str(), key) {
                proof {
                    lemma_key_index(self@, key@);
                    assert(self@[i as int].0 == key@);
                    match key_index(self@, key@) {
                        Some(k) => {
                            if k < i {
                                assert(self@[k].0 != key@);
                            } else if k > i {
                                assert(self@[i as int].0 != key@);
                            }
                        },
                        None => {
                            assert(self@[i as int].0 != key@);
                        },
                    }
                }
                return Some(i);
            }
            i = i + 1;
        }
        None
    }

    /// The value of the variable `key`, if it is bound.
    pub fn get(&self, key: &str) -> (r: Option<&String>)
        ensures
            match r {
                Some(v) => lookup(self@, key@) == Some(v@),
                None => lookup(self@, key@) is None,
            },
    {
        proof {
            lemma_key_index(self@, key@);
        }
        match self.index_of(key) {
            Some(i) => {
                assert(self@[i as int].1 == self.entries@[i as int].1@);
                Some(&self.entries[i].1)
            },
            None => None,
        }
    }

    /// Whether the variable `key` is bound.
    pub fn contains_key(&self, key: &str) -> (b: bool)
        ensures
            b == lookup(self@, key@) is Some,
    {
        self.get(key).is_some()
    }

    /// Binds `key` to `value`, in place of its old value if it had one.
    pub fn insert(&mut self, key: String, value: String)
        ensures
            final(self)@ == bind(old(self)@, key@, value@),
    {
        let ghost before = self@;
        proof {
            lemma_key_index(self@, key@);
        }
        assert(self@.len() == self.entries@.len());
        match self.index_of(key.as_str()) {
            Some(i) => {
                let ghost k = key@;
                let ghost v = value@;
                self.entries.set(i, (key, value));
                assert(self@ =~= before.update(i as int, (k, v)));
            },
            None => {
                let ghost k = key@;
                let ghost v = value@;
                self.entries.push((key, value));
                assert(self@ =~= before.push((k, v)));
            },
        }
    }

    /// The variables and values, in the order they were first bound.
    pub fn entries(&self) -> (e: &Vec<(String, String)>)
        ensures
            e@.map_values(|p: (String, String)| (p.0@, p.1@)) == self@,
    {
        &self.entries
    }

    /// The value of the variable bound last (as a map's last value), if any.
    pub fn last_value(&self) -> (r: Option<&String>)
        ensures
            match r {
                Some(v) => self@.len() > 0 && v@ == self@.last().1,
                None => self@.len() == 0,
            },
    {
        let n = self.entries.len();
        if n == 0 {
            None
        } else {
            assert(self@[n - 1].1 == self.entries@[n - 1].1@);
            Some(&self.entries[n - 1].1)
        }
    }
}

/// Binding a variable never makes a key occur twice, and afterwards the key
/// reads back the value it was bound to while every other key keeps its own.
pub proof fn law_bind_then_lookup(
    entries: Seq<(Seq<char>, Seq<char>)>,
    key: Seq<char>,
    value: Seq<char>,
    other: Seq<char>,
)
    requires
        keys_distinct(entries),
    ensures
        keys_distinct(bind(entries, key, value)),
        lookup(bind(entries, key, value), key) == Some(value),
        other != key ==> lookup(bind(entries, key, value), other) == lookup(entries, other),
{
    let b = bind(entries, key, value);
    lemma_key_index(entries, key);
    lemma_key_index(entries, other);
    lemma_key_index(b, key);
    lemma_key_index(b, other);
    match key_index(entries, key) {
        Some(i) => {
            assert(b.len() == entries.len());
            assert forall|x: int, y: int| 0 <= x < y < b.len() implies #[trigger] b[x].0
                != #[trigger] b[y].0 by {
                assert(entries[x].0 != entries[y].0);
            }
        },
        None => {
            assert forall|x: int, y: int| 0 <= x < y < b.len() implies #[trigger] b[x].0
                != #[trigger] b[y].0 by {
                if y < entries.len() {
                    assert(entries[x].0 != entries[y].0);
                } else {
                    assert(entries[x].0 != key);
                }
            }
        },
    }
    match key_index(b, key) {
        Some(k) => {
            match key_index(entries, key) {
                Some(i) => {
                    if k < i {
                        assert(b[k] == entries[k]);
                    } else if k > i {
                        assert(b[i].0 == key);
                    }
                },
                None => {
                    if k < entries.len() {
                        assert(b[k] == entries[k]);
                    }
                },
            }
        },
        None => {
            match key_index(entries, key) {
                Some(i) => {
                    assert(b[i].0 == key);
                },
                None => {
                    assert(b[entries.len() as int].0 == key);
                },
            }
        },
    }
    if other != key {
        match key_index(b, other) {
            Some(k) => {
                assert(b[k].0 == other);
                if k < entries.len() {
                    assert(b[k] == entries[k]);
                }
                match key_index(entries, other) {
                    Some(j) => {
                        if j < k {
                            assert(b[j] == entries[j]);
                        } else if k < j {
                            assert(entries[k].0 == other);
                        }
                    },
                    None => {},
                }
            },
            None => {
                match key_index(entries, other) {
                    Some(j) => {
                        assert(b[j] == entries[j]);
                    },
                    None => {},
                }
            },
        }
    }
}

} // verus!
