//! A string-keyed mapping with string values and unique keys, modelled as a
//! sequence of key/value pairs. It stands in for the header mapping of
//! requests and responses and for the loaded static-page store: binding an
//! already-present key replaces its value (the last occurrence wins).

use vstd::prelude::*;
use vstd::string::*;
use crate::text::str_eq;

verus! {

/// The first position at or after `i` whose key is `k`, or `ps.len()` if no
/// later pair has that key.
pub open spec fn key_from(ps: Seq<(Seq<char>, Seq<char>)>, k: Seq<char>, i: int) -> int
    decreases ps.len() - i,
{
    if !(0 <= i < ps.len()) {
        ps.len() as int
    } else if ps[i].0 == k {
        i
    } else {
        key_from(ps, k, i + 1)
    }
}

/// The position of the pair bound to `k`, or `ps.len()` if `k` is unbound.
pub open spec fn key_idx(ps: Seq<(Seq<char>, Seq<char>)>, k: Seq<char>) -> int {
    key_from(ps, k, 0)
}

/// The value bound to `k`, if any.
pub open spec fn lookup(ps: Seq<(Seq<char>, Seq<char>)>, k: Seq<char>) -> Option<Seq<char>> {
    if key_idx(ps, k) < ps.len() {
        Some(ps[key_idx(ps, k)].1)
    } else {
        None
    }
}

/// The pairs after binding `k` to `v`: an existing binding of `k` is
/// replaced in place, otherwise the new pair is appended.
pub open spec fn insert_pair(
    ps: Seq<(Seq<char>, Seq<char>)>,
    k: Seq<char>,
    v: Seq<char>,
) -> Seq<(Seq<char>, Seq<char>)> {
    if key_idx(ps, k) < ps.len() {
        ps.update(key_idx(ps, k), (k, v))
    } else {
        ps.push((k, v))
    }
}

/// No two pairs share a key.
pub open spec fn unique_keys(ps: Seq<(Seq<char>, Seq<char>)>) -> bool {
    forall|i: int, j: int| 0 <= i < j < ps.len() ==> ps[i].0 != ps[j].0
}

pub proof fn lemma_key_from_props(ps: Seq<(Seq<char>, Seq<char>)>, k: Seq<char>, i: int)
    requires
        0 <= i <= ps.len(),
    ensures
        i <= key_from(ps, k, i) <= ps.len(),
        forall|m: int| i <= m < key_from(ps, k, i) ==> ps[m].0 != k,
        key_from(ps, k, i) < ps.len() ==> ps[key_from(ps, k, i)].0 == k,
    decreases ps.len() - i,
{
    if i < ps.len() && ps[i].0 != k {
        lemma_key_from_props(ps, k, i + 1);
    }
}

/// Where the first pair with key `k` at or after `i` is known, `key_from`
/// finds exactly it.
pub proof fn lemma_key_from_found(ps: Seq<(Seq<char>, Seq<char>)>, k: Seq<char>, i: int, j: int)
    requires
        0 <= i <= j < ps.len(),
        forall|m: int| i <= m < j ==> ps[m].0 != k,
        ps[j].0 == k,
    ensures
        key_from(ps, k, i) == j,
    decreases j - i,
{
    if i < j {
        lemma_key_from_found(ps, k, i + 1, j);
    }
}

/// Where no pair at or after `i` has key `k`, `key_from` reports the length.
pub proof fn lemma_key_from_none(ps: Seq<(Seq<char>, Seq<char>)>, k: Seq<char>, i: int)
    requires
        0 <= i <= ps.len(),
        forall|m: int| i <= m < ps.len() ==> ps[m].0 != k,
    ensures
        key_from(ps, k, i) == ps.len(),
    decreases ps.len() - i,
{
    if i < ps.len() {
        lemma_key_from_none(ps, k, i + 1);
    }
}

/// The last binding wins: after binding `k` to `v`, looking `k` up gives
/// `v`, and looking any other key up gives what it gave before.
pub proof fn lemma_insert_lookup(ps: Seq<(Seq<char>, Seq<char>)>, k: Seq<char>, v: Seq<char>)
    ensures
        lookup(insert_pair(ps, k, v), k) == Some(v),
        forall|k2: Seq<char>|
            k2 != k ==> lookup(insert_pair(ps, k, v), k2) == lookup(ps, k2),
{
    lemma_key_from_props(ps, k, 0);
    let j = key_idx(ps, k);
    let r = insert_pair(ps, k, v);
    if j < ps.len() {
        lemma_key_from_found(r, k, 0, j);
    } else {
        lemma_key_from_found(r, k, 0, ps.len() as int);
    }
    assert forall|k2: Seq<char>| k2 != k implies lookup(r, k2) == lookup(ps, k2) by {
        lemma_key_from_props(ps, k2, 0);
        let j2 = key_idx(ps, k2);
        if j2 < ps.len() {
            lemma_key_from_found(r, k2, 0, j2);
        } else {
            if j < ps.len() {
                lemma_key_from_none(r, k2, 0);
            } else {
                assert(forall|m: int| 0 <= m < r.len() ==> r[m].0 != k2);
                lemma_key_from_none(r, k2, 0);
            }
        }
    }
}

/// Binding a key keeps keys unique.
pub proof fn lemma_insert_unique(ps: Seq<(Seq<char>, Seq<char>)>, k: Seq<char>, v: Seq<char>)
    requires
        unique_keys(ps),
    ensures
        unique_keys(insert_pair(ps, k, v)),
{
    lemma_key_from_props(ps, k, 0);
    let j = key_idx(ps, k);
    let r = insert_pair(ps, k, v);
    if j < ps.len() {
        assert forall|a: int, b: int| 0 <= a < b < r.len() implies r[a].0 != r[b].0 by {
            if a == j {
                assert(ps[b].0 != ps[j].0);
            } else if b == j {
                assert(ps[a].0 != ps[j].0);
            }
        }
    } else {
        assert forall|a: int, b: int| 0 <= a < b < r.len() implies r[a].0 != r[b].0 by {
            if b == ps.len() {
                assert(ps[a].0 != k);
            }
        }
    }
}

/// A string-to-string mapping with unique keys.
#[derive(Debug, PartialEq, Clone)]
pub struct StrMap {
    pairs: Vec<(String, String)>,
}

impl View for StrMap {
    type V = Seq<(Seq<char>, Seq<char>)>;

    closed spec fn view(&self) -> Seq<(Seq<char>, Seq<char>)> {
        Seq::new(self.pairs@.len(), |i: int| (self.pairs@[i].0@, self.pairs@[i].1@))
    }
}

impl StrMap {
    /// Well-formedness: the keys are unique. `new` establishes this and
    /// `insert` preserves it.
    pub open spec fn wf(&self) -> bool {
        unique_keys(self@)
    }

    pub fn new() -> (r: StrMap)
        ensures
            r@ == Seq::<(Seq<char>, Seq<char>)>::empty(),
            r.wf(),
    {
        let r = StrMap { pairs: Vec::new() };
        proof {
            assert(r@ =~= Seq::<(Seq<char>, Seq<char>)>::empty());
        }
        r
    }

    pub fn len(&self) -> (n: usize)
        ensures
            n == self@.len(),
    {
        self.pairs.len()
    }

    /// The key of the pair at position `i`.
    pub fn key_at(&self, i: usize) -> (r: &String)
        requires
            i < self@.len(),
        ensures
            r@ == self@[i as int].0,
    {
        &self.pairs[i].0
    }

    /// The value of the pair at position `i`.
    pub fn value_at(&self, i: usize) -> (r: &String)
        requires
            i < self@.len(),
        ensures
            r@ == self@[i as int].1,
    {
        &self.pairs[i].1
    }

    /// The position of the pair whose key is `k`, or the number of pairs if
    /// `k` is unbound.
    fn find(&self, k: &str) -> (j: usize)
        ensures
            j == key_idx(self@, k@),
            j <= self@.len(),
    {
        let n = self.pairs.len();
        let mut i: usize = 0;
        while i < n
            invariant
                n == self@.len(),
                n == self.pairs@.len(),
                i <= n,
                key_idx(self@, k@) == key_from(self@, k@, i as int),
            decreases n - i,
        {
            if str_eq(self.pairs[i].0.as_str(), k) {
                proof {
                    assert(self@[i as int].0 == k@);
                    assert(key_from(self@, k@, i as int) == i);
                }
                return i;
            }
            proof {
                assert(self@[i as int].0 != k@);
                assert(key_from(self@, k@, i as int) == key_from(self@, k@, i + 1));
            }
            i += 1;
        }
        proof {
            assert(key_from(self@, k@, i as int) == n);
        }
        n
    }

    /// The value bound to `k`, if any.
    pub fn get(&self, k: &str) -> (r: Option<&String>)
        ensures
            match r {
                Some(v) => lookup(self@, k@) == Some(v@),
                None => lookup(self@, k@) is None,
            },
    {
        let j = self.find(k);
        if j < self.pairs.len() {
            Some(&self.pairs[j].1)
        } else {
            None
        }
    }

    /// Binds `k` to `v`, replacing any earlier binding of `k`.
    pub fn insert(&mut self, k: String, v: String)
        ensures
            final(self)@ == insert_pair(old(self)@, k@, v@),
            old(self).wf() ==> final(self).wf(),
    {
        let j = self.find(k.as_str());
        let n = self.pairs.len();
        proof {
            if old(self).wf() {
                lemma_insert_unique(old(self)@, k@, v@);
            }
        }
        if j < n {
            self.pairs.remove(j);
            self.pairs.insert(j, (k, v));
            proof {
                assert(self.pairs@ =~= old(self).pairs@.update(j as int, self.pairs@[j as int]));
                assert(self@ =~= insert_pair(old(self)@, k@, v@));
            }
        } else {
            self.pairs.push((k, v));
            proof {
                assert(self@ =~= insert_pair(old(self)@, k@, v@));
            }
        }
    }
}

} // verus!
