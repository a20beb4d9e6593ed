//! A map from strings to values that keeps its entries in the order of their
//! keys, the order in which a `BTreeMap<String, _>` walks its entries.
use vstd::prelude::*;

use crate::keyed::{
    assoc_get, assoc_remove, assoc_update, lemma_get_at, lemma_remove_at, lemma_remove_subset, lemma_update_at,
};
use crate::text::{
    chars_eq, chars_of, lemma_lex_antisymmetric, lemma_lex_total, lemma_lex_transitive, lex_le,
    lex_le_chars,
};

verus! {

/// `a` comes strictly before `b`.
pub open spec fn lex_lt(a: Seq<char>, b: Seq<char>) -> bool {
    lex_le(a, b) && a != b
}

/// `s` with `w` stored under `k`: the entry for `k` is replaced where there is
/// one, else a new entry goes before the first key that follows `k`.
pub open spec fn assoc_insert<W>(s: Seq<(Seq<char>, W)>, k: Seq<char>, w: W) -> Seq<(Seq<char>, W)>
    decreases s.len(),
{
    if s.len() == 0 {
        seq![(k, w)]
    } else if s[0].0 == k {
        s.update(0, (k, w))
    } else if lex_lt(k, s[0].0) {
        seq![(k, w)] + s
    } else {
        seq![s[0]] + assoc_insert(s.drop_first(), k, w)
    }
}

/// Keys strictly ascending: every key occurs once, in order.
pub open spec fn keys_ascending<W>(s: Seq<(Seq<char>, W)>) -> bool {
    forall|i: int, j: int| 0 <= i < j < s.len() ==> lex_lt(#[trigger] s[i].0, #[trigger] s[j].0)
}

proof fn lemma_insert_at<W>(s: Seq<(Seq<char>, W)>, k: Seq<char>, w: W, i: int)
    requires
        0 <= i <= s.len(),
        forall|j: int| 0 <= j < i ==> s[j].0 != k && !lex_lt(k, s[j].0),
        i < s.len() ==> (s[i].0 == k || lex_lt(k, s[i].0)),
    ensures
        assoc_insert(s, k, w) == if i < s.len() && s[i].0 == k {
            s.update(i, (k, w))
        } else {
            s.insert(i, (k, w))
        },
    decreases i,
{
    if i == 0 {
        if s.len() == 0 {
            assert(s.insert(0, (k, w)) =~= seq![(k, w)]);
        } else if s[0].0 != k {
            assert(s.insert(0, (k, w)) =~= seq![(k, w)] + s);
        }
    } else {
        let t = s.drop_first();
        assert forall|j: int| 0 <= j < i - 1 implies t[j].0 != k && !lex_lt(k, t[j].0) by {
            assert(t[j] == s[j + 1]);
        }
        lemma_insert_at(t, k, w, i - 1);
        if i < s.len() && s[i].0 == k {
            assert(seq![s[0]] + t.update(i - 1, (k, w)) =~= s.update(i, (k, w)));
        } else {
            assert(seq![s[0]] + t.insert(i - 1, (k, w)) =~= s.insert(i, (k, w)));
        }
    }
}

/// A lookup after storing `w` under `k` finds `w` under `k` and what was
/// there before under every other key.
pub proof fn lemma_get_after_insert<W>(s: Seq<(Seq<char>, W)>, k: Seq<char>, w: W, k2: Seq<char>)
    ensures
        assoc_get(assoc_insert(s, k, w), k2) == if k2 == k { Some(w) } else { assoc_get(s, k2) },
    decreases s.len(),
{
    if s.len() > 0 && s[0].0 != k && !lex_lt(k, s[0].0) {
        lemma_get_after_insert(s.drop_first(), k, w, k2);
        let r = seq![s[0]] + assoc_insert(s.drop_first(), k, w);
        assert(r.drop_first() =~= assoc_insert(s.drop_first(), k, w));
    } else if s.len() > 0 && s[0].0 == k {
        assert(s.update(0, (k, w)).drop_first() =~= s.drop_first());
    } else if s.len() > 0 {
        assert((seq![(k, w)] + s).drop_first() =~= s);
    } else {
        assert(seq![(k, w)].drop_first() =~= s);
    }
}

proof fn lemma_lex_lt_transitive(a: Seq<char>, b: Seq<char>, c: Seq<char>)
    requires
        lex_lt(a, b),
        lex_lt(b, c),
    ensures
        lex_lt(a, c),
{
    lemma_lex_transitive(a, b, c);
    if a == c {
        lemma_lex_antisymmetric(a, b);
    }
}

proof fn lemma_insert_lower_bound<W>(s: Seq<(Seq<char>, W)>, k: Seq<char>, w: W, lb: Seq<char>)
    requires
        forall|j: int| 0 <= j < s.len() ==> lex_lt(lb, #[trigger] s[j].0),
        lex_lt(lb, k),
    ensures
        forall|j: int| 0 <= j < assoc_insert(s, k, w).len() ==> lex_lt(lb, #[trigger] assoc_insert(s, k, w)[j].0),
    decreases s.len(),
{
    if s.len() > 0 && s[0].0 != k && !lex_lt(k, s[0].0) {
        let t = s.drop_first();
        assert forall|j: int| 0 <= j < t.len() implies lex_lt(lb, #[trigger] t[j].0) by {
            assert(t[j] == s[j + 1]);
        }
        lemma_insert_lower_bound(t, k, w, lb);
        let r = assoc_insert(s, k, w);
        assert forall|j: int| 0 <= j < r.len() implies lex_lt(lb, #[trigger] r[j].0) by {
            if j > 0 {
                assert(r[j] == assoc_insert(t, k, w)[j - 1]);
            }
        }
    } else if s.len() > 0 && s[0].0 == k {
    } else if s.len() > 0 {
        let r = assoc_insert(s, k, w);
        assert forall|j: int| 0 <= j < r.len() implies lex_lt(lb, #[trigger] r[j].0) by {
            if j > 0 {
                assert(r[j] == s[j - 1]);
            }
        }
    }
}

/// Storing a value keeps the keys strictly ascending, so the entries stay in
/// the order in which a `BTreeMap<String, _>` walks them.
pub proof fn lemma_insert_keeps_order<W>(s: Seq<(Seq<char>, W)>, k: Seq<char>, w: W)
    requires
        keys_ascending(s),
    ensures
        keys_ascending(assoc_insert(s, k, w)),
    decreases s.len(),
{
    let r = assoc_insert(s, k, w);
    if s.len() == 0 {
    } else if s[0].0 == k {
        assert forall|i: int, j: int| 0 <= i < j < r.len() implies lex_lt(#[trigger] r[i].0, #[trigger] r[j].0) by {
            assert(r[i].0 == s[i].0 && r[j].0 == s[j].0);
        }
    } else if lex_lt(k, s[0].0) {
        assert forall|i: int, j: int| 0 <= i < j < r.len() implies lex_lt(#[trigger] r[i].0, #[trigger] r[j].0) by {
            if i == 0 {
                assert(r[j] == s[j - 1]);
                if j > 1 {
                    assert(lex_lt(s[0].0, s[j - 1].0));
                    lemma_lex_lt_transitive(k, s[0].0, s[j - 1].0);
                }
            } else {
                assert(r[i] == s[i - 1] && r[j] == s[j - 1]);
            }
        }
    } else {
        lemma_lex_total(k, s[0].0);
        let t = s.drop_first();
        assert forall|i: int, j: int| 0 <= i < j < t.len() implies lex_lt(#[trigger] t[i].0, #[trigger] t[j].0) by {
            assert(t[i] == s[i + 1] && t[j] == s[j + 1]);
        }
        assert forall|j: int| 0 <= j < t.len() implies lex_lt(s[0].0, #[trigger] t[j].0) by {
            assert(t[j] == s[j + 1]);
        }
        lemma_insert_keeps_order(t, k, w);
        lemma_insert_lower_bound(t, k, w, s[0].0);
        let rt = assoc_insert(t, k, w);
        assert forall|i: int, j: int| 0 <= i < j < r.len() implies lex_lt(#[trigger] r[i].0, #[trigger] r[j].0) by {
            assert(r[j] == rt[j - 1]);
            if i > 0 {
                assert(r[i] == rt[i - 1]);
            }
        }
    }
}

/// Storing a value leaves at least one entry.
pub proof fn lemma_insert_nonempty<W>(s: Seq<(Seq<char>, W)>, k: Seq<char>, w: W)
    ensures
        assoc_insert(s, k, w).len() >= 1,
        assoc_insert(s, k, w).len() >= s.len(),
    decreases s.len(),
{
    if s.len() > 0 && s[0].0 != k && !lex_lt(k, s[0].0) {
        lemma_insert_nonempty(s.drop_first(), k, w);
    }
}

/// Removing an entry keeps the remaining keys strictly ascending.
pub proof fn lemma_remove_keeps_order<W>(s: Seq<(Seq<char>, W)>, k: Seq<char>)
    requires
        keys_ascending(s),
    ensures
        keys_ascending(assoc_remove(s, k)),
    decreases s.len(),
{
    if s.len() > 0 && s[0].0 != k {
        let t = s.drop_first();
        assert forall|i: int, j: int| 0 <= i < j < t.len() implies lex_lt(#[trigger] t[i].0, #[trigger] t[j].0) by {
            assert(t[i] == s[i + 1] && t[j] == s[j + 1]);
        }
        lemma_remove_keeps_order(t, k);
        lemma_remove_subset(t, k);
        let rt = assoc_remove(t, k);
        let r = assoc_remove(s, k);
        assert forall|i: int, j: int| 0 <= i < j < r.len() implies lex_lt(#[trigger] r[i].0, #[trigger] r[j].0) by {
            assert(r[j] == rt[j - 1]);
            let m = choose|m: int| 0 <= m < t.len() && rt[j - 1] == t[m];
            assert(t[m] == s[m + 1]);
            if i > 0 {
                assert(r[i] == rt[i - 1]);
            }
        }
    } else if s.len() > 0 {
        let t = s.drop_first();
        assert forall|i: int, j: int| 0 <= i < j < t.len() implies lex_lt(#[trigger] t[i].0, #[trigger] t[j].0) by {
            assert(t[i] == s[i + 1] && t[j] == s[j + 1]);
        }
    }
}

/// A map from `String` keys to values, its entries kept in key order.
#[derive(Debug, Clone)]
pub struct StrMap<V> {
    items: Vec<(String, V)>,
}

impl<V: View> View for StrMap<V> {
    type V = Seq<(Seq<char>, V::V)>;

    closed spec fn view(&self) -> Seq<(Seq<char>, V::V)> {
        self.items@.map_values(|p: (String, V)| (p.0@, p.1@))
    }
}

impl<V: View> StrMap<V> {
    /// An empty map.
    pub fn new() -> (m: Self)
        ensures
            m@ == Seq::<(Seq<char>, V::V)>::empty(),
    {
        let m = StrMap { items: Vec::new() };
        assert(m@ =~= Seq::<(Seq<char>, V::V)>::empty());
        m
    }

    /// The number of entries.
    pub fn len(&self) -> (n: usize)
        ensures
            n == self@.len(),
    {
        self.items.len()
    }

    /// Whether the map has no entry.
    pub fn is_empty(&self) -> (b: bool)
        ensures
            b == (self@.len() == 0),
    {
        self.items.len() == 0
    }

    /// The key of the entry at `i`, in key order.
    pub fn key_at(&self, i: usize) -> (k: &String)
        requires
            i < self@.len(),
        ensures
            k@ == self@[i as int].0,
    {
        &self.items[i].0
    }

    /// The value of the entry at `i`, in key order.
    pub fn value_at(&self, i: usize) -> (v: &V)
        requires
            i < self@.len(),
        ensures
            v@ == self@[i as int].1,
    {
        &self.items[i].1
    }

    /// Replaces the value of the entry at `i`.
    pub fn set_value_at(&mut self, i: usize, value: V)
        requires
            i < old(self)@.len(),
        ensures
            final(self)@ == old(self)@.update(i as int, (old(self)@[i as int].0, value@)),
    {
        let key = self.items[i].0.clone();
        self.items.set(i, (key, value));
        assert(final(self)@ =~= old(self)@.update(i as int, (old(self)@[i as int].0, value@)));
    }

    /// The position of the entry for `key`, if there is one.
    pub fn index_of(&self, key: &str) -> (r: Option<usize>)
        ensures
            match r {
                Some(i) => i < self@.len() && self@[i as int].0 == key@ && forall|j: int|
                    0 <= j < i ==> self@[j].0 != key@,
                None => forall|j: int| 0 <= j < self@.len() ==> self@[j].0 != key@,
            },
    {
        let kc = chars_of(key);
        let mut i: usize = 0;
        while i < self.items.len()
            invariant
                kc@ == key@,
                i <= self.items@.len(),
                forall|j: int| 0 <= j < i ==> self@[j].0 != key@,
            decreases self.items@.len() - i,
        {
            let here = chars_of(self.items[i].0.as_str());
            if chars_eq(here.as_slice(), kc.as_slice()) {
                return Some(i);
            }
            i = i + 1;
        }
        None
    }

    /// The value stored under `key`.
    pub fn get(&self, key: &str) -> (r: Option<&V>)
        ensures
            match r {
                Some(v) => assoc_get(self@, key@) == Some(v@),
                None => assoc_get(self@, key@) is None,
            },
    {
        match self.index_of(key) {
            Some(i) => {
                proof {
                    lemma_get_at(self@, key@, i as int);
                }
                Some(&self.items[i].1)
            },
            None => {
                proof {
                    lemma_get_at(self@, key@, self@.len() as int);
                }
                None
            },
        }
    }

    /// Stores `value` under `key`, in key order.
    pub fn insert(&mut self, key: String, value: V)
        ensures
            final(self)@ == assoc_insert(old(self)@, key@, value@),
    {
        let kc = chars_of(key.as_str());
        let mut i: usize = 0;
        while i < self.items.len()
            invariant
                kc@ == key@,
                i <= self.items@.len(),
                self@ == old(self)@,
                forall|j: int| 0 <= j < i ==> self@[j].0 != key@ && !lex_lt(key@, self@[j].0),
            decreases self.items@.len() - i,
        {
            let here = chars_of(self.items[i].0.as_str());
            if chars_eq(here.as_slice(), kc.as_slice()) {
                proof {
                    lemma_insert_at(old(self)@, key@, value@, i as int);
                }
                self.items.set(i, (key, value));
                assert(final(self)@ =~= old(self)@.update(i as int, (key@, value@)));
                return;
            }
            if lex_le_chars(kc.as_slice(), here.as_slice()) {
                proof {
                    lemma_insert_at(old(self)@, key@, value@, i as int);
                }
                self.items.insert(i, (key, value));
                assert(final(self)@ =~= old(self)@.insert(i as int, (key@, value@)));
                return;
            }
            i = i + 1;
        }
        proof {
            lemma_insert_at(old(self)@, key@, value@, i as int);
        }
        self.items.push((key, value));
        assert(final(self)@ =~= old(self)@.insert(i as int, (key@, value@)));
    }

    /// Replaces the value stored under `key`, if there is one.
    pub fn replace(&mut self, key: &str, value: V)
        ensures
            final(self)@ == assoc_update(old(self)@, key@, value@),
    {
        match self.index_of(key) {
            Some(i) => {
                proof {
                    lemma_update_at(self@, key@, value@, i as int);
                }
                self.set_value_at(i, value);
            },
            None => {
                proof {
                    lemma_update_at(self@, key@, value@, self@.len() as int);
                }
            },
        }
    }

    /// Removes the entry for `key` and hands back its value.
    pub fn remove(&mut self, key: &str) -> (r: Option<V>)
        ensures
            final(self)@ == assoc_remove(old(self)@, key@),
            r is None ==> final(self)@ == old(self)@,
            match r {
                Some(v) => assoc_get(old(self)@, key@) == Some(v@),
                None => assoc_get(old(self)@, key@) is None,
            },
    {
        match self.index_of(key) {
            Some(i) => {
                proof {
                    lemma_get_at(self@, key@, i as int);
                    lemma_remove_at(self@, key@, i as int);
                }
                let (_, v) = self.items.remove(i);
                assert(final(self)@ =~= old(self)@.remove(i as int));
                Some(v)
            },
            None => {
                proof {
                    lemma_get_at(self@, key@, self@.len() as int);
                    lemma_remove_at(self@, key@, self@.len() as int);
                }
                None
            },
        }
    }
}

} // verus!
