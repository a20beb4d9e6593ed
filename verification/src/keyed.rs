//! Association lists: sequences of key and value pairs, looked up by the
//! first entry with a key, and the lemmas that relate their operations.
use vstd::prelude::*;

verus! {

/// The value stored under `k`, found at the first entry with that key.
pub open spec fn assoc_get<K, W>(s: Seq<(K, W)>, k: K) -> Option<W>
    decreases s.len(),
{
    if s.len() == 0 {
        None
    } else if s[0].0 == k {
        Some(s[0].1)
    } else {
        assoc_get(s.drop_first(), k)
    }
}

/// `s` with the value under `k` replaced by `w`, unchanged where `k` is absent.
pub open spec fn assoc_update<K, W>(s: Seq<(K, W)>, k: K, w: W) -> Seq<(K, W)>
    decreases s.len(),
{
    if s.len() == 0 {
        s
    } else if s[0].0 == k {
        s.update(0, (k, w))
    } else {
        seq![s[0]] + assoc_update(s.drop_first(), k, w)
    }
}

/// `s` with `w` stored under `k`: the entry for `k` is replaced where there is
/// one, else a new entry goes at the end.
pub open spec fn assoc_put<K, W>(s: Seq<(K, W)>, k: K, w: W) -> Seq<(K, W)>
    decreases s.len(),
{
    if s.len() == 0 {
        seq![(k, w)]
    } else if s[0].0 == k {
        s.update(0, (k, w))
    } else {
        seq![s[0]] + assoc_put(s.drop_first(), k, w)
    }
}

/// `assoc_put` replaces the first entry with the key, or appends.
pub proof fn lemma_put_at<K, W>(s: Seq<(K, W)>, k: K, w: W, i: int)
    requires
        0 <= i <= s.len(),
        forall|j: int| 0 <= j < i ==> s[j].0 != k,
        i < s.len() ==> s[i].0 == k,
    ensures
        assoc_put(s, k, w) == if i < s.len() { s.update(i, (k, w)) } else { s.push((k, w)) },
    decreases i,
{
    if i == 0 {
        if s.len() == 0 {
            assert(s.push((k, w)) =~= seq![(k, w)]);
        }
    } else {
        let t = s.drop_first();
        assert forall|j: int| 0 <= j < i - 1 implies t[j].0 != k by {
            assert(t[j] == s[j + 1]);
        }
        lemma_put_at(t, k, w, i - 1);
        if i < s.len() {
            assert(seq![s[0]] + t.update(i - 1, (k, w)) =~= s.update(i, (k, w)));
        } else {
            assert(seq![s[0]] + t.push((k, w)) =~= s.push((k, w)));
        }
    }
}

/// A lookup after `assoc_put` finds `w` under `k` and the old value elsewhere.
pub proof fn lemma_get_after_put<K, W>(s: Seq<(K, W)>, k: K, w: W, k2: K)
    ensures
        assoc_get(assoc_put(s, k, w), k2) == if k2 == k { Some(w) } else { assoc_get(s, k2) },
    decreases s.len(),
{
    if s.len() > 0 && s[0].0 != k {
        lemma_get_after_put(s.drop_first(), k, w, k2);
        let r = seq![s[0]] + assoc_put(s.drop_first(), k, w);
        assert(r.drop_first() =~= assoc_put(s.drop_first(), k, w));
    } else if s.len() > 0 {
        assert(s.update(0, (k, w)).drop_first() =~= s.drop_first());
    } else {
        assert(seq![(k, w)].drop_first() =~= s);
    }
}

/// `s` without the entry for `k`.
pub open spec fn assoc_remove<K, W>(s: Seq<(K, W)>, k: K) -> Seq<(K, W)>
    decreases s.len(),
{
    if s.len() == 0 {
        s
    } else if s[0].0 == k {
        s.drop_first()
    } else {
        seq![s[0]] + assoc_remove(s.drop_first(), k)
    }
}

pub proof fn lemma_get_at<K, W>(s: Seq<(K, W)>, k: K, i: int)
    requires
        0 <= i <= s.len(),
        forall|j: int| 0 <= j < i ==> s[j].0 != k,
        i < s.len() ==> s[i].0 == k,
    ensures
        assoc_get(s, k) == if i < s.len() { Some(s[i].1) } else { None::<W> },
    decreases i,
{
    if s.len() > 0 && i > 0 {
        let t = s.drop_first();
        assert forall|j: int| 0 <= j < i - 1 implies t[j].0 != k by {
            assert(t[j] == s[j + 1]);
        }
        lemma_get_at(t, k, i - 1);
    }
}

pub proof fn lemma_update_at<K, W>(s: Seq<(K, W)>, k: K, w: W, i: int)
    requires
        0 <= i <= s.len(),
        forall|j: int| 0 <= j < i ==> s[j].0 != k,
        i < s.len() ==> s[i].0 == k,
    ensures
        assoc_update(s, k, w) == if i < s.len() { s.update(i, (k, w)) } else { s },
    decreases i,
{
    if i == 0 {
    } else {
        let t = s.drop_first();
        assert forall|j: int| 0 <= j < i - 1 implies t[j].0 != k by {
            assert(t[j] == s[j + 1]);
        }
        lemma_update_at(t, k, w, i - 1);
        if i < s.len() {
            assert(seq![s[0]] + t.update(i - 1, (k, w)) =~= s.update(i, (k, w)));
        } else {
            assert(seq![s[0]] + t =~= s);
        }
    }
}

pub proof fn lemma_remove_at<K, W>(s: Seq<(K, W)>, k: K, i: int)
    requires
        0 <= i <= s.len(),
        forall|j: int| 0 <= j < i ==> s[j].0 != k,
        i < s.len() ==> s[i].0 == k,
    ensures
        assoc_remove(s, k) == if i < s.len() { s.remove(i) } else { s },
    decreases i,
{
    if i == 0 {
        if s.len() > 0 {
            assert(s.remove(0) =~= s.drop_first());
        }
    } else {
        let t = s.drop_first();
        assert forall|j: int| 0 <= j < i - 1 implies t[j].0 != k by {
            assert(t[j] == s[j + 1]);
        }
        lemma_remove_at(t, k, i - 1);
        if i < s.len() {
            assert(seq![s[0]] + t.remove(i - 1) =~= s.remove(i));
        } else {
            assert(seq![s[0]] + t =~= s);
        }
    }
}

/// A lookup after replacing the value under `k` finds the new value under `k`
/// where `k` was present, and what was there before otherwise.
pub proof fn lemma_get_after_update<K, W>(s: Seq<(K, W)>, k: K, w: W, k2: K)
    ensures
        assoc_get(assoc_update(s, k, w), k2) == if k2 == k && assoc_get(s, k) is Some {
            Some(w)
        } else {
            assoc_get(s, k2)
        },
    decreases s.len(),
{
    if s.len() > 0 && s[0].0 != k {
        lemma_get_after_update(s.drop_first(), k, w, k2);
        let r = seq![s[0]] + assoc_update(s.drop_first(), k, w);
        assert(r.drop_first() =~= assoc_update(s.drop_first(), k, w));
    } else if s.len() > 0 {
        assert(s.update(0, (k, w)).drop_first() =~= s.drop_first());
    }
}

/// Removing the entry for `k` leaves every other key's value in place.
pub proof fn lemma_get_after_remove<K, W>(s: Seq<(K, W)>, k: K, k2: K)
    requires
        k2 != k,
    ensures
        assoc_get(assoc_remove(s, k), k2) == assoc_get(s, k2),
    decreases s.len(),
{
    if s.len() > 0 && s[0].0 != k {
        lemma_get_after_remove(s.drop_first(), k, k2);
        let r = seq![s[0]] + assoc_remove(s.drop_first(), k);
        assert(r.drop_first() =~= assoc_remove(s.drop_first(), k));
    }
}

/// Replacing a value leaves the keys, and so their order, as they were.
pub proof fn lemma_update_keeps_keys<K, W>(s: Seq<(K, W)>, k: K, w: W)
    ensures
        assoc_update(s, k, w).len() == s.len(),
        forall|i: int| 0 <= i < s.len() ==> (#[trigger] assoc_update(s, k, w)[i]).0 == s[i].0,
    decreases s.len(),
{
    if s.len() > 0 && s[0].0 != k {
        let t = s.drop_first();
        lemma_update_keeps_keys(t, k, w);
        let r = assoc_update(s, k, w);
        assert forall|i: int| 0 <= i < s.len() implies (#[trigger] r[i]).0 == s[i].0 by {
            if i > 0 {
                assert(r[i] == assoc_update(t, k, w)[i - 1]);
                assert(t[i - 1] == s[i]);
            }
        }
    }
}

pub proof fn lemma_remove_subset<K, W>(s: Seq<(K, W)>, k: K)
    ensures
        forall|i: int| 0 <= i < assoc_remove(s, k).len() ==> exists|m: int| 0 <= m < s.len() && #[trigger] assoc_remove(s, k)[i] == s[m],
    decreases s.len(),
{
    if s.len() > 0 && s[0].0 != k {
        let t = s.drop_first();
        lemma_remove_subset(t, k);
        let r = assoc_remove(s, k);
        assert forall|i: int| 0 <= i < r.len() implies exists|m: int| 0 <= m < s.len() && #[trigger] r[i] == s[m] by {
            if i == 0 {
                assert(r[0] == s[0]);
            } else {
                assert(r[i] == assoc_remove(t, k)[i - 1]);
                let m = choose|m: int| 0 <= m < t.len() && assoc_remove(t, k)[i - 1] == t[m];
                assert(t[m] == s[m + 1]);
            }
        }
    } else if s.len() > 0 {
        let r = assoc_remove(s, k);
        assert forall|i: int| 0 <= i < r.len() implies exists|m: int| 0 <= m < s.len() && #[trigger] r[i] == s[m] by {
            assert(r[i] == s[i + 1]);
        }
    }
}

} // verus!
