//! The saved display profiles and their editing operations.
use vstd::prelude::*;

use crate::canvas::topology::DisplayLayoutFingerprint;
use crate::display_profiles::model::{fits, DetectedLayout, SavedDisplayProfile};
use crate::text::str_eq;

verus! {

#[derive(Debug, Clone, Default, PartialEq, Eq)]
pub struct DisplayProfileStore {
    pub profiles: Vec<SavedDisplayProfile>,
}

/// The position of the first profile with the given id.
pub open spec fn first_with_id(ps: Seq<SavedDisplayProfile>, id: Seq<char>) -> Option<int>
    decreases ps.len(),
{
    if ps.len() == 0 {
        None
    } else if ps[0].id@ == id {
        Some(0)
    } else {
        match first_with_id(ps.drop_first(), id) {
            Some(i) => Some(i + 1),
            None => None,
        }
    }
}

/// [`first_with_id`] finds the least position holding the id, or none when no
/// position does.
pub proof fn lemma_first_with_id(ps: Seq<SavedDisplayProfile>, id: Seq<char>)
    ensures
        match first_with_id(ps, id) {
            Some(k) => 0 <= k < ps.len() && ps[k].id@ == id && forall|j: int|
                0 <= j < k ==> #[trigger] ps[j].id@ != id,
            None => forall|j: int| 0 <= j < ps.len() ==> #[trigger] ps[j].id@ != id,
        },
    decreases ps.len(),
{
    if ps.len() > 0 && ps[0].id@ != id {
        let t = ps.drop_first();
        lemma_first_with_id(t, id);
        match first_with_id(t, id) {
            Some(k) => {
                assert forall|j: int| 0 <= j < k + 1 implies #[trigger] ps[j].id@ != id by {
                    if j > 0 {
                        assert(ps[j] == t[j - 1]);
                    }
                }
            },
            None => {
                assert forall|j: int| 0 <= j < ps.len() implies #[trigger] ps[j].id@ != id by {
                    if j > 0 {
                        assert(ps[j] == t[j - 1]);
                    }
                }
            },
        }
    }
}

/// The profiles that do not have the given id, in order.
pub open spec fn without_id(ps: Seq<SavedDisplayProfile>, id: Seq<char>) -> Seq<SavedDisplayProfile> {
    ps.filter(|p: SavedDisplayProfile| p.id@ != id)
}

/// The fingerprints of two profiles are the same text.
pub open spec fn same_fingerprint(a: SavedDisplayProfile, b: SavedDisplayProfile) -> bool {
    a.fingerprint.0@ == b.fingerprint.0@
}


/// A profile that fits the layout, and is preferred where only preferred
/// ones are wanted.
pub open spec fn wanted(p: SavedDisplayProfile, layout: DetectedLayout, preferred_only: bool) -> bool {
    fits(p, layout) && (preferred_only ==> p.preferred)
}

/// The position of the first wanted profile.
pub open spec fn first_wanted(ps: Seq<SavedDisplayProfile>, layout: DetectedLayout, preferred_only: bool) -> Option<int>
    decreases ps.len(),
{
    if ps.len() == 0 {
        None
    } else if wanted(ps[0], layout, preferred_only) {
        Some(0)
    } else {
        match first_wanted(ps.drop_first(), layout, preferred_only) {
            Some(i) => Some(i + 1),
            None => None,
        }
    }
}

pub proof fn lemma_first_wanted(ps: Seq<SavedDisplayProfile>, layout: DetectedLayout, preferred_only: bool)
    ensures
        match first_wanted(ps, layout, preferred_only) {
            Some(k) => 0 <= k < ps.len() && wanted(ps[k], layout, preferred_only) && forall|j: int|
                0 <= j < k ==> !wanted(#[trigger] ps[j], layout, preferred_only),
            None => forall|j: int| 0 <= j < ps.len() ==> !wanted(#[trigger] ps[j], layout, preferred_only),
        },
    decreases ps.len(),
{
    if ps.len() > 0 && !wanted(ps[0], layout, preferred_only) {
        let t = ps.drop_first();
        lemma_first_wanted(t, layout, preferred_only);
        assert forall|j: int| 0 < j < ps.len() implies #[trigger] ps[j] == t[j - 1] by {}
    }
}

/// The profile chosen for a layout: the first preferred profile that fits
/// it, or else the first that fits it.
pub open spec fn exact_match_at(ps: Seq<SavedDisplayProfile>, layout: DetectedLayout) -> Option<int> {
    match first_wanted(ps, layout, true) {
        Some(i) => Some(i),
        None => first_wanted(ps, layout, false),
    }
}

/// The profiles saved for another layout than `fingerprint`.
pub open spec fn other_layouts(ps: Seq<SavedDisplayProfile>, fingerprint: Seq<char>) -> Seq<SavedDisplayProfile> {
    ps.filter(|p: SavedDisplayProfile| p.fingerprint.0@ != fingerprint)
}


/// The profiles after `id` became the preferred one for the layout of the
/// profile at `target`: every profile saved for that layout is preferred
/// exactly when its id is `id`; the others stay as they were.
pub open spec fn preferred_among(ps: Seq<SavedDisplayProfile>, id: Seq<char>, target: int) -> Seq<SavedDisplayProfile> {
    Seq::new(
        ps.len(),
        |j: int|
            if same_fingerprint(ps[j], ps[target]) {
                SavedDisplayProfile { preferred: ps[j].id@ == id, ..ps[j] }
            } else {
                ps[j]
            },
    )
}

/// Once a profile is made the preferred one, it is the profile chosen for
/// every layout it fits.
pub proof fn lemma_preferred_profile_is_chosen(ps: Seq<SavedDisplayProfile>, id: Seq<char>, layout: DetectedLayout)
    requires
        first_with_id(ps, id) matches Some(t) && fits(ps[t], layout),
    ensures
        exact_match_at(preferred_among(ps, id, first_with_id(ps, id).unwrap()), layout) == first_with_id(ps, id),
{
    lemma_first_with_id(ps, id);
    let t = first_with_id(ps, id).unwrap();
    let after = preferred_among(ps, id, t);
    lemma_first_wanted(after, layout, true);
    assert(wanted(after[t], layout, true));
    assert forall|j: int| 0 <= j < t implies !wanted(#[trigger] after[j], layout, true) by {
        if fits(after[j], layout) {
            assert(same_fingerprint(ps[j], ps[t]));
        }
    }
}

fn find_id(ps: &Vec<SavedDisplayProfile>, id: &str) -> (r: Option<usize>)
    ensures
        match r {
            Some(i) => first_with_id(ps@, id@) == Some(i as int),
            None => first_with_id(ps@, id@) is None,
        },
        r matches Some(i) ==> i < ps@.len(),
{
    proof {
        lemma_first_with_id(ps@, id@);
    }
    let mut i: usize = 0;
    while i < ps.len()
        invariant
            i <= ps@.len(),
            forall|j: int| 0 <= j < i ==> #[trigger] ps@[j].id@ != id@,
            match first_with_id(ps@, id@) {
                Some(k) => 0 <= k < ps@.len() && ps@[k].id@ == id@ && forall|j: int|
                    0 <= j < k ==> #[trigger] ps@[j].id@ != id@,
                None => forall|j: int| 0 <= j < ps@.len() ==> #[trigger] ps@[j].id@ != id@,
            },
        decreases ps@.len() - i,
    {
        if str_eq(ps[i].id.as_str(), id) {
            return Some(i);
        }
        i = i + 1;
    }
    None
}

impl DisplayProfileStore {
    /// Replaces the first profile with the same id, or adds the profile.
    /// The profile to apply to a detected layout: among those that fit it,
    /// the first preferred one, or else the first one.
    pub fn exact_match(&self, layout: &DetectedLayout) -> (r: Option<&SavedDisplayProfile>)
        ensures
            match exact_match_at(self.profiles@, *layout) {
                Some(i) => r == Some(&self.profiles@[i]),
                None => r is None,
            },
    {
        let ghost ps = self.profiles@;
        proof {
            lemma_first_wanted(ps, *layout, true);
            lemma_first_wanted(ps, *layout, false);
        }
        let mut first_fit: Option<usize> = None;
        let mut i: usize = 0;
        while i < self.profiles.len()
            invariant
                ps == self.profiles@,
                i <= ps.len(),
                forall|j: int| 0 <= j < i ==> !wanted(#[trigger] ps[j], *layout, true),
                match first_fit {
                    Some(k) => k < i && wanted(ps[k as int], *layout, false) && forall|j: int|
                        0 <= j < k ==> !wanted(#[trigger] ps[j], *layout, false),
                    None => forall|j: int| 0 <= j < i ==> !wanted(#[trigger] ps[j], *layout, false),
                },
                match first_wanted(ps, *layout, true) {
                    Some(k) => 0 <= k < ps.len() && wanted(ps[k], *layout, true) && forall|j: int|
                        0 <= j < k ==> !wanted(#[trigger] ps[j], *layout, true),
                    None => forall|j: int| 0 <= j < ps.len() ==> !wanted(#[trigger] ps[j], *layout, true),
                },
                match first_wanted(ps, *layout, false) {
                    Some(k) => 0 <= k < ps.len() && wanted(ps[k], *layout, false) && forall|j: int|
                        0 <= j < k ==> !wanted(#[trigger] ps[j], *layout, false),
                    None => forall|j: int| 0 <= j < ps.len() ==> !wanted(#[trigger] ps[j], *layout, false),
                },
            decreases ps.len() - i,
        {
            let fit = self.profiles[i].validates(layout);
            if fit && self.profiles[i].preferred {
                proof {
                    assert(wanted(ps[i as int], *layout, true));
                }
                return Some(&self.profiles[i]);
            }
            if fit && first_fit.is_none() {
                first_fit = Some(i);
            }
            proof {
                assert(!wanted(ps[i as int], *layout, true));
                assert(fit == wanted(ps[i as int], *layout, false));
            }
            i = i + 1;
        }
        match first_fit {
            Some(k) => Some(&self.profiles[k]),
            None => None,
        }
    }

    /// Drops every profile saved for the layout `fingerprint` and says how
    /// many went.
    pub fn forget_layout(&mut self, fingerprint: &DisplayLayoutFingerprint) -> (removed: usize)
        ensures
            final(self).profiles@ == other_layouts(old(self).profiles@, fingerprint.0@),
            removed == old(self).profiles@.len() - final(self).profiles@.len(),
    {
        let n = self.profiles.len();
        let ghost before = self.profiles@;
        let mut kept: Vec<SavedDisplayProfile> = Vec::new();
        let mut rest: Vec<SavedDisplayProfile> = Vec::new();
        std::mem::swap(&mut rest, &mut self.profiles);
        let ghost mut taken: int = 0;
        while rest.len() > 0
            invariant
                0 <= taken <= before.len(),
                n == before.len(),
                rest@ == before.subrange(taken, before.len() as int),
                kept@ == other_layouts(before.subrange(0, taken), fingerprint.0@),
                kept@.len() <= taken,
            decreases rest@.len(),
        {
            let p = rest.remove(0);
            proof {
                assert(before.subrange(0, taken + 1).drop_last() =~= before.subrange(0, taken));
                taken = taken + 1;
                assert(rest@ =~= before.subrange(taken, before.len() as int));
            }
            if !str_eq(p.fingerprint.0.as_str(), fingerprint.0.as_str()) {
                kept.push(p);
            }
            proof {
                reveal_with_fuel(Seq::filter, 1);
            }
        }
        assert(before.subrange(0, taken) =~= before);
        self.profiles = kept;
        n - self.profiles.len()
    }

    pub fn upsert(&mut self, p: SavedDisplayProfile)
        ensures
            match first_with_id(old(self).profiles@, p.id@) {
                Some(i) => final(self).profiles@ == old(self).profiles@.update(i, p),
                None => final(self).profiles@ == old(self).profiles@.push(p),
            },
    {
        match find_id(&self.profiles, p.id.as_str()) {
            Some(i) => {
                self.profiles.set(i, p);
            },
            None => {
                self.profiles.push(p);
            },
        }
    }

    /// Renames the first profile with the id and marks it as renamed by the
    /// user; returns whether there was one.
    pub fn rename(&mut self, id: &str, name: String) -> (found: bool)
        ensures
            found == first_with_id(old(self).profiles@, id@) is Some,
            match first_with_id(old(self).profiles@, id@) {
                Some(i) => final(self).profiles@.len() == old(self).profiles@.len()
                    && final(self).profiles@[i] == (SavedDisplayProfile {
                    name,
                    renamed: true,
                    ..old(self).profiles@[i]
                }) && forall|j: int|
                    0 <= j < old(self).profiles@.len() && j != i ==> final(self).profiles@[j]
                        == old(self).profiles@[j],
                None => final(self).profiles@ == old(self).profiles@,
            },
    {
        match find_id(&self.profiles, id) {
            Some(i) => {
                let mut p = self.profiles.remove(i);
                p.name = name;
                p.renamed = true;
                self.profiles.insert(i, p);
                true
            },
            None => false,
        }
    }

    /// Sets which monitors the first profile with the id records into; an
    /// empty selection is refused. Returns whether the profile was changed.
    pub fn edit_inclusion(&mut self, id: &str, keys: Vec<String>) -> (changed: bool)
        ensures
            changed == (keys@.len() > 0 && first_with_id(old(self).profiles@, id@) is Some),
            !changed ==> final(self).profiles@ == old(self).profiles@,
            changed ==> ({
                let i = first_with_id(old(self).profiles@, id@).unwrap();
                &&& final(self).profiles@.len() == old(self).profiles@.len()
                &&& final(self).profiles@[i] == (SavedDisplayProfile {
                    included_stable_keys: keys,
                    ..old(self).profiles@[i]
                })
                &&& forall|j: int|
                    0 <= j < old(self).profiles@.len() && j != i ==> final(self).profiles@[j]
                        == old(self).profiles@[j]
            }),
    {
        if keys.len() == 0 {
            return false;
        }
        match find_id(&self.profiles, id) {
            Some(i) => {
                let mut p = self.profiles.remove(i);
                p.included_stable_keys = keys;
                self.profiles.insert(i, p);
                true
            },
            None => false,
        }
    }

    /// Deletes every profile with the id; returns whether any was deleted.
    pub fn delete(&mut self, id: &str) -> (deleted: bool)
        ensures
            final(self).profiles@ == without_id(old(self).profiles@, id@),
            deleted == (final(self).profiles@.len() != old(self).profiles@.len()),
    {
        let n = self.profiles.len();
        let ghost before = self.profiles@;
        let mut kept: Vec<SavedDisplayProfile> = Vec::new();
        let mut rest: Vec<SavedDisplayProfile> = Vec::new();
        std::mem::swap(&mut rest, &mut self.profiles);
        let ghost mut taken: int = 0;
        while rest.len() > 0
            invariant
                0 <= taken <= before.len(),
                rest@ == before.subrange(taken, before.len() as int),
                kept@ == without_id(before.subrange(0, taken), id@),
            decreases rest@.len(),
        {
            let p = rest.remove(0);
            proof {
                assert(before.subrange(0, taken + 1).drop_last() =~= before.subrange(0, taken));
                taken = taken + 1;
                assert(rest@ =~= before.subrange(taken, before.len() as int));
            }
            if !str_eq(p.id.as_str(), id) {
                kept.push(p);
            }
            proof {
                reveal_with_fuel(Seq::filter, 1);
            }
        }
        assert(before.subrange(0, taken) =~= before);
        self.profiles = kept;
        n != self.profiles.len()
    }

    /// Makes the first profile with the id the preferred one among the
    /// profiles of its layout (same fingerprint); profiles of other layouts
    /// keep their flag. Returns whether the id was found.
    pub fn set_preferred(&mut self, id: &str) -> (found: bool)
        ensures
            found == first_with_id(old(self).profiles@, id@) is Some,
            final(self).profiles@.len() == old(self).profiles@.len(),
            !found ==> final(self).profiles@ == old(self).profiles@,
            found ==> final(self).profiles@ == preferred_among(
                old(self).profiles@,
                id@,
                first_with_id(old(self).profiles@, id@).unwrap(),
            ),
    {
        let target = match find_id(&self.profiles, id) {
            Some(i) => i,
            None => return false,
        };
        let fp = self.profiles[target].fingerprint.0.clone();
        let ghost before = self.profiles@;
        let n = self.profiles.len();
        let mut j: usize = 0;
        while j < n
            invariant
                n == before.len(),
                j <= n,
                self.profiles@.len() == n,
                target < n,
                fp@ == before[target as int].fingerprint.0@,
                forall|k: int| 0 <= k < j ==> #[trigger] self.profiles@[k] == if same_fingerprint(before[k], before[target as int]) {
                    SavedDisplayProfile { preferred: before[k].id@ == id@, ..before[k] }
                } else {
                    before[k]
                },
                forall|k: int| j <= k < n ==> #[trigger] self.profiles@[k] == before[k],
            decreases n - j,
        {
            if str_eq(self.profiles[j].fingerprint.0.as_str(), fp.as_str()) {
                let mut p = self.profiles.remove(j);
                p.preferred = str_eq(p.id.as_str(), id);
                self.profiles.insert(j, p);
            }
            j = j + 1;
        }
        assert(self.profiles@ =~= preferred_among(before, id@, target as int));
        true
    }
}

} // verus!
