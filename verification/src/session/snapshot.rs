//! What the engine publishes about its tiles and activity, and the rule that
//! keeps it from publishing the same state twice in a row.
use vstd::prelude::*;

use crate::canvas::coordinates::TileCoordinate;
use crate::session::model::RecordingStatus;

verus! {

/// One changed, added or removed tile as the engine publishes it.
#[derive(Debug, Clone)]
pub struct TileDelta {
    pub coordinate: TileCoordinate,
    pub revision: u64,
    pub width: u32,
    pub height: u32,
    pub rgba: Vec<u8>,
    pub removed: bool,
    pub generation: u64,
}

/// Long-running work the engine reports.
#[derive(Debug, Clone, Copy, Default, PartialEq, Eq, Structural)]
pub struct EngineActivity {
    pub export_in_progress: bool,
    pub recovery_in_progress: bool,
}

/// A tile's coordinate, revision and removal, the part of a delta that tells
/// two published states apart.
pub type RevisionEntry = (TileCoordinate, u64, bool);

/// `a`'s coordinate comes before or together with `b`'s: by column, then row.
pub open spec fn coordinate_le(a: TileCoordinate, b: TileCoordinate) -> bool {
    a.x < b.x || (a.x == b.x && a.y <= b.y)
}

/// `s`, already in coordinate order, with `e` placed after every entry whose
/// coordinate is not after `e`'s.
pub open spec fn insert_by_coordinate(s: Seq<RevisionEntry>, e: RevisionEntry) -> Seq<RevisionEntry>
    decreases s.len(),
{
    if s.len() == 0 {
        seq![e]
    } else if coordinate_le(s.last().0, e.0) {
        s.push(e)
    } else {
        insert_by_coordinate(s.drop_last(), e).push(s.last())
    }
}

/// `s` stably sorted by coordinate: entries with equal coordinates keep their
/// order.
pub open spec fn sort_by_coordinate(s: Seq<RevisionEntry>) -> Seq<RevisionEntry>
    decreases s.len(),
{
    if s.len() == 0 {
        s
    } else {
        insert_by_coordinate(sort_by_coordinate(s.drop_last()), s.last())
    }
}

fn coordinate_le_exec(a: TileCoordinate, b: TileCoordinate) -> (r: bool)
    ensures
        r == coordinate_le(a, b),
{
    a.x < b.x || (a.x == b.x && a.y <= b.y)
}

proof fn lemma_insert_at_position(s: Seq<RevisionEntry>, e: RevisionEntry, p: int)
    requires
        0 <= p <= s.len(),
        forall|k: int| p <= k < s.len() ==> !coordinate_le(#[trigger] s[k].0, e.0),
        p == 0 || coordinate_le(s[p - 1].0, e.0),
    ensures
        insert_by_coordinate(s, e) == s.insert(p, e),
    decreases s.len(),
{
    if s.len() == 0 {
        assert(s.insert(0, e) =~= seq![e]);
    } else if p == s.len() {
        assert(s.insert(p, e) =~= s.push(e));
    } else {
        let t = s.drop_last();
        lemma_insert_at_position(t, e, p);
        assert(t.insert(p, e).push(s.last()) =~= s.insert(p, e));
    }
}

/// Sorts revision entries stably by coordinate.
pub fn sorted_revisions(entries: &Vec<RevisionEntry>) -> (out: Vec<RevisionEntry>)
    ensures
        out@ == sort_by_coordinate(entries@),
{
    let mut out: Vec<RevisionEntry> = Vec::new();
    let mut i: usize = 0;
    while i < entries.len()
        invariant
            i <= entries@.len(),
            out@ == sort_by_coordinate(entries@.subrange(0, i as int)),
        decreases entries@.len() - i,
    {
        let e = entries[i];
        let mut p = out.len();
        while p > 0 && !coordinate_le_exec(out[p - 1].0, e.0)
            invariant
                p <= out@.len(),
                forall|k: int| p <= k < out@.len() ==> !coordinate_le(#[trigger] out@[k].0, e.0),
            decreases p,
        {
            p = p - 1;
        }
        proof {
            lemma_insert_at_position(out@, e, p as int);
            let s = entries@.subrange(0, i + 1);
            assert(s.drop_last() =~= entries@.subrange(0, i as int));
            assert(s.last() == e);
        }
        out.insert(p, e);
        i = i + 1;
    }
    assert(entries@.subrange(0, i as int) =~= entries@);
    out
}

/// What tells two published states apart: the status, the generation, the
/// tile revisions in coordinate order, the size of the live overlays, the
/// sampler counts, the activity and the number of messages and errors.
#[derive(Debug)]
pub struct SnapshotKey {
    pub status: RecordingStatus,
    pub generation: u64,
    pub revisions: Vec<RevisionEntry>,
    pub overlay_points: usize,
    pub overlay_dwell: bool,
    pub sampler_observed: u64,
    pub classifier_delivered: u64,
    pub samples_coalesced: u64,
    pub activity: EngineActivity,
    pub message_count: usize,
    pub error_count: usize,
}

/// Two keys hold the same values.
pub open spec fn same_key(a: SnapshotKey, b: SnapshotKey) -> bool {
    &&& a.status == b.status
    &&& a.generation == b.generation
    &&& a.revisions@ == b.revisions@
    &&& a.overlay_points == b.overlay_points
    &&& a.overlay_dwell == b.overlay_dwell
    &&& a.sampler_observed == b.sampler_observed
    &&& a.classifier_delivered == b.classifier_delivered
    &&& a.samples_coalesced == b.samples_coalesced
    &&& a.activity == b.activity
    &&& a.message_count == b.message_count
    &&& a.error_count == b.error_count
}

impl SnapshotKey {
    /// The key of a published state; the revisions are sorted by coordinate.
    pub fn new(
        status: RecordingStatus,
        generation: u64,
        revisions: &Vec<RevisionEntry>,
        overlay_points: usize,
        overlay_dwell: bool,
        sampler_observed: u64,
        classifier_delivered: u64,
        samples_coalesced: u64,
        activity: EngineActivity,
        message_count: usize,
        error_count: usize,
    ) -> (k: Self)
        ensures
            k.status == status,
            k.generation == generation,
            k.revisions@ == sort_by_coordinate(revisions@),
            k.overlay_points == overlay_points,
            k.overlay_dwell == overlay_dwell,
            k.sampler_observed == sampler_observed,
            k.classifier_delivered == classifier_delivered,
            k.samples_coalesced == samples_coalesced,
            k.activity == activity,
            k.message_count == message_count,
            k.error_count == error_count,
    {
        SnapshotKey {
            status,
            generation,
            revisions: sorted_revisions(revisions),
            overlay_points,
            overlay_dwell,
            sampler_observed,
            classifier_delivered,
            samples_coalesced,
            activity,
            message_count,
            error_count,
        }
    }

    /// Whether `self` and `other` hold the same values.
    pub fn same_as(&self, other: &SnapshotKey) -> (r: bool)
        ensures
            r == same_key(*self, *other),
    {
        if self.status != other.status || self.generation != other.generation || self.overlay_points
            != other.overlay_points || self.overlay_dwell != other.overlay_dwell || self.sampler_observed
            != other.sampler_observed || self.classifier_delivered != other.classifier_delivered
            || self.samples_coalesced != other.samples_coalesced || self.activity != other.activity || self.message_count != other.message_count
            || self.error_count != other.error_count || self.revisions.len()
            != other.revisions.len() {
            return false;
        }
        let mut i: usize = 0;
        while i < self.revisions.len()
            invariant
                i <= self.revisions@.len(),
                self.revisions@.len() == other.revisions@.len(),
                forall|k: int| 0 <= k < i ==> self.revisions@[k] == other.revisions@[k],
            decreases self.revisions@.len() - i,
        {
            let a = self.revisions[i];
            let b = other.revisions[i];
            if a.0 != b.0 || a.1 != b.1 || a.2 != b.2 {
                return false;
            }
            i = i + 1;
        }
        assert(self.revisions@ =~= other.revisions@);
        true
    }
}

/// Remembers the key of the last published state.
#[derive(Debug, Default)]
pub struct SnapshotDeduper {
    last: Option<SnapshotKey>,
}

impl SnapshotDeduper {
    /// The key of the last published state, if one is remembered.
    pub closed spec fn last_key(&self) -> Option<SnapshotKey> {
        self.last
    }

    /// A deduper that remembers nothing.
    pub fn new() -> (d: Self)
        ensures
            d.last_key() is None,
    {
        SnapshotDeduper { last: None }
    }

    /// Whether a state with key `key` should be published: not when it equals
    /// the last published one. A published key is remembered.
    pub fn should_send_key(&mut self, key: SnapshotKey) -> (send: bool)
        ensures
            send == !(old(self).last_key() matches Some(prev) && same_key(prev, key)),
            send ==> final(self).last_key() == Some(key),
            !send ==> final(self).last_key() == old(self).last_key(),
    {
        let repeated = match &self.last {
            Some(prev) => prev.same_as(&key),
            None => false,
        };
        if repeated {
            return false;
        }
        self.last = Some(key);
        true
    }

    /// Forgets the last published key, so the next state is published.
    pub fn clear(&mut self)
        ensures
            final(self).last_key() is None,
    {
        self.last = None;
    }
}

} // verus!
