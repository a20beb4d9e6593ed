//! When the engine publishes its state and which tile deltas it sends.
use vstd::prelude::*;

use crate::keyed::{assoc_get, assoc_put, lemma_get_at, lemma_put_at};
use crate::canvas::coordinates::TileCoordinate;
use crate::canvas::preview_state::{
    apply_deltas, apply_outcome, keep_incoming, DeltaModel, FrameModel, PreviewModel, ShownTile,
};
use crate::session::statistics::SessionStatistics;
use crate::canvas::tiles::{tile_bytes, SparseTileStore, Tile};
use crate::session::model::RecordingStatus;
use crate::session::snapshot::TileDelta;

verus! {

/// How often a recording engine publishes while the window is shown, in
/// nanoseconds.
pub const VISIBLE_PUBLISH_INTERVAL: u64 = 100_000_000;

/// How often a recording engine publishes while the window is hidden, in
/// nanoseconds.
pub const HIDDEN_PUBLISH_INTERVAL: u64 = 1_000_000_000;

/// Whether the engine publishes now. An immediate publish always happens.
/// Otherwise a stopped engine with nothing changed stays quiet; the first
/// publish happens at once; later ones only while recording, once the
/// interval for the window's visibility has passed since the last.
pub open spec fn publish_due(
    status: RecordingStatus,
    ui_visible: bool,
    immediate: bool,
    changed: bool,
    last_publish: Option<u64>,
    now: u64,
) -> bool {
    if immediate {
        true
    } else if !changed && status == RecordingStatus::Stopped {
        false
    } else {
        match last_publish {
            None => true,
            Some(p) => {
                let elapsed: int = if now >= p { now - p } else { 0 };
                status == RecordingStatus::Recording && elapsed >= if ui_visible {
                    VISIBLE_PUBLISH_INTERVAL
                } else {
                    HIDDEN_PUBLISH_INTERVAL
                }
            },
        }
    }
}

/// Decides whether to publish now; times are monotonic nanoseconds.
pub fn should_publish(
    status: RecordingStatus,
    ui_visible: bool,
    immediate: bool,
    changed: bool,
    last_publish: Option<u64>,
    now: u64,
) -> (r: bool)
    ensures
        r == publish_due(status, ui_visible, immediate, changed, last_publish, now),
{
    if !immediate && !changed && status == RecordingStatus::Stopped {
        return false;
    }
    if !immediate {
        if let Some(p) = last_publish {
            let elapsed = now.saturating_sub(p);
            let too_soon = if status == RecordingStatus::Recording {
                if ui_visible {
                    elapsed < VISIBLE_PUBLISH_INTERVAL
                } else {
                    elapsed < HIDDEN_PUBLISH_INTERVAL
                }
            } else {
                true
            };
            if too_soon {
                return false;
            }
        }
    }
    true
}

/// The engine's tiles as coordinate, revision and bytes.
pub open spec fn store_entries(tiles: Seq<(TileCoordinate, Tile)>) -> Seq<(TileCoordinate, (Seq<u8>, u64))> {
    tiles.map_values(|p: (TileCoordinate, Tile)| (p.0, (p.1.pixels@, p.1.revision)))
}

/// Whether the tile at `c` with revision `rev` must be sent: always in a
/// full snapshot, else when the revision last sent for `c` differs.
pub open spec fn must_send(
    sent: Seq<(TileCoordinate, u64)>,
    full: bool,
    c: TileCoordinate,
    rev: u64,
) -> bool {
    full || assoc_get(sent, c) != Some(rev)
}

/// The deltas for the engine's tiles, in store order.
pub open spec fn changed_deltas(
    tiles: Seq<(TileCoordinate, Tile)>,
    tile_size: u32,
    sent: Seq<(TileCoordinate, u64)>,
    full: bool,
    generation: u64,
) -> Seq<DeltaModel>
    decreases tiles.len(),
{
    if tiles.len() == 0 {
        Seq::empty()
    } else {
        let prev = changed_deltas(tiles.drop_last(), tile_size, sent, full, generation);
        let (c, t) = tiles.last();
        if must_send(sent, full, c, t.revision) {
            prev.push(
                DeltaModel {
                    coordinate: c,
                    revision: t.revision,
                    width: tile_size,
                    height: tile_size,
                    rgba: t.pixels@,
                    removed: false,
                    generation,
                },
            )
        } else {
            prev
        }
    }
}

/// A removal delta for each coordinate, in order.
pub open spec fn removal_deltas(removed: Seq<TileCoordinate>, generation: u64) -> Seq<DeltaModel> {
    removed.map_values(
        |c: TileCoordinate|
            DeltaModel {
                coordinate: c,
                revision: 0,
                width: 0,
                height: 0,
                rgba: Seq::empty(),
                removed: true,
                generation,
            },
    )
}

/// The views of a list of deltas.
pub open spec fn delta_views(ds: Seq<TileDelta>) -> Seq<DeltaModel> {
    ds.map_values(|d: TileDelta| d@)
}

/// Whether anything must be published: a full snapshot is pending, a tile
/// changed since it was last sent, or a tile was removed.
pub open spec fn tiles_changed(
    tiles: Seq<(TileCoordinate, Tile)>,
    sent: Seq<(TileCoordinate, u64)>,
    removed: Seq<TileCoordinate>,
    full: bool,
) -> bool {
    full || (exists|i: int| 0 <= i < tiles.len() && assoc_get(sent, tiles[i].0) != Some(tiles[i].1.revision))
        || removed.len() > 0
}

fn sent_revision(sent: &Vec<(TileCoordinate, u64)>, c: TileCoordinate) -> (r: Option<u64>)
    ensures
        r == assoc_get(sent@, c),
{
    let mut i: usize = 0;
    while i < sent.len()
        invariant
            i <= sent@.len(),
            forall|j: int| 0 <= j < i ==> sent@[j].0 != c,
        decreases sent@.len() - i,
    {
        if sent[i].0 == c {
            proof {
                lemma_get_at(sent@, c, i as int);
            }
            return Some(sent[i].1);
        }
        i = i + 1;
    }
    proof {
        lemma_get_at(sent@, c, sent@.len() as int);
    }
    None
}

/// Whether anything must be published.
pub fn has_changes(
    store: &SparseTileStore,
    sent: &Vec<(TileCoordinate, u64)>,
    removed: &Vec<TileCoordinate>,
    full: bool,
) -> (r: bool)
    ensures
        r == tiles_changed(store.tiles@, sent@, removed@, full),
{
    if full || removed.len() > 0 {
        return true;
    }
    let mut i: usize = 0;
    while i < store.tiles.len()
        invariant
            i <= store.tiles@.len(),
            forall|j: int| 0 <= j < i ==> assoc_get(sent@, store.tiles@[j].0) == Some(store.tiles@[j].1.revision),
        decreases store.tiles@.len() - i,
    {
        let c = store.tiles[i].0;
        let rev = store.tiles[i].1.revision;
        match sent_revision(sent, c) {
            Some(r) => {
                if r != rev {
                    return true;
                }
            },
            None => {
                return true;
            },
        }
        i = i + 1;
    }
    false
}

/// The deltas of one publish: the tiles to send, in store order, then one
/// removal for each removed coordinate, all of the current generation.
pub fn tile_deltas(
    store: &SparseTileStore,
    sent: &Vec<(TileCoordinate, u64)>,
    removed: &Vec<TileCoordinate>,
    full: bool,
    generation: u64,
) -> (ds: Vec<TileDelta>)
    ensures
        delta_views(ds@) == changed_deltas(store.tiles@, store.tile_size, sent@, full, generation)
            + removal_deltas(removed@, generation),
{
    let mut ds: Vec<TileDelta> = Vec::new();
    let mut i: usize = 0;
    while i < store.tiles.len()
        invariant
            i <= store.tiles@.len(),
            delta_views(ds@) == changed_deltas(
                store.tiles@.subrange(0, i as int),
                store.tile_size,
                sent@,
                full,
                generation,
            ),
        decreases store.tiles@.len() - i,
    {
        let c = store.tiles[i].0;
        let rev = store.tiles[i].1.revision;
        proof {
            let s = store.tiles@.subrange(0, i + 1);
            assert(s.drop_last() =~= store.tiles@.subrange(0, i as int));
            assert(s.last() == store.tiles@[i as int]);
        }
        let send = if full {
            true
        } else {
            match sent_revision(sent, c) {
                Some(r) => r != rev,
                None => true,
            }
        };
        if send {
            let d = TileDelta {
                coordinate: c,
                revision: rev,
                width: store.tile_size,
                height: store.tile_size,
                rgba: store.tiles[i].1.pixels.clone(),
                removed: false,
                generation,
            };
            let ghost before = ds@;
            ds.push(d);
            assert(delta_views(ds@) =~= delta_views(before).push(d@));
        }
        i = i + 1;
    }
    assert(store.tiles@.subrange(0, i as int) =~= store.tiles@);
    let ghost base = delta_views(ds@);
    let mut k: usize = 0;
    while k < removed.len()
        invariant
            k <= removed@.len(),
            delta_views(ds@) == base + removal_deltas(removed@.subrange(0, k as int), generation),
        decreases removed@.len() - k,
    {
        let d = TileDelta {
            coordinate: removed[k],
            revision: 0,
            width: 0,
            height: 0,
            rgba: Vec::new(),
            removed: true,
            generation,
        };
        let ghost before = ds@;
        ds.push(d);
        proof {
            assert(delta_views(ds@) =~= delta_views(before).push(d@));
            assert(removal_deltas(removed@.subrange(0, k + 1), generation) =~= removal_deltas(
                removed@.subrange(0, k as int),
                generation,
            ).push(d@));
        }
        k = k + 1;
        assert(delta_views(ds@) =~= base + removal_deltas(removed@.subrange(0, k as int), generation));
    }
    assert(removed@.subrange(0, k as int) =~= removed@);
    ds
}

/// The revisions last sent after a publish: every current tile's revision
/// recorded under its coordinate, in store order.
pub open spec fn record_sent(
    sent: Seq<(TileCoordinate, u64)>,
    tiles: Seq<(TileCoordinate, Tile)>,
) -> Seq<(TileCoordinate, u64)>
    decreases tiles.len(),
{
    if tiles.len() == 0 {
        sent
    } else {
        assoc_put(record_sent(sent, tiles.drop_last()), tiles.last().0, tiles.last().1.revision)
    }
}

/// Records that every current tile was sent at its revision.
pub fn mark_sent(sent: &mut Vec<(TileCoordinate, u64)>, store: &SparseTileStore)
    ensures
        final(sent)@ == record_sent(old(sent)@, store.tiles@),
{
    let mut i: usize = 0;
    while i < store.tiles.len()
        invariant
            i <= store.tiles@.len(),
            sent@ == record_sent(old(sent)@, store.tiles@.subrange(0, i as int)),
        decreases store.tiles@.len() - i,
    {
        let c = store.tiles[i].0;
        let rev = store.tiles[i].1.revision;
        proof {
            let s = store.tiles@.subrange(0, i + 1);
            assert(s.drop_last() =~= store.tiles@.subrange(0, i as int));
            assert(s.last() == store.tiles@[i as int]);
        }
        let mut j: usize = 0;
        while j < sent.len() && sent[j].0 != c
            invariant
                j <= sent@.len(),
                forall|m: int| 0 <= m < j ==> sent@[m].0 != c,
            decreases sent@.len() - j,
        {
            j = j + 1;
        }
        proof {
            lemma_put_at(sent@, c, rev, j as int);
        }
        if j < sent.len() {
            sent.set(j, (c, rev));
        } else {
            sent.push((c, rev));
        }
        i = i + 1;
    }
    assert(store.tiles@.subrange(0, i as int) =~= store.tiles@);
}

/// The delta that a full snapshot sends for a tile.
pub open spec fn full_delta(p: (TileCoordinate, Tile), tile_size: u32, generation: u64) -> DeltaModel {
    DeltaModel {
        coordinate: p.0,
        revision: p.1.revision,
        width: tile_size,
        height: tile_size,
        rgba: p.1.pixels@,
        removed: false,
        generation,
    }
}

proof fn lemma_full_sends_all(
    tiles: Seq<(TileCoordinate, Tile)>,
    tile_size: u32,
    sent: Seq<(TileCoordinate, u64)>,
    generation: u64,
)
    ensures
        changed_deltas(tiles, tile_size, sent, true, generation).len() == tiles.len(),
        forall|i: int|
            0 <= i < tiles.len() ==> #[trigger] changed_deltas(tiles, tile_size, sent, true, generation)[i]
                == full_delta(tiles[i], tile_size, generation),
    decreases tiles.len(),
{
    if tiles.len() > 0 {
        lemma_full_sends_all(tiles.drop_last(), tile_size, sent, generation);
        let ds = changed_deltas(tiles, tile_size, sent, true, generation);
        assert forall|i: int| 0 <= i < tiles.len() implies #[trigger] ds[i] == full_delta(
            tiles[i],
            tile_size,
            generation,
        ) by {
            if i < tiles.len() - 1 {
                assert(tiles.drop_last()[i] == tiles[i]);
            }
        }
    }
}

proof fn lemma_keep_incoming_empty(ds: Seq<DeltaModel>)
    ensures
        keep_incoming(Seq::<ShownTile>::empty(), ds) == Seq::<ShownTile>::empty(),
{
}

proof fn lemma_fill_from_empty(
    tiles: Seq<(TileCoordinate, Tile)>,
    ds: Seq<DeltaModel>,
    tile_size: u32,
    generation: u64,
    start_size: u32,
    epoch: u64,
    n: int,
)
    requires
        0 <= n <= tiles.len(),
        ds.len() == tiles.len(),
        forall|i: int| 0 <= i < tiles.len() ==> #[trigger] ds[i] == full_delta(tiles[i], tile_size, generation),
        forall|i: int, j: int| 0 <= i < j < tiles.len() ==> #[trigger] tiles[i].0 != #[trigger] tiles[j].0,
    ensures
        apply_deltas((start_size, Seq::<ShownTile>::empty(), epoch), ds.subrange(0, n)) == (
            if n == 0 { start_size } else { tile_size },
            store_entries(tiles.subrange(0, n)),
            epoch,
        ),
    decreases n,
{
    if n == 0 {
        assert(store_entries(tiles.subrange(0, 0)) =~= Seq::<ShownTile>::empty());
    } else {
        lemma_fill_from_empty(tiles, ds, tile_size, generation, start_size, epoch, n - 1);
        let prefix = ds.subrange(0, n);
        assert(prefix.drop_last() =~= ds.subrange(0, n - 1));
        assert(prefix.last() == ds[n - 1]);
        let shown = store_entries(tiles.subrange(0, n - 1));
        let c = tiles[n - 1].0;
        assert forall|j: int| 0 <= j < shown.len() implies shown[j].0 != c by {
            assert(shown[j].0 == tiles[j].0);
        }
        crate::keyed::lemma_get_at(shown, c, shown.len() as int);
        crate::keyed::lemma_put_at(shown, c, (tiles[n - 1].1.pixels@, tiles[n - 1].1.revision), shown.len() as int);
        assert(store_entries(tiles.subrange(0, n)) =~= shown.push((c, (tiles[n - 1].1.pixels@, tiles[n - 1].1.revision))));
    }
}

/// A full snapshot of a newer generation, built from the engine's tiles with
/// nothing removed, is accepted by the preview, which then shows exactly the
/// engine's tiles, in the engine's order, at the engine's tile size.
pub proof fn lemma_full_snapshot_mirrors_engine(
    p: PreviewModel,
    store: SparseTileStore,
    sent: Seq<(TileCoordinate, u64)>,
    generation: u64,
    sequence: u64,
    statistics: SessionStatistics,
)
    requires
        store.wf(),
        generation > p.generation,
    ensures
        ({
            let f = FrameModel {
                generation,
                sequence,
                full_tile_snapshot: true,
                tile_deltas: changed_deltas(store.tiles@, store.tile_size, sent, true, generation),
                statistics,
            };
            &&& apply_outcome(p, f).1 is Ok
            &&& apply_outcome(p, f).0.tiles == store_entries(store.tiles@)
            &&& store.tiles@.len() > 0 ==> apply_outcome(p, f).0.tile_size == store.tile_size
            &&& apply_outcome(p, f).0.generation == generation
            &&& apply_outcome(p, f).0.latest_sequence == sequence
        }),
{
    let tiles = store.tiles@;
    let ds = changed_deltas(tiles, store.tile_size, sent, true, generation);
    lemma_full_sends_all(tiles, store.tile_size, sent, generation);
    assert forall|i: int| 0 <= i < ds.len() implies ds[i].generation == generation by {
        assert(ds[i] == full_delta(tiles[i], store.tile_size, generation));
    }
    assert forall|i: int| 0 <= i < ds.len() implies crate::canvas::preview_state::delta_pixels_fit(ds[i]) by {
        assert(ds[i] == full_delta(tiles[i], store.tile_size, generation));
        assert(tiles[i].1.pixels@.len() == tile_bytes(store.tile_size));
    }
    lemma_keep_incoming_empty(ds);
    let epoch: u64 = if p.texture_epoch == u64::MAX { u64::MAX } else { (p.texture_epoch + 1) as u64 };
    lemma_fill_from_empty(tiles, ds, store.tile_size, generation, p.tile_size, (epoch + 1) as u64, tiles.len() as int);
    assert(ds.subrange(0, tiles.len() as int) =~= ds);
    assert(tiles.subrange(0, tiles.len() as int) =~= tiles);
}

} // verus!
