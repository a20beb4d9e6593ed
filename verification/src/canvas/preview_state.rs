//! The preview's mirror of the engine's tiles: which published states it
//! accepts and how a state's tile deltas change what it shows.
use vstd::prelude::*;

use crate::keyed::{assoc_get, assoc_put, assoc_remove, lemma_get_at, lemma_put_at, lemma_remove_at};
use crate::canvas::coordinates::TileCoordinate;
use crate::canvas::tiles::{Tile, DEFAULT_TILE_SIZE};
use crate::session::snapshot::TileDelta;
use crate::session::statistics::SessionStatistics;

verus! {

/// How the preview fits the canvas into its panel.
#[derive(Debug, Clone, Copy, PartialEq, Eq, Structural)]
pub enum PreviewViewMode {
    FitAll,
    ActualSize,
}

impl Default for PreviewViewMode {
    fn default() -> (m: Self)
        ensures
            m == PreviewViewMode::FitAll,
    {
        PreviewViewMode::FitAll
    }
}

/// Why a published state was refused.
#[derive(Debug, Clone, Copy, PartialEq, Eq, Structural)]
pub enum PreviewApplyError {
    OlderGeneration,
    StaleSequence,
    DeltaGeneration,
    InvalidPixels,
}

/// A tile delta seen as plain values.
pub struct DeltaModel {
    pub coordinate: TileCoordinate,
    pub revision: u64,
    pub width: u32,
    pub height: u32,
    pub rgba: Seq<u8>,
    pub removed: bool,
    pub generation: u64,
}

impl View for TileDelta {
    type V = DeltaModel;

    open spec fn view(&self) -> DeltaModel {
        DeltaModel {
            coordinate: self.coordinate,
            revision: self.revision,
            width: self.width,
            height: self.height,
            rgba: self.rgba@,
            removed: self.removed,
            generation: self.generation,
        }
    }
}

/// The part of a published state that the preview's tiles follow.
pub struct PreviewFrame {
    pub generation: u64,
    pub sequence: u64,
    pub full_tile_snapshot: bool,
    pub tile_deltas: Vec<TileDelta>,
    pub statistics: SessionStatistics,
}

/// A frame seen as plain values.
pub struct FrameModel {
    pub generation: u64,
    pub sequence: u64,
    pub full_tile_snapshot: bool,
    pub tile_deltas: Seq<DeltaModel>,
    pub statistics: SessionStatistics,
}

impl View for PreviewFrame {
    type V = FrameModel;

    open spec fn view(&self) -> FrameModel {
        FrameModel {
            generation: self.generation,
            sequence: self.sequence,
            full_tile_snapshot: self.full_tile_snapshot,
            tile_deltas: self.tile_deltas@.map_values(|d: TileDelta| d@),
            statistics: self.statistics,
        }
    }
}

/// A shown tile: its coordinate, its RGBA bytes and its revision.
pub type ShownTile = (TileCoordinate, (Seq<u8>, u64));

/// The shown tiles of a tile list.
pub open spec fn shown_tiles(v: Seq<(TileCoordinate, Tile)>) -> Seq<ShownTile> {
    v.map_values(|p: (TileCoordinate, Tile)| (p.0, (p.1.pixels@, p.1.revision)))
}

/// The preview seen as plain values.
pub struct PreviewModel {
    pub tile_size: u32,
    pub tiles: Seq<ShownTile>,
    pub generation: u64,
    pub latest_sequence: u64,
    pub statistics: SessionStatistics,
    pub texture_epoch: u64,
    pub view_mode: PreviewViewMode,
}

/// The preview's mirror of the engine's tiles, with the generation and
/// sequence of the last state it took.
#[derive(Debug)]
pub struct PreviewState {
    tile_size: u32,
    tiles: Vec<(TileCoordinate, Tile)>,
    pub generation: u64,
    pub latest_sequence: u64,
    pub statistics: SessionStatistics,
    pub texture_epoch: u64,
    /// Only the panel reads this; it never reaches the engine or an export.
    pub view_mode: PreviewViewMode,
}

impl View for PreviewState {
    type V = PreviewModel;

    closed spec fn view(&self) -> PreviewModel {
        PreviewModel {
            tile_size: self.tile_size,
            tiles: shown_tiles(self.tiles@),
            generation: self.generation,
            latest_sequence: self.latest_sequence,
            statistics: self.statistics,
            texture_epoch: self.texture_epoch,
            view_mode: self.view_mode,
        }
    }
}

/// The preview with no tiles, a new texture epoch and generation `g`, ready
/// for any sequence.
pub open spec fn reset_to_generation(p: PreviewModel, g: u64) -> PreviewModel {
    PreviewModel {
        tile_size: p.tile_size,
        tiles: Seq::empty(),
        generation: g,
        latest_sequence: 0,
        statistics: p.statistics,
        texture_epoch: if p.texture_epoch == u64::MAX { u64::MAX } else { (p.texture_epoch + 1) as u64 },
        view_mode: p.view_mode,
    }
}

/// Whether a delta of the frame brings a tile at `c`.
pub open spec fn incoming(ds: Seq<DeltaModel>, c: TileCoordinate) -> bool {
    exists|i: int| 0 <= i < ds.len() && !ds[i].removed && ds[i].coordinate == c
}

/// The tiles of `s` that the frame's deltas bring, in order.
pub open spec fn keep_incoming(s: Seq<ShownTile>, ds: Seq<DeltaModel>) -> Seq<ShownTile>
    decreases s.len(),
{
    if s.len() == 0 {
        s
    } else {
        let kept = keep_incoming(s.drop_last(), ds);
        if incoming(ds, s.last().0) {
            kept.push(s.last())
        } else {
            kept
        }
    }
}

/// Tile size, tiles and texture epoch after one delta: a removal drops the
/// tile; a delta no newer than the tile shown is ignored; otherwise the tile
/// is stored and its width becomes the tile size.
pub open spec fn apply_delta(st: (u32, Seq<ShownTile>, u64), d: DeltaModel) -> (u32, Seq<ShownTile>, u64) {
    if d.removed {
        (st.0, assoc_remove(st.1, d.coordinate), (st.2 + 1) as u64)
    } else if assoc_get(st.1, d.coordinate) is Some && assoc_get(st.1, d.coordinate).unwrap().1 >= d.revision {
        st
    } else {
        (d.width, assoc_put(st.1, d.coordinate, (d.rgba, d.revision)), st.2)
    }
}

/// The deltas `ds` applied in order.
pub open spec fn apply_deltas(st: (u32, Seq<ShownTile>, u64), ds: Seq<DeltaModel>) -> (u32, Seq<ShownTile>, u64)
    decreases ds.len(),
{
    if ds.len() == 0 {
        st
    } else {
        apply_delta(apply_deltas(st, ds.drop_last()), ds.last())
    }
}

/// Whether a delta's bytes fit its size; a removal carries none.
pub open spec fn delta_pixels_fit(d: DeltaModel) -> bool {
    d.removed || d.rgba.len() == d.width * d.height * 4
}

/// What applying a frame leaves and returns. A frame of an older generation,
/// or of the same generation with an older sequence, is refused, as is one
/// with a delta of another generation or with bytes that do not fit. A newer
/// generation starts from no tiles; a full frame keeps only the tiles it
/// brings; then the deltas apply in order.
pub open spec fn apply_outcome(p: PreviewModel, f: FrameModel) -> (PreviewModel, Result<(), PreviewApplyError>) {
    let ds = f.tile_deltas;
    if f.generation < p.generation {
        (p, Err(PreviewApplyError::OlderGeneration))
    } else if f.generation == p.generation && f.sequence < p.latest_sequence {
        (p, Err(PreviewApplyError::StaleSequence))
    } else if exists|i: int| 0 <= i < ds.len() && ds[i].generation != f.generation {
        (p, Err(PreviewApplyError::DeltaGeneration))
    } else if exists|i: int| 0 <= i < ds.len() && !delta_pixels_fit(ds[i]) {
        (p, Err(PreviewApplyError::InvalidPixels))
    } else {
        let p1 = if f.generation > p.generation {
            reset_to_generation(p, f.generation)
        } else {
            p
        };
        let start = if f.full_tile_snapshot {
            (p1.tile_size, keep_incoming(p1.tiles, ds), (p1.texture_epoch + 1) as u64)
        } else {
            (p1.tile_size, p1.tiles, p1.texture_epoch)
        };
        let end = apply_deltas(start, ds);
        (
            PreviewModel {
                tile_size: end.0,
                tiles: end.1,
                generation: p1.generation,
                latest_sequence: f.sequence,
                statistics: f.statistics,
                texture_epoch: end.2,
                view_mode: p1.view_mode,
            },
            Ok(()),
        )
    }
}

/// The number of removals among the deltas.
pub open spec fn removal_count(ds: Seq<DeltaModel>) -> nat
    decreases ds.len(),
{
    if ds.len() == 0 {
        0
    } else {
        removal_count(ds.drop_last()) + if ds.last().removed { 1nat } else { 0nat }
    }
}

proof fn lemma_apply_deltas_epoch(st: (u32, Seq<ShownTile>, u64), ds: Seq<DeltaModel>)
    requires
        st.2 + removal_count(ds) <= u64::MAX,
    ensures
        apply_deltas(st, ds).2 == st.2 + removal_count(ds),
    decreases ds.len(),
{
    if ds.len() > 0 {
        lemma_apply_deltas_epoch(st, ds.drop_last());
    }
}

proof fn lemma_removal_count_bound(ds: Seq<DeltaModel>)
    ensures
        removal_count(ds) <= ds.len(),
    decreases ds.len(),
{
    if ds.len() > 0 {
        lemma_removal_count_bound(ds.drop_last());
    }
}

fn find_tile(tiles: &Vec<(TileCoordinate, Tile)>, c: TileCoordinate) -> (r: Option<usize>)
    ensures
        match r {
            Some(i) => i < tiles@.len() && tiles@[i as int].0 == c && forall|j: int|
                0 <= j < i ==> tiles@[j].0 != c,
            None => forall|j: int| 0 <= j < tiles@.len() ==> tiles@[j].0 != c,
        },
{
    let mut i: usize = 0;
    while i < tiles.len()
        invariant
            i <= tiles@.len(),
            forall|j: int| 0 <= j < i ==> tiles@[j].0 != c,
        decreases tiles@.len() - i,
    {
        if tiles[i].0 == c {
            return Some(i);
        }
        i = i + 1;
    }
    None
}

fn is_incoming(deltas: &Vec<TileDelta>, c: TileCoordinate) -> (r: bool)
    ensures
        r == incoming(deltas@.map_values(|d: TileDelta| d@), c),
{
    let ghost ds = deltas@.map_values(|d: TileDelta| d@);
    let mut i: usize = 0;
    while i < deltas.len()
        invariant
            i <= deltas@.len(),
            ds == deltas@.map_values(|d: TileDelta| d@),
            forall|j: int| 0 <= j < i ==> !(!ds[j].removed && ds[j].coordinate == c),
        decreases deltas@.len() - i,
    {
        if !deltas[i].removed && deltas[i].coordinate == c {
            assert(!ds[i as int].removed && ds[i as int].coordinate == c);
            return true;
        }
        i = i + 1;
    }
    false
}

impl PreviewState {
    /// Every shown tile is marked for upload, not for recovery, and as
    /// holding artwork.
    pub closed spec fn wf(&self) -> bool {
        forall|i: int|
            0 <= i < self.tiles@.len() ==> {
                let t = #[trigger] self.tiles@[i].1;
                t.preview_dirty && !t.recovery_dirty && t.contains_artwork
            }
    }

    /// An empty preview of generation 0 that fits the canvas into its panel.
    pub fn new() -> (p: Self)
        ensures
            p.wf(),
            p@.tile_size == DEFAULT_TILE_SIZE,
            p@.tiles.len() == 0,
            p@.generation == 0,
            p@.latest_sequence == 0,
            p@.statistics == (SessionStatistics { samples_recorded: 0, movements_recorded: 0, dwell_events: 0 }),
            p@.texture_epoch == 0,
            p@.view_mode == PreviewViewMode::FitAll,
    {
        let p = PreviewState {
            tile_size: DEFAULT_TILE_SIZE,
            tiles: Vec::new(),
            generation: 0,
            latest_sequence: 0,
            statistics: SessionStatistics { samples_recorded: 0, movements_recorded: 0, dwell_events: 0 },
            texture_epoch: 0,
            view_mode: PreviewViewMode::FitAll,
        };
        assert(shown_tiles(p.tiles@) =~= Seq::<ShownTile>::empty());
        p
    }

    /// The width last taken from a delta, the size the tiles are drawn at.
    pub fn tile_size(&self) -> (s: u32)
        ensures
            s == self@.tile_size,
    {
        self.tile_size
    }

    /// The shown tiles.
    pub fn tiles(&self) -> (t: &Vec<(TileCoordinate, Tile)>)
        ensures
            shown_tiles(t@) == self@.tiles,
            self.wf() ==> forall|i: int|
                0 <= i < t@.len() ==> (#[trigger] t@[i]).1.preview_dirty && !t@[i].1.recovery_dirty
                    && t@[i].1.contains_artwork,
    {
        &self.tiles
    }

    /// Whether no tile is shown.
    pub fn has_no_tiles(&self) -> (b: bool)
        ensures
            b == (self@.tiles.len() == 0),
    {
        self.tiles.len() == 0
    }

    fn drop_tiles(&mut self)
        ensures
            final(self)@ == (PreviewModel { tiles: Seq::empty(), ..old(self)@ }),
            final(self).wf(),
    {
        self.tiles = Vec::new();
        assert(shown_tiles(self.tiles@) =~= Seq::<ShownTile>::empty());
    }

    /// Forgets everything of older generations when `generation` is newer.
    pub fn invalidate_generation(&mut self, generation: u64)
        requires
            old(self).wf(),
        ensures
            final(self).wf(),
            final(self)@ == if generation <= old(self)@.generation {
                old(self)@
            } else {
                reset_to_generation(old(self)@, generation)
            },
    {
        if generation <= self.generation {
            return;
        }
        self.drop_tiles();
        self.texture_epoch = self.texture_epoch.saturating_add(1);
        self.generation = generation;
        self.latest_sequence = 0;
    }

    /// Starts over for an authoritative full state of `generation`.
    pub fn prepare_authoritative_full_state(&mut self, generation: u64)
        requires
            old(self).wf(),
        ensures
            final(self).wf(),
            final(self)@ == reset_to_generation(old(self)@, generation),
    {
        self.drop_tiles();
        self.texture_epoch = self.texture_epoch.saturating_add(1);
        self.generation = generation;
        self.latest_sequence = 0;
    }

    fn keep_incoming_tiles(&mut self, deltas: &Vec<TileDelta>)
        requires
            old(self).wf(),
        ensures
            final(self).wf(),
            final(self)@ == (PreviewModel {
                tiles: keep_incoming(old(self)@.tiles, deltas@.map_values(|d: TileDelta| d@)),
                ..old(self)@
            }),
    {
        let ghost ds = deltas@.map_values(|d: TileDelta| d@);
        let ghost orig = self@.tiles;
        let ghost mut j: int = 0;
        let mut i: usize = 0;
        while i < self.tiles.len()
            invariant
                self.wf(),
                0 <= j <= orig.len(),
                i == keep_incoming(orig.subrange(0, j), ds).len(),
                shown_tiles(self.tiles@) == keep_incoming(orig.subrange(0, j), ds) + orig.subrange(j, orig.len() as int),
                ds == deltas@.map_values(|d: TileDelta| d@),
                self.tile_size == old(self).tile_size,
                self.generation == old(self).generation,
                self.latest_sequence == old(self).latest_sequence,
                self.statistics == old(self).statistics,
                self.texture_epoch == old(self).texture_epoch,
                self.view_mode == old(self).view_mode,
            decreases orig.len() - j,
        {
            let ghost before = shown_tiles(self.tiles@);
            let ghost kept = keep_incoming(orig.subrange(0, j), ds);
            proof {
                assert(before[i as int] == orig[j]);
                assert(orig.subrange(0, j + 1).drop_last() =~= orig.subrange(0, j));
                assert(orig.subrange(0, j + 1).last() == orig[j]);
            }
            if is_incoming(deltas, self.tiles[i].0) {
                i = i + 1;
                proof {
                    j = j + 1;
                    assert(shown_tiles(self.tiles@) =~= keep_incoming(orig.subrange(0, j), ds) + orig.subrange(
                        j,
                        orig.len() as int,
                    ));
                }
            } else {
                self.tiles.remove(i);
                proof {
                    assert(shown_tiles(self.tiles@) =~= before.remove(i as int));
                    assert(before.remove(i as int) =~= kept + orig.subrange(j + 1, orig.len() as int));
                    j = j + 1;
                    assert(shown_tiles(self.tiles@) =~= keep_incoming(orig.subrange(0, j), ds) + orig.subrange(
                        j,
                        orig.len() as int,
                    ));
                }
            }
        }
        proof {
            assert(orig.subrange(j, orig.len() as int).len() == 0);
            assert(orig.subrange(0, j) =~= orig);
            assert(shown_tiles(self.tiles@) =~= keep_incoming(orig, ds));
        }
    }

    /// Applies a published frame: refuses it when it is older than what is
    /// shown, or when one of its deltas belongs to another generation or has
    /// bytes that do not fit its size; otherwise shows its tiles.
    pub fn apply_snapshot(&mut self, frame: &PreviewFrame) -> (r: Result<(), PreviewApplyError>)
        requires
            old(self).wf(),
            forall|i: int|
                0 <= i < frame.tile_deltas@.len() && !frame.tile_deltas@[i].removed ==> #[trigger] frame.tile_deltas@[i].width
                    * frame.tile_deltas@[i].height * 4 <= u32::MAX,
            old(self)@.texture_epoch + frame.tile_deltas@.len() + 2 <= u64::MAX,
        ensures
            final(self).wf(),
            (final(self)@, r) == apply_outcome(old(self)@, frame@),
    {
        let ghost ds = frame@.tile_deltas;
        if frame.generation < self.generation {
            return Err(PreviewApplyError::OlderGeneration);
        }
        if frame.generation == self.generation && frame.sequence < self.latest_sequence {
            return Err(PreviewApplyError::StaleSequence);
        }
        let n = frame.tile_deltas.len();
        let mut i: usize = 0;
        while i < n
            invariant
                n == frame.tile_deltas@.len(),
                ds == frame@.tile_deltas,
                i <= n,
                self@ == old(self)@,
                self.wf(),
                frame.generation >= old(self)@.generation,
                !(frame.generation == old(self)@.generation && frame.sequence < old(self)@.latest_sequence),
                forall|j: int| 0 <= j < i ==> ds[j].generation == frame.generation,
            decreases n - i,
        {
            if frame.tile_deltas[i].generation != frame.generation {
                assert(ds[i as int].generation != frame.generation);
                return Err(PreviewApplyError::DeltaGeneration);
            }
            i = i + 1;
        }
        i = 0;
        while i < n
            invariant
                n == frame.tile_deltas@.len(),
                ds == frame@.tile_deltas,
                i <= n,
                self@ == old(self)@,
                self.wf(),
                frame.generation >= old(self)@.generation,
                !(frame.generation == old(self)@.generation && frame.sequence < old(self)@.latest_sequence),
                forall|j: int| 0 <= j < n ==> ds[j].generation == frame.generation,
                forall|j: int| 0 <= j < n && !frame.tile_deltas@[j].removed ==> #[trigger] frame.tile_deltas@[j].width
                    * frame.tile_deltas@[j].height * 4 <= u32::MAX,
                forall|j: int| 0 <= j < i ==> delta_pixels_fit(#[trigger] ds[j]),
            decreases n - i,
        {
            let d = &frame.tile_deltas[i];
            if !d.removed {
                proof {
                    assert(d.width * d.height * 4 <= u32::MAX);
                    vstd::arithmetic::mul::lemma_mul_nonnegative(d.width as int, d.height as int);
                }
                if d.rgba.len() != (d.width * d.height * 4) as usize {
                    assert(!delta_pixels_fit(ds[i as int]));
                    return Err(PreviewApplyError::InvalidPixels);
                }
            }
            i = i + 1;
        }
        let ghost p0 = self@;
        if frame.generation > self.generation {
            self.invalidate_generation(frame.generation);
        }
        let ghost p1 = self@;
        if frame.full_tile_snapshot {
            self.keep_incoming_tiles(&frame.tile_deltas);
            self.texture_epoch = self.texture_epoch + 1;
        }
        let ghost start = (self@.tile_size, self@.tiles, self@.texture_epoch);
        proof {
            lemma_removal_count_bound(ds);
            assert(ds.subrange(0, 0) =~= Seq::<DeltaModel>::empty());
        }
        i = 0;
        while i < n
            invariant
                self.wf(),
                n == frame.tile_deltas@.len(),
                ds == frame@.tile_deltas,
                i <= n,
                start.2 + n <= u64::MAX,
                removal_count(ds) <= n,
                (self@.tile_size, self@.tiles, self@.texture_epoch) == apply_deltas(start, ds.subrange(0, i as int)),
                self.texture_epoch == start.2 + removal_count(ds.subrange(0, i as int)),
                self.generation == p1.generation,
                self.view_mode == p1.view_mode,
                self.statistics == p1.statistics,
                self.latest_sequence == p1.latest_sequence,
            decreases n - i,
        {
            let d = &frame.tile_deltas[i];
            let ghost pre = (self@.tile_size, self@.tiles, self@.texture_epoch);
            proof {
                let s = ds.subrange(0, i + 1);
                assert(s.drop_last() =~= ds.subrange(0, i as int));
                assert(s.last() == d@);
                lemma_removal_count_bound(ds.subrange(0, i as int));
            }
            if d.removed {
                match find_tile(&self.tiles, d.coordinate) {
                    Some(k) => {
                        proof {
                            lemma_remove_at(shown_tiles(self.tiles@), d.coordinate, k as int);
                        }
                        self.tiles.remove(k);
                        assert(shown_tiles(self.tiles@) =~= pre.1.remove(k as int));
                    },
                    None => {
                        proof {
                            lemma_remove_at(shown_tiles(self.tiles@), d.coordinate, self.tiles@.len() as int);
                        }
                    },
                }
                self.texture_epoch = self.texture_epoch + 1;
            } else {
                match find_tile(&self.tiles, d.coordinate) {
                    Some(k) => {
                        proof {
                            lemma_get_at(shown_tiles(self.tiles@), d.coordinate, k as int);
                            lemma_put_at(shown_tiles(self.tiles@), d.coordinate, (d.rgba@, d.revision), k as int);
                        }
                        if self.tiles[k].1.revision < d.revision {
                            let tile = Tile {
                                pixels: d.rgba.clone(),
                                preview_dirty: true,
                                recovery_dirty: false,
                                revision: d.revision,
                                contains_artwork: true,
                            };
                            self.tiles.set(k, (d.coordinate, tile));
                            self.tile_size = d.width;
                            assert(shown_tiles(self.tiles@) =~= pre.1.update(k as int, (d.coordinate, (d.rgba@, d.revision))));
                        }
                    },
                    None => {
                        proof {
                            lemma_get_at(shown_tiles(self.tiles@), d.coordinate, self.tiles@.len() as int);
                            lemma_put_at(
                                shown_tiles(self.tiles@),
                                d.coordinate,
                                (d.rgba@, d.revision),
                                self.tiles@.len() as int,
                            );
                        }
                        let tile = Tile {
                            pixels: d.rgba.clone(),
                            preview_dirty: true,
                            recovery_dirty: false,
                            revision: d.revision,
                            contains_artwork: true,
                        };
                        self.tiles.push((d.coordinate, tile));
                        self.tile_size = d.width;
                        assert(shown_tiles(self.tiles@) =~= pre.1.push((d.coordinate, (d.rgba@, d.revision))));
                    },
                }
            }
            i = i + 1;
        }
        proof {
            assert(ds.subrange(0, n as int) =~= ds);
        }
        self.statistics = SessionStatistics {
            samples_recorded: frame.statistics.samples_recorded,
            movements_recorded: frame.statistics.movements_recorded,
            dwell_events: frame.statistics.dwell_events,
        };
        self.latest_sequence = frame.sequence;
        Ok(())
    }
}

/// The preview never goes back: a refused frame changes nothing, and an
/// accepted one leaves a generation and sequence no older than before, the
/// frame's own.
pub proof fn lemma_preview_never_goes_back(p: PreviewModel, f: FrameModel)
    ensures
        apply_outcome(p, f).1 is Err ==> apply_outcome(p, f).0 == p,
        apply_outcome(p, f).1 is Ok ==> {
            let q = apply_outcome(p, f).0;
            &&& q.generation == f.generation
            &&& q.latest_sequence == f.sequence
            &&& p.generation <= q.generation
            &&& (p.generation == q.generation ==> p.latest_sequence <= q.latest_sequence)
        },
{
}

} // verus!
