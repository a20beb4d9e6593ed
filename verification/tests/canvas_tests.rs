use multi_mouse_canvas::canvas::coordinates::{TileCoordinate, TileLocalPixel};
use multi_mouse_canvas::canvas::model::CanvasBackground;
use multi_mouse_canvas::canvas::preview_state::{PreviewApplyError, PreviewFrame, PreviewState, PreviewViewMode};
use multi_mouse_canvas::canvas::tiles::{desktop_pixel_to_tile, SparseTileStore, Tile, DEFAULT_TILE_SIZE};
use multi_mouse_canvas::session::recovery::snapshot_dirty_tiles;
use multi_mouse_canvas::session::snapshot::TileDelta;
use multi_mouse_canvas::session::statistics::SessionStatistics;
use multi_mouse_canvas::settings::model::RgbaColor;

#[test]
fn sparse_allocation_creating_only_touched_tiles() {
    let mut s = SparseTileStore::default();
    s.put_pixel(1, 1, [1, 2, 3, 255], |_d, c| c);
    assert_eq!(s.touched_tile_count(), 1);
}

#[test]
fn supports_negative_tile_indices() {
    let (t, l) = desktop_pixel_to_tile(-1, -257, 256);
    assert_eq!(t, TileCoordinate { x: -1, y: -2 });
    assert_eq!(l, TileLocalPixel { x: 255, y: 255 });
}

#[test]
fn dirty_snapshot_only_contains_dirty() {
    let mut s = SparseTileStore::default();
    s.put_pixel(1, 1, [1, 2, 3, 4], |_d, c| c);
    assert_eq!(snapshot_dirty_tiles(&s).len(), 1);
}

#[test]
fn pixel_writes_land_in_their_tile_and_bump_revisions() {
    let mut s = SparseTileStore::default();
    s.put_pixel(-1, 0, [9, 8, 7, 0], |_d, c| c);
    s.put_pixel(-1, 0, [1, 1, 1, 6], |d, c| [d[0] + c[0], d[1], d[2], c[3]]);
    assert_eq!(s.touched_tile_count(), 1);
    let (coord, tile) = &s.tiles[0];
    assert_eq!(*coord, TileCoordinate { x: -1, y: 0 });
    let offset = (255 * 4) as usize;
    assert_eq!(&tile.pixels[offset..offset + 4], &[10, 8, 7, 6]);
    assert_eq!(tile.revision, 2);
    assert!(tile.contains_artwork && tile.preview_dirty && tile.recovery_dirty);
    assert_eq!(s.artwork_tile_count(), 1);
}

#[test]
fn tile_indices_follow_euclidean_division() {
    assert_eq!(desktop_pixel_to_tile(0, 0, 256).0, TileCoordinate { x: 0, y: 0 });
    assert_eq!(desktop_pixel_to_tile(255, 256, 256).0, TileCoordinate { x: 0, y: 1 });
    assert_eq!(desktop_pixel_to_tile(-256, -1, 256).0, TileCoordinate { x: -1, y: -1 });
    assert_eq!(desktop_pixel_to_tile(-257, 10, 256).1, TileLocalPixel { x: 255, y: 10 });
}

#[test]
fn blank_tiles_are_transparent_and_clean() {
    let t = Tile::blank(4);
    assert_eq!(t.pixels, vec![0u8; 64]);
    assert!(!t.preview_dirty && !t.recovery_dirty && !t.contains_artwork);
    assert_eq!(t.revision, 0);
}

#[test]
fn default_background_is_dark_and_opaque() {
    let b = CanvasBackground::default();
    assert_eq!(b.color, RgbaColor::new(24, 24, 24, 255));
    assert!(!b.transparent);
}

fn delta(x: i32, y: i32, revision: u64, generation: u64, fill: u8) -> TileDelta {
    TileDelta {
        coordinate: TileCoordinate { x, y },
        revision,
        width: 2,
        height: 2,
        rgba: vec![fill; 16],
        removed: false,
        generation,
    }
}

fn removal(x: i32, y: i32, generation: u64) -> TileDelta {
    TileDelta {
        coordinate: TileCoordinate { x, y },
        revision: 0,
        width: 0,
        height: 0,
        rgba: vec![],
        removed: true,
        generation,
    }
}

fn stats(n: u64) -> SessionStatistics {
    SessionStatistics { samples_recorded: n, movements_recorded: 0, dwell_events: 0 }
}

fn frame(generation: u64, sequence: u64, full: bool, tile_deltas: Vec<TileDelta>) -> PreviewFrame {
    PreviewFrame { generation, sequence, full_tile_snapshot: full, tile_deltas, statistics: stats(sequence) }
}

fn shown(p: &PreviewState) -> Vec<(TileCoordinate, u64, u8)> {
    p.tiles().iter().map(|(c, t)| (*c, t.revision, t.pixels[0])).collect()
}

#[test]
fn generation_change_invalidates_canvas_revisions_and_textures() {
    let mut preview = PreviewState::new();
    preview.apply_snapshot(&frame(0, 1, false, vec![delta(4, -2, 9, 0, 1)])).unwrap();
    assert!(!preview.has_no_tiles());
    let epoch = preview.texture_epoch;

    preview.invalidate_generation(7);

    assert_eq!(preview.generation, 7);
    assert_eq!(preview.latest_sequence, 0);
    assert!(preview.has_no_tiles());
    assert!(preview.texture_epoch > epoch);
}

#[test]
fn new_preview_fits_everything() {
    let p = PreviewState::new();
    assert_eq!(p.view_mode, PreviewViewMode::FitAll);
    assert_eq!(PreviewViewMode::default(), PreviewViewMode::FitAll);
    assert_eq!(p.generation, 0);
    assert_eq!(p.tile_size(), DEFAULT_TILE_SIZE);
}

#[test]
fn older_or_stale_frames_are_refused_and_change_nothing() {
    let mut p = PreviewState::new();
    p.apply_snapshot(&frame(3, 5, false, vec![delta(0, 0, 1, 3, 1)])).unwrap();
    assert_eq!(p.apply_snapshot(&frame(2, 9, false, vec![])), Err(PreviewApplyError::OlderGeneration));
    assert_eq!(p.apply_snapshot(&frame(3, 4, false, vec![])), Err(PreviewApplyError::StaleSequence));
    assert_eq!(
        p.apply_snapshot(&frame(3, 6, false, vec![delta(1, 1, 1, 2, 1)])),
        Err(PreviewApplyError::DeltaGeneration)
    );
    let mut bad = delta(1, 1, 1, 3, 1);
    bad.rgba.pop();
    assert_eq!(p.apply_snapshot(&frame(3, 6, false, vec![bad])), Err(PreviewApplyError::InvalidPixels));
    assert_eq!(p.latest_sequence, 5);
    assert_eq!(shown(&p), vec![(TileCoordinate { x: 0, y: 0 }, 1, 1)]);
}

#[test]
fn deltas_replace_newer_revisions_only_and_removals_drop_tiles() {
    let mut p = PreviewState::new();
    p.apply_snapshot(&frame(1, 1, false, vec![delta(0, 0, 5, 1, 1), delta(1, 0, 5, 1, 2)])).unwrap();
    let epoch = p.texture_epoch;
    p.apply_snapshot(&frame(1, 2, false, vec![delta(0, 0, 4, 1, 9), delta(1, 0, 6, 1, 7), removal(0, 0, 1)]))
        .unwrap();
    assert_eq!(shown(&p), vec![(TileCoordinate { x: 1, y: 0 }, 6, 7)]);
    assert_eq!(p.texture_epoch, epoch + 1);
    assert_eq!(p.statistics, stats(2));
    assert_eq!(p.tile_size(), 2);
}

#[test]
fn a_full_frame_keeps_only_the_tiles_it_brings() {
    let mut p = PreviewState::new();
    p.apply_snapshot(&frame(1, 1, false, vec![delta(0, 0, 5, 1, 1), delta(1, 0, 5, 1, 2), delta(2, 0, 5, 1, 3)]))
        .unwrap();
    let epoch = p.texture_epoch;
    p.apply_snapshot(&frame(1, 2, true, vec![delta(2, 0, 5, 1, 3), delta(0, 0, 8, 1, 4)])).unwrap();
    assert_eq!(
        shown(&p),
        vec![(TileCoordinate { x: 0, y: 0 }, 8, 4), (TileCoordinate { x: 2, y: 0 }, 5, 3)]
    );
    assert_eq!(p.texture_epoch, epoch + 1);
}

#[test]
fn a_newer_generation_starts_from_no_tiles() {
    let mut p = PreviewState::new();
    p.apply_snapshot(&frame(1, 10, false, vec![delta(0, 0, 5, 1, 1)])).unwrap();
    p.apply_snapshot(&frame(2, 1, false, vec![delta(3, 3, 1, 2, 6)])).unwrap();
    assert_eq!(p.generation, 2);
    assert_eq!(p.latest_sequence, 1);
    assert_eq!(shown(&p), vec![(TileCoordinate { x: 3, y: 3 }, 1, 6)]);
}

#[test]
fn authoritative_full_state_clears_for_its_generation() {
    let mut p = PreviewState::new();
    p.apply_snapshot(&frame(4, 3, false, vec![delta(0, 0, 5, 4, 1)])).unwrap();
    p.prepare_authoritative_full_state(4);
    assert!(p.has_no_tiles());
    assert_eq!(p.generation, 4);
    assert_eq!(p.latest_sequence, 0);
    p.invalidate_generation(2);
    assert_eq!(p.generation, 4);
}
