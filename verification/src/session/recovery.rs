//! Recovery file naming and the choice of tiles a checkpoint writes.
use vstd::prelude::*;

use crate::canvas::coordinates::TileCoordinate;
use crate::canvas::tiles::{SparseTileStore, Tile};
use crate::session::model::RecordingStatus;
use crate::text::{
    all_digits, chars_of, decimal, is_ascii_digit, lemma_decimal_reads_back, parse_i32, parse_i32_spec, path_join,
    push_decimal, push_decimal_wide, push_signed_decimal, push_str, signed_decimal, spec_path_join, string_of,
};

verus! {

pub const LEGACY_FILENAME: &'static str = "autosave.recovery.json";
pub const VERSION_FILENAME: &'static str = "recovery-version";

#[derive(Debug, Clone, Copy, PartialEq, Eq, Structural)]
pub enum CommitStage {
    BeforeTileCommit,
    BeforeManifestCommit,
}

/// What a recovery location holds. Paths are UTF-8 text.
#[derive(Debug, Clone, PartialEq, Eq)]
pub enum RecoveryStatus {
    /// Nothing to recover.
    NoRecovery,
    Incomplete(String),
    Completed(String),
    Malformed(String, String),
    Legacy(String),
}

/// Where the legacy single-file recovery lives under `base`.
pub fn autosave_path(base: &str) -> (p: String)
    ensures
        p@ == spec_path_join(base@, "autosave.recovery.json"@),
{
    path_join(base, LEGACY_FILENAME)
}

/// What looking for the legacy recovery file found.
#[derive(Debug, Clone, PartialEq, Eq)]
pub enum LegacyFile {
    /// There is no file.
    Missing,
    /// The file was read and understood.
    Readable,
    /// The file is there but could not be read or understood; why.
    Unreadable(String),
}

/// The recovery status of the legacy file under `root`: nothing when it is
/// missing, the legacy file when it was understood, and the file with an
/// explanation when it was not.
pub fn legacy_status(root: &str, found: LegacyFile) -> (r: RecoveryStatus)
    ensures
        match found {
            LegacyFile::Missing => r == RecoveryStatus::NoRecovery,
            LegacyFile::Readable => (r matches RecoveryStatus::Legacy(p) && p@ == spec_path_join(
                root@,
                "autosave.recovery.json"@,
            )),
            LegacyFile::Unreadable(e) => (r matches RecoveryStatus::Malformed(p, m) && p@ == spec_path_join(
                root@,
                "autosave.recovery.json"@,
            ) && m@ == "Legacy recovery is malformed or unsupported: "@ + e@),
        },
{
    match found {
        LegacyFile::Missing => RecoveryStatus::NoRecovery,
        LegacyFile::Readable => RecoveryStatus::Legacy(autosave_path(root)),
        LegacyFile::Unreadable(e) => {
            let mut out: Vec<char> = Vec::new();
            push_str(&mut out, "Legacy recovery is malformed or unsupported: ");
            push_str(&mut out, e.as_str());
            RecoveryStatus::Malformed(autosave_path(root), string_of(out.as_slice()))
        },
    }
}

/// The recovery status of a legacy file given its `completed` flag, or
/// `None` when it could not be loaded: only an unfinished session is
/// incomplete.
pub fn detect_incomplete(path: &str, completed: Option<bool>) -> (r: RecoveryStatus)
    ensures
        completed == Some(false) ==> (r matches RecoveryStatus::Incomplete(p) && p@ == path@),
        completed != Some(false) ==> r == RecoveryStatus::NoRecovery,
{
    match completed {
        Some(false) => RecoveryStatus::Incomplete(path.to_owned()),
        _ => RecoveryStatus::NoRecovery,
    }
}

/// The part of `s` after its last `-`; all of `s` when it has none.
pub open spec fn after_last_dash(s: Seq<char>) -> Seq<char>
    decreases s.len(),
{
    if s.len() == 0 {
        s
    } else if s.last() == '-' {
        Seq::empty()
    } else {
        after_last_dash(s.drop_last()).push(s.last())
    }
}

/// `s` split around its first `_`, if it has one.
pub open spec fn split_at_underscore(s: Seq<char>) -> Option<(Seq<char>, Seq<char>)>
    decreases s.len(),
{
    if s.len() == 0 {
        None
    } else if s[0] == '_' {
        Some((Seq::empty(), s.drop_first()))
    } else {
        match split_at_underscore(s.drop_first()) {
            Some((a, b)) => Some((seq![s[0]] + a, b)),
            None => None,
        }
    }
}

/// The tile coordinate a stored tile's file name gives: the name must end in
/// `.png`; what follows the last `-` before that (a checkpoint prefix ends in
/// one) is split at its first `_` into the column and row, each read as an
/// `i32`.
pub open spec fn tile_name_coordinate(name: Seq<char>) -> Option<TileCoordinate> {
    if name.len() < 4 || name.subrange(name.len() - 4, name.len() as int) != seq!['.', 'p', 'n', 'g'] {
        None
    } else {
        match split_at_underscore(after_last_dash(name.subrange(0, name.len() - 4))) {
            None => None,
            Some((x, y)) => match (parse_i32_spec(x), parse_i32_spec(y)) {
                (Some(a), Some(b)) => Some(TileCoordinate { x: a, y: b }),
                _ => None,
            },
        }
    }
}

proof fn lemma_after_last_dash(s: Seq<char>, k: int)
    requires
        0 <= k <= s.len(),
        forall|j: int| k <= j < s.len() ==> s[j] != '-',
        k == 0 || s[k - 1] == '-',
    ensures
        after_last_dash(s) == s.subrange(k, s.len() as int),
    decreases s.len(),
{
    if s.len() == k {
    } else {
        lemma_after_last_dash(s.drop_last(), k);
        assert(s.drop_last().subrange(k, s.len() - 1).push(s.last()) =~= s.subrange(k, s.len() as int));
    }
}

proof fn lemma_split_at_underscore(s: Seq<char>, u: int)
    requires
        0 <= u <= s.len(),
        forall|j: int| 0 <= j < u ==> s[j] != '_',
        u < s.len() ==> s[u] == '_',
    ensures
        split_at_underscore(s) == if u < s.len() {
            Some((s.subrange(0, u), s.subrange(u + 1, s.len() as int)))
        } else {
            None::<(Seq<char>, Seq<char>)>
        },
    decreases u,
{
    if u == 0 {
        if s.len() > 0 {
            assert(s.subrange(0, 0) =~= Seq::<char>::empty());
            assert(s.subrange(1, s.len() as int) =~= s.drop_first());
        }
    } else {
        let t = s.drop_first();
        assert forall|j: int| 0 <= j < u - 1 implies t[j] != '_' by {
            assert(t[j] == s[j + 1]);
        }
        lemma_split_at_underscore(t, u - 1);
        if u < s.len() {
            assert(seq![s[0]] + t.subrange(0, u - 1) =~= s.subrange(0, u));
            assert(t.subrange(u, t.len() as int) =~= s.subrange(u + 1, s.len() as int));
        }
    }
}

fn copy_range(v: &Vec<char>, a: usize, b: usize) -> (r: Vec<char>)
    requires
        a <= b <= v@.len(),
    ensures
        r@ == v@.subrange(a as int, b as int),
{
    let mut r: Vec<char> = Vec::new();
    let mut i = a;
    while i < b
        invariant
            a <= i <= b,
            b <= v@.len(),
            r@ == v@.subrange(a as int, i as int),
        decreases b - i,
    {
        r.push(v[i]);
        i = i + 1;
        assert(r@ =~= v@.subrange(a as int, i as int));
    }
    r
}

/// The tile coordinate of a stored tile's file name; see
/// [`tile_name_coordinate`].
pub fn parse_tile_filename(name: &str) -> (r: Option<TileCoordinate>)
    ensures
        r == tile_name_coordinate(name@),
{
    let cs = chars_of(name);
    let n = cs.len();
    if n < 4 || cs[n - 4] != '.' || cs[n - 3] != 'p' || cs[n - 2] != 'n' || cs[n - 1] != 'g' {
        proof {
            if n >= 4 {
                assert(name@.subrange(n - 4, n as int)[0] == cs@[n - 4]);
                assert(name@.subrange(n - 4, n as int)[1] == cs@[n - 3]);
                assert(name@.subrange(n - 4, n as int)[2] == cs@[n - 2]);
                assert(name@.subrange(n - 4, n as int)[3] == cs@[n - 1]);
            }
        }
        return None;
    }
    assert(name@.subrange(n - 4, n as int) =~= seq!['.', 'p', 'n', 'g']);
    let stem_end = n - 4;
    let ghost stem = cs@.subrange(0, stem_end as int);
    let mut start: usize = 0;
    let mut j: usize = 0;
    while j < stem_end
        invariant
            stem_end <= cs@.len(),
            start <= j <= stem_end,
            forall|k: int| start <= k < j ==> cs@[k] != '-',
            start == 0 || cs@[start - 1] == '-',
        decreases stem_end - j,
    {
        if cs[j] == '-' {
            start = j + 1;
        }
        j = j + 1;
    }
    proof {
        assert forall|k: int| start <= k < stem.len() implies stem[k] != '-' by {
            assert(stem[k] == cs@[k]);
        }
        if start > 0 {
            assert(stem[start - 1] == cs@[start - 1]);
        }
        lemma_after_last_dash(stem, start as int);
    }
    let ghost tail = cs@.subrange(start as int, stem_end as int);
    assert(tail =~= stem.subrange(start as int, stem.len() as int));
    let mut u: usize = start;
    while u < stem_end && cs[u] != '_'
        invariant
            stem_end <= cs@.len(),
            start <= u <= stem_end,
            forall|k: int| start <= k < u ==> cs@[k] != '_',
        decreases stem_end - u,
    {
        u = u + 1;
    }
    proof {
        let uu = u - start;
        assert forall|k: int| 0 <= k < uu implies tail[k] != '_' by {
            assert(tail[k] == cs@[start + k]);
        }
        if u < stem_end {
            assert(tail[uu as int] == cs@[u as int]);
        }
        lemma_split_at_underscore(tail, uu as int);
    }
    if u == stem_end {
        return None;
    }
    let xs = copy_range(&cs, start, u);
    let ys = copy_range(&cs, u + 1, stem_end);
    assert(xs@ =~= tail.subrange(0, (u - start) as int));
    assert(ys@ =~= tail.subrange((u - start) + 1, tail.len() as int));
    match (parse_i32(xs.as_slice()), parse_i32(ys.as_slice())) {
        (Some(x), Some(y)) => Some(TileCoordinate { x, y }),
        _ => None,
    }
}

/// The name of a tile at non-negative coordinates reads back as those
/// coordinates. (A negative column does not: its `-` is taken for the end of
/// a checkpoint prefix.)
pub proof fn lemma_tile_names_read_back(c: TileCoordinate)
    requires
        c.x >= 0,
        c.y >= 0,
    ensures
        tile_name_coordinate(signed_decimal(c.x as int) + "_"@ + signed_decimal(c.y as int) + ".png"@)
            == Some(c),
{
    reveal_strlit("_");
    reveal_strlit(".png");
    let dx = decimal(c.x as nat);
    let dy = decimal(c.y as nat);
    lemma_decimal_reads_back(c.x as nat);
    lemma_decimal_reads_back(c.y as nat);
    let stem = dx + seq!['_'] + dy;
    let name = stem + seq!['.', 'p', 'n', 'g'];
    assert(signed_decimal(c.x as int) + "_"@ + signed_decimal(c.y as int) + ".png"@ =~= name);
    assert(name.subrange(name.len() - 4, name.len() as int) =~= seq!['.', 'p', 'n', 'g']);
    assert(name.subrange(0, name.len() - 4) =~= stem);
    assert forall|k: int| 0 <= k < stem.len() implies stem[k] != '-' by {
        if k < dx.len() {
            assert(is_ascii_digit(dx[k]));
        } else if k > dx.len() {
            assert(stem[k] == dy[k - dx.len() - 1]);
            assert(is_ascii_digit(dy[k - dx.len() - 1]));
        }
    }
    lemma_after_last_dash(stem, 0);
    assert(stem.subrange(0, stem.len() as int) =~= stem);
    assert forall|k: int| 0 <= k < dx.len() implies stem[k] != '_' by {
        assert(is_ascii_digit(dx[k]));
    }
    lemma_split_at_underscore(stem, dx.len() as int);
    assert(stem.subrange(0, dx.len() as int) =~= dx);
    assert(stem.subrange(dx.len() as int + 1, stem.len() as int) =~= dy);
    assert(is_ascii_digit(dx[0]) && is_ascii_digit(dy[0]));
}

/// The status a loaded session resumes in: a completed session saved as
/// stopped is finished.
pub fn restored_status(completed: bool, saved: RecordingStatus) -> (r: RecordingStatus)
    ensures
        r == if completed && saved == RecordingStatus::Stopped {
            RecordingStatus::Finished
        } else {
            saved
        },
{
    if completed && saved == RecordingStatus::Stopped {
        RecordingStatus::Finished
    } else {
        saved
    }
}

/// Records that the tile at `c` reached durable storage at `revision`: its
/// recovery mark is cleared only when the tile still has that revision.
pub fn mark_committed(store: &mut SparseTileStore, c: TileCoordinate, revision: u64)
    ensures
        final(store).tile_size == old(store).tile_size,
        final(store).tiles@.len() == old(store).tiles@.len(),
        forall|i: int|
            0 <= i < old(store).tiles@.len() ==> {
                let (oc, ot) = #[trigger] old(store).tiles@[i];
                let (fc, ft) = final(store).tiles@[i];
                &&& fc == oc
                &&& ft.pixels@ == ot.pixels@
                &&& ft.revision == ot.revision
                &&& ft.preview_dirty == ot.preview_dirty
                &&& ft.contains_artwork == ot.contains_artwork
                &&& ft.recovery_dirty == (ot.recovery_dirty && !(oc == c && ot.revision == revision))
            },
{
    let mut i: usize = 0;
    while i < store.tiles.len()
        invariant
            i <= store.tiles@.len(),
            store.tile_size == old(store).tile_size,
            store.tiles@.len() == old(store).tiles@.len(),
            forall|k: int|
                0 <= k < store.tiles@.len() ==> {
                    let (oc, ot) = #[trigger] old(store).tiles@[k];
                    let (fc, ft) = store.tiles@[k];
                    &&& fc == oc
                    &&& ft.pixels@ == ot.pixels@
                    &&& ft.revision == ot.revision
                    &&& ft.preview_dirty == ot.preview_dirty
                    &&& ft.contains_artwork == ot.contains_artwork
                    &&& ft.recovery_dirty == (ot.recovery_dirty && !(k < i && oc == c && ot.revision == revision))
                },
        decreases store.tiles@.len() - i,
    {
        if store.tiles[i].0 == c && store.tiles[i].1.revision == revision {
            let (coord, mut tile) = store.tiles.remove(i);
            tile.recovery_dirty = false;
            store.tiles.insert(i, (coord, tile));
        }
        i = i + 1;
    }
}

/// The file name of a tile's PNG: its coordinates and the extension.
pub fn tile_filename(c: TileCoordinate) -> (s: String)
    ensures
        s@ == signed_decimal(c.x as int) + "_"@ + signed_decimal(c.y as int) + ".png"@,
{
    let mut out: Vec<char> = Vec::new();
    push_signed_decimal(&mut out, c.x);
    push_str(&mut out, "_");
    push_signed_decimal(&mut out, c.y);
    push_str(&mut out, ".png");
    string_of(out.as_slice())
}

/// The tiles a checkpoint must write: those changed since the last durable
/// checkpoint, in store order, each with its revision and pixels.
pub open spec fn dirty_tiles(tiles: Seq<(TileCoordinate, Tile)>) -> Seq<(TileCoordinate, u64, Seq<u8>)>
    decreases tiles.len(),
{
    if tiles.len() == 0 {
        Seq::empty()
    } else {
        let prev = dirty_tiles(tiles.drop_last());
        let (c, t) = tiles.last();
        if t.recovery_dirty {
            prev.push((c, t.revision, t.pixels@))
        } else {
            prev
        }
    }
}

fn copy_bytes(v: &Vec<u8>) -> (r: Vec<u8>)
    ensures
        r@ == v@,
{
    let mut r: Vec<u8> = Vec::new();
    let mut i: usize = 0;
    while i < v.len()
        invariant
            i <= v@.len(),
            r@ == v@.subrange(0, i as int),
        decreases v@.len() - i,
    {
        r.push(v[i]);
        i = i + 1;
        assert(r@ =~= v@.subrange(0, i as int));
    }
    assert(v@.subrange(0, i as int) =~= v@);
    r
}

/// Snapshots the dirty tiles of a store for a checkpoint.
pub fn snapshot_dirty_tiles(store: &SparseTileStore) -> (r: Vec<(TileCoordinate, u64, Vec<u8>)>)
    ensures
        r@.map_values(|e: (TileCoordinate, u64, Vec<u8>)| (e.0, e.1, e.2@)) == dirty_tiles(store.tiles@),
{
    let mut r: Vec<(TileCoordinate, u64, Vec<u8>)> = Vec::new();
    let mut i: usize = 0;
    while i < store.tiles.len()
        invariant
            i <= store.tiles@.len(),
            r@.map_values(|e: (TileCoordinate, u64, Vec<u8>)| (e.0, e.1, e.2@)) == dirty_tiles(store.tiles@.subrange(0, i as int)),
        decreases store.tiles@.len() - i,
    {
        assert(store.tiles@.subrange(0, i + 1).drop_last() =~= store.tiles@.subrange(0, i as int));
        if store.tiles[i].1.recovery_dirty {
            let c = store.tiles[i].0;
            let rev = store.tiles[i].1.revision;
            let px = copy_bytes(&store.tiles[i].1.pixels);
            let ghost before = r@;
            r.push((c, rev, px));
            assert(r@.map_values(|e: (TileCoordinate, u64, Vec<u8>)| (e.0, e.1, e.2@)) =~= before.map_values(|e: (TileCoordinate, u64, Vec<u8>)| (e.0, e.1, e.2@)).push((c, rev, store.tiles@[i as int].1.pixels@)));
        }
        i = i + 1;
    }
    assert(store.tiles@.subrange(0, i as int) =~= store.tiles@);
    r
}

/// The name of the tile at `c`: its column and row, then `.png`.
pub open spec fn tile_name(c: TileCoordinate) -> Seq<char> {
    signed_decimal(c.x as int) + "_"@ + signed_decimal(c.y as int) + ".png"@
}

/// The name of a checkpoint's transaction: `checkpoint-`, the process id and
/// the time in nanoseconds since the Unix epoch.
pub open spec fn transaction_name_text(process_id: u32, nanos: u128) -> Seq<char> {
    "checkpoint-"@ + decimal(process_id as nat) + "-"@ + decimal(nanos as nat)
}

/// The name a checkpoint writes the tile at `c` under: prefixed with the
/// transaction and a `-` when it replaces an earlier checkpoint (so the tiles
/// of that one stay loadable until the manifest is replaced), else the
/// tile's own name.
pub open spec fn checkpoint_tile_name(transaction: Seq<char>, replacing: bool, c: TileCoordinate) -> Seq<char> {
    if replacing {
        transaction + "-"@ + tile_name(c)
    } else {
        tile_name(c)
    }
}

/// The name of a checkpoint's transaction; see [`transaction_name_text`].
pub fn transaction_name(process_id: u32, nanos: u128) -> (r: String)
    ensures
        r@ == transaction_name_text(process_id, nanos),
{
    let mut out: Vec<char> = Vec::new();
    push_str(&mut out, "checkpoint-");
    push_decimal(&mut out, process_id as u64);
    push_str(&mut out, "-");
    push_decimal_wide(&mut out, nanos);
    string_of(out.as_slice())
}

/// The names a checkpoint writes its tiles under, in the order of `tiles`:
/// the tile list of the manifest it commits last.
pub fn checkpoint_tile_names(transaction: &str, replacing: bool, tiles: &[TileCoordinate]) -> (r: Vec<String>)
    ensures
        r@.len() == tiles@.len(),
        forall|i: int| 0 <= i < tiles@.len() ==> #[trigger] r@[i]@ == checkpoint_tile_name(transaction@, replacing, tiles@[i]),
{
    let mut r: Vec<String> = Vec::new();
    let mut i: usize = 0;
    while i < tiles.len()
        invariant
            i <= tiles@.len(),
            r@.len() == i,
            forall|j: int| 0 <= j < i ==> #[trigger] r@[j]@ == checkpoint_tile_name(transaction@, replacing, tiles@[j]),
        decreases tiles@.len() - i,
    {
        let plain = tile_filename(tiles[i]);
        let name = if replacing {
            let mut out: Vec<char> = Vec::new();
            push_str(&mut out, transaction);
            push_str(&mut out, "-");
            push_str(&mut out, plain.as_str());
            string_of(out.as_slice())
        } else {
            plain
        };
        r.push(name);
        i = i + 1;
    }
    r
}

proof fn lemma_after_prefix_dash(p: Seq<char>, t: Seq<char>)
    ensures
        after_last_dash(p.push('-') + t) == after_last_dash(t),
    decreases t.len(),
{
    if t.len() == 0 {
        assert(p.push('-') + t =~= p.push('-'));
    } else {
        lemma_after_prefix_dash(p, t.drop_last());
        assert((p.push('-') + t).drop_last() =~= p.push('-') + t.drop_last());
    }
}

/// A tile written by a checkpoint reads back as the tile written plainly:
/// the transaction prefix is dropped. So the tiles of a checkpoint at
/// non-negative coordinates read back as their coordinates.
pub proof fn lemma_checkpoint_names_read_back(transaction: Seq<char>, replacing: bool, c: TileCoordinate)
    ensures
        tile_name_coordinate(checkpoint_tile_name(transaction, replacing, c)) == tile_name_coordinate(tile_name(c)),
        c.x >= 0 && c.y >= 0 ==> tile_name_coordinate(checkpoint_tile_name(transaction, replacing, c)) == Some(c),
{
    reveal_strlit("-");
    reveal_strlit(".png");
    let plain = tile_name(c);
    if c.x >= 0 && c.y >= 0 {
        lemma_tile_names_read_back(c);
    }
    if replacing {
        let full = transaction + "-"@ + plain;
        let stem = plain.subrange(0, plain.len() - 4);
        assert(plain.len() >= 4);
        assert(full.subrange(full.len() - 4, full.len() as int) =~= plain.subrange(plain.len() - 4, plain.len() as int));
        assert(full.subrange(0, full.len() - 4) =~= transaction.push('-') + stem);
        lemma_after_prefix_dash(transaction, stem);
    }
}

} // verus!
