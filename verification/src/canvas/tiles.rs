//! The sparse tile store that holds the canvas artwork.
use vstd::prelude::*;

use crate::canvas::coordinates::{TileCoordinate, TileLocalPixel};

verus! {

pub const DEFAULT_TILE_SIZE: u32 = 256;

#[derive(Debug, Clone, PartialEq)]
pub struct Tile {
    pub pixels: Vec<u8>,
    pub preview_dirty: bool,
    pub recovery_dirty: bool,
    pub revision: u64,
    pub contains_artwork: bool,
}

impl Tile {
    /// A fully transparent tile of `size` by `size` RGBA pixels.
    pub fn blank(size: u32) -> (t: Self)
        requires
            size * size * 4 <= u32::MAX,
        ensures
            t.pixels@.len() == size * size * 4,
            forall|i: int| 0 <= i < t.pixels@.len() ==> t.pixels@[i] == 0,
            !t.preview_dirty,
            !t.recovery_dirty,
            t.revision == 0,
            !t.contains_artwork,
    {
        proof {
            vstd::arithmetic::mul::lemma_mul_nonnegative(size as int, size as int);
        }
        let len = (size * size * 4) as usize;
        let mut pixels: Vec<u8> = Vec::new();
        let mut i: usize = 0;
        while i < len
            invariant
                i <= len,
                pixels@.len() == i,
                forall|k: int| 0 <= k < i ==> pixels@[k] == 0,
            decreases len - i,
        {
            pixels.push(0);
            i = i + 1;
        }
        Tile {
            pixels,
            preview_dirty: false,
            recovery_dirty: false,
            revision: 0,
            contains_artwork: false,
        }
    }
}

/// The value of `tile_size as i32`: sizes above `i32::MAX` wrap to negative.
pub open spec fn signed_size(tile_size: u32) -> int {
    if tile_size <= i32::MAX {
        tile_size as int
    } else {
        tile_size - 0x1_0000_0000
    }
}

pub open spec fn abs(v: int) -> int {
    if v < 0 {
        -v
    } else {
        v
    }
}

/// `q` is the Euclidean quotient of `x` by `s`, as `div_euclid` computes it:
/// the remainder `x - q * s` lies in `0..|s|`.
pub open spec fn euclid_quotient(x: int, s: int, q: int) -> bool {
    0 <= x - q * s < abs(s)
}

/// The tile that holds desktop pixel `(x, y)` and the pixel's place in it: the
/// Euclidean quotient and remainder of each coordinate by the tile size (the
/// local position keeping the low 16 bits of the remainder).
pub fn desktop_pixel_to_tile(x: i32, y: i32, tile_size: u32) -> (r: (TileCoordinate, TileLocalPixel))
    requires
        tile_size != 0,
        tile_size == u32::MAX ==> x != i32::MIN && y != i32::MIN,
    ensures
        euclid_quotient(x as int, signed_size(tile_size), r.0.x as int),
        r.1.x == (x - r.0.x * signed_size(tile_size)) % 0x10000,
        euclid_quotient(y as int, signed_size(tile_size), r.0.y as int),
        r.1.y == (y - r.0.y * signed_size(tile_size)) % 0x10000,
{
    let (tx, lx) = euclid_split(x, tile_size);
    let (ty, ly) = euclid_split(y, tile_size);
    (TileCoordinate { x: tx, y: ty }, TileLocalPixel { x: lx, y: ly })
}

fn euclid_split(x: i32, tile_size: u32) -> (r: (i32, u16))
    requires
        tile_size != 0,
        tile_size == u32::MAX ==> x != i32::MIN,
    ensures
        euclid_quotient(x as int, signed_size(tile_size), r.0 as int),
        r.1 == (x - r.0 * signed_size(tile_size)) % 0x10000,
{
    let s: i64 = if tile_size <= 0x7fff_ffff {
        tile_size as i64
    } else {
        tile_size as i64 - 0x1_0000_0000
    };
    let a: u64 = if s < 0 {
        (0 - s) as u64
    } else {
        s as u64
    };
    assert(a == abs(s as int));
    assert(1 <= a <= 0x8000_0000);
    let ux: u64 = if x >= 0 {
        x as u64
    } else {
        (0 - (x as i64)) as u64
    };
    let q0 = ux / a;
    let r0 = ux % a;
    proof {
        vstd::arithmetic::div_mod::lemma_fundamental_div_mod(ux as int, a as int);
        vstd::arithmetic::div_mod::lemma_div_nonincreasing(ux as int, a as int);
        assert(ux <= 0x8000_0000u64);
    }
    let (qabs, rem): (u64, u64) = if x >= 0 || r0 == 0 {
        (q0, r0)
    } else {
        (q0 + 1, a - r0)
    };
    proof {
        if a >= 2 {
            assert(2 * q0 <= ux) by(nonlinear_arith)
                requires a >= 2, (a as int) * (q0 as int) + r0 == ux as int, r0 >= 0, q0 >= 0;
        } else {
            assert(a == 1);
            assert(r0 == 0);
            assert(q0 == ux) by(nonlinear_arith)
                requires a == 1, (a as int) * (q0 as int) + r0 == ux as int, r0 == 0;
        }
    }
    assert(qabs <= 0x8000_0000u64);
    let q: i64 = if (x >= 0) == (s > 0) {
        qabs as i64
    } else {
        0 - (qabs as i64)
    };
    proof {
        assert(ux as int == (a as int) * (q0 as int) + r0);
        if x >= 0 {
            assert(x as int == qabs * a + rem) by(nonlinear_arith)
                requires ux as int == (a as int) * (q0 as int) + r0, qabs == q0, rem == r0, x as int == ux as int;
        } else if r0 == 0 {
            assert(x as int == -(qabs * a)) by(nonlinear_arith)
                requires ux as int == (a as int) * (q0 as int) + r0, qabs == q0, r0 == 0, x as int == -(ux as int);
        } else {
            assert(x as int == -(qabs * a) + rem) by(nonlinear_arith)
                requires ux as int == (a as int) * (q0 as int) + r0, qabs == q0 + 1, rem == a - r0, x as int == -(ux as int);
        }
        if s > 0 {
            assert((q as int) * (s as int) == (if x >= 0 { qabs * a } else { -(qabs * a) })) by(nonlinear_arith)
                requires s as int == a as int, q as int == (if x >= 0 { qabs as int } else { -(qabs as int) });
        } else {
            assert((q as int) * (s as int) == (if x >= 0 { qabs * a } else { -(qabs * a) })) by(nonlinear_arith)
                requires s as int == -(a as int), q as int == (if x >= 0 { -(qabs as int) } else { qabs as int });
        }
        assert(x as int - (q as int) * signed_size(tile_size) == rem as int);
    }
    assert(i32::MIN <= q <= i32::MAX);
    let qi = q as i32;
    let low = (rem % 0x10000) as u16;

    (qi, low)
}


/// The tiles of the canvas, each allocated on first touch. No coordinate
/// occurs twice.
#[derive(Debug, Clone, PartialEq)]
pub struct SparseTileStore {
    pub tile_size: u32,
    pub tiles: Vec<(TileCoordinate, Tile)>,
}

/// The number of bytes in a tile of the given size.
pub open spec fn tile_bytes(tile_size: u32) -> int {
    tile_size * tile_size * 4
}

/// The tile that holds desktop pixel `(x, y)` for a positive tile size.
pub open spec fn pixel_tile(x: int, y: int, tile_size: int) -> TileCoordinate {
    TileCoordinate { x: (x / tile_size) as i32, y: (y / tile_size) as i32 }
}

/// Where the RGBA bytes of desktop pixel `(x, y)` start inside its tile.
pub open spec fn pixel_offset(x: int, y: int, tile_size: int) -> int {
    ((y % tile_size) * tile_size + (x % tile_size)) * 4
}

/// The tile after a pixel at `idx` was blended to `px`: the four bytes
/// replaced, both dirty flags set, the revision advanced and the artwork flag
/// set once the written alpha is non-zero.
pub open spec fn pixel_written(before: Tile, after: Tile, idx: int, px: [u8; 4]) -> bool {
    &&& after.pixels@ == before.pixels@.update(idx, px[0]).update(idx + 1, px[1]).update(idx + 2, px[2]).update(idx + 3, px[3])
    &&& after.preview_dirty
    &&& after.recovery_dirty
    &&& after.revision == before.revision + 1
    &&& after.contains_artwork == (before.contains_artwork || px[3] != 0)
}

/// A blank tile after one pixel at `idx` was written with `px`.
pub open spec fn blank_written(after: Tile, tile_size: u32, idx: int, px: [u8; 4]) -> bool {
    &&& after.pixels@ == Seq::new(tile_bytes(tile_size) as nat, |i: int| 0u8).update(idx, px[0]).update(idx + 1, px[1]).update(idx + 2, px[2]).update(idx + 3, px[3])
    &&& after.preview_dirty
    &&& after.recovery_dirty
    &&& after.revision == 1
    &&& after.contains_artwork == (px[3] != 0)
}

/// A tile as [`Tile::blank`] makes it.
pub open spec fn is_blank(t: Tile, tile_size: u32) -> bool {
    &&& t.pixels@.len() == tile_bytes(tile_size)
    &&& forall|i: int| 0 <= i < t.pixels@.len() ==> t.pixels@[i] == 0
    &&& !t.preview_dirty
    &&& !t.recovery_dirty
    &&& t.revision == 0
    &&& !t.contains_artwork
}

impl SparseTileStore {
    /// A store is well formed when its tile size is positive and its tiles
    /// fit in `u32` byte counts, no coordinate occurs twice and every tile
    /// has the size of the store.
    pub open spec fn wf(&self) -> bool {
        &&& 1 <= self.tile_size
        &&& tile_bytes(self.tile_size) <= u32::MAX
        &&& forall|i: int, j: int|
            0 <= i < j < self.tiles@.len() ==> #[trigger] self.tiles@[i].0 != #[trigger] self.tiles@[j].0
        &&& forall|i: int|
            0 <= i < self.tiles@.len() ==> #[trigger] self.tiles@[i].1.pixels@.len() == tile_bytes(self.tile_size)
    }

    /// The position of the tile at `c`, if it was allocated.
    pub open spec fn index_of(&self, c: TileCoordinate) -> Option<int> {
        if exists|i: int| 0 <= i < self.tiles@.len() && #[trigger] self.tiles@[i].0 == c {
            Some(choose|i: int| 0 <= i < self.tiles@.len() && #[trigger] self.tiles@[i].0 == c)
        } else {
            None
        }
    }

    fn find(&self, c: TileCoordinate) -> (r: Option<usize>)
        requires
            self.wf(),
        ensures
            match r {
                Some(i) => self.index_of(c) == Some(i as int),
                None => self.index_of(c) is None,
            },
    {
        let mut i: usize = 0;
        while i < self.tiles.len()
            invariant
                self.wf(),
                i <= self.tiles@.len(),
                forall|k: int| 0 <= k < i ==> #[trigger] self.tiles@[k].0 != c,
            decreases self.tiles@.len() - i,
        {
            if self.tiles[i].0 == c {
                proof {
                    let j = choose|j: int| 0 <= j < self.tiles@.len() && #[trigger] self.tiles@[j].0 == c;
                    if j != i {
                        if j < i {
                            assert(self.tiles@[j].0 != self.tiles@[i as int].0);
                        } else {
                            assert(self.tiles@[i as int].0 != self.tiles@[j].0);
                        }
                    }
                }
                return Some(i);
            }
            i = i + 1;
        }
        None
    }

    /// The tile at `coord`, allocated blank if it was not there yet.
    pub fn get_or_allocate(&mut self, coord: TileCoordinate) -> (t: &mut Tile)
        requires
            old(self).wf(),
        ensures
            final(self).tile_size == old(self).tile_size,
            old(self).index_of(coord) matches Some(i) ==> *t == old(self).tiles@[i].1 && final(self).tiles@
                == old(self).tiles@.update(i, (coord, *final(t))),
            old(self).index_of(coord) is None ==> is_blank(*t, old(self).tile_size) && final(self).tiles@
                == old(self).tiles@.push((coord, *final(t))),
    {
        let i = match self.find(coord) {
            Some(i) => i,
            None => {
                let blank = Tile::blank(self.tile_size);
                self.tiles.push((coord, blank));
                self.tiles.len() - 1
            },
        };
        &mut self.tiles[i].1
    }

    /// How many tiles have been allocated.
    pub fn touched_tile_count(&self) -> (n: usize)
        ensures
            n == self.tiles@.len(),
    {
        self.tiles.len()
    }

    /// Blends `rgba` into desktop pixel `(x, y)` with `blend` (called with the
    /// pixel's current RGBA bytes and `rgba`), allocating its tile on first
    /// touch, marking the tile dirty and advancing its revision.
    pub fn put_pixel<F: Fn([u8; 4], [u8; 4]) -> [u8; 4]>(&mut self, x: i32, y: i32, rgba: [u8; 4], blend: F)
        requires
            old(self).wf(),
            forall|d: [u8; 4], c: [u8; 4]| #[trigger] blend.requires((d, c)),
            old(self).index_of(pixel_tile(x as int, y as int, old(self).tile_size as int)) matches Some(i)
                ==> old(self).tiles@[i].1.revision < u64::MAX,
        ensures
            final(self).wf(),
            final(self).tile_size == old(self).tile_size,
            ({
                let c = pixel_tile(x as int, y as int, old(self).tile_size as int);
                let idx = pixel_offset(x as int, y as int, old(self).tile_size as int);
                let j = match old(self).index_of(c) {
                    Some(i) => i,
                    None => old(self).tiles@.len() as int,
                };
                &&& final(self).tiles@.len() == (if old(self).index_of(c) is Some {
                    old(self).tiles@.len() as int
                } else {
                    old(self).tiles@.len() as int + 1
                })
                &&& final(self).tiles@[j].0 == c
                &&& forall|k: int| 0 <= k < old(self).tiles@.len() && k != j ==> #[trigger] final(self).tiles@[k] == old(self).tiles@[k]
                &&& exists|dst: [u8; 4], px: [u8; 4]| {
                    &&& #[trigger] blend.ensures((dst, rgba), px)
                    &&& match old(self).index_of(c) {
                        Some(i) => dst@ == old(self).tiles@[i].1.pixels@.subrange(idx, idx + 4)
                            && pixel_written(old(self).tiles@[i].1, final(self).tiles@[j].1, idx, px),
                        None => dst@ == seq![0u8, 0u8, 0u8, 0u8] && blank_written(
                            final(self).tiles@[j].1,
                            old(self).tile_size,
                            idx,
                            px,
                        ),
                    }
                }
            }),
    {
        let size = self.tile_size;
        proof {
            assert(size <= 32767) by(nonlinear_arith)
                requires size * size * 4 <= u32::MAX, size >= 1;
        }
        let (tc, lp) = desktop_pixel_to_tile(x, y, size);
        proof {
            let rx = x as int - tc.x * (size as int);
            let ry = y as int - tc.y * (size as int);
            vstd::arithmetic::div_mod::lemma_fundamental_div_mod_converse(x as int, size as int, tc.x as int, rx);
            vstd::arithmetic::div_mod::lemma_fundamental_div_mod_converse(y as int, size as int, tc.y as int, ry);
            assert(tc == pixel_tile(x as int, y as int, size as int));
            assert(lp.x as int == (x as int) % (size as int));
            assert(lp.y as int == (y as int) % (size as int));
        }
        let ghost old_self = *self;
        let ghost found = old_self.index_of(tc);
        let tile = self.get_or_allocate(tc);
        let ghost before = *tile;
        proof {
            assert(before.pixels@.len() == tile_bytes(size));
            assert((lp.y as int * size + lp.x as int) * 4 + 4 <= tile_bytes(size)) by(nonlinear_arith)
                requires lp.x < size, lp.y < size, tile_bytes(size) == size * size * 4;
        }
        let idx = ((lp.y as u32 * size + lp.x as u32) * 4) as usize;
        let dst: [u8; 4] = [tile.pixels[idx], tile.pixels[idx + 1], tile.pixels[idx + 2], tile.pixels[idx + 3]];
        let px = blend(dst, rgba);
        tile.pixels.set(idx, px[0]);
        tile.pixels.set(idx + 1, px[1]);
        tile.pixels.set(idx + 2, px[2]);
        tile.pixels.set(idx + 3, px[3]);
        tile.preview_dirty = true;
        tile.recovery_dirty = true;
        tile.revision = tile.revision + 1;
        if px[3] != 0 {
            tile.contains_artwork = true;
        }
        proof {
            assert(dst@ =~= before.pixels@.subrange(idx as int, idx + 4));
            assert(pixel_written(before, *tile, idx as int, px));
            if found is None {
                assert(before.pixels@ =~= Seq::new(tile_bytes(size) as nat, |i: int| 0u8));
                assert(dst@ =~= seq![0u8, 0u8, 0u8, 0u8]);
            }
        }
    }

    /// How many allocated tiles hold artwork.
    pub fn artwork_tile_count(&self) -> (n: usize)
        ensures
            n == artwork_count(self.tiles@),
    {
        let mut n: usize = 0;
        let mut i: usize = 0;
        while i < self.tiles.len()
            invariant
                i <= self.tiles@.len(),
                n == artwork_count(self.tiles@.subrange(0, i as int)),
                n <= i,
            decreases self.tiles@.len() - i,
        {
            assert(self.tiles@.subrange(0, i + 1).drop_last() =~= self.tiles@.subrange(0, i as int));
            if self.tiles[i].1.contains_artwork {
                n = n + 1;
            }
            i = i + 1;
        }
        assert(self.tiles@.subrange(0, i as int) =~= self.tiles@);
        n
    }
}

/// How many of the tiles hold artwork.
pub open spec fn artwork_count(tiles: Seq<(TileCoordinate, Tile)>) -> nat
    decreases tiles.len(),
{
    if tiles.len() == 0 {
        0
    } else {
        artwork_count(tiles.drop_last()) + if tiles.last().1.contains_artwork {
            1nat
        } else {
            0nat
        }
    }
}

impl Default for SparseTileStore {
    fn default() -> (s: Self)
        ensures
            s.tile_size == DEFAULT_TILE_SIZE,
            s.tiles@.len() == 0,
            s.wf(),
    {
        SparseTileStore { tile_size: DEFAULT_TILE_SIZE, tiles: Vec::new() }
    }
}

} // verus!
