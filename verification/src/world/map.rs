use vstd::prelude::*;
use super::tile::{TileKind, spec_tile_from_u8};

verus! {

pub const MAP_W: i32 = 80;
pub const MAP_H: i32 = 50;

/// Large single-player map dimensions.
pub const SP_MAP_W: i32 = 256;
pub const SP_MAP_H: i32 = 128;

/// A rectangular tile map, row-major: the tile at `(x, y)` is
/// `tiles[y * width + x]`, stored as its tile number.
#[derive(Debug, Clone)]
pub struct GameMap {
    pub width: i32,
    pub height: i32,
    pub tiles: Vec<u8>,
    pub name: String,
}

/// A map as a value: its tiles as a sequence.
pub struct MapView {
    pub width: i32,
    pub height: i32,
    pub tiles: Seq<u8>,
    pub name: Seq<char>,
}

impl View for GameMap {
    type V = MapView;

    open spec fn view(&self) -> MapView {
        MapView { width: self.width, height: self.height, tiles: self.tiles@, name: self.name@ }
    }
}

impl GameMap {
    /// A copy of the map.
    pub fn duplicate(&self) -> (r: GameMap)
        ensures
            r@ == self@,
            r.wf() == self.wf(),
    {
        let mut tiles: Vec<u8> = Vec::new();
        let mut i: usize = 0;
        while i < self.tiles.len()
            invariant
                i <= self.tiles@.len(),
                tiles@ == self.tiles@.subrange(0, i as int),
            decreases self.tiles.len() - i,
        {
            tiles.push(self.tiles[i]);
            i += 1;
        }
        assert(tiles@ =~= self.tiles@);
        GameMap { width: self.width, height: self.height, tiles, name: self.name.clone() }
    }

    /// Dimensions are non-negative, their product fits in `i32`, and the byte
    /// array holds exactly one byte per tile.
    pub open spec fn wf(self) -> bool {
        &&& 0 <= self.width
        &&& 0 <= self.height
        &&& self.width * self.height <= i32::MAX
        &&& self.tiles@.len() == self.width * self.height
    }

    /// Whether the map is well formed (see `wf`).
    pub fn check_wf(&self) -> (r: bool)
        ensures
            r == self.wf(),
    {
        if self.width < 0 || self.height < 0 {
            return false;
        }
        assert(0 <= self.width * self.height <= i32::MAX * i32::MAX) by (nonlinear_arith)
            requires 0 <= self.width <= i32::MAX, 0 <= self.height <= i32::MAX;
        let prod: i64 = self.width as i64 * self.height as i64;
        prod <= i32::MAX as i64 && self.tiles.len() == prod as usize
    }

    pub open spec fn in_bounds(self, x: int, y: int) -> bool {
        0 <= x < self.width && 0 <= y < self.height
    }

    pub open spec fn is_border(self, x: int, y: int) -> bool {
        x == 0 || y == 0 || x == self.width - 1 || y == self.height - 1
    }

    /// The stored number of the tile at an in-bounds `(x, y)`.
    pub open spec fn tile_at(self, x: int, y: int) -> u8 {
        self.tiles@[y * self.width + x]
    }

    /// What `get` reads: out-of-bounds reads as wall.
    pub open spec fn spec_get(self, x: int, y: int) -> TileKind {
        if self.in_bounds(x, y) {
            spec_tile_from_u8(self.tile_at(x, y))
        } else {
            TileKind::Wall
        }
    }

    pub open spec fn spec_passable(self, x: int, y: int) -> bool {
        self.spec_get(x, y).spec_passable()
    }

    /// Every tile on the outer ring is a wall.
    pub open spec fn border_walled(self) -> bool {
        forall|x: int, y: int|
            self.in_bounds(x, y) && self.is_border(x, y) ==> #[trigger] self.tile_at(x, y)
                == TileKind::Wall.spec_to_u8()
    }

    /// A map of `w` by `h` grass tiles named "World".
    pub fn new(w: i32, h: i32) -> (r: Self)
        requires
            0 <= w,
            0 <= h,
            w * h <= i32::MAX,
        ensures
            r.wf(),
            r.width == w,
            r.height == h,
            r.name@ == "World"@,
            forall|i: int| 0 <= i < r.tiles@.len() ==> r.tiles@[i] == 0,
    {
        assert(0 <= w * h) by (nonlinear_arith)
            requires 0 <= w, 0 <= h;
        let n: usize = (w * h) as usize;
        let tiles: Vec<u8> = vec![0u8; n];
        GameMap { width: w, height: h, tiles, name: String::from_str("World") }
    }

    pub fn in_bounds_exec(&self, x: i32, y: i32) -> (r: bool)
        ensures
            r == self.in_bounds(x as int, y as int),
    {
        x >= 0 && y >= 0 && x < self.width && y < self.height
    }

    pub fn get(&self, x: i32, y: i32) -> (r: TileKind)
        requires
            self.wf(),
        ensures
            r == self.spec_get(x as int, y as int),
    {
        if x < 0 || y < 0 || x >= self.width || y >= self.height {
            return TileKind::Wall;
        }
        proof { lemma_index_in_range(self.width as int, self.height as int, x as int, y as int); }
        TileKind::from_u8(self.tiles[(y * self.width + x) as usize])
    }

    pub fn set(&mut self, x: i32, y: i32, t: TileKind)
        requires
            old(self).wf(),
        ensures
            final(self).wf(),
            final(self).width == old(self).width,
            final(self).height == old(self).height,
            final(self).name == old(self).name,
            old(self).in_bounds(x as int, y as int) ==> final(self).tiles@ == old(self).tiles@.update(
                y * old(self).width + x,
                t.spec_to_u8(),
            ),
            !old(self).in_bounds(x as int, y as int) ==> final(self).tiles@ == old(self).tiles@,
            forall|x2: int, y2: int|
                old(self).in_bounds(x2, y2) ==> #[trigger] final(self).tile_at(x2, y2) == if x2
                    == x && y2 == y {
                    t.spec_to_u8()
                } else {
                    old(self).tile_at(x2, y2)
                },
    {
        if x >= 0 && y >= 0 && x < self.width && y < self.height {
            proof {
                lemma_index_in_range(self.width as int, self.height as int, x as int, y as int);
                assert forall|x2: int, y2: int| old(self).in_bounds(x2, y2) && !(x2 == x && y2 == y)
                    implies y2 * old(self).width + x2 != y * old(self).width + x by {
                    lemma_index_injective(old(self).width as int, x as int, y as int, x2, y2);
                }
                assert forall|x2: int, y2: int| old(self).in_bounds(x2, y2)
                    implies 0 <= y2 * old(self).width + x2 < old(self).tiles@.len() by {
                    lemma_index_in_range(old(self).width as int, old(self).height as int, x2, y2);
                }
            }
            let v = t.to_u8();
            self.tiles.set((y * self.width + x) as usize, v);
        }
    }

    pub fn passable(&self, x: i32, y: i32) -> (r: bool)
        requires
            self.wf(),
        ensures
            r == self.spec_passable(x as int, y as int),
    {
        self.get(x, y).passable()
    }
}

/// An in-bounds coordinate's row-major index lies inside the array.
pub proof fn lemma_index_in_range(w: int, h: int, x: int, y: int)
    requires
        0 <= x < w,
        0 <= y < h,
    ensures
        0 <= y * w + x < w * h,
        y * w + x <= (h - 1) * w + (w - 1),
{
    assert(0 <= y * w + x < w * h) by (nonlinear_arith)
        requires 0 <= x < w, 0 <= y < h;
    assert(y * w + x <= (h - 1) * w + (w - 1)) by (nonlinear_arith)
        requires 0 <= x < w, 0 <= y < h;
}

/// Distinct in-bounds coordinates have distinct row-major indices.
pub proof fn lemma_index_injective(w: int, x: int, y: int, x2: int, y2: int)
    requires
        0 <= x < w,
        0 <= x2 < w,
        !(x == x2 && y == y2),
    ensures
        y2 * w + x2 != y * w + x,
{
    if y == y2 {
    } else if y < y2 {
        assert(y2 * w + x2 >= (y + 1) * w + x2) by (nonlinear_arith)
            requires y < y2, 0 <= w;
        assert((y + 1) * w == y * w + w) by (nonlinear_arith);
    } else {
        assert(y * w + x >= (y2 + 1) * w + x) by (nonlinear_arith)
            requires y2 < y, 0 <= w;
        assert((y2 + 1) * w == y2 * w + w) by (nonlinear_arith);
    }
}

/// Reading a tile back after writing it in bounds gives what was written;
/// every other tile keeps its value.
pub proof fn lemma_get_after_set(before: GameMap, after: GameMap, x: int, y: int, t: TileKind, x2: int, y2: int)
    requires
        before.wf(),
        after.wf(),
        after.width == before.width,
        after.height == before.height,
        forall|x3: int, y3: int|
            before.in_bounds(x3, y3) ==> #[trigger] after.tile_at(x3, y3) == if x3 == x && y3 == y {
                t.spec_to_u8()
            } else {
                before.tile_at(x3, y3)
            },
    ensures
        before.in_bounds(x, y) ==> after.spec_get(x, y) == t,
        !(x2 == x && y2 == y) ==> after.spec_get(x2, y2) == before.spec_get(x2, y2),
{
    if before.in_bounds(x, y) {
        assert(after.tile_at(x, y) == t.spec_to_u8());
    }
    if before.in_bounds(x2, y2) && !(x2 == x && y2 == y) {
        assert(after.tile_at(x2, y2) == before.tile_at(x2, y2));
    }
}

} // verus!
