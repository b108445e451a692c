use vstd::prelude::*;
use rand::rngs::StdRng;
use crate::rng::{chance, range_i32, range_incl_i32, range_usize};
use crate::world::{GameMap, TileKind, MAP_W, MAP_H};
use crate::world::tile::spec_tile_from_u8;
use crate::world::pos::{abs_i32, abs_int};
use super::helpers::{
    in_square,    lemma_grass_changed_keeps, lemma_lake_water_kept, row_water_kept, water_kept,
    changed_to, compound_at, draw_path, grass_changed_to, lemma_compound_kept, lemma_compound_same_tiles,
    lemma_compound_untouched, lemma_changed_more, lemma_changed_trans, lemma_lake_changed,
    lemma_path_changed, lemma_plus_done, lemma_plus_step, lemma_walled_changed, place_lake, place_walled_area,
    plus_turned, plus_turned_upto, same_tiles,
};
use super::{lemma_same_tiles, center_is_road, clamp_i32, fill, framed, grass_to, wall_border};

verus! {

/// The odds and ranges the world generator draws with: `(lo, hi)` is the
/// half-open range `lo..hi`, odds `(num, den)` come up with probability
/// `num / den`, and a drift or spread `d` is drawn from `-d..=d`.
pub struct WorldDraws {
    pub river_start: (i32, i32),
    pub river_drift: (u32, u32),
    pub drift_step: i32,
    pub lake: (u32, u32),
    pub lake_quadrants: usize,
    pub lake_east: (i32, i32),
    pub lake_north: (i32, i32),
    pub lake_south: (i32, i32),
    pub lake_river_gap: i32,
    pub lake_west_end: i32,
    pub lake_radius: (i32, i32),
    pub outposts: (usize, usize),
    pub outpost_x: (i32, i32),
    pub outpost_y: (i32, i32),
    pub outpost_radius: (i32, i32),
    pub forests: (usize, usize),
    pub forest_x: (i32, i32),
    pub forest_y: (i32, i32),
    pub forest_density: (usize, usize),
    pub forest_spread: (i32, i32),
    pub sand_x: (i32, i32),
    pub sand_y: (i32, i32),
    pub sand_radius: (i32, i32),
    pub ice: (usize, usize),
    pub ice_x: (i32, i32),
    pub ice_y: (i32, i32),
    pub ice_radius: (i32, i32),
    pub ruins: (usize, usize),
    pub ruin_x: (i32, i32),
    pub ruin_y: (i32, i32),
    pub ruin_floor: (u32, u32),
    pub ruin_wall: (u32, u32),
    pub brambles: (usize, usize),
    pub bramble_x: (i32, i32),
    pub bramble_y: (i32, i32),
    pub bramble: (u32, u32),
}

/// The world generator's odds and ranges.
pub open spec fn world_draws_spec() -> WorldDraws {
    WorldDraws {
        river_start: (13, 26),
        river_drift: (7, 20),
        drift_step: 1,
        lake: (13, 20),
        lake_quadrants: 4,
        lake_east: (52, 72),
        lake_north: (3, 19),
        lake_south: (31, 42),
        lake_river_gap: 4,
        lake_west_end: 32,
        lake_radius: (3, 6),
        outposts: (2, 5),
        outpost_x: (5, 70),
        outpost_y: (5, 40),
        outpost_radius: (2, 4),
        forests: (12, 20),
        forest_x: (2, 78),
        forest_y: (2, 48),
        forest_density: (4, 16),
        forest_spread: (-6i32, 7i32),
        sand_x: (2, 78),
        sand_y: (2, 48),
        sand_radius: (1, 4),
        ice: (2, 5),
        ice_x: (3, 77),
        ice_y: (3, 47),
        ice_radius: (1, 3),
        ruins: (3, 7),
        ruin_x: (4, 76),
        ruin_y: (4, 46),
        ruin_floor: (1, 2),
        ruin_wall: (9, 20),
        brambles: (6, 12),
        bramble_x: (2, 78),
        bramble_y: (2, 48),
        bramble: (1, 2),
    }
}

/// The world generator's odds and ranges (see `world_draws_spec`).
pub fn world_draws() -> (r: WorldDraws)
    ensures
        r == world_draws_spec(),
{
    WorldDraws {
        river_start: (13, 26),
        river_drift: (7, 20),
        drift_step: 1,
        lake: (13, 20),
        lake_quadrants: 4,
        lake_east: (52, 72),
        lake_north: (3, 19),
        lake_south: (31, 42),
        lake_river_gap: 4,
        lake_west_end: 32,
        lake_radius: (3, 6),
        outposts: (2, 5),
        outpost_x: (5, 70),
        outpost_y: (5, 40),
        outpost_radius: (2, 4),
        forests: (12, 20),
        forest_x: (2, 78),
        forest_y: (2, 48),
        forest_density: (4, 16),
        forest_spread: (-6, 7),
        sand_x: (2, 78),
        sand_y: (2, 48),
        sand_radius: (1, 4),
        ice: (2, 5),
        ice_x: (3, 77),
        ice_y: (3, 47),
        ice_radius: (1, 3),
        ruins: (3, 7),
        ruin_x: (4, 76),
        ruin_y: (4, 46),
        ruin_floor: (1, 2),
        ruin_wall: (9, 20),
        brambles: (6, 12),
        bramble_x: (2, 78),
        bramble_y: (2, 48),
        bramble: (1, 2),
    }
}

pub open spec fn world_ok(m: GameMap) -> bool {
    framed(m, MAP_W as int, MAP_H as int) && center_is_road(m)
}

/// A grass map with walled borders.
pub(crate) fn walled_grass(w: i32, h: i32) -> (r: GameMap)
    requires
        2 <= w <= 4096,
        2 <= h <= 4096,
    ensures
        framed(r, w as int, h as int),
        forall|x: int, y: int| r.in_bounds(x, y) && !r.is_border(x, y) ==> #[trigger] r.tile_at(x, y) == 0,
{
    assert(w * h <= 4096 * 4096) by (nonlinear_arith)
        requires 2 <= w <= 4096, 2 <= h <= 4096;
    let mut map = GameMap::new(w, h);
    fill(&mut map, TileKind::Grass);
    wall_border(&mut map);
    map
}

/// The river of the world as `cols` gives its column on each row: it starts
/// at a column in 13..26 on row 1, is two tiles of water wide on every row
/// from 1 to 48, drifts at most one column from a row to the next, and
/// `bridge_rx` is its column on the center row.
pub open spec fn river_laid(m: GameMap, cols: Seq<int>, bridge_rx: int) -> bool {
    &&& cols.len() == MAP_H
    &&& 13 <= cols[1] < 26
    &&& bridge_rx == cols[MAP_H / 2]
    &&& forall|y: int| 1 <= y < MAP_H - 1 ==> {
        &&& 3 <= #[trigger] cols[y] <= MAP_W - 5
        &&& m.tile_at(cols[y], y) == TileKind::Water.spec_to_u8()
        &&& m.tile_at(cols[y] + 1, y) == TileKind::Water.spec_to_u8()
    }
    &&& forall|y: int| 1 <= y < MAP_H - 2 ==> abs_int(#[trigger] cols[y + 1] - cols[y]) <= 1
}

/// The winding two-wide river with sandy banks (see `river_laid`); gives the
/// river's column on the center row, where the bridge goes. Only water and
/// sand are laid.
#[verifier::loop_isolation(false)]
fn world_river(map: &mut GameMap, rng: &mut StdRng) -> (bridge_rx: i32)
    requires
        framed(*old(map), MAP_W as int, MAP_H as int),
    ensures
        framed(*final(map), MAP_W as int, MAP_H as int),
        final(map).name == old(map).name,
        3 <= bridge_rx <= MAP_W - 5,
        changed_to(*old(map), *final(map), set![TileKind::Water.spec_to_u8(), TileKind::Sand.spec_to_u8()]),
        exists|cols: Seq<int>| #[trigger] river_laid(*final(map), cols, bridge_rx as int),
{
    let t = world_draws();
    let start_x = range_i32(rng, t.river_start.0, t.river_start.1);
    let mut rx: i32 = start_x;
    let cy: i32 = MAP_H / 2;
    let ghost name = map.name;
    let ghost m0 = *map;
    let ghost mut cols: Seq<int> = Seq::new(MAP_H as nat, |j: int| start_x as int);
    let mut bridge_rx: i32 = 3;
    let mut y: i32 = 1;
    while y < MAP_H - 1
        invariant
            1 <= y <= MAP_H - 1,
            3 <= rx <= MAP_W - 5,
            3 <= bridge_rx <= MAP_W - 5,
            framed(*map, MAP_W as int, MAP_H as int),
            map.name == name,
            changed_to(m0, *map, set![TileKind::Water.spec_to_u8(), TileKind::Sand.spec_to_u8()]),
            cols.len() == MAP_H,
            13 <= start_x < 26,
            cols[1] == start_x,
            y == 1 ==> rx == start_x,
            y > 1 ==> abs_int(rx - cols[y - 1]) <= 1,
            y > cy ==> bridge_rx == cols[cy as int],
            forall|y2: int| 1 <= y2 < y ==> {
                &&& 3 <= #[trigger] cols[y2] <= MAP_W - 5
                &&& map.tile_at(cols[y2], y2) == TileKind::Water.spec_to_u8()
                &&& map.tile_at(cols[y2] + 1, y2) == TileKind::Water.spec_to_u8()
            },
            forall|y2: int| 1 <= y2 < y - 1 ==> abs_int(#[trigger] cols[y2 + 1] - cols[y2]) <= 1,
        decreases MAP_H - 1 - y,
    {
        if y == cy {
            bridge_rx = rx;
        }
        map.set(rx, y, TileKind::Water);
        map.set(rx + 1, y, TileKind::Water);
        grass_to(map, rx - 1, y, TileKind::Sand);
        grass_to(map, rx + 2, y, TileKind::Sand);
        proof {
            cols = cols.update(y as int, rx as int);
        }
        if chance(rng, t.river_drift.0, t.river_drift.1) {
            let d = range_incl_i32(rng, -t.drift_step, t.drift_step);
            rx = clamp_i32(rx + d, 3, MAP_W - 5);
        }
        y += 1;
    }
    assert(river_laid(*map, cols, bridge_rx as int));
    bridge_rx
}

/// Where the world's lake may have its center: east of the town, or west of
/// it between the bridge and the town; north or south of the center row.
pub open spec fn lake_spot(bridge_rx: int, x: int, y: int) -> bool {
    let cx = MAP_W / 2;
    let cy = MAP_H / 2;
    &&& (cx + 12 <= x < MAP_W - 8 || bridge_rx + 4 <= x < cx - 8)
    &&& (3 <= y < cy - 6 || cy + 6 <= y < MAP_H - 8)
}

/// With odds 13 in 20, a lake in one of the four quadrants around the town.
/// A western quadrant needs room between the bridge and the town; where the
/// river runs too close to the town for that, no lake is placed. Either the
/// tiles are unchanged, or a lake's center lies in one of the quadrants and
/// is water; only water and sandy shores are laid.
#[verifier::loop_isolation(false)]
fn world_lake(map: &mut GameMap, rng: &mut StdRng, bridge_rx: i32)
    requires
        framed(*old(map), MAP_W as int, MAP_H as int),
        3 <= bridge_rx <= MAP_W - 5,
    ensures
        framed(*final(map), MAP_W as int, MAP_H as int),
        final(map).name == old(map).name,
        changed_to(*old(map), *final(map), set![TileKind::Water.spec_to_u8(), TileKind::Sand.spec_to_u8()]),
        water_kept(*old(map), *final(map)),
        same_tiles(*old(map), *final(map)) || exists|x: int, y: int|
            #[trigger] lake_spot(bridge_rx as int, x, y) && final(map).tile_at(x, y) == TileKind::Water.spec_to_u8(),
{
    let cx: i32 = MAP_W / 2;
    let cy: i32 = MAP_H / 2;
    let t = world_draws();
    if chance(rng, t.lake.0, t.lake.1) {
        let quadrant = range_usize(rng, 0, t.lake_quadrants);
        let west_ok = bridge_rx + t.lake_river_gap < t.lake_west_end;
        let (lx, ly): (i32, i32) = if quadrant == 0 {
            let a = range_i32(rng, t.lake_east.0, t.lake_east.1);
            let b = range_i32(rng, t.lake_north.0, t.lake_north.1);
            (a, b)
        } else if quadrant == 1 {
            let a = range_i32(rng, t.lake_east.0, t.lake_east.1);
            let b = range_i32(rng, t.lake_south.0, t.lake_south.1);
            (a, b)
        } else if !west_ok {
            return;
        } else if quadrant == 2 {
            let a = range_i32(rng, bridge_rx + t.lake_river_gap, t.lake_west_end);
            let b = range_i32(rng, t.lake_south.0, t.lake_south.1);
            (a, b)
        } else {
            let a = range_i32(rng, bridge_rx + t.lake_river_gap, t.lake_west_end);
            let b = range_i32(rng, t.lake_north.0, t.lake_north.1);
            (a, b)
        };
        let lr = range_i32(rng, t.lake_radius.0, t.lake_radius.1);
        let ghost m1 = *map;
        place_lake(map, rng, lx, ly, lr, MAP_W, MAP_H);
        proof {
            lemma_lake_changed(m1, *map, lx as int, ly as int, lr as int, MAP_W as int, MAP_H as int);
            lemma_lake_water_kept(m1, *map, lx as int, ly as int, lr as int, MAP_W as int, MAP_H as int);
            assert(lake_spot(bridge_rx as int, lx as int, ly as int));
        }
    }
}

/// Where the town's roads leave the town, and where the bridge goes.
pub open spec fn roads_laid(before: GameMap, after: GameMap, bridge_rx: int) -> bool {
    let cx = MAP_W / 2;
    let cy = MAP_H / 2;
    &&& forall|y: int| 1 <= y < cy - 7 ==> #[trigger] after.tile_at(cx, y) == TileKind::Road.spec_to_u8()
        || (before.tile_at(cx, y) == TileKind::Water.spec_to_u8() && after.tile_at(cx, y) == TileKind::Water.spec_to_u8())
    &&& forall|y: int| cy + 8 <= y < MAP_H - 1 ==> #[trigger] after.tile_at(cx, y) == TileKind::Road.spec_to_u8()
    &&& forall|x: int| cx + 8 <= x < MAP_W - 1 ==> #[trigger] after.tile_at(x, cy) == TileKind::Road.spec_to_u8()
    &&& forall|x: int| bridge_rx - 1 <= x <= bridge_rx + 3 && 0 < x < MAP_W - 1 ==> #[trigger] after.tile_at(x, cy)
        == TileKind::Road.spec_to_u8()
}

/// The southern rows, which neither the town nor an outpost reaches.
pub open spec fn south_row(y: int) -> bool {
    MAP_H - 7 <= y < MAP_H - 1
}

/// Tile `(x, y)` of `m` is water or road.
pub open spec fn water_or_road(m: GameMap, x: int, y: int) -> bool {
    m.tile_at(x, y) == TileKind::Water.spec_to_u8() || m.tile_at(x, y) == TileKind::Road.spec_to_u8()
}

/// Water of the southern rows of `a` is water or road in `b`.
pub open spec fn south_water_kept(a: GameMap, b: GameMap) -> bool {
    forall|x: int, y: int|
        a.in_bounds(x, y) && south_row(y) && a.tile_at(x, y) == TileKind::Water.spec_to_u8() ==> #[trigger] water_or_road(b, x, y)
}

/// The river's course through `m`, column `cols[y]` on row `y`: it springs
/// as two water tiles on row 1 at a column in 13..26, drifts at most one
/// column from row to row, and on the southern rows its two tiles are still
/// water, or road where the south road crosses it.
pub open spec fn river_course(m: GameMap, cols: Seq<int>) -> bool {
    &&& cols.len() == MAP_H
    &&& 13 <= cols[1] < 26
    &&& m.tile_at(cols[1], 1) == TileKind::Water.spec_to_u8()
    &&& m.tile_at(cols[1] + 1, 1) == TileKind::Water.spec_to_u8()
    &&& forall|y: int| 1 <= y < MAP_H - 2 ==> abs_int(#[trigger] cols[y + 1] - cols[y]) <= 1
    &&& forall|y: int| south_row(y) ==> {
        &&& 3 <= #[trigger] cols[y] <= MAP_W - 5
        &&& water_or_road(m, cols[y], y)
        &&& water_or_road(m, cols[y] + 1, y)
    }
}

/// The central town, the roads leading out of it, and the bridge; the
/// town's walled compound of radius 7 stands whole, the north road is road
/// up to the border but where it meets water, the south and east roads and
/// the bridge are road, and the water of row 1 stays.
#[verifier::loop_isolation(false)]
fn world_town_and_roads(map: &mut GameMap, bridge_rx: i32)
    requires
        framed(*old(map), MAP_W as int, MAP_H as int),
        3 <= bridge_rx <= MAP_W - 5,
    ensures
        world_ok(*final(map)),
        final(map).name == old(map).name,
        compound_at(*final(map), MAP_W / 2, MAP_H / 2, 7),
        roads_laid(*old(map), *final(map), bridge_rx as int),
        row_water_kept(*old(map), *final(map), 1),
        south_water_kept(*old(map), *final(map)),
{
    let cx: i32 = MAP_W / 2;
    let cy: i32 = MAP_H / 2;
    let ghost name = map.name;
    let ghost m0 = *map;
    place_walled_area(map, cx, cy, 7);
    assert(center_is_road(*map));
    // N/S roads from the town's edges to the border
    let mut y: i32 = 1;
    while y < cy - 7
        invariant
            forall|y2: int| 1 <= y2 < y ==> #[trigger] map.tile_at(cx as int, y2) == TileKind::Road.spec_to_u8()
                || (m0.tile_at(cx as int, y2) == TileKind::Water.spec_to_u8() && map.tile_at(cx as int, y2) == TileKind::Water.spec_to_u8()),
            forall|y2: int| y <= y2 < cy - 7 ==> #[trigger] map.tile_at(cx as int, y2) == m0.tile_at(cx as int, y2),
            forall|x2: int| 0 <= x2 < MAP_W ==> #[trigger] map.tile_at(x2, 1) == m0.tile_at(x2, 1) || (x2 == cx
                && m0.tile_at(x2, 1) != TileKind::Water.spec_to_u8()),
            forall|x2: int, y2: int| 0 <= x2 < MAP_W && south_row(y2) ==> #[trigger] map.tile_at(x2, y2) == m0.tile_at(x2, y2)
                || (x2 == cx && map.tile_at(x2, y2) == TileKind::Road.spec_to_u8()),
            1 <= y <= cy - 7,
            world_ok(*map),
            compound_at(*map, cx as int, cy as int, 7),
            map.name == name,
        decreases cy - 7 - y,
    {
        if map.get(cx, y) != TileKind::Water {
            map.set(cx, y, TileKind::Road);
        }
        y += 1;
    }
    let mut y: i32 = cy + 8;
    while y < MAP_H - 1
        invariant
            forall|y2: int| 1 <= y2 < cy - 7 ==> #[trigger] map.tile_at(cx as int, y2) == TileKind::Road.spec_to_u8()
                || (m0.tile_at(cx as int, y2) == TileKind::Water.spec_to_u8() && map.tile_at(cx as int, y2) == TileKind::Water.spec_to_u8()),
            forall|x2: int| 0 <= x2 < MAP_W ==> #[trigger] map.tile_at(x2, 1) == m0.tile_at(x2, 1) || (x2 == cx
                && m0.tile_at(x2, 1) != TileKind::Water.spec_to_u8()),
            forall|x2: int, y2: int| 0 <= x2 < MAP_W && south_row(y2) ==> #[trigger] map.tile_at(x2, y2) == m0.tile_at(x2, y2)
                || (x2 == cx && map.tile_at(x2, y2) == TileKind::Road.spec_to_u8()),
            forall|y2: int| cy + 8 <= y2 < y ==> #[trigger] map.tile_at(cx as int, y2) == TileKind::Road.spec_to_u8(),
            cy + 8 <= y <= MAP_H - 1,
            world_ok(*map),
            compound_at(*map, cx as int, cy as int, 7),
            map.name == name,
        decreases MAP_H - 1 - y,
    {
        map.set(cx, y, TileKind::Road);
        y += 1;
    }
    // W road: town gate to the bridge
    let mut x: i32 = bridge_rx + 3;
    while x < cx - 7
        invariant
            forall|y2: int| 1 <= y2 < cy - 7 ==> #[trigger] map.tile_at(cx as int, y2) == TileKind::Road.spec_to_u8()
                || (m0.tile_at(cx as int, y2) == TileKind::Water.spec_to_u8() && map.tile_at(cx as int, y2) == TileKind::Water.spec_to_u8()),
            forall|x2: int| 0 <= x2 < MAP_W ==> #[trigger] map.tile_at(x2, 1) == m0.tile_at(x2, 1) || (x2 == cx
                && m0.tile_at(x2, 1) != TileKind::Water.spec_to_u8()),
            forall|x2: int, y2: int| 0 <= x2 < MAP_W && south_row(y2) ==> #[trigger] map.tile_at(x2, y2) == m0.tile_at(x2, y2)
                || (x2 == cx && map.tile_at(x2, y2) == TileKind::Road.spec_to_u8()),
            forall|y2: int| cy + 8 <= y2 < MAP_H - 1 ==> #[trigger] map.tile_at(cx as int, y2) == TileKind::Road.spec_to_u8(),
            bridge_rx + 3 <= x,
            x <= cx - 7 || x == bridge_rx + 3,
            world_ok(*map),
            compound_at(*map, cx as int, cy as int, 7),
            map.name == name,
        decreases cx - 7 - x,
    {
        if map.get(x, cy) != TileKind::Water {
            map.set(x, cy, TileKind::Road);
        }
        x += 1;
    }
    // E road: town to the east border
    let mut x: i32 = cx + 8;
    while x < MAP_W - 1
        invariant
            forall|y2: int| 1 <= y2 < cy - 7 ==> #[trigger] map.tile_at(cx as int, y2) == TileKind::Road.spec_to_u8()
                || (m0.tile_at(cx as int, y2) == TileKind::Water.spec_to_u8() && map.tile_at(cx as int, y2) == TileKind::Water.spec_to_u8()),
            forall|x2: int| 0 <= x2 < MAP_W ==> #[trigger] map.tile_at(x2, 1) == m0.tile_at(x2, 1) || (x2 == cx
                && m0.tile_at(x2, 1) != TileKind::Water.spec_to_u8()),
            forall|x2: int, y2: int| 0 <= x2 < MAP_W && south_row(y2) ==> #[trigger] map.tile_at(x2, y2) == m0.tile_at(x2, y2)
                || (x2 == cx && map.tile_at(x2, y2) == TileKind::Road.spec_to_u8()),
            forall|y2: int| cy + 8 <= y2 < MAP_H - 1 ==> #[trigger] map.tile_at(cx as int, y2) == TileKind::Road.spec_to_u8(),
            forall|x2: int| cx + 8 <= x2 < x ==> #[trigger] map.tile_at(x2, cy as int) == TileKind::Road.spec_to_u8(),
            cx + 8 <= x <= MAP_W - 1,
            world_ok(*map),
            compound_at(*map, cx as int, cy as int, 7),
            map.name == name,
        decreases MAP_W - 1 - x,
    {
        map.set(x, cy, TileKind::Road);
        x += 1;
    }
    // bridge over the river
    let mut bx: i32 = bridge_rx - 1;
    while bx <= bridge_rx + 3
        invariant
            forall|y2: int| 1 <= y2 < cy - 7 ==> #[trigger] map.tile_at(cx as int, y2) == TileKind::Road.spec_to_u8()
                || (m0.tile_at(cx as int, y2) == TileKind::Water.spec_to_u8() && map.tile_at(cx as int, y2) == TileKind::Water.spec_to_u8()),
            forall|x2: int| 0 <= x2 < MAP_W ==> #[trigger] map.tile_at(x2, 1) == m0.tile_at(x2, 1) || (x2 == cx
                && m0.tile_at(x2, 1) != TileKind::Water.spec_to_u8()),
            forall|x2: int, y2: int| 0 <= x2 < MAP_W && south_row(y2) ==> #[trigger] map.tile_at(x2, y2) == m0.tile_at(x2, y2)
                || (x2 == cx && map.tile_at(x2, y2) == TileKind::Road.spec_to_u8()),
            forall|y2: int| cy + 8 <= y2 < MAP_H - 1 ==> #[trigger] map.tile_at(cx as int, y2) == TileKind::Road.spec_to_u8(),
            forall|x2: int| cx + 8 <= x2 < MAP_W - 1 ==> #[trigger] map.tile_at(x2, cy as int) == TileKind::Road.spec_to_u8(),
            forall|x2: int| bridge_rx - 1 <= x2 < bx && 0 < x2 < MAP_W - 1 ==> #[trigger] map.tile_at(x2, cy as int)
                == TileKind::Road.spec_to_u8(),
            bridge_rx - 1 <= bx <= bridge_rx + 4,
            world_ok(*map),
            compound_at(*map, cx as int, cy as int, 7),
            map.name == name,
        decreases bridge_rx + 4 - bx,
    {
        if bx > 0 && bx < MAP_W - 1 {
            map.set(bx, cy, TileKind::Road);
        }
        bx += 1;
    }
}

/// Where an outpost of radius `r` may stand: away from the town and the
/// bridge.
pub open spec fn outpost_spot(bridge_rx: int, x: int, y: int, r: int) -> bool {
    &&& 5 <= x < MAP_W - 10
    &&& 5 <= y < MAP_H - 10
    &&& 2 <= r < 4
    &&& (abs_int(x - MAP_W / 2) >= 14 || abs_int(y - MAP_H / 2) >= 14)
    &&& abs_int(x - bridge_rx) >= 4
}

/// Tiles no outpost reaches: row 1, the southern rows, the last three tiles
/// of the north road before the town, and the first three of the south and
/// east roads.
pub open spec fn outpost_safe(x: int, y: int) -> bool {
    let cx = MAP_W / 2;
    let cy = MAP_H / 2;
    ||| y == 1
    ||| south_row(y)
    ||| x == cx && (cy - 10 <= y < cy - 7 || cy + 8 <= y < cy + 11)
    ||| y == cy && cx + 8 <= x < cx + 11
}

/// Tiles of `before` that no outpost reaches and that are not grass are
/// unchanged in `after`.
pub open spec fn safe_tiles_kept(before: GameMap, after: GameMap) -> bool {
    forall|x: int, y: int|
        before.in_bounds(x, y) && outpost_safe(x, y) && spec_tile_from_u8(before.tile_at(x, y)) != TileKind::Grass
            ==> #[trigger] after.tile_at(x, y) == before.tile_at(x, y)
}

/// Two to four small walled outposts away from the town and the bridge, each
/// joined by a dirt path to the nearer main road; at most 60 tries. Only
/// roads, walls and floor are laid; unless every try failed, the last
/// outpost placed stands whole. The town's compound, where it stands, is
/// left alone.
#[verifier::loop_isolation(false)]
fn world_outposts(map: &mut GameMap, rng: &mut StdRng, bridge_rx: i32)
    requires
        world_ok(*old(map)),
        3 <= bridge_rx <= MAP_W - 5,
    ensures
        world_ok(*final(map)),
        final(map).name == old(map).name,
        changed_to(*old(map), *final(map), set![TileKind::Road.spec_to_u8(), TileKind::Wall.spec_to_u8(), TileKind::Floor.spec_to_u8()]),
        compound_at(*old(map), MAP_W / 2, MAP_H / 2, 7) ==> compound_at(*final(map), MAP_W / 2, MAP_H / 2, 7),
        safe_tiles_kept(*old(map), *final(map)),
        same_tiles(*old(map), *final(map)) || exists|x: int, y: int, r: int|
            #[trigger] outpost_spot(bridge_rx as int, x, y, r) && compound_at(*final(map), x, y, r),
{
    let cx: i32 = MAP_W / 2;
    let cy: i32 = MAP_H / 2;
    let ghost name = map.name;
    let ghost m0 = *map;
    let ghost mut wx: int = 0;
    let ghost mut wy: int = 0;
    let ghost mut wr: int = 0;
    let t = world_draws();
    let outpost_target = range_usize(rng, t.outposts.0, t.outposts.1);
    let mut placed: usize = 0;
    let mut attempts: usize = 0;
    while placed < outpost_target && attempts < 60
        invariant
            placed <= attempts <= 60,
            world_ok(*map),
            map.name == name,
            changed_to(m0, *map, set![TileKind::Road.spec_to_u8(), TileKind::Wall.spec_to_u8(), TileKind::Floor.spec_to_u8()]),
            placed == 0 ==> same_tiles(m0, *map),
            compound_at(m0, MAP_W / 2, MAP_H / 2, 7) ==> compound_at(*map, MAP_W / 2, MAP_H / 2, 7),
            placed > 0 ==> outpost_spot(bridge_rx as int, wx, wy, wr) && compound_at(*map, wx, wy, wr),
            safe_tiles_kept(m0, *map),
        decreases 60 - attempts,
    {
        attempts += 1;
        let ox = range_i32(rng, t.outpost_x.0, t.outpost_x.1);
        let oy = range_i32(rng, t.outpost_y.0, t.outpost_y.1);
        let r = range_i32(rng, t.outpost_radius.0, t.outpost_radius.1);
        if abs_i32(ox - cx) < 14 && abs_i32(oy - cy) < 14 {
            continue;
        }
        if abs_i32(ox - bridge_rx) < 4 {
            continue;
        }
        let ghost m1 = *map;
        place_walled_area(map, ox, oy, r);
        let ghost m2 = *map;
        let (tx, ty) = if abs_i32(ox - cx) < abs_i32(oy - cy) {
            (cx, oy)
        } else {
            (ox, cy)
        };
        draw_path(map, ox, oy, tx, ty);
        proof {
            lemma_walled_changed(m1, m2, ox as int, oy as int, r as int);
            lemma_path_changed(m2, *map, ox as int, oy as int, tx as int, ty as int);
            lemma_changed_more(m2, *map, set![TileKind::Road.spec_to_u8()], set![TileKind::Road.spec_to_u8(), TileKind::Wall.spec_to_u8(), TileKind::Floor.spec_to_u8()]);
            lemma_changed_trans(m1, m2, *map, set![TileKind::Road.spec_to_u8(), TileKind::Wall.spec_to_u8(), TileKind::Floor.spec_to_u8()]);
            lemma_changed_trans(m0, m1, *map, set![TileKind::Road.spec_to_u8(), TileKind::Wall.spec_to_u8(), TileKind::Floor.spec_to_u8()]);
            assert(compound_at(m2, ox as int, oy as int, r as int));
            if compound_at(m0, MAP_W / 2, MAP_H / 2, 7) {
                lemma_compound_untouched(m1, m2, MAP_W / 2, MAP_H / 2, 7, ox as int, oy as int, r as int);
                lemma_compound_kept(m2, *map, MAP_W / 2, MAP_H / 2, 7, set![TileKind::Road.spec_to_u8()]);
            }
            lemma_compound_kept(m2, *map, ox as int, oy as int, r as int, set![TileKind::Road.spec_to_u8()]);
            assert forall|x: int, y: int|
                m0.in_bounds(x, y) && outpost_safe(x, y) && spec_tile_from_u8(m0.tile_at(x, y)) != TileKind::Grass
                implies #[trigger] map.tile_at(x, y) == m0.tile_at(x, y) by {
                assert(m1.tile_at(x, y) == m0.tile_at(x, y));
                assert(!in_square(ox as int, oy as int, r as int, x, y));
                assert(m2.tile_at(x, y) == m1.tile_at(x, y));
                assert(map.tile_at(x, y) == m2.tile_at(x, y));
            }
            wx = ox as int;
            wy = oy as int;
            wr = r as int;
            assert(outpost_spot(bridge_rx as int, wx, wy, wr));
        }
        placed += 1;
    }
}

/// Twelve to nineteen forest clumps away from the town: only grass turns,
/// and only into trees.
#[verifier::loop_isolation(false)]
fn world_forests(map: &mut GameMap, rng: &mut StdRng)
    requires
        world_ok(*old(map)),
    ensures
        world_ok(*final(map)),
        final(map).name == old(map).name,
        grass_changed_to(*old(map), *final(map), set![TileKind::Tree.spec_to_u8()]),
{
    let cx: i32 = MAP_W / 2;
    let cy: i32 = MAP_H / 2;
    let ghost name = map.name;
    let ghost m0 = *map;
    let t = world_draws();
    let forest_count = range_usize(rng, t.forests.0, t.forests.1);
    let mut i: usize = 0;
    while i < forest_count
        invariant
            i <= forest_count,
            world_ok(*map),
            grass_changed_to(m0, *map, set![TileKind::Tree.spec_to_u8()]),
            map.name == name,
        decreases forest_count - i,
    {
        i += 1;
        let bx = range_i32(rng, t.forest_x.0, t.forest_x.1);
        let by = range_i32(rng, t.forest_y.0, t.forest_y.1);
        if abs_i32(bx - cx) < 10 && abs_i32(by - cy) < 10 {
            continue;
        }
        let density = range_usize(rng, t.forest_density.0, t.forest_density.1);
        let mut j: usize = 0;
        while j < density
            invariant
                j <= density,
                2 <= bx < MAP_W - 2,
                2 <= by < MAP_H - 2,
                world_ok(*map),
                grass_changed_to(m0, *map, set![TileKind::Tree.spec_to_u8()]),
                map.name == name,
            decreases density - j,
        {
            let tx = bx + range_i32(rng, t.forest_spread.0, t.forest_spread.1);
            let ty = by + range_i32(rng, t.forest_spread.0, t.forest_spread.1);
            if tx > 0 && ty > 0 && tx < MAP_W - 1 && ty < MAP_H - 1 {
                grass_to(map, tx, ty, TileKind::Tree);
            }
            j += 1;
        }
    }
}

/// Eight sand patches: grass turns to sand, and at least one patch has
/// turned the grass of its center and the four tiles around it.
#[verifier::loop_isolation(false)]
fn world_sand(map: &mut GameMap, rng: &mut StdRng)
    requires
        world_ok(*old(map)),
    ensures
        world_ok(*final(map)),
        final(map).name == old(map).name,
        grass_changed_to(*old(map), *final(map), set![TileKind::Sand.spec_to_u8()]),
        exists|x: int, y: int|
            2 <= x < MAP_W - 2 && 2 <= y < MAP_H - 2 && #[trigger] plus_turned(
                *old(map),
                *final(map),
                x,
                y,
                TileKind::Sand,
            ),
{
    let ghost name = map.name;
    let t = world_draws();
    let ghost m0 = *map;
    let ghost mut wx: int = 2;
    let ghost mut wy: int = 2;
    let mut i: usize = 0;
    while i < 8
        invariant
            i <= 8,
            world_ok(*map),
            map.name == name,
            grass_changed_to(m0, *map, set![TileKind::Sand.spec_to_u8()]),
            2 <= wx < MAP_W - 2,
            2 <= wy < MAP_H - 2,
            i > 0 ==> plus_turned(m0, *map, wx, wy, TileKind::Sand),
        decreases 8 - i,
    {
        let sx = range_i32(rng, t.sand_x.0, t.sand_x.1);
        let sy = range_i32(rng, t.sand_y.0, t.sand_y.1);
        let r = range_i32(rng, t.sand_radius.0, t.sand_radius.1);
        let mut dy: i32 = -r;
        while dy <= r
            invariant
                1 <= r < 4,
                2 <= sx < MAP_W - 2,
                2 <= sy < MAP_H - 2,
                -r <= dy <= r + 1,
                world_ok(*map),
                map.name == name,
                grass_changed_to(m0, *map, set![TileKind::Sand.spec_to_u8()]),
                i > 0 ==> plus_turned(m0, *map, wx, wy, TileKind::Sand),
                plus_turned_upto(m0, *map, sx as int, sy as int, TileKind::Sand, sx - r, sy + dy),
            decreases r + 1 - dy,
        {
            let mut dx: i32 = -r;
            while dx <= r
                invariant
                    1 <= r < 4,
                    2 <= sx < MAP_W - 2,
                    2 <= sy < MAP_H - 2,
                    -r <= dy <= r,
                    -r <= dx <= r + 1,
                    world_ok(*map),
                    map.name == name,
                    grass_changed_to(m0, *map, set![TileKind::Sand.spec_to_u8()]),
                    i > 0 ==> plus_turned(m0, *map, wx, wy, TileKind::Sand),
                    plus_turned_upto(m0, *map, sx as int, sy as int, TileKind::Sand, sx + dx, sy + dy),
                decreases r + 1 - dx,
            {
                let ghost mb = *map;
                let x = sx + dx;
                let y = sy + dy;
                if x > 0 && y > 0 && x < MAP_W - 1 && y < MAP_H - 1 {
                    grass_to(map, x, y, TileKind::Sand);
                }
                proof {
                    lemma_plus_step(m0, mb, *map, sx as int, sy as int, TileKind::Sand, sx + dx, sy + dy);
                }
                dx += 1;
            }
            dy += 1;
        }
        proof {
            lemma_plus_done(m0, *map, sx as int, sy as int, TileKind::Sand, sx - r, sy + r + 1);
            wx = sx as int;
            wy = sy as int;
        }
        i += 1;
    }
    assert(plus_turned(m0, *map, wx, wy, TileKind::Sand));
}

/// Two to four small frozen ponds: grass turns to ice, and at least one pond
/// has turned the grass of its center and the four tiles around it.
#[verifier::loop_isolation(false)]
fn world_ice(map: &mut GameMap, rng: &mut StdRng)
    requires
        world_ok(*old(map)),
    ensures
        world_ok(*final(map)),
        final(map).name == old(map).name,
        grass_changed_to(*old(map), *final(map), set![TileKind::Ice.spec_to_u8()]),
        exists|x: int, y: int|
            3 <= x < MAP_W - 3 && 3 <= y < MAP_H - 3 && #[trigger] plus_turned(
                *old(map),
                *final(map),
                x,
                y,
                TileKind::Ice,
            ),
{
    let ghost name = map.name;
    let ghost m0 = *map;
    let ghost mut wx: int = 3;
    let ghost mut wy: int = 3;
    let t = world_draws();
    let count = range_usize(rng, t.ice.0, t.ice.1);
    let mut i: usize = 0;
    while i < count
        invariant
            i <= count,
            2 <= count,
            world_ok(*map),
            map.name == name,
            grass_changed_to(m0, *map, set![TileKind::Ice.spec_to_u8()]),
            3 <= wx < MAP_W - 3,
            3 <= wy < MAP_H - 3,
            i > 0 ==> plus_turned(m0, *map, wx, wy, TileKind::Ice),
        decreases count - i,
    {
        let ix = range_i32(rng, t.ice_x.0, t.ice_x.1);
        let iy = range_i32(rng, t.ice_y.0, t.ice_y.1);
        let ir = range_i32(rng, t.ice_radius.0, t.ice_radius.1);
        let mut dy: i32 = -ir;
        while dy <= ir
            invariant
                1 <= ir < 3,
                3 <= ix < MAP_W - 3,
                3 <= iy < MAP_H - 3,
                -ir <= dy <= ir + 1,
                world_ok(*map),
                map.name == name,
                grass_changed_to(m0, *map, set![TileKind::Ice.spec_to_u8()]),
                i > 0 ==> plus_turned(m0, *map, wx, wy, TileKind::Ice),
                plus_turned_upto(m0, *map, ix as int, iy as int, TileKind::Ice, ix - ir, iy + dy),
            decreases ir + 1 - dy,
        {
            let mut dx: i32 = -ir;
            while dx <= ir
                invariant
                    1 <= ir < 3,
                    3 <= ix < MAP_W - 3,
                    3 <= iy < MAP_H - 3,
                    -ir <= dy <= ir,
                    -ir <= dx <= ir + 1,
                    world_ok(*map),
                    map.name == name,
                    grass_changed_to(m0, *map, set![TileKind::Ice.spec_to_u8()]),
                    i > 0 ==> plus_turned(m0, *map, wx, wy, TileKind::Ice),
                    plus_turned_upto(m0, *map, ix as int, iy as int, TileKind::Ice, ix + dx, iy + dy),
                decreases ir + 1 - dx,
            {
                let x = ix + dx;
                let y = iy + dy;
                assert(0 <= dx * dx <= 9 && 0 <= dy * dy <= 9 && 0 <= ir * ir <= 9) by (nonlinear_arith)
                    requires -3 <= dx <= 3, -3 <= dy <= 3, 1 <= ir <= 3;
                assert((dx == 0 && -1 <= dy <= 1) || (dy == 0 && -1 <= dx <= 1) ==> dx * dx + dy * dy <= ir * ir)
                    by (nonlinear_arith)
                    requires 1 <= ir;
                let ghost mb = *map;
                if x > 0 && y > 0 && x < MAP_W - 1 && y < MAP_H - 1 && dx * dx + dy * dy <= ir * ir {
                    grass_to(map, x, y, TileKind::Ice);
                }
                proof {
                    lemma_plus_step(m0, mb, *map, ix as int, iy as int, TileKind::Ice, ix + dx, iy + dy);
                }
                dx += 1;
            }
            dy += 1;
        }
        proof {
            lemma_plus_done(m0, *map, ix as int, iy as int, TileKind::Ice, ix - ir, iy + ir + 1);
            wx = ix as int;
            wy = iy as int;
        }
        i += 1;
    }
    assert(plus_turned(m0, *map, wx, wy, TileKind::Ice));
}

/// Three to six clusters of ruins with broken walls around them, away from
/// the town: only grass turns, into ruins or wall.
#[verifier::loop_isolation(false)]
fn world_ruins(map: &mut GameMap, rng: &mut StdRng)
    requires
        world_ok(*old(map)),
    ensures
        world_ok(*final(map)),
        final(map).name == old(map).name,
        grass_changed_to(*old(map), *final(map), set![TileKind::Ruins.spec_to_u8(), TileKind::Wall.spec_to_u8()]),
{
    let cx: i32 = MAP_W / 2;
    let cy: i32 = MAP_H / 2;
    let ghost name = map.name;
    let ghost m0 = *map;
    let t = world_draws();
    let count = range_usize(rng, t.ruins.0, t.ruins.1);
    let mut i: usize = 0;
    while i < count
        invariant
            i <= count,
            world_ok(*map),
            grass_changed_to(m0, *map, set![TileKind::Ruins.spec_to_u8(), TileKind::Wall.spec_to_u8()]),
            map.name == name,
        decreases count - i,
    {
        i += 1;
        let rx2 = range_i32(rng, t.ruin_x.0, t.ruin_x.1);
        let ry2 = range_i32(rng, t.ruin_y.0, t.ruin_y.1);
        if abs_i32(rx2 - cx) < 12 && abs_i32(ry2 - cy) < 12 {
            continue;
        }
        let mut dy: i32 = -2;
        while dy <= 2
            invariant
                4 <= rx2 < MAP_W - 4,
                4 <= ry2 < MAP_H - 4,
                -2 <= dy <= 3,
                world_ok(*map),
                grass_changed_to(m0, *map, set![TileKind::Ruins.spec_to_u8(), TileKind::Wall.spec_to_u8()]),
                map.name == name,
            decreases 3 - dy,
        {
            let mut dx: i32 = -2;
            while dx <= 2
                invariant
                    4 <= rx2 < MAP_W - 4,
                    4 <= ry2 < MAP_H - 4,
                    -2 <= dy <= 2,
                    -2 <= dx <= 3,
                    world_ok(*map),
                    grass_changed_to(m0, *map, set![TileKind::Ruins.spec_to_u8(), TileKind::Wall.spec_to_u8()]),
                    map.name == name,
                decreases 3 - dx,
            {
                let x = rx2 + dx;
                let y = ry2 + dy;
                if x > 0 && y > 0 && x < MAP_W - 1 && y < MAP_H - 1 && map.get(x, y) == TileKind::Grass
                    && chance(rng, t.ruin_floor.0, t.ruin_floor.1) {
                    map.set(x, y, TileKind::Ruins);
                }
                dx += 1;
            }
            dy += 1;
        }
        let mut dy: i32 = -3;
        while dy <= 3
            invariant
                4 <= rx2 < MAP_W - 4,
                4 <= ry2 < MAP_H - 4,
                -3 <= dy <= 4,
                world_ok(*map),
                grass_changed_to(m0, *map, set![TileKind::Ruins.spec_to_u8(), TileKind::Wall.spec_to_u8()]),
                map.name == name,
            decreases 4 - dy,
        {
            let mut dx: i32 = -3;
            while dx <= 3
                invariant
                    4 <= rx2 < MAP_W - 4,
                    4 <= ry2 < MAP_H - 4,
                    -3 <= dy <= 3,
                    -3 <= dx <= 4,
                    world_ok(*map),
                    grass_changed_to(m0, *map, set![TileKind::Ruins.spec_to_u8(), TileKind::Wall.spec_to_u8()]),
                    map.name == name,
                decreases 4 - dx,
            {
                let x = rx2 + dx;
                let y = ry2 + dy;
                if x > 0 && y > 0 && x < MAP_W - 1 && y < MAP_H - 1 && (abs_i32(dx) == 3 || abs_i32(dy)
                    == 3) && map.get(x, y) == TileKind::Grass && chance(rng, t.ruin_wall.0, t.ruin_wall.1) {
                    map.set(x, y, TileKind::Wall);
                }
                dx += 1;
            }
            dy += 1;
        }
    }
}

/// Six to eleven bramble patches: only grass turns, and only into
/// brambles.
#[verifier::loop_isolation(false)]
fn world_brambles(map: &mut GameMap, rng: &mut StdRng)
    requires
        world_ok(*old(map)),
    ensures
        world_ok(*final(map)),
        final(map).name == old(map).name,
        grass_changed_to(*old(map), *final(map), set![TileKind::Bramble.spec_to_u8()]),
{
    let ghost name = map.name;
    let ghost m0 = *map;
    let t = world_draws();
    let count = range_usize(rng, t.brambles.0, t.brambles.1);
    let mut i: usize = 0;
    while i < count
        invariant
            i <= count,
            world_ok(*map),
            grass_changed_to(m0, *map, set![TileKind::Bramble.spec_to_u8()]),
            map.name == name,
        decreases count - i,
    {
        let bx = range_i32(rng, t.bramble_x.0, t.bramble_x.1);
        let by = range_i32(rng, t.bramble_y.0, t.bramble_y.1);
        let mut dy: i32 = -2;
        while dy <= 2
            invariant
                2 <= bx < MAP_W - 2,
                2 <= by < MAP_H - 2,
                -2 <= dy <= 3,
                world_ok(*map),
                grass_changed_to(m0, *map, set![TileKind::Bramble.spec_to_u8()]),
                map.name == name,
            decreases 3 - dy,
        {
            let mut dx: i32 = -2;
            while dx <= 2
                invariant
                    2 <= bx < MAP_W - 2,
                    2 <= by < MAP_H - 2,
                    -2 <= dy <= 2,
                    -2 <= dx <= 3,
                    world_ok(*map),
                    grass_changed_to(m0, *map, set![TileKind::Bramble.spec_to_u8()]),
                    map.name == name,
                decreases 3 - dx,
            {
                let x = bx + dx;
                let y = by + dy;
                if x > 0 && y > 0 && x < MAP_W - 1 && y < MAP_H - 1 && map.get(x, y) == TileKind::Grass
                    && chance(rng, t.bramble.0, t.bramble.1) {
                    map.set(x, y, TileKind::Bramble);
                }
                dx += 1;
            }
            dy += 1;
        }
        i += 1;
    }
}

/// What every world map holds: the walled town of radius 7 at the center;
/// a river (see `river_course`) springing on row 1 from a column in 13..26
/// and winding down to the southern rows; the last three tiles of the north road before the town, road or water where
/// the river crosses; and the first three tiles of the south and east roads.
pub open spec fn world_shape(m: GameMap) -> bool {
    let cx = MAP_W / 2;
    let cy = MAP_H / 2;
    &&& compound_at(m, cx, cy, 7)
    &&& exists|cols: Seq<int>| #[trigger] river_course(m, cols)
    &&& forall|y: int| cy - 10 <= y < cy - 7 ==> #[trigger] m.tile_at(cx, y) == TileKind::Road.spec_to_u8()
        || m.tile_at(cx, y) == TileKind::Water.spec_to_u8()
    &&& forall|y: int| cy + 8 <= y < cy + 11 ==> #[trigger] m.tile_at(cx, y) == TileKind::Road.spec_to_u8()
    &&& forall|x: int| cx + 8 <= x < cx + 11 ==> #[trigger] m.tile_at(x, cy) == TileKind::Road.spec_to_u8()
}

/// Changes of grass only keep a world's shape.
pub proof fn lemma_world_shape_kept(a: GameMap, b: GameMap, kinds: Set<u8>)
    requires
        world_ok(a),
        world_shape(a),
        grass_changed_to(a, b, kinds),
        b.width == a.width && b.height == a.height,
    ensures
        world_shape(b),
{
    lemma_compound_kept(a, b, MAP_W / 2, MAP_H / 2, 7, kinds);
    lemma_grass_changed_keeps(a, b, kinds);
    let cols = choose|cols: Seq<int>| #[trigger] river_course(a, cols);
    let x = cols[1];
    assert(a.in_bounds(x, 1) && a.in_bounds(x + 1, 1));
    assert(b.tile_at(x, 1) == TileKind::Water.spec_to_u8());
    assert(b.tile_at(x + 1, 1) == TileKind::Water.spec_to_u8());
    assert forall|y: int| south_row(y) implies {
        &&& 3 <= #[trigger] cols[y] <= MAP_W - 5
        &&& water_or_road(b, cols[y], y)
        &&& water_or_road(b, cols[y] + 1, y)
    } by {
        assert(a.in_bounds(cols[y], y) && a.in_bounds(cols[y] + 1, y));
        assert(water_or_road(a, cols[y], y) && water_or_road(a, cols[y] + 1, y));
    }
    assert(river_course(b, cols));
    assert forall|y: int| MAP_H / 2 - 10 <= y < MAP_H / 2 - 7 implies #[trigger] b.tile_at(MAP_W / 2, y)
        == TileKind::Road.spec_to_u8() || b.tile_at(MAP_W / 2, y) == TileKind::Water.spec_to_u8() by {
        assert(a.in_bounds(MAP_W / 2, y));
        assert(a.tile_at(MAP_W / 2, y) == TileKind::Road.spec_to_u8() || a.tile_at(MAP_W / 2, y) == TileKind::Water.spec_to_u8());
    }
    assert forall|y: int| MAP_H / 2 + 8 <= y < MAP_H / 2 + 11 implies #[trigger] b.tile_at(MAP_W / 2, y)
        == TileKind::Road.spec_to_u8() by {
        assert(a.in_bounds(MAP_W / 2, y));
        assert(a.tile_at(MAP_W / 2, y) == TileKind::Road.spec_to_u8());
    }
    assert forall|x2: int| MAP_W / 2 + 8 <= x2 < MAP_W / 2 + 11 implies #[trigger] b.tile_at(x2, MAP_H / 2)
        == TileKind::Road.spec_to_u8() by {
        assert(a.in_bounds(x2, MAP_H / 2));
        assert(a.tile_at(x2, MAP_H / 2) == TileKind::Road.spec_to_u8());
    }
}

/// A world's shape is in the tiles alone.
pub proof fn lemma_world_shape_same_tiles(a: GameMap, b: GameMap)
    requires
        world_shape(a),
        b.width == a.width && b.height == a.height,
        forall|x: int, y: int| #[trigger] b.tile_at(x, y) == a.tile_at(x, y),
    ensures
        world_shape(b),
{
    lemma_compound_same_tiles(a, b, MAP_W / 2, MAP_H / 2, 7);
    let cols = choose|cols: Seq<int>| #[trigger] river_course(a, cols);
    assert(b.tile_at(cols[1], 1) == a.tile_at(cols[1], 1));
    assert(b.tile_at(cols[1] + 1, 1) == a.tile_at(cols[1] + 1, 1));
    assert forall|y: int| south_row(y) implies {
        &&& 3 <= #[trigger] cols[y] <= MAP_W - 5
        &&& water_or_road(b, cols[y], y)
        &&& water_or_road(b, cols[y] + 1, y)
    } by {
        assert(b.tile_at(cols[y], y) == a.tile_at(cols[y], y));
        assert(b.tile_at(cols[y] + 1, y) == a.tile_at(cols[y] + 1, y));
    }
    assert(river_course(b, cols));
    assert forall|y: int| MAP_H / 2 - 10 <= y < MAP_H / 2 - 7 implies #[trigger] b.tile_at(MAP_W / 2, y)
        == TileKind::Road.spec_to_u8() || b.tile_at(MAP_W / 2, y) == TileKind::Water.spec_to_u8() by {
        assert(b.tile_at(MAP_W / 2, y) == a.tile_at(MAP_W / 2, y));
    }
    assert forall|y: int| MAP_H / 2 + 8 <= y < MAP_H / 2 + 11 implies #[trigger] b.tile_at(MAP_W / 2, y)
        == TileKind::Road.spec_to_u8() by {
        assert(b.tile_at(MAP_W / 2, y) == a.tile_at(MAP_W / 2, y));
    }
    assert forall|x2: int| MAP_W / 2 + 8 <= x2 < MAP_W / 2 + 11 implies #[trigger] b.tile_at(x2, MAP_H / 2)
        == TileKind::Road.spec_to_u8() by {
        assert(b.tile_at(x2, MAP_H / 2) == a.tile_at(x2, MAP_H / 2));
    }
}

/// The multiplayer world: an 80 by 50 map with walled borders, a winding
/// river, perhaps a lake, a central walled town with roads and a bridge,
/// outposts, forests, sand, ice, ruins and brambles, named "Voidlands"
/// (see `world_shape` for what every outcome holds).
pub fn generate(rng: &mut StdRng) -> (r: GameMap)
    ensures
        world_ok(r),
        r.name@ == "Voidlands"@,
        world_shape(r),
{
    let mut map = walled_grass(MAP_W, MAP_H);
    let bridge_rx = world_river(&mut map, rng);
    let ghost mr = map;
    world_lake(&mut map, rng, bridge_rx);
    let ghost ml = map;
    world_town_and_roads(&mut map, bridge_rx);
    let ghost mt = map;
    world_outposts(&mut map, rng, bridge_rx);
    let ghost m1 = map;
    proof {
        let cols = choose|cols: Seq<int>| #[trigger] river_laid(mr, cols, bridge_rx as int);
        let x = cols[1];
        assert(mr.tile_at(x, 1) == TileKind::Water.spec_to_u8() && mr.tile_at(x + 1, 1) == TileKind::Water.spec_to_u8());
        assert(mr.in_bounds(x, 1) && mr.in_bounds(x + 1, 1));
        assert(ml.tile_at(x, 1) == TileKind::Water.spec_to_u8() && ml.tile_at(x + 1, 1) == TileKind::Water.spec_to_u8());
        assert(mt.tile_at(x, 1) == TileKind::Water.spec_to_u8() && mt.tile_at(x + 1, 1) == TileKind::Water.spec_to_u8());
        assert(outpost_safe(x, 1) && outpost_safe(x + 1, 1));
        assert(m1.tile_at(x, 1) == TileKind::Water.spec_to_u8());
        assert(m1.tile_at(x + 1, 1) == TileKind::Water.spec_to_u8());
        assert forall|y: int| south_row(y) implies {
            &&& 3 <= #[trigger] cols[y] <= MAP_W - 5
            &&& water_or_road(m1, cols[y], y)
            &&& water_or_road(m1, cols[y] + 1, y)
        } by {
            assert(1 <= y < MAP_H - 1);
            assert(mr.in_bounds(cols[y], y) && mr.in_bounds(cols[y] + 1, y));
            assert(mr.tile_at(cols[y], y) == TileKind::Water.spec_to_u8() && mr.tile_at(cols[y] + 1, y) == TileKind::Water.spec_to_u8());
            assert(ml.tile_at(cols[y], y) == TileKind::Water.spec_to_u8() && ml.tile_at(cols[y] + 1, y) == TileKind::Water.spec_to_u8());
            assert(water_or_road(mt, cols[y], y) && water_or_road(mt, cols[y] + 1, y));
            assert(outpost_safe(cols[y], y) && outpost_safe(cols[y] + 1, y));
        }
        assert(river_course(m1, cols));
        assert forall|y: int| MAP_H / 2 - 10 <= y < MAP_H / 2 - 7 implies #[trigger] m1.tile_at(MAP_W / 2, y)
            == TileKind::Road.spec_to_u8() || m1.tile_at(MAP_W / 2, y) == TileKind::Water.spec_to_u8() by {
            assert(outpost_safe(MAP_W / 2, y));
            assert(mt.in_bounds(MAP_W / 2, y));
            assert(mt.tile_at(MAP_W / 2, y) == TileKind::Road.spec_to_u8() || mt.tile_at(MAP_W / 2, y) == TileKind::Water.spec_to_u8());
        }
        assert forall|y: int| MAP_H / 2 + 8 <= y < MAP_H / 2 + 11 implies #[trigger] m1.tile_at(MAP_W / 2, y)
            == TileKind::Road.spec_to_u8() by {
            assert(outpost_safe(MAP_W / 2, y));
            assert(mt.in_bounds(MAP_W / 2, y));
            assert(mt.tile_at(MAP_W / 2, y) == TileKind::Road.spec_to_u8());
        }
        assert forall|x2: int| MAP_W / 2 + 8 <= x2 < MAP_W / 2 + 11 implies #[trigger] m1.tile_at(x2, MAP_H / 2)
            == TileKind::Road.spec_to_u8() by {
            assert(outpost_safe(x2, MAP_H / 2));
            assert(mt.in_bounds(x2, MAP_H / 2));
            assert(mt.tile_at(x2, MAP_H / 2) == TileKind::Road.spec_to_u8());
        }
        assert(world_shape(m1));
    }
    world_forests(&mut map, rng);
    proof { lemma_world_shape_kept(m1, map, set![TileKind::Tree.spec_to_u8()]); }
    let ghost m2 = map;
    world_sand(&mut map, rng);
    proof { lemma_world_shape_kept(m2, map, set![TileKind::Sand.spec_to_u8()]); }
    let ghost m3 = map;
    world_ice(&mut map, rng);
    proof { lemma_world_shape_kept(m3, map, set![TileKind::Ice.spec_to_u8()]); }
    let ghost m4 = map;
    world_ruins(&mut map, rng);
    proof { lemma_world_shape_kept(m4, map, set![TileKind::Ruins.spec_to_u8(), TileKind::Wall.spec_to_u8()]); }
    let ghost m5 = map;
    world_brambles(&mut map, rng);
    proof { lemma_world_shape_kept(m5, map, set![TileKind::Bramble.spec_to_u8()]); }
    let ghost before = map;
    map.name = String::from_str("Voidlands");
    proof {
        lemma_same_tiles(before, map);
        lemma_world_shape_same_tiles(before, map);
    }
    map
}

} // verus!
