use vstd::prelude::*;
use rand::rngs::StdRng;
use crate::rng::{chance, range_i32, range_incl_i32, range_usize};
use crate::world::{GameMap, TileKind, SP_MAP_W, SP_MAP_H};
use crate::world::pos::abs_i32;
use crate::world::tile::spec_tile_from_u8;
use super::helpers::{
    lemma_grass_water_kept, lemma_lake_water_kept, lemma_row_water_trans, lemma_water_kept_row, row_water_kept,
    water_kept,
    changed_to, compound_at, draw_path, in_square, lemma_compound_same_tiles, lemma_compound_untouched, walled_area_tile, grass_changed_to, lemma_compound_kept, lemma_grass_changed_trans, lemma_changed_more, lemma_changed_trans, lemma_lake_changed,
    lemma_path_changed, lemma_plus_done, lemma_plus_step, lemma_walled_changed, place_lake, place_walled_area,
    plus_turned, plus_turned_upto,
};
use super::{lemma_same_tiles, center_is_road, clamp_i32, fill, framed, grass_to, wall_border};

verus! {

/// The odds and ranges the large-map generator draws with: `(lo, hi)` is
/// the half-open range `lo..hi`, odds `(num, den)` come up with probability
/// `num / den`, and a drift `d` is drawn from `-d..=d`.
pub struct LargeDraws {
    pub rivers: (usize, usize),
    pub river_jitter: (i32, i32),
    pub river_drift: (u32, u32),
    pub drift_step: i32,
    pub lakes: (usize, usize),
    pub lake_x: (i32, i32),
    pub lake_y: (i32, i32),
    pub lake_radius: (i32, i32),
    pub extra_towns: (usize, usize),
    pub town_x: (i32, i32),
    pub town_y: (i32, i32),
    pub town_radius: (i32, i32),
    pub outposts: (usize, usize),
    pub outpost_x: (i32, i32),
    pub outpost_y: (i32, i32),
    pub outpost_radius: (i32, i32),
    pub forests: (usize, usize),
    pub forest_x: (i32, i32),
    pub forest_y: (i32, i32),
    pub forest_density: (usize, usize),
    pub forest_spread: (i32, i32),
    pub sand_x: (i32, i32),
    pub sand_y: (i32, i32),
    pub sand_radius: (i32, i32),
}

/// The large-map generator's odds and ranges.
pub open spec fn large_draws_spec() -> LargeDraws {
    LargeDraws {
        rivers: (2, 4),
        river_jitter: (-10i32, 10i32),
        river_drift: (3, 10),
        drift_step: 2,
        lakes: (3, 6),
        lake_x: (10, 246),
        lake_y: (8, 120),
        lake_radius: (3, 9),
        extra_towns: (1, 3),
        town_x: (15, 241),
        town_y: (10, 118),
        town_radius: (4, 8),
        outposts: (5, 9),
        outpost_x: (6, 246),
        outpost_y: (6, 118),
        outpost_radius: (2, 5),
        forests: (30, 50),
        forest_x: (3, 253),
        forest_y: (3, 125),
        forest_density: (8, 30),
        forest_spread: (5, 15),
        sand_x: (3, 253),
        sand_y: (3, 125),
        sand_radius: (1, 6),
    }
}

/// The large-map generator's odds and ranges (see `large_draws_spec`).
pub fn large_draws() -> (r: LargeDraws)
    ensures
        r == large_draws_spec(),
{
    LargeDraws {
        rivers: (2, 4),
        river_jitter: (-10, 10),
        river_drift: (3, 10),
        drift_step: 2,
        lakes: (3, 6),
        lake_x: (10, 246),
        lake_y: (8, 120),
        lake_radius: (3, 9),
        extra_towns: (1, 3),
        town_x: (15, 241),
        town_y: (10, 118),
        town_radius: (4, 8),
        outposts: (5, 9),
        outpost_x: (6, 246),
        outpost_y: (6, 118),
        outpost_radius: (2, 5),
        forests: (30, 50),
        forest_x: (3, 253),
        forest_y: (3, 125),
        forest_density: (8, 30),
        forest_spread: (5, 15),
        sand_x: (3, 253),
        sand_y: (3, 125),
        sand_radius: (1, 6),
    }
}

pub open spec fn large_ok(m: GameMap) -> bool {
    framed(m, SP_MAP_W as int, SP_MAP_H as int) && center_is_road(m)
}

/// Town centers of the large map: the central town first; all of them well
/// inside the map.
pub open spec fn towns_ok(towns: Seq<(i32, i32)>) -> bool {
    &&& towns.len() >= 1
    &&& towns[0].0 == SP_MAP_W / 2
    &&& towns[0].1 == SP_MAP_H / 2
    &&& forall|i: int| 0 <= i < towns.len() ==> {
        &&& 10 <= (#[trigger] towns[i]).0 <= SP_MAP_W - 10
        &&& 10 <= towns[i].1 <= SP_MAP_H - 10
    }
}

pub open spec fn near(p: (i32, i32), x: int, y: int, lim_x: int, lim_y: int) -> bool {
    (if x - p.0 < 0 { p.0 - x } else { x - p.0 }) < lim_x && (if y - p.1 < 0 { p.1 - y } else { y - p.1 }) < lim_y
}

/// Whether some town center lies within `lim_x` columns and `lim_y` rows of
/// `(x, y)`.
fn near_any(towns: &Vec<(i32, i32)>, x: i32, y: i32, lim_x: i32, lim_y: i32) -> (r: bool)
    requires
        towns_ok(towns@),
        0 <= x <= SP_MAP_W,
        0 <= y <= SP_MAP_H,
    ensures
        r == exists|i: int| 0 <= i < towns@.len() && near(#[trigger] towns@[i], x as int, y as int, lim_x as int, lim_y as int),
{
    let mut i: usize = 0;
    while i < towns.len()
        invariant
            towns_ok(towns@),
            0 <= x <= SP_MAP_W,
            0 <= y <= SP_MAP_H,
            i <= towns@.len(),
            forall|j: int| 0 <= j < i ==> !near(#[trigger] towns@[j], x as int, y as int, lim_x as int, lim_y as int),
        decreases towns.len() - i,
    {
        let (px, py) = towns[i];
        if abs_i32(x - px) < lim_x && abs_i32(y - py) < lim_y {
            return true;
        }
        i += 1;
    }
    false
}

pub open spec fn manhattan(p: (i32, i32), x: int, y: int) -> int {
    (if x - p.0 < 0 { p.0 - x } else { x - p.0 }) + (if y - p.1 < 0 { p.1 - y } else { y - p.1 })
}

/// The town center nearest to `(x, y)` by Manhattan distance; the first one
/// among equally near ones.
fn nearest_town(towns: &Vec<(i32, i32)>, x: i32, y: i32) -> (r: (i32, i32))
    requires
        towns_ok(towns@),
        0 <= x <= SP_MAP_W,
        0 <= y <= SP_MAP_H,
    ensures
        exists|k: int| {
            &&& 0 <= k < towns@.len()
            &&& r == towns@[k]
            &&& forall|j: int| 0 <= j < towns@.len() ==> manhattan(towns@[k], x as int, y as int) <= manhattan(#[trigger] towns@[j], x as int, y as int)
            &&& forall|j: int| 0 <= j < k ==> manhattan(towns@[k], x as int, y as int) < manhattan(#[trigger] towns@[j], x as int, y as int)
        },
{
    let mut best: usize = 0;
    let (bx, by) = towns[0];
    let mut best_d: i32 = abs_i32(x - bx) + abs_i32(y - by);
    let mut i: usize = 1;
    while i < towns.len()
        invariant
            towns_ok(towns@),
            0 <= x <= SP_MAP_W,
            0 <= y <= SP_MAP_H,
            1 <= i <= towns@.len(),
            best < i,
            best_d == manhattan(towns@[best as int], x as int, y as int),
            forall|j: int| 0 <= j < i ==> manhattan(towns@[best as int], x as int, y as int) <= manhattan(#[trigger] towns@[j], x as int, y as int),
            forall|j: int| 0 <= j < best ==> manhattan(towns@[best as int], x as int, y as int) < manhattan(#[trigger] towns@[j], x as int, y as int),
        decreases towns.len() - i,
    {
        let (px, py) = towns[i];
        let d = abs_i32(x - px) + abs_i32(y - py);
        if d < best_d {
            best = i;
            best_d = d;
        }
        i += 1;
    }
    towns[best]
}

/// Some tile of row `y` is water.
pub open spec fn row_has_water(m: GameMap, y: int) -> bool {
    exists|x: int| 0 <= x < m.width && #[trigger] m.tile_at(x, y) == TileKind::Water.spec_to_u8()
}

/// Two rivers' sources on row 1: two tiles of water each, at columns at
/// least two apart.
pub open spec fn two_sources(m: GameMap) -> bool {
    exists|x1: int, x2: int|
        #![trigger m.tile_at(x1, 1), m.tile_at(x2, 1)]
        8 <= x1 && x1 + 2 <= x2 && x2 < SP_MAP_W - 7 && m.tile_at(x1, 1) == TileKind::Water.spec_to_u8()
            && m.tile_at(x1 + 1, 1) == TileKind::Water.spec_to_u8() && m.tile_at(x2, 1) == TileKind::Water.spec_to_u8()
            && m.tile_at(x2 + 1, 1) == TileKind::Water.spec_to_u8()
}

/// Two or three winding rivers, spread evenly across the width, each
/// crossing every row from the top border to the bottom one, two tiles wide
/// (see `two_sources` for row 1); only water and sandy banks are laid.
#[verifier::loop_isolation(false)]
fn large_rivers(map: &mut GameMap, rng: &mut StdRng)
    requires
        framed(*old(map), SP_MAP_W as int, SP_MAP_H as int),
    ensures
        framed(*final(map), SP_MAP_W as int, SP_MAP_H as int),
        final(map).name == old(map).name,
        changed_to(*old(map), *final(map), set![TileKind::Water.spec_to_u8(), TileKind::Sand.spec_to_u8()]),
        forall|y: int| 1 <= y < SP_MAP_H - 1 ==> #[trigger] row_has_water(*final(map), y),
        two_sources(*final(map)),
{
    let w = SP_MAP_W;
    let h = SP_MAP_H;
    let ghost name = map.name;
    let ghost m0 = *map;
    let ghost mut cols: Seq<int> = Seq::new(SP_MAP_H as nat, |j: int| 4);
    let t = large_draws();
    let num_rivers = range_usize(rng, t.rivers.0, t.rivers.1);
    let ghost seg0: int = if num_rivers == 2 { 85 } else { 64 };
    let ghost mut c1: int = 8;
    let ghost mut c2: int = 8;
    let mut i: usize = 0;
    while i < num_rivers
        invariant
            i <= num_rivers < 4,
            2 <= num_rivers,
            seg0 == if num_rivers == 2 { 85int } else { 64int },
            i >= 1 ==> 8 <= c1 <= seg0 + 9 && map.tile_at(c1, 1) == TileKind::Water.spec_to_u8() && map.tile_at(c1 + 1, 1) == TileKind::Water.spec_to_u8(),
            i >= 2 ==> 2 * seg0 - 10 <= c2 < SP_MAP_W - 7 && map.tile_at(c2, 1) == TileKind::Water.spec_to_u8() && map.tile_at(c2 + 1, 1) == TileKind::Water.spec_to_u8(),
            framed(*map, SP_MAP_W as int, SP_MAP_H as int),
            map.name == name,
            changed_to(m0, *map, set![TileKind::Water.spec_to_u8(), TileKind::Sand.spec_to_u8()]),
            cols.len() == SP_MAP_H,
            forall|y2: int|
                1 <= y2 < SP_MAP_H - 1 && i > 0 ==> 4 <= #[trigger] cols[y2] <= SP_MAP_W - 6 && map.tile_at(
                    cols[y2],
                    y2,
                ) == TileKind::Water.spec_to_u8(),
        decreases num_rivers - i,
    {
        let seg: i32 = w / (num_rivers as i32 + 1);
        assert(seg == seg0) by {
            assert(w == 256);
            if num_rivers == 2 {
                assert(num_rivers as i32 + 1 == 3);
                assert(256i32 / 3i32 == 85);
            } else {
                assert(num_rivers as i32 + 1 == 4);
                assert(256i32 / 4i32 == 64);
            }
        }
        let k: i32 = i as i32 + 1;
        assert(0 <= seg * k <= 256 * 4) by (nonlinear_arith)
            requires 0 <= seg <= 256, 1 <= k <= 4;
        let base_x: i32 = seg * k;
        let jitter = range_i32(rng, t.river_jitter.0, t.river_jitter.1);
        let sx = clamp_i32(base_x + jitter, 8, w - 8);
        let mut rx: i32 = sx;
        let mut y: i32 = 1;
        while y < h - 1
            invariant
                1 <= y <= h - 1,
                4 <= rx <= w - 6,
                framed(*map, SP_MAP_W as int, SP_MAP_H as int),
                map.name == name,
                changed_to(m0, *map, set![TileKind::Water.spec_to_u8(), TileKind::Sand.spec_to_u8()]),
                cols.len() == SP_MAP_H,
                forall|y2: int|
                    1 <= y2 < SP_MAP_H - 1 && (i > 0 || y2 < y) ==> 4 <= #[trigger] cols[y2] <= SP_MAP_W - 6
                        && map.tile_at(cols[y2], y2) == TileKind::Water.spec_to_u8(),
                y == 1 ==> rx == sx,
                8 <= sx <= w - 8,
                -10 <= jitter < 10,
                sx == (if base_x + jitter < 8 { 8 } else if base_x + jitter > w - 8 { w - 8 } else { base_x + jitter }),
                base_x == seg0 * (i + 1),
                i >= 1 || y > 1 ==> 8 <= c1 <= seg0 + 9 && map.tile_at(c1, 1) == TileKind::Water.spec_to_u8() && map.tile_at(c1 + 1, 1) == TileKind::Water.spec_to_u8(),
                i >= 2 || (i == 1 && y > 1) ==> 2 * seg0 - 10 <= c2 < SP_MAP_W - 7 && map.tile_at(c2, 1) == TileKind::Water.spec_to_u8() && map.tile_at(c2 + 1, 1) == TileKind::Water.spec_to_u8(),
            decreases h - 1 - y,
        {
            map.set(rx, y, TileKind::Water);
            map.set(rx + 1, y, TileKind::Water);
            grass_to(map, rx - 1, y, TileKind::Sand);
            grass_to(map, rx + 2, y, TileKind::Sand);
            proof {
                cols = cols.update(y as int, rx as int);
                if y == 1 && i == 0 {
                    c1 = rx as int;
                }
                if y == 1 && i == 1 {
                    c2 = rx as int;
                }
            }
            if chance(rng, t.river_drift.0, t.river_drift.1) {
                let d = range_incl_i32(rng, -t.drift_step, t.drift_step);
                rx = clamp_i32(rx + d, 4, w - 6);
            }
            y += 1;
        }
        i += 1;
    }
    assert forall|y: int| 1 <= y < SP_MAP_H - 1 implies #[trigger] row_has_water(*map, y) by {
        assert(map.tile_at(cols[y], y) == TileKind::Water.spec_to_u8());
    }
    assert(map.tile_at(c1, 1) == TileKind::Water.spec_to_u8() && map.tile_at(c2, 1) == TileKind::Water.spec_to_u8());
}

/// Three to five lakes: at least one lake's center is water; only water
/// and sandy shores are laid.
#[verifier::loop_isolation(false)]
fn large_lakes(map: &mut GameMap, rng: &mut StdRng)
    requires
        framed(*old(map), SP_MAP_W as int, SP_MAP_H as int),
    ensures
        framed(*final(map), SP_MAP_W as int, SP_MAP_H as int),
        final(map).name == old(map).name,
        changed_to(*old(map), *final(map), set![TileKind::Water.spec_to_u8(), TileKind::Sand.spec_to_u8()]),
        water_kept(*old(map), *final(map)),
        exists|x: int, y: int|
            10 <= x < SP_MAP_W - 10 && 8 <= y < SP_MAP_H - 8 && #[trigger] final(map).tile_at(x, y)
                == TileKind::Water.spec_to_u8(),
{
    let w = SP_MAP_W;
    let h = SP_MAP_H;
    let ghost name = map.name;
    let ghost m0 = *map;
    let ghost mut wx: int = 10;
    let ghost mut wy: int = 8;
    let t = large_draws();
    let num_lakes = range_usize(rng, t.lakes.0, t.lakes.1);
    let mut i: usize = 0;
    while i < num_lakes
        invariant
            i <= num_lakes,
            3 <= num_lakes,
            framed(*map, SP_MAP_W as int, SP_MAP_H as int),
            map.name == name,
            changed_to(m0, *map, set![TileKind::Water.spec_to_u8(), TileKind::Sand.spec_to_u8()]),
            10 <= wx < SP_MAP_W - 10,
            8 <= wy < SP_MAP_H - 8,
            i > 0 ==> map.tile_at(wx, wy) == TileKind::Water.spec_to_u8(),
            water_kept(m0, *map),
        decreases num_lakes - i,
    {
        let lx = range_i32(rng, t.lake_x.0, t.lake_x.1);
        let ly = range_i32(rng, t.lake_y.0, t.lake_y.1);
        let lr = range_i32(rng, t.lake_radius.0, t.lake_radius.1);
        let ghost m1 = *map;
        place_lake(map, rng, lx, ly, lr, w, h);
        proof {
            wx = lx as int;
            wy = ly as int;
            lemma_lake_changed(m1, *map, lx as int, ly as int, lr as int, w as int, h as int);
            lemma_lake_water_kept(m1, *map, lx as int, ly as int, lr as int, w as int, h as int);
            assert forall|x: int, y: int|
                m0.in_bounds(x, y) && m0.tile_at(x, y) == TileKind::Water.spec_to_u8() implies #[trigger] map.tile_at(x, y)
                    == TileKind::Water.spec_to_u8() by {
                assert(m1.tile_at(x, y) == TileKind::Water.spec_to_u8());
            }
            lemma_changed_trans(m0, m1, *map, set![TileKind::Water.spec_to_u8(), TileKind::Sand.spec_to_u8()]);
        }
        i += 1;
    }
    assert(map.tile_at(wx, wy) == TileKind::Water.spec_to_u8());
}

/// The central town and one or two more walled towns, each kept well away
/// from the others (at most 80 tries per town); gives the town centers, the
/// central one first. The central town's compound of radius 9 stands whole.
#[verifier::loop_isolation(false)]
fn large_towns(map: &mut GameMap, rng: &mut StdRng) -> (towns: Vec<(i32, i32)>)
    requires
        framed(*old(map), SP_MAP_W as int, SP_MAP_H as int),
    ensures
        large_ok(*final(map)),
        final(map).name == old(map).name,
        towns_ok(towns@),
        compound_at(*final(map), SP_MAP_W / 2, SP_MAP_H / 2, 9),
        forall|x: int| 0 <= x < SP_MAP_W ==> #[trigger] final(map).tile_at(x, 1) == old(map).tile_at(x, 1),
{
    let w = SP_MAP_W;
    let h = SP_MAP_H;
    let cx = w / 2;
    let cy = h / 2;
    let ghost name = map.name;
    let ghost m0 = *map;
    place_walled_area(map, cx, cy, 9);
    assert(compound_at(*map, cx as int, cy as int, 9));
    let t = large_draws();
    let num_extra_towns = range_usize(rng, t.extra_towns.0, t.extra_towns.1);
    let mut towns: Vec<(i32, i32)> = Vec::new();
    towns.push((cx, cy));
    let mut k: usize = 0;
    while k < num_extra_towns
        invariant
            k <= num_extra_towns,
            large_ok(*map),
            map.name == name,
            towns_ok(towns@),
            compound_at(*map, cx as int, cy as int, 9),
            forall|x2: int| 0 <= x2 < SP_MAP_W ==> #[trigger] map.tile_at(x2, 1) == m0.tile_at(x2, 1),
        decreases num_extra_towns - k,
    {
        let mut attempts: u32 = 0;
        loop
            invariant
                attempts <= 81,
                large_ok(*map),
                map.name == name,
                towns_ok(towns@),
                compound_at(*map, cx as int, cy as int, 9),
                forall|x2: int| 0 <= x2 < SP_MAP_W ==> #[trigger] map.tile_at(x2, 1) == m0.tile_at(x2, 1),
            decreases 81 - attempts,
        {
            attempts += 1;
            if attempts > 80 {
                break;
            }
            let tx = range_i32(rng, t.town_x.0, t.town_x.1);
            let ty = range_i32(rng, t.town_y.0, t.town_y.1);
            if near_any(&towns, tx, ty, 30, 20) {
                continue;
            }
            let tr = range_i32(rng, t.town_radius.0, t.town_radius.1);
            assert(!near(towns@[0], tx as int, ty as int, 30, 20));
            let ghost m1 = *map;
            place_walled_area(map, tx, ty, tr);
            proof {
                lemma_compound_untouched(m1, *map, cx as int, cy as int, 9, tx as int, ty as int, tr as int);
                assert forall|x2: int| 0 <= x2 < SP_MAP_W implies #[trigger] map.tile_at(x2, 1) == m0.tile_at(x2, 1) by {
                    assert(m1.tile_at(x2, 1) == m0.tile_at(x2, 1));
                    assert(!in_square(tx as int, ty as int, tr as int, x2, 1));
                }
            }
            towns.push((tx, ty));
            break;
        }
        k += 1;
    }
    towns
}

/// On one of the main roads: the center column above and below the central
/// town and the center row left and right of it, up to the border.
pub open spec fn on_main_road(x: int, y: int) -> bool {
    let cx = SP_MAP_W / 2;
    let cy = SP_MAP_H / 2;
    ||| x == cx && (1 <= y < cy - 9 || cy + 10 <= y < SP_MAP_H - 1)
    ||| y == cy && (1 <= x < cx - 9 || cx + 10 <= x < SP_MAP_W - 1)
}

/// What laying the main roads makes of a tile: road on the roads, except
/// where there is water.
pub open spec fn main_road_tile(before: GameMap, x: int, y: int) -> u8 {
    if on_main_road(x, y) && spec_tile_from_u8(before.tile_at(x, y)) != TileKind::Water {
        TileKind::Road.spec_to_u8()
    } else {
        before.tile_at(x, y)
    }
}

/// Roads from the central town out to the four borders, across everything
/// but water.
#[verifier::loop_isolation(false)]
fn large_main_roads(map: &mut GameMap)
    requires
        large_ok(*old(map)),
    ensures
        large_ok(*final(map)),
        final(map).name == old(map).name,
        forall|x: int, y: int|
            old(map).in_bounds(x, y) ==> #[trigger] final(map).tile_at(x, y) == main_road_tile(*old(map), x, y),
{
    let w = SP_MAP_W;
    let h = SP_MAP_H;
    let cx = w / 2;
    let cy = h / 2;
    let ghost name = map.name;
    let ghost m0 = *map;
    let mut y: i32 = 1;
    while y < cy - 9
        invariant
            1 <= y <= cy - 9,
            large_ok(*map),
            map.name == name,
            forall|x2: int, y2: int|
                m0.in_bounds(x2, y2) ==> #[trigger] map.tile_at(x2, y2) == if x2 == cx && 1 <= y2 < y {
                    main_road_tile(m0, x2, y2)
                } else {
                    m0.tile_at(x2, y2)
                },
        decreases cy - 9 - y,
    {
        if map.get(cx, y) != TileKind::Water {
            map.set(cx, y, TileKind::Road);
        }
        y += 1;
    }
    let mut y: i32 = cy + 10;
    while y < h - 1
        invariant
            cy + 10 <= y <= h - 1,
            large_ok(*map),
            map.name == name,
            forall|x2: int, y2: int|
                m0.in_bounds(x2, y2) ==> #[trigger] map.tile_at(x2, y2) == if x2 == cx && (1 <= y2 < cy - 9
                    || cy + 10 <= y2 < y) {
                    main_road_tile(m0, x2, y2)
                } else {
                    m0.tile_at(x2, y2)
                },
        decreases h - 1 - y,
    {
        if map.get(cx, y) != TileKind::Water {
            map.set(cx, y, TileKind::Road);
        }
        y += 1;
    }
    let mut x: i32 = 1;
    while x < cx - 9
        invariant
            1 <= x <= cx - 9,
            large_ok(*map),
            map.name == name,
            forall|x2: int, y2: int|
                m0.in_bounds(x2, y2) ==> #[trigger] map.tile_at(x2, y2) == if (x2 == cx && (1 <= y2 < cy - 9
                    || cy + 10 <= y2 < h - 1)) || (y2 == cy && 1 <= x2 < x) {
                    main_road_tile(m0, x2, y2)
                } else {
                    m0.tile_at(x2, y2)
                },
        decreases cx - 9 - x,
    {
        if map.get(x, cy) != TileKind::Water {
            map.set(x, cy, TileKind::Road);
        }
        x += 1;
    }
    let mut x: i32 = cx + 10;
    while x < w - 1
        invariant
            cx + 10 <= x <= w - 1,
            large_ok(*map),
            map.name == name,
            forall|x2: int, y2: int|
                m0.in_bounds(x2, y2) ==> #[trigger] map.tile_at(x2, y2) == if (x2 == cx && (1 <= y2 < cy - 9
                    || cy + 10 <= y2 < h - 1)) || (y2 == cy && (1 <= x2 < cx - 9 || cx + 10 <= x2 < x)) {
                    main_road_tile(m0, x2, y2)
                } else {
                    m0.tile_at(x2, y2)
                },
        decreases w - 1 - x,
    {
        if map.get(x, cy) != TileKind::Water {
            map.set(x, cy, TileKind::Road);
        }
        x += 1;
    }
}

/// The four tiles of the center row just past each side of the central
/// town's compound, on the west and east main roads.
pub open spec fn road_stub(x: int, y: int) -> bool {
    let cx = SP_MAP_W / 2;
    &&& y == SP_MAP_H / 2
    &&& (cx - 13 <= x <= cx - 10 || cx + 10 <= x <= cx + 13)
}

/// Tiles of the road stubs that are not grass in `a` are unchanged in `b`.
pub open spec fn stubs_kept(a: GameMap, b: GameMap) -> bool {
    forall|x: int, y: int|
        a.in_bounds(x, y) && road_stub(x, y) && spec_tile_from_u8(a.tile_at(x, y)) != TileKind::Grass
            ==> #[trigger] b.tile_at(x, y) == a.tile_at(x, y)
}

/// Where an outpost of radius `r` may stand on the large map: away from
/// every town.
pub open spec fn large_outpost_spot(towns: Seq<(i32, i32)>, x: int, y: int, r: int) -> bool {
    &&& 6 <= x < SP_MAP_W - 10
    &&& 6 <= y < SP_MAP_H - 10
    &&& 2 <= r < 5
    &&& forall|i: int| 0 <= i < towns.len() ==> !near(#[trigger] towns[i], x, y, 18, 14)
}

/// Dirt paths from each extra town to the central one, then five to eight
/// outposts away from the towns (at most 150 tries), each joined by a path
/// to its nearest town; only roads, walls and floor are laid. Where no
/// outpost was placed, only grass turned to road; otherwise the last outpost
/// placed stands whole. The central town's compound, where it stands, is
/// left alone.
#[verifier::loop_isolation(false)]
fn large_paths_and_outposts(map: &mut GameMap, rng: &mut StdRng, towns: &Vec<(i32, i32)>)
    requires
        large_ok(*old(map)),
        towns_ok(towns@),
    ensures
        large_ok(*final(map)),
        final(map).name == old(map).name,
        changed_to(*old(map), *final(map), set![TileKind::Road.spec_to_u8(), TileKind::Wall.spec_to_u8(), TileKind::Floor.spec_to_u8()]),
        compound_at(*old(map), SP_MAP_W / 2, SP_MAP_H / 2, 9) ==> compound_at(*final(map), SP_MAP_W / 2, SP_MAP_H / 2, 9),
        row_water_kept(*old(map), *final(map), 1),
        stubs_kept(*old(map), *final(map)),
        grass_changed_to(*old(map), *final(map), set![TileKind::Road.spec_to_u8()]) || exists|x: int, y: int, r: int|
            #[trigger] large_outpost_spot(towns@, x, y, r) && compound_at(*final(map), x, y, r),
{
    let w = SP_MAP_W;
    let h = SP_MAP_H;
    let cx = w / 2;
    let cy = h / 2;
    let ghost name = map.name;
    let ghost m0 = *map;
    let ghost mut wx: int = 0;
    let ghost mut wy: int = 0;
    let ghost mut wr: int = 0;
    let mut i: usize = 1;
    while i < towns.len()
        invariant
            1 <= i <= towns@.len(),
            large_ok(*map),
            map.name == name,
            changed_to(m0, *map, set![TileKind::Road.spec_to_u8(), TileKind::Wall.spec_to_u8(), TileKind::Floor.spec_to_u8()]),
            grass_changed_to(m0, *map, set![TileKind::Road.spec_to_u8()]),
            compound_at(m0, SP_MAP_W / 2, SP_MAP_H / 2, 9) ==> compound_at(*map, SP_MAP_W / 2, SP_MAP_H / 2, 9),
            row_water_kept(m0, *map, 1),
            stubs_kept(m0, *map),
        decreases towns.len() - i,
    {
        let (tx, ty) = towns[i];
        let ghost m1 = *map;
        draw_path(map, tx, ty, cx, cy);
        proof {
            lemma_path_changed(m1, *map, tx as int, ty as int, cx as int, cy as int);
            lemma_grass_changed_trans(m0, m1, *map, set![TileKind::Road.spec_to_u8()]);
            lemma_grass_water_kept(m1, *map, set![TileKind::Road.spec_to_u8()]);
            lemma_water_kept_row(m1, *map, 1);
            lemma_row_water_trans(m0, m1, *map, 1);
            assert forall|x: int, y: int|
                m0.in_bounds(x, y) && road_stub(x, y) && spec_tile_from_u8(m0.tile_at(x, y)) != TileKind::Grass
                implies #[trigger] map.tile_at(x, y) == m0.tile_at(x, y) by {
                assert(m1.tile_at(x, y) == m0.tile_at(x, y));
            }
            if compound_at(m0, SP_MAP_W / 2, SP_MAP_H / 2, 9) {
                lemma_compound_kept(m1, *map, SP_MAP_W / 2, SP_MAP_H / 2, 9, set![TileKind::Road.spec_to_u8()]);
            }
            lemma_changed_more(m1, *map, set![TileKind::Road.spec_to_u8()], set![TileKind::Road.spec_to_u8(), TileKind::Wall.spec_to_u8(), TileKind::Floor.spec_to_u8()]);
            lemma_changed_trans(m0, m1, *map, set![TileKind::Road.spec_to_u8(), TileKind::Wall.spec_to_u8(), TileKind::Floor.spec_to_u8()]);
        }
        i += 1;
    }
    let t = large_draws();
    let outpost_count = range_usize(rng, t.outposts.0, t.outposts.1);
    let mut placed: usize = 0;
    let mut attempts: usize = 0;
    while placed < outpost_count && attempts < 150
        invariant
            placed <= attempts <= 150,
            large_ok(*map),
            map.name == name,
            changed_to(m0, *map, set![TileKind::Road.spec_to_u8(), TileKind::Wall.spec_to_u8(), TileKind::Floor.spec_to_u8()]),
            placed == 0 ==> grass_changed_to(m0, *map, set![TileKind::Road.spec_to_u8()]),
            compound_at(m0, SP_MAP_W / 2, SP_MAP_H / 2, 9) ==> compound_at(*map, SP_MAP_W / 2, SP_MAP_H / 2, 9),
            row_water_kept(m0, *map, 1),
            stubs_kept(m0, *map),
            placed > 0 ==> large_outpost_spot(towns@, wx, wy, wr) && compound_at(*map, wx, wy, wr),
        decreases 150 - attempts,
    {
        attempts += 1;
        let ox = range_i32(rng, t.outpost_x.0, t.outpost_x.1);
        let oy = range_i32(rng, t.outpost_y.0, t.outpost_y.1);
        let r = range_i32(rng, t.outpost_radius.0, t.outpost_radius.1);
        if near_any(towns, ox, oy, 18, 14) {
            continue;
        }
        assert(!near(towns@[0], ox as int, oy as int, 18, 14));
        let ghost m1 = *map;
        place_walled_area(map, ox, oy, r);
        let ghost m2 = *map;
        let nearest = nearest_town(towns, ox, oy);
        draw_path(map, ox, oy, nearest.0, nearest.1);
        proof {
            lemma_walled_changed(m1, m2, ox as int, oy as int, r as int);
            lemma_path_changed(m2, *map, ox as int, oy as int, nearest.0 as int, nearest.1 as int);
            lemma_changed_more(m2, *map, set![TileKind::Road.spec_to_u8()], set![TileKind::Road.spec_to_u8(), TileKind::Wall.spec_to_u8(), TileKind::Floor.spec_to_u8()]);
            lemma_changed_trans(m1, m2, *map, set![TileKind::Road.spec_to_u8(), TileKind::Wall.spec_to_u8(), TileKind::Floor.spec_to_u8()]);
            lemma_changed_trans(m0, m1, *map, set![TileKind::Road.spec_to_u8(), TileKind::Wall.spec_to_u8(), TileKind::Floor.spec_to_u8()]);
            assert(compound_at(m2, ox as int, oy as int, r as int));
            assert forall|x2: int| m1.in_bounds(x2, 1) && m1.tile_at(x2, 1) == TileKind::Water.spec_to_u8() implies #[trigger] m2.tile_at(
                x2,
                1,
            ) == TileKind::Water.spec_to_u8() by {
                assert(!in_square(ox as int, oy as int, r as int, x2, 1));
            }
            lemma_grass_water_kept(m2, *map, set![TileKind::Road.spec_to_u8()]);
            lemma_water_kept_row(m2, *map, 1);
            lemma_row_water_trans(m1, m2, *map, 1);
            lemma_row_water_trans(m0, m1, *map, 1);
            assert forall|x: int, y: int|
                m0.in_bounds(x, y) && road_stub(x, y) && spec_tile_from_u8(m0.tile_at(x, y)) != TileKind::Grass
                implies #[trigger] map.tile_at(x, y) == m0.tile_at(x, y) by {
                assert(!near(towns@[0], ox as int, oy as int, 18, 14));
                assert(m1.tile_at(x, y) == m0.tile_at(x, y));
                assert(!in_square(ox as int, oy as int, r as int, x, y));
                assert(m2.tile_at(x, y) == m1.tile_at(x, y));
            }
            if compound_at(m0, SP_MAP_W / 2, SP_MAP_H / 2, 9) {
                assert(!near(towns@[0], ox as int, oy as int, 18, 14));
                lemma_compound_untouched(m1, m2, SP_MAP_W / 2, SP_MAP_H / 2, 9, ox as int, oy as int, r as int);
                lemma_compound_kept(m2, *map, SP_MAP_W / 2, SP_MAP_H / 2, 9, set![TileKind::Road.spec_to_u8()]);
            }
            lemma_compound_kept(m2, *map, ox as int, oy as int, r as int, set![TileKind::Road.spec_to_u8()]);
            wx = ox as int;
            wy = oy as int;
            wr = r as int;
            assert(large_outpost_spot(towns@, wx, wy, wr));
        }
        placed += 1;
    }
}

/// Thirty to forty-nine dense forests away from the central town: only
/// grass turns, and only into trees.
#[verifier::loop_isolation(false)]
fn large_forests(map: &mut GameMap, rng: &mut StdRng)
    requires
        large_ok(*old(map)),
    ensures
        large_ok(*final(map)),
        final(map).name == old(map).name,
        grass_changed_to(*old(map), *final(map), set![TileKind::Tree.spec_to_u8()]),
{
    let w = SP_MAP_W;
    let h = SP_MAP_H;
    let cx = w / 2;
    let cy = h / 2;
    let ghost name = map.name;
    let ghost m0 = *map;
    let t = large_draws();
    let forest_count = range_usize(rng, t.forests.0, t.forests.1);
    let mut i: usize = 0;
    while i < forest_count
        invariant
            i <= forest_count,
            large_ok(*map),
            map.name == name,
            grass_changed_to(m0, *map, set![TileKind::Tree.spec_to_u8()]),
        decreases forest_count - i,
    {
        i += 1;
        let bx = range_i32(rng, t.forest_x.0, t.forest_x.1);
        let by = range_i32(rng, t.forest_y.0, t.forest_y.1);
        if abs_i32(bx - cx) < 12 && abs_i32(by - cy) < 12 {
            continue;
        }
        let density = range_usize(rng, t.forest_density.0, t.forest_density.1);
        let spread = range_i32(rng, t.forest_spread.0, t.forest_spread.1);
        let mut j: usize = 0;
        while j < density
            invariant
                j <= density,
                3 <= bx < w - 3,
                3 <= by < h - 3,
                5 <= spread < 15,
                large_ok(*map),
                map.name == name,
                grass_changed_to(m0, *map, set![TileKind::Tree.spec_to_u8()]),
            decreases density - j,
        {
            let tx = bx + range_incl_i32(rng, -spread, spread);
            let ty = by + range_incl_i32(rng, -spread, spread);
            if tx > 1 && ty > 1 && tx < w - 2 && ty < h - 2 {
                grass_to(map, tx, ty, TileKind::Tree);
            }
            j += 1;
        }
    }
}

/// Twenty-five round sand patches: grass turns to sand, and at least one
/// patch has turned the grass of its center and the four tiles around it.
#[verifier::loop_isolation(false)]
fn large_sand(map: &mut GameMap, rng: &mut StdRng)
    requires
        large_ok(*old(map)),
    ensures
        large_ok(*final(map)),
        final(map).name == old(map).name,
        grass_changed_to(*old(map), *final(map), set![TileKind::Sand.spec_to_u8()]),
        exists|x: int, y: int|
            3 <= x < SP_MAP_W - 3 && 3 <= y < SP_MAP_H - 3 && #[trigger] plus_turned(
                *old(map),
                *final(map),
                x,
                y,
                TileKind::Sand,
            ),
{
    let w = SP_MAP_W;
    let h = SP_MAP_H;
    let ghost name = map.name;
    let ghost m0 = *map;
    let t = large_draws();
    let ghost mut wx: int = 3;
    let ghost mut wy: int = 3;
    let mut i: usize = 0;
    while i < 25
        invariant
            i <= 25,
            large_ok(*map),
            map.name == name,
            grass_changed_to(m0, *map, set![TileKind::Sand.spec_to_u8()]),
            3 <= wx < SP_MAP_W - 3,
            3 <= wy < SP_MAP_H - 3,
            i > 0 ==> plus_turned(m0, *map, wx, wy, TileKind::Sand),
        decreases 25 - i,
    {
        let sx = range_i32(rng, t.sand_x.0, t.sand_x.1);
        let sy = range_i32(rng, t.sand_y.0, t.sand_y.1);
        let r = range_i32(rng, t.sand_radius.0, t.sand_radius.1);
        let mut dy: i32 = -r;
        while dy <= r
            invariant
                1 <= r < 6,
                3 <= sx < w - 3,
                3 <= sy < h - 3,
                -r <= dy <= r + 1,
                large_ok(*map),
                map.name == name,
                grass_changed_to(m0, *map, set![TileKind::Sand.spec_to_u8()]),
                i > 0 ==> plus_turned(m0, *map, wx, wy, TileKind::Sand),
                plus_turned_upto(m0, *map, sx as int, sy as int, TileKind::Sand, sx - r, sy + dy),
            decreases r + 1 - dy,
        {
            let mut dx: i32 = -r;
            while dx <= r
                invariant
                    1 <= r < 6,
                    3 <= sx < w - 3,
                    3 <= sy < h - 3,
                    -r <= dy <= r,
                    -r <= dx <= r + 1,
                    large_ok(*map),
                    map.name == name,
                    grass_changed_to(m0, *map, set![TileKind::Sand.spec_to_u8()]),
                    i > 0 ==> plus_turned(m0, *map, wx, wy, TileKind::Sand),
                    plus_turned_upto(m0, *map, sx as int, sy as int, TileKind::Sand, sx + dx, sy + dy),
                decreases r + 1 - dx,
            {
                assert(0 <= dx * dx <= 36 && 0 <= dy * dy <= 36 && 0 <= r * r <= 36) by (nonlinear_arith)
                    requires -6 <= dx <= 6, -6 <= dy <= 6, 1 <= r <= 6;
                assert((dx == 0 && -1 <= dy <= 1) || (dy == 0 && -1 <= dx <= 1) ==> dx * dx + dy * dy <= r * r)
                    by (nonlinear_arith)
                    requires 1 <= r;
                let ghost mb = *map;
                if dx * dx + dy * dy <= r * r {
                    let x = sx + dx;
                    let y = sy + dy;
                    if x > 1 && y > 1 && x < w - 2 && y < h - 2 {
                        grass_to(map, x, y, TileKind::Sand);
                    }
                }
                proof {
                    lemma_plus_step(m0, mb, *map, sx as int, sy as int, TileKind::Sand, sx + dx, sy + dy);
                }
                dx += 1;
            }
            dy += 1;
        }
        proof {
            lemma_plus_done(m0, *map, sx as int, sy as int, TileKind::Sand, sx - r, sy + r + 1);
            wx = sx as int;
            wy = sy as int;
        }
        i += 1;
    }
    assert(plus_turned(m0, *map, wx, wy, TileKind::Sand));
}

/// What every large map holds: the central walled town of radius 9, the
/// sources of two rivers on row 1, and the west and east main roads leaving
/// the town (road, or water where a lake lies across them).
pub open spec fn large_shape(m: GameMap) -> bool {
    &&& compound_at(m, SP_MAP_W / 2, SP_MAP_H / 2, 9)
    &&& two_sources(m)
    &&& forall|x: int| road_stub(x, SP_MAP_H / 2) ==> #[trigger] m.tile_at(x, SP_MAP_H / 2) == TileKind::Road.spec_to_u8()
        || m.tile_at(x, SP_MAP_H / 2) == TileKind::Water.spec_to_u8()
}

/// Changes of grass only keep the road stubs.
pub proof fn lemma_stubs_kept(a: GameMap, b: GameMap, kinds: Set<u8>)
    requires
        a.width == SP_MAP_W && a.height == SP_MAP_H,
        forall|x: int| road_stub(x, SP_MAP_H / 2) ==> #[trigger] a.tile_at(x, SP_MAP_H / 2) == TileKind::Road.spec_to_u8()
            || a.tile_at(x, SP_MAP_H / 2) == TileKind::Water.spec_to_u8(),
        grass_changed_to(a, b, kinds),
    ensures
        forall|x: int| road_stub(x, SP_MAP_H / 2) ==> #[trigger] b.tile_at(x, SP_MAP_H / 2) == TileKind::Road.spec_to_u8()
            || b.tile_at(x, SP_MAP_H / 2) == TileKind::Water.spec_to_u8(),
{
    assert forall|x: int| road_stub(x, SP_MAP_H / 2) implies #[trigger] b.tile_at(x, SP_MAP_H / 2) == TileKind::Road.spec_to_u8()
        || b.tile_at(x, SP_MAP_H / 2) == TileKind::Water.spec_to_u8() by {
        assert(a.in_bounds(x, SP_MAP_H / 2));
        assert(a.tile_at(x, SP_MAP_H / 2) == TileKind::Road.spec_to_u8() || a.tile_at(x, SP_MAP_H / 2) == TileKind::Water.spec_to_u8());
        assert(spec_tile_from_u8(TileKind::Road.spec_to_u8()) == TileKind::Road);
        assert(spec_tile_from_u8(TileKind::Water.spec_to_u8()) == TileKind::Water);
    }
}

/// Keeping the water of row 1 keeps the rivers' sources.
pub proof fn lemma_two_sources_kept(a: GameMap, b: GameMap)
    requires
        two_sources(a),
        a.width == SP_MAP_W && a.height == SP_MAP_H,
        row_water_kept(a, b, 1),
    ensures
        two_sources(b),
{
    let (x1, x2) = choose|x1: int, x2: int|
        #![trigger a.tile_at(x1, 1), a.tile_at(x2, 1)]
        8 <= x1 && x1 + 2 <= x2 && x2 < SP_MAP_W - 7 && a.tile_at(x1, 1) == TileKind::Water.spec_to_u8()
            && a.tile_at(x1 + 1, 1) == TileKind::Water.spec_to_u8() && a.tile_at(x2, 1) == TileKind::Water.spec_to_u8()
            && a.tile_at(x2 + 1, 1) == TileKind::Water.spec_to_u8();
    assert(a.in_bounds(x1, 1) && a.in_bounds(x1 + 1, 1) && a.in_bounds(x2, 1) && a.in_bounds(x2 + 1, 1));
    assert(b.tile_at(x1, 1) == TileKind::Water.spec_to_u8());
    assert(b.tile_at(x1 + 1, 1) == TileKind::Water.spec_to_u8());
    assert(b.tile_at(x2, 1) == TileKind::Water.spec_to_u8());
    assert(b.tile_at(x2 + 1, 1) == TileKind::Water.spec_to_u8());
}

/// The single-player map: 256 by 128 with walled borders, two or three
/// rivers, lakes, a central town and one or two more, roads and paths,
/// outposts, dense forests and sand, named "Greater Voidlands" (see
/// `large_shape` for what every outcome holds).
pub fn generate_large(rng: &mut StdRng) -> (r: GameMap)
    ensures
        large_ok(r),
        r.name@ == "Greater Voidlands"@,
        large_shape(r),
{
    let mut map = super::world_gen::walled_grass(SP_MAP_W, SP_MAP_H);
    large_rivers(&mut map, rng);
    let ghost m_r = map;
    large_lakes(&mut map, rng);
    let ghost m_l = map;
    proof {
        lemma_water_kept_row(m_r, m_l, 1);
        lemma_two_sources_kept(m_r, m_l);
    }
    let towns = large_towns(&mut map, rng);
    let ghost m1 = map;
    proof {
        assert forall|x: int| m_l.in_bounds(x, 1) && m_l.tile_at(x, 1) == TileKind::Water.spec_to_u8()
            implies #[trigger] m1.tile_at(x, 1) == TileKind::Water.spec_to_u8() by {
            assert(m1.tile_at(x, 1) == m_l.tile_at(x, 1));
        }
        lemma_two_sources_kept(m_l, m1);
    }
    large_main_roads(&mut map);
    let ghost m_m = map;
    proof {
        assert forall|x: int, y: int| map.in_bounds(x, y) && in_square(SP_MAP_W / 2, SP_MAP_H / 2, 9, x, y)
            implies #[trigger] map.tile_at(x, y) == walled_area_tile(SP_MAP_W / 2, SP_MAP_H / 2, 9, x, y).spec_to_u8() by {
            assert(m1.in_bounds(x, y));
            assert(!on_main_road(x, y));
            assert(map.tile_at(x, y) == main_road_tile(m1, x, y));
        }
        assert forall|x: int| m1.in_bounds(x, 1) && m1.tile_at(x, 1) == TileKind::Water.spec_to_u8()
            implies #[trigger] m_m.tile_at(x, 1) == TileKind::Water.spec_to_u8() by {
            assert(m_m.tile_at(x, 1) == main_road_tile(m1, x, 1));
            assert(spec_tile_from_u8(TileKind::Water.spec_to_u8()) == TileKind::Water);
        }
        lemma_two_sources_kept(m1, m_m);
    }
    large_paths_and_outposts(&mut map, rng, &towns);
    let ghost m2 = map;
    proof {
        lemma_two_sources_kept(m_m, m2);
        assert forall|x: int| road_stub(x, SP_MAP_H / 2) implies #[trigger] m2.tile_at(x, SP_MAP_H / 2) == TileKind::Road.spec_to_u8()
            || m2.tile_at(x, SP_MAP_H / 2) == TileKind::Water.spec_to_u8() by {
            assert(m1.in_bounds(x, SP_MAP_H / 2));
            assert(on_main_road(x, SP_MAP_H / 2));
            assert(m_m.tile_at(x, SP_MAP_H / 2) == main_road_tile(m1, x, SP_MAP_H / 2));
            assert(spec_tile_from_u8(TileKind::Road.spec_to_u8()) == TileKind::Road);
            assert(spec_tile_from_u8(TileKind::Water.spec_to_u8()) == TileKind::Water);
            assert(m_m.tile_at(x, SP_MAP_H / 2) == TileKind::Road.spec_to_u8() || m_m.tile_at(x, SP_MAP_H / 2) == TileKind::Water.spec_to_u8());
        }
    }
    large_forests(&mut map, rng);
    proof {
        lemma_compound_kept(m2, map, SP_MAP_W / 2, SP_MAP_H / 2, 9, set![TileKind::Tree.spec_to_u8()]);
        lemma_grass_water_kept(m2, map, set![TileKind::Tree.spec_to_u8()]);
        lemma_water_kept_row(m2, map, 1);
        lemma_two_sources_kept(m2, map);
        lemma_stubs_kept(m2, map, set![TileKind::Tree.spec_to_u8()]);
    }
    let ghost m3 = map;
    large_sand(&mut map, rng);
    proof {
        lemma_compound_kept(m3, map, SP_MAP_W / 2, SP_MAP_H / 2, 9, set![TileKind::Sand.spec_to_u8()]);
        lemma_grass_water_kept(m3, map, set![TileKind::Sand.spec_to_u8()]);
        lemma_water_kept_row(m3, map, 1);
        lemma_two_sources_kept(m3, map);
        lemma_stubs_kept(m3, map, set![TileKind::Sand.spec_to_u8()]);
    }
    let ghost before = map;
    map.name = String::from_str("Greater Voidlands");
    proof {
        lemma_same_tiles(before, map);
        lemma_compound_same_tiles(before, map, SP_MAP_W / 2, SP_MAP_H / 2, 9);
        assert forall|x: int| before.in_bounds(x, 1) && before.tile_at(x, 1) == TileKind::Water.spec_to_u8()
            implies #[trigger] map.tile_at(x, 1) == TileKind::Water.spec_to_u8() by {
            assert(map.tile_at(x, 1) == before.tile_at(x, 1));
        }
        lemma_two_sources_kept(before, map);
        assert forall|x: int| road_stub(x, SP_MAP_H / 2) implies #[trigger] map.tile_at(x, SP_MAP_H / 2) == TileKind::Road.spec_to_u8()
            || map.tile_at(x, SP_MAP_H / 2) == TileKind::Water.spec_to_u8() by {
            assert(map.tile_at(x, SP_MAP_H / 2) == before.tile_at(x, SP_MAP_H / 2));
        }
    }
    map
}

} // verus!
