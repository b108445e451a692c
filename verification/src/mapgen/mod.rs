pub mod helpers;
pub mod world_gen;
pub mod large_gen;
pub mod zones;

use vstd::prelude::*;
use crate::world::{GameMap, TileKind, MAP_W, MAP_H};
use rand::rngs::StdRng;
use crate::world::tile::spec_tile_from_u8;
use helpers::same_frame;
use crate::world::pos::{abs_i32, abs_int};

pub use world_gen::generate;
pub use zones::{generate_dungeon, generate_desert, generate_forest, generate_swamp};
pub use large_gen::generate_large;

verus! {

/// Visual/biome style for zone generation.
#[derive(Clone, Copy, Debug, PartialEq, Eq, Structural)]
pub enum MapStyle {
    Wilderness,
    Town,
    Dungeon,
    Desert,
    Forest,
    Swamp,
}

/// A well-formed `w` by `h` map whose outer ring is all wall.
pub open spec fn framed(m: GameMap, w: int, h: int) -> bool {
    &&& m.wf()
    &&& m.width == w
    &&& m.height == h
    &&& m.border_walled()
}

/// The center tile (where the town's roads cross) is road.
pub open spec fn center_is_road(m: GameMap) -> bool {
    m.tile_at(m.width / 2, m.height / 2) == TileKind::Road.spec_to_u8()
}

/// Two maps of the same size with the same tile bytes hold the same tiles.
pub proof fn lemma_same_tiles(a: GameMap, b: GameMap)
    requires
        b.width == a.width,
        b.height == a.height,
        b.tiles@ == a.tiles@,
    ensures
        forall|x: int, y: int| #[trigger] b.tile_at(x, y) == a.tile_at(x, y),
        a.border_walled() ==> b.border_walled(),
        a.wf() ==> b.wf(),
        center_is_road(a) ==> center_is_road(b),
{
    if a.border_walled() {
        assert forall|x: int, y: int| b.in_bounds(x, y) && b.is_border(x, y) implies #[trigger] b.tile_at(x, y)
            == TileKind::Wall.spec_to_u8() by {
            assert(a.tile_at(x, y) == TileKind::Wall.spec_to_u8());
        }
    }
}

/// Sets every tile of the map to `t`.
pub fn fill(map: &mut GameMap, t: TileKind)
    requires
        old(map).wf(),
    ensures
        same_frame(*old(map), *final(map)),
        forall|x: int, y: int| final(map).in_bounds(x, y) ==> #[trigger] final(map).tile_at(x, y) == t.spec_to_u8(),
{
    let ghost m0 = *map;
    let w = map.width;
    let h = map.height;
    let mut y: i32 = 0;
    while y < h
        invariant
            0 <= y <= h,
            w == m0.width,
            h == m0.height,
            same_frame(m0, *map),
            forall|x2: int, y2: int| m0.in_bounds(x2, y2) && y2 < y ==> #[trigger] map.tile_at(x2, y2) == t.spec_to_u8(),
        decreases h - y,
    {
        let mut x: i32 = 0;
        while x < w
            invariant
                0 <= y < h,
                0 <= x <= w,
                w == m0.width,
                h == m0.height,
                same_frame(m0, *map),
                forall|x2: int, y2: int|
                    m0.in_bounds(x2, y2) && (y2 < y || (y2 == y && x2 < x)) ==> #[trigger] map.tile_at(x2, y2)
                        == t.spec_to_u8(),
            decreases w - x,
        {
            map.set(x, y, t);
            x += 1;
        }
        y += 1;
    }
}

/// Walls the outer ring; other tiles keep their values.
pub fn wall_border(map: &mut GameMap)
    requires
        old(map).wf(),
    ensures
        same_frame(*old(map), *final(map)),
        final(map).border_walled(),
        forall|x: int, y: int|
            final(map).in_bounds(x, y) && !final(map).is_border(x, y) ==> #[trigger] final(map).tile_at(x, y)
                == old(map).tile_at(x, y),
{
    let ghost m0 = *map;
    let w = map.width;
    let h = map.height;
    let mut x: i32 = 0;
    while x < w
        invariant
            0 <= x <= w,
            w == m0.width,
            h == m0.height,
            same_frame(m0, *map),
            forall|x2: int, y2: int|
                m0.in_bounds(x2, y2) ==> #[trigger] map.tile_at(x2, y2) == if (y2 == 0 || y2 == h - 1) && x2 < x {
                    TileKind::Wall.spec_to_u8()
                } else {
                    m0.tile_at(x2, y2)
                },
        decreases w - x,
    {
        map.set(x, 0, TileKind::Wall);
        map.set(x, h - 1, TileKind::Wall);
        x += 1;
    }
    let mut y: i32 = 0;
    while y < h
        invariant
            0 <= y <= h,
            w == m0.width,
            h == m0.height,
            same_frame(m0, *map),
            forall|x2: int, y2: int|
                m0.in_bounds(x2, y2) ==> #[trigger] map.tile_at(x2, y2) == if (y2 == 0 || y2 == h - 1) || ((x2 == 0
                    || x2 == w - 1) && y2 < y) {
                    TileKind::Wall.spec_to_u8()
                } else {
                    m0.tile_at(x2, y2)
                },
        decreases h - y,
    {
        map.set(0, y, TileKind::Wall);
        map.set(w - 1, y, TileKind::Wall);
        y += 1;
    }
}

/// Turns the tile at `(x, y)` into `t` where it reads as grass.
pub fn grass_to(map: &mut GameMap, x: i32, y: i32, t: TileKind)
    requires
        old(map).wf(),
    ensures
        same_frame(*old(map), *final(map)),
        forall|x2: int, y2: int|
            old(map).in_bounds(x2, y2) ==> #[trigger] final(map).tile_at(x2, y2) == if x2 == x && y2 == y
                && spec_tile_from_u8(old(map).tile_at(x2, y2)) == TileKind::Grass {
                t.spec_to_u8()
            } else {
                old(map).tile_at(x2, y2)
            },
{
    if map.get(x, y) == TileKind::Grass {
        map.set(x, y, t);
    }
}

/// `i32::clamp`: `v` bounded to `[lo, hi]`.
pub fn clamp_i32(v: i32, lo: i32, hi: i32) -> (r: i32)
    requires
        lo <= hi,
    ensures
        r == if v < lo { lo } else if v > hi { hi } else { v },
{
    if v < lo {
        lo
    } else if v > hi {
        hi
    } else {
        v
    }
}

/// The name a zone of each style gets.
pub open spec fn zone_name(style: MapStyle) -> Seq<char> {
    match style {
        MapStyle::Wilderness => "Wilderness"@,
        MapStyle::Town => "Town"@,
        MapStyle::Dungeon => "Dungeon"@,
        MapStyle::Desert => "Desert"@,
        MapStyle::Forest => "Forest"@,
        MapStyle::Swamp => "Swamp"@,
    }
}

/// Whether zones of a style have a walled compound whose roads cross at the
/// map's center.
pub open spec fn has_central_compound(style: MapStyle) -> bool {
    match style {
        MapStyle::Wilderness | MapStyle::Town | MapStyle::Desert | MapStyle::Swamp => true,
        _ => false,
    }
}

/// What every zone of a style holds (see each generator).
pub open spec fn zone_shape(style: MapStyle, m: GameMap) -> bool {
    match style {
        MapStyle::Dungeon => zones::dungeon_shape(m),
        MapStyle::Desert => zones::desert_shape(m),
        MapStyle::Forest => zones::forest_shape(m),
        MapStyle::Swamp => zones::swamp_shape(m),
        MapStyle::Town | MapStyle::Wilderness => world_gen::world_shape(m),
    }
}

/// A zone map of the given style: an 80 by 50 map with walled borders named
/// after the style; town and wilderness zones are the world map renamed.
pub fn generate_zone(rng: &mut StdRng, style: MapStyle) -> (r: GameMap)
    ensures
        framed(r, MAP_W as int, MAP_H as int),
        r.name@ == zone_name(style),
        has_central_compound(style) ==> center_is_road(r),
        zone_shape(style, r),
{
    match style {
        MapStyle::Dungeon => generate_dungeon(rng),
        MapStyle::Desert => generate_desert(rng),
        MapStyle::Forest => generate_forest(rng),
        MapStyle::Swamp => generate_swamp(rng),
        MapStyle::Town => {
            let mut m = generate(rng);
            let ghost before = m;
            m.name = String::from_str("Town");
            proof {
                lemma_same_tiles(before, m);
                world_gen::lemma_world_shape_same_tiles(before, m);
            }
            m
        },
        MapStyle::Wilderness => {
            let mut m = generate(rng);
            let ghost before = m;
            m.name = String::from_str("Wilderness");
            proof {
                lemma_same_tiles(before, m);
                world_gen::lemma_world_shape_same_tiles(before, m);
            }
            m
        },
    }
}

/// Where monsters may spawn: passable tiles off the outer ring and outside
/// the safe square of 12 tiles around the map's center.
pub open spec fn spawn_ok(m: GameMap, x: int, y: int) -> bool {
    &&& 1 <= x < m.width - 1
    &&& 1 <= y < m.height - 1
    &&& (abs_int(x - m.width / 2) > 12 || abs_int(y - m.height / 2) > 12)
    &&& m.spec_passable(x, y)
}

/// Row-major order of tile coordinates.
pub open spec fn before_in_rows(a: (i32, i32), b: (i32, i32)) -> bool {
    a.1 < b.1 || (a.1 == b.1 && a.0 < b.0)
}

/// All spawn positions of the map, in row-major order, each once.
pub fn monster_spawn_positions(map: &GameMap) -> (out: Vec<(i32, i32)>)
    requires
        map.wf(),
    ensures
        forall|i: int| 0 <= i < out@.len() ==> spawn_ok(*map, (#[trigger] out@[i]).0 as int, out@[i].1 as int),
        forall|i: int, j: int| 0 <= i < j < out@.len() ==> before_in_rows(#[trigger] out@[i], #[trigger] out@[j]),
        forall|x: int, y: int| #[trigger] spawn_ok(*map, x, y) ==> exists|i: int| 0 <= i < out@.len() && #[trigger] out@[i] == (x as i32, y as i32),
{
    let cx = map.width / 2;
    let cy = map.height / 2;
    let mut out: Vec<(i32, i32)> = Vec::new();
    let mut y: i32 = 1;
    while y < map.height - 1
        invariant
            map.wf(),
            cx == map.width / 2,
            cy == map.height / 2,
            1 <= y,
            y <= map.height - 1 || map.height < 2,
            forall|i: int| 0 <= i < out@.len() ==> spawn_ok(*map, (#[trigger] out@[i]).0 as int, out@[i].1 as int),
            forall|i: int| 0 <= i < out@.len() ==> (#[trigger] out@[i]).1 < y,
            forall|i: int, j: int| 0 <= i < j < out@.len() ==> before_in_rows(#[trigger] out@[i], #[trigger] out@[j]),
            forall|x2: int, y2: int| #[trigger] spawn_ok(*map, x2, y2) && y2 < y ==> exists|i: int| 0 <= i < out@.len() && #[trigger] out@[i] == (x2 as i32, y2 as i32),
        decreases map.height - y,
    {
        let mut x: i32 = 1;
        while x < map.width - 1
            invariant
                map.wf(),
                cx == map.width / 2,
                cy == map.height / 2,
                1 <= y < map.height - 1,
                1 <= x,
                x <= map.width - 1 || map.width < 2,
                forall|i: int| 0 <= i < out@.len() ==> spawn_ok(*map, (#[trigger] out@[i]).0 as int, out@[i].1 as int),
                forall|i: int| 0 <= i < out@.len() ==> before_in_rows(#[trigger] out@[i], (x, y)),
                forall|i: int, j: int| 0 <= i < j < out@.len() ==> before_in_rows(#[trigger] out@[i], #[trigger] out@[j]),
                forall|x2: int, y2: int| #[trigger] spawn_ok(*map, x2, y2) && (y2 < y || (y2 == y && x2 < x)) ==> exists|i: int| 0 <= i < out@.len() && #[trigger] out@[i] == (x2 as i32, y2 as i32),
            decreases map.width - x,
        {
            let dx = abs_i32(x - cx);
            let dy = abs_i32(y - cy);
            if dx > 12 || dy > 12 {
                if map.passable(x, y) {
                    let ghost before = out@;
                    out.push((x, y));
                    proof {
                        assert forall|x2: int, y2: int| #[trigger] spawn_ok(*map, x2, y2) && (y2 < y || (y2 == y && x2 < x + 1)) implies exists|i: int| 0 <= i < out@.len() && #[trigger] out@[i] == (x2 as i32, y2 as i32) by {
                            if y2 == y && x2 == x {
                                assert(out@[out@.len() - 1] == (x2 as i32, y2 as i32));
                            } else {
                                let i = choose|i: int| 0 <= i < before.len() && #[trigger] before[i] == (x2 as i32, y2 as i32);
                                assert(out@[i] == before[i]);
                            }
                        }
                    }
                }
            }
            x += 1;
        }
        y += 1;
    }
    out
}

} // verus!
