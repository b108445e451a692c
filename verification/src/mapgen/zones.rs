use vstd::prelude::*;
use rand::rngs::StdRng;
use crate::rng::{chance, range_i32, range_incl_i32, range_u8, range_usize};
use crate::world::{GameMap, TileKind, MAP_W, MAP_H};
use super::helpers::{
    changed_to, compound_at, draw_path, lemma_changed_keeps, lemma_changed_more, lemma_changed_trans,
    lemma_border_among, lemma_compound_kept, lemma_compound_same_tiles, lemma_lake_changed, lemma_tiles_among_kept,
    tiles_among, lemma_path_changed, lemma_walled_changed, place_lake,
    place_walled_area,
};
use super::world_gen::walled_grass;
use super::{lemma_same_tiles, center_is_road, clamp_i32, fill, framed, grass_to, wall_border};

verus! {

/// The odds and ranges the dungeon generator draws with: `(lo, hi)` is the
/// half-open range `lo..hi`, odds `(num, den)` come up with probability
/// `num / den`, and a drift `d` is drawn from `-d..=d`.
pub struct DungeonDraws {
    pub rooms: (usize, usize),
    pub room_w: (i32, i32),
    pub room_h: (i32, i32),
    pub pillars: (usize, usize),
    pub pillar_x: (i32, i32),
    pub pillar_y: (i32, i32),
    pub ruins: (usize, usize),
    pub ruin_x: (i32, i32),
    pub ruin_y: (i32, i32),
    pub ruin: (u32, u32),
    pub pools: (usize, usize),
    pub pool_x: (i32, i32),
    pub pool_y: (i32, i32),
    pub pool_radius: (i32, i32),
}

/// The dungeon generator's odds and ranges.
pub open spec fn dungeon_draws_spec() -> DungeonDraws {
    DungeonDraws {
        rooms: (8, 14),
        room_w: (4, 10),
        room_h: (3, 7),
        pillars: (6, 16),
        pillar_x: (3, 77),
        pillar_y: (3, 47),
        ruins: (4, 10),
        ruin_x: (2, 78),
        ruin_y: (2, 48),
        ruin: (3, 5),
        pools: (1, 4),
        pool_x: (3, 77),
        pool_y: (3, 47),
        pool_radius: (1, 3),
    }
}

/// The dungeon generator's odds and ranges (see `dungeon_draws_spec`).
pub fn dungeon_draws() -> (r: DungeonDraws)
    ensures
        r == dungeon_draws_spec(),
{
    DungeonDraws {
        rooms: (8, 14),
        room_w: (4, 10),
        room_h: (3, 7),
        pillars: (6, 16),
        pillar_x: (3, 77),
        pillar_y: (3, 47),
        ruins: (4, 10),
        ruin_x: (2, 78),
        ruin_y: (2, 48),
        ruin: (3, 5),
        pools: (1, 4),
        pool_x: (3, 77),
        pool_y: (3, 47),
        pool_radius: (1, 3),
    }
}

/// The odds and ranges the desert generator draws with: `(lo, hi)` is the
/// half-open range `lo..hi`, odds `(num, den)` come up with probability
/// `num / den`, and a drift `d` is drawn from `-d..=d`.
pub struct DesertDraws {
    pub rocks: (usize, usize),
    pub rock_x: (i32, i32),
    pub rock_y: (i32, i32),
    pub rock_radius: (i32, i32),
    pub rock: (u32, u32),
    pub oases: (usize, usize),
    pub oasis_x: (i32, i32),
    pub oasis_y: (i32, i32),
    pub oasis_radius: (i32, i32),
    pub vents: (usize, usize),
    pub vent_x: (i32, i32),
    pub vent_y: (i32, i32),
    pub lava: (u32, u32),
}

/// The desert generator's odds and ranges.
pub open spec fn desert_draws_spec() -> DesertDraws {
    DesertDraws {
        rocks: (8, 16),
        rock_x: (3, 77),
        rock_y: (3, 47),
        rock_radius: (1, 4),
        rock: (7, 10),
        oases: (1, 4),
        oasis_x: (5, 75),
        oasis_y: (5, 45),
        oasis_radius: (2, 5),
        vents: (3, 7),
        vent_x: (3, 77),
        vent_y: (3, 47),
        lava: (11, 20),
    }
}

/// The desert generator's odds and ranges (see `desert_draws_spec`).
pub fn desert_draws() -> (r: DesertDraws)
    ensures
        r == desert_draws_spec(),
{
    DesertDraws {
        rocks: (8, 16),
        rock_x: (3, 77),
        rock_y: (3, 47),
        rock_radius: (1, 4),
        rock: (7, 10),
        oases: (1, 4),
        oasis_x: (5, 75),
        oasis_y: (5, 45),
        oasis_radius: (2, 5),
        vents: (3, 7),
        vent_x: (3, 77),
        vent_y: (3, 47),
        lava: (11, 20),
    }
}

/// The odds and ranges the forest generator draws with: `(lo, hi)` is the
/// half-open range `lo..hi`, odds `(num, den)` come up with probability
/// `num / den`, and a drift `d` is drawn from `-d..=d`.
pub struct ForestDraws {
    pub trees: (u32, u32),
    pub stream_drift: (u32, u32),
    pub stream_step: i32,
    pub patches: (usize, usize),
    pub patch_x: (i32, i32),
    pub patch_y: (i32, i32),
    pub bramble: (u32, u32),
    pub clearings: (usize, usize),
    pub clearing_x: (i32, i32),
    pub clearing_y: (i32, i32),
    pub clearing_radius: (i32, i32),
}

/// The forest generator's odds and ranges.
pub open spec fn forest_draws_spec() -> ForestDraws {
    ForestDraws {
        trees: (18, 25),
        stream_drift: (3, 10),
        stream_step: 1,
        patches: (10, 20),
        patch_x: (2, 78),
        patch_y: (2, 48),
        bramble: (11, 20),
        clearings: (3, 7),
        clearing_x: (8, 72),
        clearing_y: (6, 44),
        clearing_radius: (4, 8),
    }
}

/// The forest generator's odds and ranges (see `forest_draws_spec`).
pub fn forest_draws() -> (r: ForestDraws)
    ensures
        r == forest_draws_spec(),
{
    ForestDraws {
        trees: (18, 25),
        stream_drift: (3, 10),
        stream_step: 1,
        patches: (10, 20),
        patch_x: (2, 78),
        patch_y: (2, 48),
        bramble: (11, 20),
        clearings: (3, 7),
        clearing_x: (8, 72),
        clearing_y: (6, 44),
        clearing_radius: (4, 8),
    }
}

/// The odds and ranges the swamp generator draws with: `(lo, hi)` is the
/// half-open range `lo..hi`, odds `(num, den)` come up with probability
/// `num / den`, and a drift `d` is drawn from `-d..=d`.
pub struct SwampDraws {
    pub ground: (u8, u8),
    pub pools: (usize, usize),
    pub pool_x: (i32, i32),
    pub pool_y: (i32, i32),
    pub pool_radius: (i32, i32),
    pub trees: (usize, usize),
    pub tree_x: (i32, i32),
    pub tree_y: (i32, i32),
    pub muds: (usize, usize),
    pub mud_x: (i32, i32),
    pub mud_y: (i32, i32),
    pub mud: (u32, u32),
    pub thickets: (usize, usize),
    pub thicket_x: (i32, i32),
    pub thicket_y: (i32, i32),
    pub thicket: (u32, u32),
}

/// The swamp generator's odds and ranges.
pub open spec fn swamp_draws_spec() -> SwampDraws {
    SwampDraws {
        ground: (0, 10),
        pools: (5, 10),
        pool_x: (3, 77),
        pool_y: (3, 47),
        pool_radius: (2, 6),
        trees: (30, 60),
        tree_x: (2, 78),
        tree_y: (2, 48),
        muds: (12, 24),
        mud_x: (2, 78),
        mud_y: (2, 48),
        mud: (1, 2),
        thickets: (8, 18),
        thicket_x: (2, 78),
        thicket_y: (2, 48),
        thicket: (3, 5),
    }
}

/// The swamp generator's odds and ranges (see `swamp_draws_spec`).
pub fn swamp_draws() -> (r: SwampDraws)
    ensures
        r == swamp_draws_spec(),
{
    SwampDraws {
        ground: (0, 10),
        pools: (5, 10),
        pool_x: (3, 77),
        pool_y: (3, 47),
        pool_radius: (2, 6),
        trees: (30, 60),
        tree_x: (2, 78),
        tree_y: (2, 48),
        muds: (12, 24),
        mud_x: (2, 78),
        mud_y: (2, 48),
        mud: (1, 2),
        thickets: (8, 18),
        thicket_x: (2, 78),
        thicket_y: (2, 48),
        thicket: (3, 5),
    }
}

pub open spec fn zone_ok(m: GameMap) -> bool {
    framed(m, MAP_W as int, MAP_H as int)
}

/// Rooms of the dungeon: `(x, y, w, h)`, each strictly inside the map.
pub open spec fn rooms_ok(rooms: Seq<(i32, i32, i32, i32)>) -> bool {
    forall|i: int| 0 <= i < rooms.len() ==> {
        &&& 1 <= (#[trigger] rooms[i]).0
        &&& rooms[i].0 + rooms[i].2 <= MAP_W - 2
        &&& 1 <= rooms[i].1
        &&& rooms[i].1 + rooms[i].3 <= MAP_H - 2
        &&& 4 <= rooms[i].2 < 10
        &&& 3 <= rooms[i].3 < 7
    }
}

/// Every tile of room `r` (`(x, y, w, h)`) reads as floor.
pub open spec fn room_carved(m: GameMap, r: (i32, i32, i32, i32)) -> bool {
    forall|x: int, y: int|
        r.0 <= x < r.0 + r.2 && r.1 <= y < r.1 + r.3 ==> #[trigger] m.tile_at(x, y) == TileKind::Floor.spec_to_u8()
}

/// Eight to thirteen rooms, each carved as floor in the solid rock; only
/// floor is laid.
#[verifier::loop_isolation(false)]
fn dungeon_rooms(map: &mut GameMap, rng: &mut StdRng) -> (rooms: Vec<(i32, i32, i32, i32)>)
    requires
        zone_ok(*old(map)),
    ensures
        zone_ok(*final(map)),
        final(map).name == old(map).name,
        rooms_ok(rooms@),
        8 <= rooms@.len() < 14,
        forall|i: int| 0 <= i < rooms@.len() ==> room_carved(*final(map), #[trigger] rooms@[i]),
        changed_to(*old(map), *final(map), set![TileKind::Floor.spec_to_u8()]),
{
    let zd = dungeon_draws();
    let w = MAP_W;
    let h = MAP_H;
    let ghost name = map.name;
    let ghost m0 = *map;
    let room_count = range_usize(rng, zd.rooms.0, zd.rooms.1);
    let mut rooms: Vec<(i32, i32, i32, i32)> = Vec::new();
    let mut t: usize = 0;
    while t < room_count * 5
        invariant
            t <= room_count * 5,
            8 <= room_count < 14,
            rooms@.len() == t,
            t <= room_count,
            zone_ok(*map),
            map.name == name,
            rooms_ok(rooms@),
            forall|i: int| 0 <= i < rooms@.len() ==> room_carved(*map, #[trigger] rooms@[i]),
            changed_to(m0, *map, set![TileKind::Floor.spec_to_u8()]),
        decreases room_count * 5 - t,
    {
        if rooms.len() >= room_count {
            break;
        }
        let rw = range_i32(rng, zd.room_w.0, zd.room_w.1);
        let rh = range_i32(rng, zd.room_h.0, zd.room_h.1);
        let rx = range_i32(rng, 1, w - rw - 1);
        let ry = range_i32(rng, 1, h - rh - 1);
        let ghost m1 = *map;
        let mut dy: i32 = 0;
        while dy < rh
            invariant
                0 <= dy <= rh,
                4 <= rw < 10,
                3 <= rh < 7,
                1 <= rx < w - rw - 1,
                1 <= ry < h - rh - 1,
                zone_ok(*map),
                map.name == name,
                changed_to(m1, *map, set![TileKind::Floor.spec_to_u8()]),
                forall|x: int, y: int|
                    rx <= x < rx + rw && ry <= y < ry + dy ==> #[trigger] map.tile_at(x, y)
                        == TileKind::Floor.spec_to_u8(),
            decreases rh - dy,
        {
            let mut dx: i32 = 0;
            while dx < rw
                invariant
                    0 <= dy < rh,
                    0 <= dx <= rw,
                    4 <= rw < 10,
                    3 <= rh < 7,
                    1 <= rx < w - rw - 1,
                    1 <= ry < h - rh - 1,
                    zone_ok(*map),
                    map.name == name,
                    changed_to(m1, *map, set![TileKind::Floor.spec_to_u8()]),
                    forall|x: int, y: int|
                        rx <= x < rx + rw && (ry <= y < ry + dy || (y == ry + dy && x < rx + dx))
                            ==> #[trigger] map.tile_at(x, y) == TileKind::Floor.spec_to_u8(),
                decreases rw - dx,
            {
                map.set(rx + dx, ry + dy, TileKind::Floor);
                dx += 1;
            }
            dy += 1;
        }
        proof {
            lemma_changed_keeps(m1, *map, TileKind::Floor.spec_to_u8());
            lemma_changed_trans(m0, m1, *map, set![TileKind::Floor.spec_to_u8()]);
            assert forall|i: int| 0 <= i < rooms@.len() implies room_carved(*map, #[trigger] rooms@[i]) by {
                assert(room_carved(m1, rooms@[i]));
                assert forall|x: int, y: int|
                    rooms@[i].0 <= x < rooms@[i].0 + rooms@[i].2 && rooms@[i].1 <= y < rooms@[i].1 + rooms@[i].3
                    implies #[trigger] map.tile_at(x, y) == TileKind::Floor.spec_to_u8() by {
                    assert(m1.in_bounds(x, y));
                    assert(m1.tile_at(x, y) == TileKind::Floor.spec_to_u8());
                }
            }
        }
        let ghost before = rooms@;
        rooms.push((rx, ry, rw, rh));
        proof {
            assert forall|i: int| 0 <= i < rooms@.len() implies room_carved(*map, #[trigger] rooms@[i]) by {
                if i < before.len() {
                    assert(rooms@[i] == before[i]);
                }
            }
        }
        t += 1;
    }
    rooms
}

/// The center of room `r`.
pub open spec fn room_center(r: (i32, i32, i32, i32)) -> (int, int) {
    (r.0 + r.2 / 2, r.1 + r.3 / 2)
}

/// On the corridor from room `a` to room `b`: along `a`'s center row from
/// `a`'s center toward `b`'s center column (that column excluded), then along
/// `b`'s center column from `a`'s center row toward `b`'s center (that tile
/// excluded).
pub open spec fn on_corridor(a: (i32, i32, i32, i32), b: (i32, i32, i32, i32), x: int, y: int) -> bool {
    let (cx0, cy0) = room_center(a);
    let (cx1, cy1) = room_center(b);
    ||| y == cy0 && (cx0 <= x < cx1 || cx1 < x <= cx0)
    ||| x == cx1 && (cy0 <= y < cy1 || cy1 < y <= cy0)
}

/// Every tile of the corridor from room `a` to room `b` reads as floor.
pub open spec fn corridor_dug(m: GameMap, a: (i32, i32, i32, i32), b: (i32, i32, i32, i32)) -> bool {
    forall|x: int, y: int| on_corridor(a, b, x, y) ==> #[trigger] m.tile_at(x, y) == TileKind::Floor.spec_to_u8()
}

/// Each room joined to the previous one: along the row from the previous
/// room's center, then along the column to this room's center; only floor is
/// laid.
#[verifier::loop_isolation(false)]
fn dungeon_corridors(map: &mut GameMap, rooms: &Vec<(i32, i32, i32, i32)>)
    requires
        zone_ok(*old(map)),
        rooms_ok(rooms@),
    ensures
        zone_ok(*final(map)),
        final(map).name == old(map).name,
        forall|i: int| 1 <= i < rooms@.len() ==> corridor_dug(*final(map), rooms@[i - 1], #[trigger] rooms@[i]),
        changed_to(*old(map), *final(map), set![TileKind::Floor.spec_to_u8()]),
{
    let ghost name = map.name;
    let ghost m0 = *map;
    let mut i: usize = 1;
    while i < rooms.len()
        invariant
            1 <= i <= rooms@.len() || rooms@.len() == 0,
            zone_ok(*map),
            map.name == name,
            forall|j: int| 1 <= j < i && j < rooms@.len() ==> corridor_dug(*map, rooms@[j - 1], #[trigger] rooms@[j]),
            changed_to(m0, *map, set![TileKind::Floor.spec_to_u8()]),
        decreases rooms.len() - i,
    {
        let ghost m1 = *map;
        let (ax, ay, aw, ah) = rooms[i - 1];
        let (bx, by, bw, bh) = rooms[i];
        let ghost ra = rooms@[i - 1];
        let ghost rb = rooms@[i as int];
        let cx0 = ax + aw / 2;
        let cy0 = ay + ah / 2;
        let cx1 = bx + bw / 2;
        let cy1 = by + bh / 2;
        assert(room_center(ra) == (cx0 as int, cy0 as int));
        assert(room_center(rb) == (cx1 as int, cy1 as int));
        let sx: i32 = if cx0 < cx1 { 1 } else { -1 };
        let mut x: i32 = cx0;
        while x != cx1
            invariant
                (cx0 <= x <= cx1 && sx == 1) || (cx1 <= x <= cx0 && sx == -1),
                1 <= cx0 <= MAP_W - 2,
                1 <= cx1 <= MAP_W - 2,
                1 <= cy0 <= MAP_H - 2,
                zone_ok(*map),
                map.name == name,
                changed_to(m1, *map, set![TileKind::Floor.spec_to_u8()]),
                forall|x2: int, y2: int|
                    y2 == cy0 && (cx0 <= x2 < x || x < x2 <= cx0) ==> #[trigger] map.tile_at(x2, y2)
                        == TileKind::Floor.spec_to_u8(),
            decreases if sx == 1 { cx1 - x } else { x - cx1 },
        {
            map.set(x, cy0, TileKind::Floor);
            x += sx;
        }
        let sy: i32 = if cy0 < cy1 { 1 } else { -1 };
        let mut y: i32 = cy0;
        while y != cy1
            invariant
                (cy0 <= y <= cy1 && sy == 1) || (cy1 <= y <= cy0 && sy == -1),
                1 <= cx0 <= MAP_W - 2,
                1 <= cx1 <= MAP_W - 2,
                1 <= cy0 <= MAP_H - 2,
                1 <= cy1 <= MAP_H - 2,
                zone_ok(*map),
                map.name == name,
                changed_to(m1, *map, set![TileKind::Floor.spec_to_u8()]),
                forall|x2: int, y2: int|
                    y2 == cy0 && (cx0 <= x2 < cx1 || cx1 < x2 <= cx0) ==> #[trigger] map.tile_at(x2, y2)
                        == TileKind::Floor.spec_to_u8(),
                forall|x2: int, y2: int|
                    x2 == cx1 && (cy0 <= y2 < y || y < y2 <= cy0) ==> #[trigger] map.tile_at(x2, y2)
                        == TileKind::Floor.spec_to_u8(),
            decreases if sy == 1 { cy1 - y } else { y - cy1 },
        {
            map.set(cx1, y, TileKind::Floor);
            y += sy;
        }
        proof {
            assert(corridor_dug(*map, ra, rb));
            lemma_changed_keeps(m1, *map, TileKind::Floor.spec_to_u8());
            lemma_changed_trans(m0, m1, *map, set![TileKind::Floor.spec_to_u8()]);
            assert forall|j: int| 1 <= j < i + 1 && j < rooms@.len() implies corridor_dug(*map, rooms@[j - 1], #[trigger] rooms@[j]) by {
                if j < i {
                    assert(corridor_dug(m1, rooms@[j - 1], rooms@[j]));
                    assert forall|x2: int, y2: int| on_corridor(rooms@[j - 1], rooms@[j], x2, y2)
                        implies #[trigger] map.tile_at(x2, y2) == TileKind::Floor.spec_to_u8() by {
                        assert(m1.in_bounds(x2, y2));
                        assert(m1.tile_at(x2, y2) == TileKind::Floor.spec_to_u8());
                    }
                }
            }
        }
        i += 1;
    }
}

/// The tile numbers the dungeon's features lay.
pub open spec fn dungeon_feature_kinds() -> Set<u8> {
    set![TileKind::Pillar.spec_to_u8(), TileKind::Ruins.spec_to_u8(), TileKind::Water.spec_to_u8(), TileKind::Sand.spec_to_u8()]
}

/// Stone pillars on floor, patches of crumbled ruins, and one to three
/// underground pools: at least one pool's center is water.
#[verifier::loop_isolation(false)]
fn dungeon_features(map: &mut GameMap, rng: &mut StdRng)
    requires
        zone_ok(*old(map)),
    ensures
        zone_ok(*final(map)),
        final(map).name == old(map).name,
        changed_to(*old(map), *final(map), dungeon_feature_kinds()),
        exists|x: int, y: int|
            3 <= x < MAP_W - 3 && 3 <= y < MAP_H - 3 && #[trigger] final(map).tile_at(x, y)
                == TileKind::Water.spec_to_u8(),
{
    let zd = dungeon_draws();
    let w = MAP_W;
    let h = MAP_H;
    let ghost name = map.name;
    let ghost m0 = *map;
    let pillars = range_usize(rng, zd.pillars.0, zd.pillars.1);
    let mut i: usize = 0;
    while i < pillars
        invariant
            i <= pillars,
            zone_ok(*map),
            map.name == name,
            changed_to(m0, *map, dungeon_feature_kinds()),
        decreases pillars - i,
    {
        let px = range_i32(rng, zd.pillar_x.0, zd.pillar_x.1);
        let py = range_i32(rng, zd.pillar_y.0, zd.pillar_y.1);
        if map.get(px, py) == TileKind::Floor {
            map.set(px, py, TileKind::Pillar);
        }
        i += 1;
    }
    let ruins = range_usize(rng, zd.ruins.0, zd.ruins.1);
    let mut i: usize = 0;
    while i < ruins
        invariant
            i <= ruins,
            zone_ok(*map),
            map.name == name,
            changed_to(m0, *map, dungeon_feature_kinds()),
        decreases ruins - i,
    {
        let rx = range_i32(rng, zd.ruin_x.0, zd.ruin_x.1);
        let ry = range_i32(rng, zd.ruin_y.0, zd.ruin_y.1);
        let mut dy: i32 = -1;
        while dy <= 1
            invariant
                -1 <= dy <= 2,
                2 <= rx < w - 2,
                2 <= ry < h - 2,
                zone_ok(*map),
                map.name == name,
                changed_to(m0, *map, dungeon_feature_kinds()),
            decreases 2 - dy,
        {
            let mut dx: i32 = -1;
            while dx <= 1
                invariant
                    -1 <= dy <= 1,
                    -1 <= dx <= 2,
                    2 <= rx < w - 2,
                    2 <= ry < h - 2,
                    zone_ok(*map),
                    map.name == name,
                    changed_to(m0, *map, dungeon_feature_kinds()),
                decreases 2 - dx,
            {
                if map.get(rx + dx, ry + dy) == TileKind::Floor && chance(rng, zd.ruin.0, zd.ruin.1) {
                    map.set(rx + dx, ry + dy, TileKind::Ruins);
                }
                dx += 1;
            }
            dy += 1;
        }
        i += 1;
    }
    let pools = range_usize(rng, zd.pools.0, zd.pools.1);
    let ghost mut wx: int = 3;
    let ghost mut wy: int = 3;
    let mut i: usize = 0;
    while i < pools
        invariant
            i <= pools,
            1 <= pools,
            zone_ok(*map),
            map.name == name,
            changed_to(m0, *map, dungeon_feature_kinds()),
            3 <= wx < MAP_W - 3,
            3 <= wy < MAP_H - 3,
            i > 0 ==> map.tile_at(wx, wy) == TileKind::Water.spec_to_u8(),
        decreases pools - i,
    {
        let lx = range_i32(rng, zd.pool_x.0, zd.pool_x.1);
        let ly = range_i32(rng, zd.pool_y.0, zd.pool_y.1);
        let lr = range_i32(rng, zd.pool_radius.0, zd.pool_radius.1);
        let ghost m1 = *map;
        place_lake(map, rng, lx, ly, lr, w, h);
        proof {
            wx = lx as int;
            wy = ly as int;
            lemma_lake_changed(m1, *map, lx as int, ly as int, lr as int, w as int, h as int);
            lemma_changed_more(m1, *map, set![TileKind::Water.spec_to_u8(), TileKind::Sand.spec_to_u8()], dungeon_feature_kinds());
            lemma_changed_trans(m0, m1, *map, dungeon_feature_kinds());
        }
        i += 1;
    }
    assert(map.tile_at(wx, wy) == TileKind::Water.spec_to_u8());
}

/// The tile numbers a dungeon is made of.
pub open spec fn dungeon_kinds() -> Set<u8> {
    set![
        TileKind::Wall.spec_to_u8(),
        TileKind::Floor.spec_to_u8(),
        TileKind::Pillar.spec_to_u8(),
        TileKind::Ruins.spec_to_u8(),
        TileKind::Water.spec_to_u8(),
        TileKind::Sand.spec_to_u8(),
    ]
}

/// No tile of room `r` is rock.
pub open spec fn room_open(m: GameMap, r: (i32, i32, i32, i32)) -> bool {
    forall|x: int, y: int|
        r.0 <= x < r.0 + r.2 && r.1 <= y < r.1 + r.3 ==> #[trigger] m.tile_at(x, y) != TileKind::Wall.spec_to_u8()
}

/// Eight to thirteen rooms inside the map, none of whose tiles is rock.
pub open spec fn rooms_open(m: GameMap, rooms: Seq<(i32, i32, i32, i32)>) -> bool {
    &&& 8 <= rooms.len() < 14
    &&& rooms_ok(rooms)
    &&& forall|i: int| 0 <= i < rooms.len() ==> room_open(m, #[trigger] rooms[i])
}

/// What every dungeon holds: only rock, floor, pillars, ruins, water and
/// sand; eight to thirteen open rooms; and a pool whose center is water.
pub open spec fn dungeon_shape(m: GameMap) -> bool {
    &&& tiles_among(m, dungeon_kinds())
    &&& exists|rooms: Seq<(i32, i32, i32, i32)>| #[trigger] rooms_open(m, rooms)
    &&& exists|x: int, y: int| 3 <= x < MAP_W - 3 && 3 <= y < MAP_H - 3 && #[trigger] m.tile_at(x, y) == TileKind::Water.spec_to_u8()
}

/// A dungeon: solid rock with rooms, corridors, pillars, ruins and pools,
/// named "Dungeon".
pub fn generate_dungeon(rng: &mut StdRng) -> (r: GameMap)
    ensures
        zone_ok(r),
        r.name@ == "Dungeon"@,
        dungeon_shape(r),
{
    assert(MAP_W * MAP_H <= i32::MAX);
    let mut map = GameMap::new(MAP_W, MAP_H);
    fill(&mut map, TileKind::Wall);
    let ghost m0 = map;
    assert(tiles_among(m0, dungeon_kinds()));
    let rooms = dungeon_rooms(&mut map, rng);
    let ghost m1 = map;
    dungeon_corridors(&mut map, &rooms);
    let ghost m2 = map;
    dungeon_features(&mut map, rng);
    let ghost m3 = map;
    proof {
        lemma_tiles_among_kept(m0, m1, dungeon_kinds(), set![TileKind::Floor.spec_to_u8()]);
        lemma_tiles_among_kept(m1, m2, dungeon_kinds(), set![TileKind::Floor.spec_to_u8()]);
        lemma_tiles_among_kept(m2, m3, dungeon_kinds(), dungeon_feature_kinds());
        lemma_changed_keeps(m1, m2, TileKind::Floor.spec_to_u8());
        assert forall|i: int| 0 <= i < rooms@.len() implies room_open(m3, #[trigger] rooms@[i]) by {
            assert(room_carved(m1, rooms@[i]));
            assert forall|x: int, y: int|
                rooms@[i].0 <= x < rooms@[i].0 + rooms@[i].2 && rooms@[i].1 <= y < rooms@[i].1 + rooms@[i].3
                implies #[trigger] m3.tile_at(x, y) != TileKind::Wall.spec_to_u8() by {
                assert(m1.in_bounds(x, y));
                assert(m1.tile_at(x, y) == TileKind::Floor.spec_to_u8());
                assert(m2.tile_at(x, y) == TileKind::Floor.spec_to_u8());
                assert(m3.tile_at(x, y) == m2.tile_at(x, y) || dungeon_feature_kinds().contains(m3.tile_at(x, y)));
            }
        }
        assert(rooms_open(m3, rooms@));
    }
    let ghost before = map;
    map.name = String::from_str("Dungeon");
    proof {
        lemma_same_tiles(before, map);
        assert(rooms_open(map, rooms@));
        let (wx, wy) = choose|x: int, y: int| 3 <= x < MAP_W - 3 && 3 <= y < MAP_H - 3 && #[trigger] before.tile_at(x, y)
            == TileKind::Water.spec_to_u8();
        assert(map.tile_at(wx, wy) == TileKind::Water.spec_to_u8());
    }
    map
}

pub open spec fn desert_ok(m: GameMap) -> bool {
    zone_ok(m) && center_is_road(m)
}

/// The tile numbers the desert's features lay.
pub open spec fn desert_feature_kinds() -> Set<u8> {
    set![
        TileKind::Wall.spec_to_u8(),
        TileKind::Water.spec_to_u8(),
        TileKind::Sand.spec_to_u8(),
        TileKind::Grass.spec_to_u8(),
        TileKind::Lava.spec_to_u8(),
    ]
}

/// Rock formations, oases with grass rings, and lava vents: at least one
/// oasis's center is water.
#[verifier::loop_isolation(false)]
fn desert_features(map: &mut GameMap, rng: &mut StdRng)
    requires
        zone_ok(*old(map)),
    ensures
        zone_ok(*final(map)),
        final(map).name == old(map).name,
        changed_to(*old(map), *final(map), desert_feature_kinds()),
        exists|x: int, y: int|
            5 <= x < MAP_W - 5 && 5 <= y < MAP_H - 5 && #[trigger] final(map).tile_at(x, y)
                == TileKind::Water.spec_to_u8(),
{
    let zd = desert_draws();
    let w = MAP_W;
    let h = MAP_H;
    let ghost name = map.name;
    let ghost m0 = *map;
    let ghost mut wx: int = 5;
    let ghost mut wy: int = 5;
    let rocks = range_usize(rng, zd.rocks.0, zd.rocks.1);
    let mut i: usize = 0;
    while i < rocks
        invariant
            i <= rocks,
            zone_ok(*map),
            map.name == name,
            changed_to(m0, *map, desert_feature_kinds()),
        decreases rocks - i,
    {
        let rx = range_i32(rng, zd.rock_x.0, zd.rock_x.1);
        let ry = range_i32(rng, zd.rock_y.0, zd.rock_y.1);
        let rr = range_i32(rng, zd.rock_radius.0, zd.rock_radius.1);
        let mut dy: i32 = -rr;
        while dy <= rr
            invariant
                1 <= rr < 4,
                3 <= rx < w - 3,
                3 <= ry < h - 3,
                -rr <= dy <= rr + 1,
                zone_ok(*map),
                map.name == name,
                changed_to(m0, *map, desert_feature_kinds()),
            changed_to(m0, *map, desert_feature_kinds()),
            decreases rr + 1 - dy,
        {
            let mut dx: i32 = -rr;
            while dx <= rr
                invariant
                    1 <= rr < 4,
                    3 <= rx < w - 3,
                    3 <= ry < h - 3,
                    -rr <= dy <= rr,
                    -rr <= dx <= rr + 1,
                    zone_ok(*map),
                    map.name == name,
                    changed_to(m0, *map, desert_feature_kinds()),
                changed_to(m0, *map, desert_feature_kinds()),
            changed_to(m0, *map, desert_feature_kinds()),
                decreases rr + 1 - dx,
            {
                assert(0 <= dx * dx <= 16 && 0 <= dy * dy <= 16 && 0 <= rr * rr <= 16) by (nonlinear_arith)
                    requires -4 <= dx <= 4, -4 <= dy <= 4, 1 <= rr <= 4;
                if dx * dx + dy * dy <= rr * rr && chance(rng, zd.rock.0, zd.rock.1) {
                    map.set(rx + dx, ry + dy, TileKind::Wall);
                }
                dx += 1;
            }
            dy += 1;
        }
        i += 1;
    }
    let num_oasis = range_usize(rng, zd.oases.0, zd.oases.1);
    let mut i: usize = 0;
    while i < num_oasis
        invariant
            i <= num_oasis,
            1 <= num_oasis,
            5 <= wx < MAP_W - 5,
            5 <= wy < MAP_H - 5,
            i > 0 ==> map.tile_at(wx, wy) == TileKind::Water.spec_to_u8(),
            zone_ok(*map),
            map.name == name,
            changed_to(m0, *map, desert_feature_kinds()),
        decreases num_oasis - i,
    {
        let ox = range_i32(rng, zd.oasis_x.0, zd.oasis_x.1);
        let oy = range_i32(rng, zd.oasis_y.0, zd.oasis_y.1);
        let or_ = range_i32(rng, zd.oasis_radius.0, zd.oasis_radius.1);
        let ghost m1 = *map;
        place_lake(map, rng, ox, oy, or_, w, h);
        proof {
            wx = ox as int;
            wy = oy as int;
            lemma_lake_changed(m1, *map, ox as int, oy as int, or_ as int, w as int, h as int);
            lemma_changed_more(m1, *map, set![TileKind::Water.spec_to_u8(), TileKind::Sand.spec_to_u8()], desert_feature_kinds());
            lemma_changed_trans(m0, m1, *map, desert_feature_kinds());
        }
        let mut dy: i32 = -(or_ + 2);
        while dy <= or_ + 2
            invariant
                2 <= or_ < 5,
                5 <= wx < MAP_W - 5,
                5 <= wy < MAP_H - 5,
                map.tile_at(wx, wy) == TileKind::Water.spec_to_u8(),
                5 <= ox < w - 5,
                5 <= oy < h - 5,
                -(or_ + 2) <= dy <= or_ + 3,
                zone_ok(*map),
                map.name == name,
                changed_to(m0, *map, desert_feature_kinds()),
            changed_to(m0, *map, desert_feature_kinds()),
            decreases or_ + 3 - dy,
        {
            let mut dx: i32 = -(or_ + 2);
            while dx <= or_ + 2
                invariant
                    2 <= or_ < 5,
                    5 <= wx < MAP_W - 5,
                    5 <= wy < MAP_H - 5,
                    map.tile_at(wx, wy) == TileKind::Water.spec_to_u8(),
                5 <= wx < MAP_W - 5,
                5 <= wy < MAP_H - 5,
                map.tile_at(wx, wy) == TileKind::Water.spec_to_u8(),
                    5 <= ox < w - 5,
                    5 <= oy < h - 5,
                    -(or_ + 2) <= dy <= or_ + 2,
                    -(or_ + 2) <= dx <= or_ + 3,
                    zone_ok(*map),
                    map.name == name,
                    changed_to(m0, *map, desert_feature_kinds()),
                changed_to(m0, *map, desert_feature_kinds()),
            changed_to(m0, *map, desert_feature_kinds()),
                decreases or_ + 3 - dx,
            {
                let x = ox + dx;
                let y = oy + dy;
                if x > 0 && y > 0 && x < w - 1 && y < h - 1 && map.get(x, y) == TileKind::Sand {
                    assert(0 <= dx * dx <= 49 && 0 <= dy * dy <= 49 && 0 <= (or_ + 2) * (or_ + 2) <= 49)
                        by (nonlinear_arith)
                        requires -7 <= dx <= 7, -7 <= dy <= 7, 2 <= or_ <= 5;
                    if dx * dx + dy * dy <= (or_ + 2) * (or_ + 2) {
                        map.set(x, y, TileKind::Grass);
                    }
                }
                dx += 1;
            }
            dy += 1;
        }
        i += 1;
    }
    let vents = range_usize(rng, zd.vents.0, zd.vents.1);
    let mut i: usize = 0;
    while i < vents
        invariant
            i <= vents,
            5 <= wx < MAP_W - 5,
            5 <= wy < MAP_H - 5,
            map.tile_at(wx, wy) == TileKind::Water.spec_to_u8(),
            zone_ok(*map),
            map.name == name,
            changed_to(m0, *map, desert_feature_kinds()),
        decreases vents - i,
    {
        let lx = range_i32(rng, zd.vent_x.0, zd.vent_x.1);
        let ly = range_i32(rng, zd.vent_y.0, zd.vent_y.1);
        let mut dy: i32 = -1;
        while dy <= 1
            invariant
                -1 <= dy <= 2,
                3 <= lx < w - 3,
                3 <= ly < h - 3,
                5 <= wx < MAP_W - 5,
                5 <= wy < MAP_H - 5,
                map.tile_at(wx, wy) == TileKind::Water.spec_to_u8(),
                zone_ok(*map),
                map.name == name,
                changed_to(m0, *map, desert_feature_kinds()),
            changed_to(m0, *map, desert_feature_kinds()),
            decreases 2 - dy,
        {
            let mut dx: i32 = -2;
            while dx <= 2
                invariant
                    -1 <= dy <= 1,
                    -2 <= dx <= 3,
                    3 <= lx < w - 3,
                    3 <= ly < h - 3,
                    5 <= wx < MAP_W - 5,
                    5 <= wy < MAP_H - 5,
                    map.tile_at(wx, wy) == TileKind::Water.spec_to_u8(),
                    zone_ok(*map),
                    map.name == name,
                    changed_to(m0, *map, desert_feature_kinds()),
                changed_to(m0, *map, desert_feature_kinds()),
            changed_to(m0, *map, desert_feature_kinds()),
                decreases 3 - dx,
            {
                let x = lx + dx;
                let y = ly + dy;
                if x > 0 && y > 0 && x < w - 1 && y < h - 1 && map.get(x, y) == TileKind::Sand && chance(
                    rng,
                    zd.lava.0,
                    zd.lava.1,
                ) {
                    map.set(x, y, TileKind::Lava);
                }
                dx += 1;
            }
            dy += 1;
        }
        i += 1;
    }
    assert(map.tile_at(wx, wy) == TileKind::Water.spec_to_u8());
}

/// The tile numbers a desert is made of.
pub open spec fn desert_kinds() -> Set<u8> {
    set![
        TileKind::Sand.spec_to_u8(),
        TileKind::Wall.spec_to_u8(),
        TileKind::Water.spec_to_u8(),
        TileKind::Grass.spec_to_u8(),
        TileKind::Lava.spec_to_u8(),
        TileKind::Road.spec_to_u8(),
        TileKind::Floor.spec_to_u8(),
    ]
}

/// What every desert holds: only sand, rock, water, grass, lava, road and
/// floor, and the walled outpost of radius 5 in the center.
pub open spec fn desert_shape(m: GameMap) -> bool {
    &&& tiles_among(m, desert_kinds())
    &&& compound_at(m, MAP_W / 2, MAP_H / 2, 5)
}

/// A desert: sand with walled borders, rock formations, oases, lava vents
/// and a walled outpost in the center with a road heading east, named
/// "Desert".
#[verifier::loop_isolation(false)]
pub fn generate_desert(rng: &mut StdRng) -> (r: GameMap)
    ensures
        desert_ok(r),
        r.name@ == "Desert"@,
        desert_shape(r),
{
    let w = MAP_W;
    let h = MAP_H;
    assert(MAP_W * MAP_H <= i32::MAX);
    let mut map = GameMap::new(w, h);
    fill(&mut map, TileKind::Sand);
    let ghost m0 = map;
    assert(tiles_among(m0, desert_kinds()));
    wall_border(&mut map);
    let ghost m1 = map;
    proof { lemma_border_among(m0, m1, desert_kinds()); }
    desert_features(&mut map, rng);
    let ghost m2 = map;
    proof { lemma_tiles_among_kept(m1, m2, desert_kinds(), desert_feature_kinds()); }
    let cx = w / 2;
    let cy = h / 2;
    place_walled_area(&mut map, cx, cy, 5);
    proof {
        lemma_walled_changed(m2, map, cx as int, cy as int, 5);
        lemma_tiles_among_kept(
            m2,
            map,
            desert_kinds(),
            set![TileKind::Road.spec_to_u8(), TileKind::Wall.spec_to_u8(), TileKind::Floor.spec_to_u8()],
        );
    }
    let mut x: i32 = cx + 6;
    while x < w - 1
        invariant
            cx + 6 <= x <= w - 1,
            desert_ok(map),
            map.name@ == "World"@,
            desert_shape(map),
        decreases w - 1 - x,
    {
        if map.get(x, cy) == TileKind::Sand {
            map.set(x, cy, TileKind::Road);
        }
        x += 1;
    }
    let ghost before = map;
    map.name = String::from_str("Desert");
    proof {
        lemma_same_tiles(before, map);
        lemma_compound_same_tiles(before, map, MAP_W / 2, MAP_H / 2, 5);
    }
    map
}

/// Clearings of the forest: `(x, y, radius)`.
pub open spec fn clearings_ok(c: Seq<(i32, i32, i32)>) -> bool {
    forall|i: int| 0 <= i < c.len() ==> {
        &&& 8 <= (#[trigger] c[i]).0 < MAP_W - 8
        &&& 6 <= c[i].1 < MAP_H - 6
        &&& 4 <= c[i].2 < 8
    }
}

pub open spec fn in_clearing(c: (i32, i32, i32), x: int, y: int) -> bool {
    (x - c.0) * (x - c.0) + (y - c.1) * (y - c.1) <= c.2 * c.2
}

fn in_any_clearing(clearings: &Vec<(i32, i32, i32)>, x: i32, y: i32) -> (r: bool)
    requires
        clearings_ok(clearings@),
        0 <= x < MAP_W,
        0 <= y < MAP_H,
    ensures
        r == exists|i: int| 0 <= i < clearings@.len() && in_clearing(#[trigger] clearings@[i], x as int, y as int),
{
    let mut i: usize = 0;
    while i < clearings.len()
        invariant
            clearings_ok(clearings@),
            0 <= x < MAP_W,
            0 <= y < MAP_H,
            i <= clearings@.len(),
            forall|j: int| 0 <= j < i ==> !in_clearing(#[trigger] clearings@[j], x as int, y as int),
        decreases clearings.len() - i,
    {
        let (cx, cy, cr) = clearings[i];
        let ddx = x - cx;
        let ddy = y - cy;
        assert(0 <= ddx * ddx <= 6400 && 0 <= ddy * ddy <= 2500 && 0 <= cr * cr <= 64) by (nonlinear_arith)
            requires -80 <= ddx <= 80, -50 <= ddy <= 50, 0 <= cr <= 8;
        if ddx * ddx + ddy * ddy <= cr * cr {
            return true;
        }
        i += 1;
    }
    false
}

/// The tile numbers the forest's features lay.
pub open spec fn forest_feature_kinds() -> Set<u8> {
    set![
        TileKind::Tree.spec_to_u8(),
        TileKind::Water.spec_to_u8(),
        TileKind::Road.spec_to_u8(),
        TileKind::Wall.spec_to_u8(),
        TileKind::Floor.spec_to_u8(),
        TileKind::Bramble.spec_to_u8(),
    ]
}

/// Trees on roughly 72% of the tiles outside the clearings, a stream from
/// the top border down to the first clearing's row, a ranger outpost in the
/// middle clearing, and bramble patches.
#[verifier::loop_isolation(false)]
fn forest_features(map: &mut GameMap, rng: &mut StdRng, clearings: &Vec<(i32, i32, i32)>)
    requires
        zone_ok(*old(map)),
        clearings_ok(clearings@),
    ensures
        zone_ok(*final(map)),
        final(map).name == old(map).name,
        changed_to(*old(map), *final(map), forest_feature_kinds()),
        clearings@.len() > 0 ==> compound_at(
            *final(map),
            clearings@[(clearings@.len() / 2) as int].0 as int,
            clearings@[(clearings@.len() / 2) as int].1 as int,
            3,
        ),
{
    let zd = forest_draws();
    let w = MAP_W;
    let h = MAP_H;
    let ghost name = map.name;
    let ghost m0 = *map;
    let mut y: i32 = 1;
    while y < h - 1
        invariant
            1 <= y <= h - 1,
            zone_ok(*map),
            map.name == name,
            changed_to(m0, *map, forest_feature_kinds()),
        decreases h - 1 - y,
    {
        let mut x: i32 = 1;
        while x < w - 1
            invariant
                1 <= y < h - 1,
                1 <= x <= w - 1,
                zone_ok(*map),
                map.name == name,
                changed_to(m0, *map, forest_feature_kinds()),
            decreases w - 1 - x,
        {
            let inside = in_any_clearing(clearings, x, y);
            if !inside && chance(rng, zd.trees.0, zd.trees.1) {
                map.set(x, y, TileKind::Tree);
            }
            x += 1;
        }
        y += 1;
    }
    if clearings.len() > 0 {
        let (_cx, cy, _cr) = clearings[0];
        let mut rx: i32 = 2;
        let mut y: i32 = 1;
        while y < cy
            invariant
                1 <= y <= cy || cy < 1,
                6 <= cy < h - 6,
                2 <= rx <= w - 3,
                zone_ok(*map),
                map.name == name,
                changed_to(m0, *map, forest_feature_kinds()),
            decreases cy - y,
        {
            map.set(rx, y, TileKind::Water);
            if chance(rng, zd.stream_drift.0, zd.stream_drift.1) {
                let d = range_incl_i32(rng, -zd.stream_step, zd.stream_step);
                rx = clamp_i32(rx + d, 2, w - 3);
            }
            y += 1;
        }
    }
    let mid = clearings.len() / 2;
    let ghost gcx: int = if mid < clearings.len() { clearings@[mid as int].0 as int } else { 0 };
    let ghost gcy: int = if mid < clearings.len() { clearings@[mid as int].1 as int } else { 0 };
    if mid < clearings.len() {
        let (cx, cy, _cr) = clearings[mid];
        let ghost m1 = *map;
        place_walled_area(map, cx, cy, 3);
        proof {
            lemma_walled_changed(m1, *map, cx as int, cy as int, 3);
            lemma_changed_more(
                m1,
                *map,
                set![TileKind::Road.spec_to_u8(), TileKind::Wall.spec_to_u8(), TileKind::Floor.spec_to_u8()],
                forest_feature_kinds(),
            );
            lemma_changed_trans(m0, m1, *map, forest_feature_kinds());
        }
    }
    let patches = range_usize(rng, zd.patches.0, zd.patches.1);
    let mut i: usize = 0;
    while i < patches
        invariant
            i <= patches,
            zone_ok(*map),
            map.name == name,
            changed_to(m0, *map, forest_feature_kinds()),
            mid < clearings@.len() ==> compound_at(*map, gcx, gcy, 3),
        decreases patches - i,
    {
        let bx = range_i32(rng, zd.patch_x.0, zd.patch_x.1);
        let by = range_i32(rng, zd.patch_y.0, zd.patch_y.1);
        let mut dy: i32 = -1;
        while dy <= 1
            invariant
                -1 <= dy <= 2,
                2 <= bx < w - 2,
                2 <= by < h - 2,
                zone_ok(*map),
                map.name == name,
                changed_to(m0, *map, forest_feature_kinds()),
                mid < clearings@.len() ==> compound_at(*map, gcx, gcy, 3),
            decreases 2 - dy,
        {
            let mut dx: i32 = -1;
            while dx <= 1
                invariant
                    -1 <= dy <= 1,
                    -1 <= dx <= 2,
                    2 <= bx < w - 2,
                    2 <= by < h - 2,
                    zone_ok(*map),
                    map.name == name,
                    changed_to(m0, *map, forest_feature_kinds()),
                    mid < clearings@.len() ==> compound_at(*map, gcx, gcy, 3),
                decreases 2 - dx,
            {
                let x = bx + dx;
                let y = by + dy;
                if x > 0 && y > 0 && x < w - 1 && y < h - 1 && map.get(x, y) == TileKind::Grass && chance(
                    rng,
                    zd.bramble.0,
                    zd.bramble.1,
                ) {
                    map.set(x, y, TileKind::Bramble);
                }
                dx += 1;
            }
            dy += 1;
        }
        i += 1;
    }
    let mut i: usize = 1;
    while i < clearings.len()
        invariant
            1 <= i <= clearings@.len() || clearings@.len() == 0,
            zone_ok(*map),
            map.name == name,
            changed_to(m0, *map, forest_feature_kinds()),
            mid < clearings@.len() ==> compound_at(*map, gcx, gcy, 3),
        decreases clearings.len() - i,
    {
        let (ax, ay, _ar) = clearings[i - 1];
        let (bx, by, _br) = clearings[i];
        let ghost m1 = *map;
        draw_path(map, ax, ay, bx, by);
        proof {
            lemma_path_changed(m1, *map, ax as int, ay as int, bx as int, by as int);
            lemma_changed_more(m1, *map, set![TileKind::Road.spec_to_u8()], forest_feature_kinds());
            lemma_changed_trans(m0, m1, *map, forest_feature_kinds());
            if mid < clearings@.len() {
                lemma_compound_kept(m1, *map, gcx, gcy, 3, set![TileKind::Road.spec_to_u8()]);
            }
        }
        i += 1;
    }
}

/// The tile numbers a forest is made of.
pub open spec fn forest_kinds() -> Set<u8> {
    set![
        TileKind::Grass.spec_to_u8(),
        TileKind::Wall.spec_to_u8(),
        TileKind::Tree.spec_to_u8(),
        TileKind::Water.spec_to_u8(),
        TileKind::Road.spec_to_u8(),
        TileKind::Floor.spec_to_u8(),
        TileKind::Bramble.spec_to_u8(),
    ]
}

/// Where a clearing's center lies.
pub open spec fn clearing_spot(x: int, y: int) -> bool {
    8 <= x < MAP_W - 8 && 6 <= y < MAP_H - 6
}

/// What every forest holds: only grass, rock, trees, water, road, floor and
/// brambles, and a ranger outpost of radius 3 standing whole in a clearing.
pub open spec fn forest_shape(m: GameMap) -> bool {
    &&& tiles_among(m, forest_kinds())
    &&& exists|x: int, y: int| #[trigger] clearing_spot(x, y) && compound_at(m, x, y, 3)
}

/// A forest: dense trees with walled borders, three to six clearings joined
/// by paths, a stream, an outpost and brambles, named "Forest".
#[verifier::loop_isolation(false)]
pub fn generate_forest(rng: &mut StdRng) -> (r: GameMap)
    ensures
        zone_ok(r),
        r.name@ == "Forest"@,
        forest_shape(r),
{
    let zd = forest_draws();
    let w = MAP_W;
    let h = MAP_H;
    let mut map = walled_grass(w, h);
    let ghost m0 = map;
    assert forall|x: int, y: int| m0.in_bounds(x, y) implies forest_kinds().contains(#[trigger] m0.tile_at(x, y)) by {
        if m0.is_border(x, y) {
            assert(m0.tile_at(x, y) == TileKind::Wall.spec_to_u8());
        } else {
            assert(m0.tile_at(x, y) == 0);
        }
    }
    let clearing_count = range_usize(rng, zd.clearings.0, zd.clearings.1);
    let mut clearings: Vec<(i32, i32, i32)> = Vec::new();
    let mut i: usize = 0;
    while i < clearing_count
        invariant
            i <= clearing_count,
            clearings@.len() == i,
            clearings_ok(clearings@),
        decreases clearing_count - i,
    {
        let a = range_i32(rng, zd.clearing_x.0, zd.clearing_x.1);
        let b = range_i32(rng, zd.clearing_y.0, zd.clearing_y.1);
        let c = range_i32(rng, zd.clearing_radius.0, zd.clearing_radius.1);
        clearings.push((a, b, c));
        i += 1;
    }
    forest_features(&mut map, rng, &clearings);
    let ghost m1 = map;
    let ghost mid = (clearings@.len() / 2) as int;
    proof {
        lemma_tiles_among_kept(m0, m1, forest_kinds(), forest_feature_kinds());
        assert(clearing_spot(clearings@[mid].0 as int, clearings@[mid].1 as int));
    }
    let ghost before = map;
    map.name = String::from_str("Forest");
    proof {
        lemma_same_tiles(before, map);
        lemma_compound_same_tiles(before, map, clearings@[mid].0 as int, clearings@[mid].1 as int, 3);
    }
    map
}

/// The tile numbers the swamp's features lay.
pub open spec fn swamp_feature_kinds() -> Set<u8> {
    set![
        TileKind::Water.spec_to_u8(),
        TileKind::Sand.spec_to_u8(),
        TileKind::Tree.spec_to_u8(),
        TileKind::Mud.spec_to_u8(),
        TileKind::Bramble.spec_to_u8(),
    ]
}

/// Pools, dead trees, mud, brambles: at least one pool's center is water.
#[verifier::loop_isolation(false)]
fn swamp_features(map: &mut GameMap, rng: &mut StdRng)
    requires
        zone_ok(*old(map)),
    ensures
        zone_ok(*final(map)),
        final(map).name == old(map).name,
        changed_to(*old(map), *final(map), swamp_feature_kinds()),
        exists|x: int, y: int|
            3 <= x < MAP_W - 3 && 3 <= y < MAP_H - 3 && #[trigger] final(map).tile_at(x, y)
                == TileKind::Water.spec_to_u8(),
{
    let zd = swamp_draws();
    let w = MAP_W;
    let h = MAP_H;
    let ghost name = map.name;
    let ghost m0 = *map;
    let ghost mut wx: int = 3;
    let ghost mut wy: int = 3;
    let pools = range_usize(rng, zd.pools.0, zd.pools.1);
    let mut i: usize = 0;
    while i < pools
        invariant
            i <= pools,
            5 <= pools,
            zone_ok(*map),
            map.name == name,
            changed_to(m0, *map, swamp_feature_kinds()),
            3 <= wx < MAP_W - 3,
            3 <= wy < MAP_H - 3,
            i > 0 ==> map.tile_at(wx, wy) == TileKind::Water.spec_to_u8(),
        decreases pools - i,
    {
        let lx = range_i32(rng, zd.pool_x.0, zd.pool_x.1);
        let ly = range_i32(rng, zd.pool_y.0, zd.pool_y.1);
        let lr = range_i32(rng, zd.pool_radius.0, zd.pool_radius.1);
        let ghost m1 = *map;
        place_lake(map, rng, lx, ly, lr, w, h);
        proof {
            wx = lx as int;
            wy = ly as int;
            lemma_lake_changed(m1, *map, lx as int, ly as int, lr as int, w as int, h as int);
            lemma_changed_more(m1, *map, set![TileKind::Water.spec_to_u8(), TileKind::Sand.spec_to_u8()], swamp_feature_kinds());
            lemma_changed_trans(m0, m1, *map, swamp_feature_kinds());
        }
        i += 1;
    }
    let trees = range_usize(rng, zd.trees.0, zd.trees.1);
    let mut i: usize = 0;
    while i < trees
        invariant
            i <= trees,
            zone_ok(*map),
            map.name == name,
            changed_to(m0, *map, swamp_feature_kinds()),
            3 <= wx < MAP_W - 3,
            3 <= wy < MAP_H - 3,
            map.tile_at(wx, wy) == TileKind::Water.spec_to_u8(),
        decreases trees - i,
    {
        let tx = range_i32(rng, zd.tree_x.0, zd.tree_x.1);
        let ty = range_i32(rng, zd.tree_y.0, zd.tree_y.1);
        grass_to(map, tx, ty, TileKind::Tree);
        i += 1;
    }
    let muds = range_usize(rng, zd.muds.0, zd.muds.1);
    let mut i: usize = 0;
    while i < muds
        invariant
            i <= muds,
            zone_ok(*map),
            map.name == name,
            changed_to(m0, *map, swamp_feature_kinds()),
            3 <= wx < MAP_W - 3,
            3 <= wy < MAP_H - 3,
            map.tile_at(wx, wy) == TileKind::Water.spec_to_u8(),
        decreases muds - i,
    {
        let mx2 = range_i32(rng, zd.mud_x.0, zd.mud_x.1);
        let my2 = range_i32(rng, zd.mud_y.0, zd.mud_y.1);
        let mut dy: i32 = -2;
        while dy <= 2
            invariant
                -2 <= dy <= 3,
                2 <= mx2 < w - 2,
                2 <= my2 < h - 2,
                zone_ok(*map),
                map.name == name,
                changed_to(m0, *map, swamp_feature_kinds()),
                3 <= wx < MAP_W - 3,
                3 <= wy < MAP_H - 3,
                map.tile_at(wx, wy) == TileKind::Water.spec_to_u8(),
            decreases 3 - dy,
        {
            let mut dx: i32 = -2;
            while dx <= 2
                invariant
                    -2 <= dy <= 2,
                    -2 <= dx <= 3,
                    2 <= mx2 < w - 2,
                    2 <= my2 < h - 2,
                    zone_ok(*map),
                    map.name == name,
                    changed_to(m0, *map, swamp_feature_kinds()),
                    3 <= wx < MAP_W - 3,
                    3 <= wy < MAP_H - 3,
                    map.tile_at(wx, wy) == TileKind::Water.spec_to_u8(),
                decreases 3 - dx,
            {
                let x = mx2 + dx;
                let y = my2 + dy;
                if x > 0 && y > 0 && x < w - 1 && y < h - 1 && map.get(x, y) == TileKind::Grass && chance(
                    rng,
                    zd.mud.0,
                    zd.mud.1,
                ) {
                    map.set(x, y, TileKind::Mud);
                }
                dx += 1;
            }
            dy += 1;
        }
        i += 1;
    }
    let thickets = range_usize(rng, zd.thickets.0, zd.thickets.1);
    let mut i: usize = 0;
    while i < thickets
        invariant
            i <= thickets,
            zone_ok(*map),
            map.name == name,
            changed_to(m0, *map, swamp_feature_kinds()),
            3 <= wx < MAP_W - 3,
            3 <= wy < MAP_H - 3,
            map.tile_at(wx, wy) == TileKind::Water.spec_to_u8(),
        decreases thickets - i,
    {
        let bx = range_i32(rng, zd.thicket_x.0, zd.thicket_x.1);
        let by = range_i32(rng, zd.thicket_y.0, zd.thicket_y.1);
        let mut dy: i32 = -1;
        while dy <= 1
            invariant
                -1 <= dy <= 2,
                2 <= bx < w - 2,
                2 <= by < h - 2,
                zone_ok(*map),
                map.name == name,
                changed_to(m0, *map, swamp_feature_kinds()),
                3 <= wx < MAP_W - 3,
                3 <= wy < MAP_H - 3,
                map.tile_at(wx, wy) == TileKind::Water.spec_to_u8(),
            decreases 2 - dy,
        {
            let mut dx: i32 = -1;
            while dx <= 1
                invariant
                    -1 <= dy <= 1,
                    -1 <= dx <= 2,
                    2 <= bx < w - 2,
                    2 <= by < h - 2,
                    zone_ok(*map),
                    map.name == name,
                    changed_to(m0, *map, swamp_feature_kinds()),
                    3 <= wx < MAP_W - 3,
                    3 <= wy < MAP_H - 3,
                    map.tile_at(wx, wy) == TileKind::Water.spec_to_u8(),
                decreases 2 - dx,
            {
                let x = bx + dx;
                let y = by + dy;
                if x > 0 && y > 0 && x < w - 1 && y < h - 1 {
                    let t = map.get(x, y);
                    if (t == TileKind::Grass || t == TileKind::Mud) && chance(rng, zd.thicket.0, zd.thicket.1) {
                        map.set(x, y, TileKind::Bramble);
                    }
                }
                dx += 1;
            }
            dy += 1;
        }
        i += 1;
    }
    assert(map.tile_at(wx, wy) == TileKind::Water.spec_to_u8());
}

/// The ground a swamp starts from: grass, water and sand.
pub open spec fn swamp_ground() -> Set<u8> {
    set![TileKind::Grass.spec_to_u8(), TileKind::Water.spec_to_u8(), TileKind::Sand.spec_to_u8()]
}

/// The tile numbers a swamp is made of.
pub open spec fn swamp_kinds() -> Set<u8> {
    set![
        TileKind::Grass.spec_to_u8(),
        TileKind::Water.spec_to_u8(),
        TileKind::Sand.spec_to_u8(),
        TileKind::Wall.spec_to_u8(),
        TileKind::Tree.spec_to_u8(),
        TileKind::Mud.spec_to_u8(),
        TileKind::Bramble.spec_to_u8(),
        TileKind::Road.spec_to_u8(),
        TileKind::Floor.spec_to_u8(),
    ]
}

/// What every swamp holds: only grass, water, sand, rock, trees, mud,
/// brambles, road and floor, and the ruined outpost of radius 4 in the
/// center.
pub open spec fn swamp_shape(m: GameMap) -> bool {
    &&& tiles_among(m, swamp_kinds())
    &&& compound_at(m, MAP_W / 2, MAP_H / 2, 4)
}

/// A swamp: a random mix of grass, water and sand with walled borders,
/// pools, dead trees, mud, brambles and a ruined outpost in the center,
/// named "Swamp".
#[verifier::loop_isolation(false)]
pub fn generate_swamp(rng: &mut StdRng) -> (r: GameMap)
    ensures
        desert_ok(r),
        r.name@ == "Swamp"@,
        swamp_shape(r),
{
    let zd = swamp_draws();
    let w = MAP_W;
    let h = MAP_H;
    assert(MAP_W * MAP_H <= i32::MAX);
    let mut map = GameMap::new(w, h);
    let mut y: i32 = 0;
    while y < h
        invariant
            0 <= y <= h,
            map.wf(),
            map.width == MAP_W,
            map.height == MAP_H,
            map.name@ == "World"@,
            forall|x2: int, y2: int|
                map.in_bounds(x2, y2) && y2 < y ==> swamp_ground().contains(#[trigger] map.tile_at(x2, y2)),
        decreases h - y,
    {
        let mut x: i32 = 0;
        while x < w
            invariant
                0 <= y < h,
                0 <= x <= w,
                map.wf(),
                map.width == MAP_W,
                map.height == MAP_H,
                map.name@ == "World"@,
                forall|x2: int, y2: int|
                    map.in_bounds(x2, y2) && (y2 < y || (y2 == y && x2 < x)) ==> swamp_ground().contains(
                        #[trigger] map.tile_at(x2, y2),
                    ),
            decreases w - x,
        {
            let roll = range_u8(rng, zd.ground.0, zd.ground.1);
            let t = if roll <= 3 {
                TileKind::Grass
            } else if roll <= 5 {
                TileKind::Water
            } else if roll <= 7 {
                TileKind::Sand
            } else {
                TileKind::Grass
            };
            map.set(x, y, t);
            x += 1;
        }
        y += 1;
    }
    let ghost m0 = map;
    assert(tiles_among(m0, swamp_kinds()));
    wall_border(&mut map);
    let ghost m1 = map;
    proof { lemma_border_among(m0, m1, swamp_kinds()); }
    swamp_features(&mut map, rng);
    let ghost m2 = map;
    proof { lemma_tiles_among_kept(m1, m2, swamp_kinds(), swamp_feature_kinds()); }
    place_walled_area(&mut map, w / 2, h / 2, 4);
    proof {
        lemma_walled_changed(m2, map, (w / 2) as int, (h / 2) as int, 4);
        lemma_tiles_among_kept(
            m2,
            map,
            swamp_kinds(),
            set![TileKind::Road.spec_to_u8(), TileKind::Wall.spec_to_u8(), TileKind::Floor.spec_to_u8()],
        );
    }
    let ghost before = map;
    map.name = String::from_str("Swamp");
    proof {
        lemma_same_tiles(before, map);
        lemma_compound_same_tiles(before, map, MAP_W / 2, MAP_H / 2, 4);
    }
    map
}

} // verus!
