use vstd::prelude::*;
use rand::rngs::StdRng;
use crate::rng::range_incl_i32;
use crate::world::{GameMap, TileKind};
use crate::world::tile::spec_tile_from_u8;
use crate::world::pos::{abs_int, sign_int, signum};

verus! {

/// The map keeps its size and name and stays well-formed.
pub open spec fn same_frame(before: GameMap, after: GameMap) -> bool {
    &&& after.wf()
    &&& after.width == before.width
    &&& after.height == before.height
    &&& after.name == before.name
}

pub open spec fn in_square(cx: int, cy: int, r: int, x: int, y: int) -> bool {
    cx - r <= x <= cx + r && cy - r <= y <= cy + r
}

/// Strictly inside a `w` by `h` frame: off the outer ring.
pub open spec fn strictly_inside(w: int, h: int, x: int, y: int) -> bool {
    x > 0 && y > 0 && x < w - 1 && y < h - 1
}

/// The tile a walled area of radius `r` around `(cx, cy)` puts at `(x, y)`:
/// roads along the center row and column (gates included), walls on the rest
/// of the perimeter, floor inside.
pub open spec fn walled_area_tile(cx: int, cy: int, r: int, x: int, y: int) -> TileKind {
    if x == cx || y == cy {
        TileKind::Road
    } else if x == cx - r || x == cx + r || y == cy - r || y == cy + r {
        TileKind::Wall
    } else {
        TileKind::Floor
    }
}

/// The four gate tiles of a compound of negative radius `r`, all that such
/// a compound lays.
pub open spec fn gate_of_negative(cx: int, cy: int, r: int, x: int, y: int) -> bool {
    (x == cx && (y == cy - r || y == cy + r)) || (y == cy && (x == cx - r || x == cx + r))
}

pub open spec fn walled_area_result(before: GameMap, after: GameMap, cx: int, cy: int, r: int) -> bool {
    forall|x: int, y: int|
        before.in_bounds(x, y) ==> #[trigger] after.tile_at(x, y) == if r >= 0 && in_square(cx, cy, r, x, y) {
            walled_area_tile(cx, cy, r, x, y).spec_to_u8()
        } else if r < 0 && gate_of_negative(cx, cy, r, x, y) {
            TileKind::Road.spec_to_u8()
        } else {
            before.tile_at(x, y)
        }
}

/// A walled compound: the square of radius `r` around `(cx, cy)` gets a wall
/// perimeter, floor inside, a gate in the middle of each side and two roads
/// crossing at the center. Tiles outside the map are skipped. A negative
/// radius lays only the four gates.
pub fn place_walled_area(map: &mut GameMap, cx: i32, cy: i32, r: i32)
    requires
        old(map).wf(),
        i32::MIN <= cx - r <= i32::MAX && i32::MIN <= cx + r <= i32::MAX,
        i32::MIN <= cy - r <= i32::MAX && i32::MIN <= cy + r <= i32::MAX,
    ensures
        same_frame(*old(map), *final(map)),
        walled_area_result(*old(map), *final(map), cx as int, cy as int, r as int),
{
    if r < 0 {
        map.set(cx, cy - r, TileKind::Road);
        map.set(cx, cy + r, TileKind::Road);
        map.set(cx - r, cy, TileKind::Road);
        map.set(cx + r, cy, TileKind::Road);
        return;
    }
    let ghost m0 = *map;
    let cx64: i64 = cx as i64;
    let cy64: i64 = cy as i64;
    let r64: i64 = r as i64;
    let mut y: i64 = cy64 - r64;
    while y <= cy64 + r64
        invariant
            m0.wf(),
            0 <= r,
            cx64 == cx && cy64 == cy && r64 == r,
            i32::MIN <= cx - r && cx + r <= i32::MAX,
            i32::MIN <= cy - r && cy + r <= i32::MAX,
            cy - r <= y <= cy + r + 1,
            same_frame(m0, *map),
            forall|x2: int, y2: int|
                m0.in_bounds(x2, y2) ==> #[trigger] map.tile_at(x2, y2) == if in_square(
                    cx as int,
                    cy as int,
                    r as int,
                    x2,
                    y2,
                ) && y2 < y {
                    walled_area_tile(cx as int, cy as int, r as int, x2, y2).spec_to_u8()
                } else {
                    m0.tile_at(x2, y2)
                },
        decreases cy + r + 1 - y,
    {
        let mut x: i64 = cx64 - r64;
        while x <= cx64 + r64
            invariant
                m0.wf(),
                0 <= r,
                cx64 == cx && cy64 == cy && r64 == r,
                i32::MIN <= cx - r && cx + r <= i32::MAX,
                i32::MIN <= cy - r && cy + r <= i32::MAX,
                cy - r <= y <= cy + r,
                cx - r <= x <= cx + r + 1,
                same_frame(m0, *map),
                forall|x2: int, y2: int|
                    m0.in_bounds(x2, y2) ==> #[trigger] map.tile_at(x2, y2) == if in_square(
                        cx as int,
                        cy as int,
                        r as int,
                        x2,
                        y2,
                    ) && (y2 < y || (y2 == y && x2 < x)) {
                        walled_area_tile(cx as int, cy as int, r as int, x2, y2).spec_to_u8()
                    } else {
                        m0.tile_at(x2, y2)
                    },
            decreases cx + r + 1 - x,
        {
            let t = if x == cx64 || y == cy64 {
                TileKind::Road
            } else if x == cx64 - r64 || x == cx64 + r64 || y == cy64 - r64 || y == cy64 + r64 {
                TileKind::Wall
            } else {
                TileKind::Floor
            };
            map.set(x as i32, y as i32, t);
            x += 1;
        }
        y += 1;
    }
}

/// On the first leg of a path from `(x0, y0)` to `(tx, ty)`: row `y0`, past
/// the start up to and including column `tx`.
pub open spec fn on_path_h(x0: int, y0: int, tx: int, x: int, y: int) -> bool {
    y == y0 && ((x0 < x <= tx) || (tx <= x < x0))
}

/// On the second leg: column `tx`, past row `y0` up to and including row `ty`.
pub open spec fn on_path_v(y0: int, tx: int, ty: int, x: int, y: int) -> bool {
    x == tx && ((y0 < y <= ty) || (ty <= y < y0))
}

pub open spec fn path_result(before: GameMap, after: GameMap, x0: int, y0: int, tx: int, ty: int) -> bool {
    forall|x: int, y: int|
        before.in_bounds(x, y) ==> #[trigger] after.tile_at(x, y) == if (on_path_h(x0, y0, tx, x, y)
            || on_path_v(y0, tx, ty, x, y)) && spec_tile_from_u8(before.tile_at(x, y)) == TileKind::Grass {
            TileKind::Road.spec_to_u8()
        } else {
            before.tile_at(x, y)
        }
}

/// An L-shaped dirt path from `(x0, y0)` to `(tx, ty)`: along the row, then
/// along the column; only grass turns to road.
pub fn draw_path(map: &mut GameMap, x0: i32, y0: i32, tx: i32, ty: i32)
    requires
        old(map).wf(),
        i32::MIN <= tx - x0 <= i32::MAX,
        i32::MIN <= ty - y0 <= i32::MAX,
    ensures
        same_frame(*old(map), *final(map)),
        path_result(*old(map), *final(map), x0 as int, y0 as int, tx as int, ty as int),
{
    let ghost m0 = *map;
    let mut x: i32 = x0;
    while x != tx
        invariant
            m0.wf(),
            i32::MIN <= tx - x0 <= i32::MAX,
            i32::MIN <= ty - y0 <= i32::MAX,
            (x0 <= x <= tx) || (tx <= x <= x0),
            same_frame(m0, *map),
            forall|x2: int, y2: int|
                m0.in_bounds(x2, y2) ==> #[trigger] map.tile_at(x2, y2) == if y2 == y0 && ((x0 < x2
                    <= x) || (x <= x2 < x0)) && spec_tile_from_u8(m0.tile_at(x2, y2)) == TileKind::Grass {
                    TileKind::Road.spec_to_u8()
                } else {
                    m0.tile_at(x2, y2)
                },
        decreases abs_int(tx - x),
    {
        let step: i32 = signum(tx - x);
        x = x + step;
        if map.get(x, y0) == TileKind::Grass {
            map.set(x, y0, TileKind::Road);
        }
    }
    let ghost m1 = *map;
    let mut y: i32 = y0;
    while y != ty
        invariant
            m0.wf(),
            i32::MIN <= tx - x0 <= i32::MAX,
            i32::MIN <= ty - y0 <= i32::MAX,
            (y0 <= y <= ty) || (ty <= y <= y0),
            same_frame(m0, *map),
            forall|x2: int, y2: int|
                m0.in_bounds(x2, y2) ==> #[trigger] map.tile_at(x2, y2) == if (on_path_h(
                    x0 as int,
                    y0 as int,
                    tx as int,
                    x2,
                    y2,
                ) || (x2 == tx && ((y0 < y2 <= y) || (y <= y2 < y0)))) && spec_tile_from_u8(
                    m0.tile_at(x2, y2),
                ) == TileKind::Grass {
                    TileKind::Road.spec_to_u8()
                } else {
                    m0.tile_at(x2, y2)
                },
        decreases abs_int(ty - y),
    {
        let step: i32 = signum(ty - y);
        y = y + step;
        if map.get(tx, y) == TileKind::Grass {
            map.set(tx, y, TileKind::Road);
        }
    }
}

/// What a lake may do to a tile: leave it, flood it (inside the frame and the
/// lake's square), or turn grass to sand on the shore ring.
pub open spec fn lake_cell(
    before: u8,
    after: u8,
    inside: bool,
    in_lake: bool,
    in_shore: bool,
) -> bool {
    ||| after == before
    ||| inside && in_lake && after == TileKind::Water.spec_to_u8()
    ||| inside && in_shore && spec_tile_from_u8(before) == TileKind::Grass && after
        == TileKind::Sand.spec_to_u8()
}

pub open spec fn lake_result(before: GameMap, after: GameMap, cx: int, cy: int, r: int, w: int, h: int) -> bool {
    &&& forall|x: int, y: int|
        before.in_bounds(x, y) ==> lake_cell(
            before.tile_at(x, y),
            #[trigger] after.tile_at(x, y),
            strictly_inside(w, h, x, y),
            in_square(cx, cy, r, x, y),
            in_square(cx, cy, r + 1, x, y),
        )
    &&& forall|x: int, y: int|
        before.in_bounds(x, y) && strictly_inside(w, h, x, y) && in_square(cx, cy, r + 1, x, y)
            ==> spec_tile_from_u8(#[trigger] after.tile_at(x, y)) != TileKind::Grass
    &&& before.in_bounds(cx, cy) && strictly_inside(w, h, cx, cy) ==> after.tile_at(cx, cy) == TileKind::Water.spec_to_u8()
}

/// How far a lake's edge wobbles: each tile's radius is drawn from
/// `r - d..=r + d` with `d` this value.
pub fn lake_wobble() -> (d: i32)
    ensures
        d == 1,
{
    1
}

/// A lake of rough radius `r` (each tile's radius jitters by `lake_wobble`)
/// inside the `map_w` by `map_h` frame, ringed by sandy shores where there was grass.
pub fn place_lake(map: &mut GameMap, rng: &mut StdRng, cx: i32, cy: i32, r: i32, map_w: i32, map_h: i32)
    requires
        old(map).wf(),
        0 <= r <= 32766,
        i32::MIN <= cx - r - 1 && cx + r + 1 <= i32::MAX,
        i32::MIN <= cy - r - 1 && cy + r + 1 <= i32::MAX,
        i32::MIN < map_w,
        i32::MIN < map_h,
    ensures
        same_frame(*old(map), *final(map)),
        lake_result(*old(map), *final(map), cx as int, cy as int, r as int, map_w as int, map_h as int),
{
    let wobble = lake_wobble();
    let ghost m0 = *map;
    let mut dy: i32 = -r;
    while dy <= r
        invariant
            wobble == 1,
            m0.wf(),
            0 <= r <= 32766,
            i32::MIN <= cx - r - 1 && cx + r + 1 <= i32::MAX,
            i32::MIN <= cy - r - 1 && cy + r + 1 <= i32::MAX,
            i32::MIN < map_w,
            i32::MIN < map_h,
            -r <= dy <= r + 1,
            same_frame(m0, *map),
            dy > 0 && m0.in_bounds(cx as int, cy as int) && strictly_inside(map_w as int, map_h as int, cx as int, cy as int)
                ==> map.tile_at(cx as int, cy as int) == TileKind::Water.spec_to_u8(),
            forall|x: int, y: int|
                m0.in_bounds(x, y) ==> lake_cell(
                    m0.tile_at(x, y),
                    #[trigger] map.tile_at(x, y),
                    strictly_inside(map_w as int, map_h as int, x, y),
                    in_square(cx as int, cy as int, r as int, x, y),
                    false,
                ),
        decreases r + 1 - dy,
    {
        let mut dx: i32 = -r;
        while dx <= r
            invariant
                wobble == 1,
                m0.wf(),
                0 <= r <= 32766,
                i32::MIN <= cx - r - 1 && cx + r + 1 <= i32::MAX,
                i32::MIN <= cy - r - 1 && cy + r + 1 <= i32::MAX,
                i32::MIN < map_w,
                i32::MIN < map_h,
                -r <= dy <= r,
                -r <= dx <= r + 1,
                same_frame(m0, *map),
                (dy > 0 || (dy == 0 && dx > 0)) && m0.in_bounds(cx as int, cy as int)
                    && strictly_inside(map_w as int, map_h as int, cx as int, cy as int)
                    ==> map.tile_at(cx as int, cy as int) == TileKind::Water.spec_to_u8(),
                forall|x: int, y: int|
                    m0.in_bounds(x, y) ==> lake_cell(
                        m0.tile_at(x, y),
                        #[trigger] map.tile_at(x, y),
                        strictly_inside(map_w as int, map_h as int, x, y),
                        in_square(cx as int, cy as int, r as int, x, y),
                        false,
                    ),
            decreases r + 1 - dx,
        {
            let noise = range_incl_i32(rng, -wobble, wobble);
            let rr: i32 = r + noise;
            assert(0 <= dx * dx <= 32766 * 32766) by (nonlinear_arith)
                requires -32766 <= dx <= 32766;
            assert(0 <= dy * dy <= 32766 * 32766) by (nonlinear_arith)
                requires -32766 <= dy <= 32766;
            assert(0 <= rr * rr <= 32767 * 32767) by (nonlinear_arith)
                requires -1 <= rr <= 32767;
            if dx * dx + dy * dy <= rr * rr {
                let x = cx + dx;
                let y = cy + dy;
                if x > 0 && y > 0 && x < map_w - 1 && y < map_h - 1 {
                    map.set(x, y, TileKind::Water);
                }
            }
            dx += 1;
        }
        dy += 1;
    }
    let ghost m1 = *map;
    let mut dy: i32 = -(r + 1);
    while dy <= r + 1
        invariant
            wobble == 1,
            m0.wf(),
            0 <= r <= 32766,
            i32::MIN <= cx - r - 1 && cx + r + 1 <= i32::MAX,
            i32::MIN <= cy - r - 1 && cy + r + 1 <= i32::MAX,
            i32::MIN < map_w,
            i32::MIN < map_h,
            -(r + 1) <= dy <= r + 2,
            same_frame(m0, *map),
            m0.in_bounds(cx as int, cy as int) && strictly_inside(map_w as int, map_h as int, cx as int, cy as int)
                ==> map.tile_at(cx as int, cy as int) == TileKind::Water.spec_to_u8(),
            forall|x: int, y: int|
                m0.in_bounds(x, y) ==> lake_cell(
                    m0.tile_at(x, y),
                    #[trigger] map.tile_at(x, y),
                    strictly_inside(map_w as int, map_h as int, x, y),
                    in_square(cx as int, cy as int, r as int, x, y),
                    in_square(cx as int, cy as int, r + 1, x, y),
                ),
            forall|x: int, y: int|
                m0.in_bounds(x, y) && strictly_inside(map_w as int, map_h as int, x, y) && in_square(
                    cx as int,
                    cy as int,
                    r + 1,
                    x,
                    y,
                ) && y < cy + dy ==> spec_tile_from_u8(#[trigger] map.tile_at(x, y)) != TileKind::Grass,
        decreases r + 2 - dy,
    {
        let mut dx: i32 = -(r + 1);
        while dx <= r + 1
            invariant
                wobble == 1,
                m0.wf(),
                0 <= r <= 32766,
                i32::MIN <= cx - r - 1 && cx + r + 1 <= i32::MAX,
                i32::MIN <= cy - r - 1 && cy + r + 1 <= i32::MAX,
                i32::MIN < map_w,
                i32::MIN < map_h,
                -(r + 1) <= dy <= r + 1,
                -(r + 1) <= dx <= r + 2,
                same_frame(m0, *map),
                m0.in_bounds(cx as int, cy as int) && strictly_inside(map_w as int, map_h as int, cx as int, cy as int)
                    ==> map.tile_at(cx as int, cy as int) == TileKind::Water.spec_to_u8(),
                forall|x: int, y: int|
                    m0.in_bounds(x, y) ==> lake_cell(
                        m0.tile_at(x, y),
                        #[trigger] map.tile_at(x, y),
                        strictly_inside(map_w as int, map_h as int, x, y),
                        in_square(cx as int, cy as int, r as int, x, y),
                        in_square(cx as int, cy as int, r + 1, x, y),
                    ),
                forall|x: int, y: int|
                    m0.in_bounds(x, y) && strictly_inside(map_w as int, map_h as int, x, y)
                        && in_square(cx as int, cy as int, r + 1, x, y) && (y < cy + dy || (y == cy
                        + dy && x < cx + dx)) ==> spec_tile_from_u8(#[trigger] map.tile_at(x, y))
                        != TileKind::Grass,
            decreases r + 2 - dx,
        {
            let x = cx + dx;
            let y = cy + dy;
            if x > 0 && y > 0 && x < map_w - 1 && y < map_h - 1 {
                if map.get(x, y) == TileKind::Grass {
                    map.set(x, y, TileKind::Sand);
                }
            }
            dx += 1;
        }
        dy += 1;
    }
}

/// Every tile of `after` is as in `before` or one of the tile numbers `kinds`.
pub open spec fn changed_to(before: GameMap, after: GameMap, kinds: Set<u8>) -> bool {
    forall|x: int, y: int|
        before.in_bounds(x, y) ==> #[trigger] after.tile_at(x, y) == before.tile_at(x, y) || kinds.contains(
            after.tile_at(x, y),
        )
}

/// Changes made in two steps are changes of the same kinds.
pub proof fn lemma_changed_trans(a: GameMap, b: GameMap, c: GameMap, kinds: Set<u8>)
    requires
        b.width == a.width && b.height == a.height,
        changed_to(a, b, kinds),
        changed_to(b, c, kinds),
    ensures
        changed_to(a, c, kinds),
{
    assert forall|x: int, y: int| a.in_bounds(x, y) implies #[trigger] c.tile_at(x, y) == a.tile_at(x, y)
        || kinds.contains(c.tile_at(x, y)) by {
        assert(b.in_bounds(x, y));
        assert(c.tile_at(x, y) == b.tile_at(x, y) || kinds.contains(c.tile_at(x, y)));
        assert(b.tile_at(x, y) == a.tile_at(x, y) || kinds.contains(b.tile_at(x, y)));
    }
}

/// A change of fewer kinds is a change of more.
pub proof fn lemma_changed_more(a: GameMap, b: GameMap, k1: Set<u8>, k2: Set<u8>)
    requires
        changed_to(a, b, k1),
        k1.subset_of(k2),
    ensures
        changed_to(a, b, k2),
{
    assert forall|x: int, y: int| a.in_bounds(x, y) implies #[trigger] b.tile_at(x, y) == a.tile_at(x, y)
        || k2.contains(b.tile_at(x, y)) by {
        assert(b.tile_at(x, y) == a.tile_at(x, y) || k1.contains(b.tile_at(x, y)));
    }
}

/// A lake only floods and turns grass to sand.
pub proof fn lemma_lake_changed(before: GameMap, after: GameMap, cx: int, cy: int, r: int, w: int, h: int)
    requires
        lake_result(before, after, cx, cy, r, w, h),
    ensures
        changed_to(before, after, set![TileKind::Water.spec_to_u8(), TileKind::Sand.spec_to_u8()]),
{
    assert forall|x: int, y: int| before.in_bounds(x, y) implies #[trigger] after.tile_at(x, y) == before.tile_at(x, y)
        || set![TileKind::Water.spec_to_u8(), TileKind::Sand.spec_to_u8()].contains(after.tile_at(x, y)) by {
        assert(lake_cell(before.tile_at(x, y), after.tile_at(x, y), strictly_inside(w, h, x, y),
            in_square(cx, cy, r, x, y), in_square(cx, cy, r + 1, x, y)));
    }
}

/// Every tile of `after` is as in `before`, or was grass and became one of
/// the tile numbers `kinds`.
pub open spec fn grass_changed_to(before: GameMap, after: GameMap, kinds: Set<u8>) -> bool {
    forall|x: int, y: int|
        before.in_bounds(x, y) ==> #[trigger] after.tile_at(x, y) == before.tile_at(x, y) || (spec_tile_from_u8(
            before.tile_at(x, y),
        ) == TileKind::Grass && kinds.contains(after.tile_at(x, y)))
}

/// A path only turns grass to road.
pub proof fn lemma_path_changed(before: GameMap, after: GameMap, x0: int, y0: int, tx: int, ty: int)
    requires
        path_result(before, after, x0, y0, tx, ty),
    ensures
        grass_changed_to(before, after, set![TileKind::Road.spec_to_u8()]),
        changed_to(before, after, set![TileKind::Road.spec_to_u8()]),
{
    assert forall|x: int, y: int| before.in_bounds(x, y) implies #[trigger] after.tile_at(x, y) == before.tile_at(x, y)
        || (spec_tile_from_u8(before.tile_at(x, y)) == TileKind::Grass
        && set![TileKind::Road.spec_to_u8()].contains(after.tile_at(x, y))) by {
    }
}

/// A walled compound lays only roads, walls and floor.
pub proof fn lemma_walled_changed(before: GameMap, after: GameMap, cx: int, cy: int, r: int)
    requires
        walled_area_result(before, after, cx, cy, r),
    ensures
        changed_to(before, after, set![TileKind::Road.spec_to_u8(), TileKind::Wall.spec_to_u8(), TileKind::Floor.spec_to_u8()]),
{
    assert forall|x: int, y: int| before.in_bounds(x, y) implies #[trigger] after.tile_at(x, y) == before.tile_at(x, y)
        || set![TileKind::Road.spec_to_u8(), TileKind::Wall.spec_to_u8(), TileKind::Floor.spec_to_u8()].contains(
        after.tile_at(x, y)) by {
        if in_square(cx, cy, r, x, y) {
            let t = walled_area_tile(cx, cy, r, x, y);
            assert(t == TileKind::Road || t == TileKind::Wall || t == TileKind::Floor);
        }
    }
}

/// Where `b` only changed tiles into `k`, every tile that read `k` in `a`
/// still does.
pub proof fn lemma_changed_keeps(a: GameMap, b: GameMap, k: u8)
    requires
        changed_to(a, b, set![k]),
    ensures
        forall|x: int, y: int| a.in_bounds(x, y) && a.tile_at(x, y) == k ==> #[trigger] b.tile_at(x, y) == k,
{
    assert forall|x: int, y: int| a.in_bounds(x, y) && a.tile_at(x, y) == k implies #[trigger] b.tile_at(x, y) == k by {
        assert(b.tile_at(x, y) == a.tile_at(x, y) || set![k].contains(b.tile_at(x, y)));
    }
}

/// If `(x, y)` was grass in `before`, it reads `kind` in `after`.
pub open spec fn grass_turned_at(before: GameMap, after: GameMap, x: int, y: int, kind: TileKind) -> bool {
    spec_tile_from_u8(before.tile_at(x, y)) == TileKind::Grass ==> after.tile_at(x, y) == kind.spec_to_u8()
}

/// The tile `(cx, cy)` and its four neighbours: each that was grass in
/// `before` reads `kind` in `after`.
pub open spec fn plus_turned(before: GameMap, after: GameMap, cx: int, cy: int, kind: TileKind) -> bool {
    &&& grass_turned_at(before, after, cx, cy, kind)
    &&& grass_turned_at(before, after, cx - 1, cy, kind)
    &&& grass_turned_at(before, after, cx + 1, cy, kind)
    &&& grass_turned_at(before, after, cx, cy - 1, kind)
    &&& grass_turned_at(before, after, cx, cy + 1, kind)
}

pub open spec fn in_plus(cx: int, cy: int, x: int, y: int) -> bool {
    (x == cx && cy - 1 <= y <= cy + 1) || (y == cy && cx - 1 <= x <= cx + 1)
}

/// Row-major scan order: `(x, y)` comes before `(sx, sy)`.
pub open spec fn scanned_before(x: int, y: int, sx: int, sy: int) -> bool {
    y < sy || (y == sy && x < sx)
}

/// `plus_turned` for the cells of the plus that come before `(sx, sy)` in
/// scan order.
pub open spec fn plus_turned_upto(before: GameMap, after: GameMap, cx: int, cy: int, kind: TileKind, sx: int, sy: int) -> bool {
    forall|x: int, y: int|
        in_plus(cx, cy, x, y) && scanned_before(x, y, sx, sy) ==> #[trigger] grass_turned_at(before, after, x, y, kind)
}

pub proof fn lemma_plus_done(before: GameMap, after: GameMap, cx: int, cy: int, kind: TileKind, sx: int, sy: int)
    requires
        plus_turned_upto(before, after, cx, cy, kind, sx, sy),
        sy > cy + 1,
    ensures
        plus_turned(before, after, cx, cy, kind),
{
    assert(in_plus(cx, cy, cx, cy) && scanned_before(cx, cy, sx, sy));
    assert(in_plus(cx, cy, cx - 1, cy) && scanned_before(cx - 1, cy, sx, sy));
    assert(in_plus(cx, cy, cx + 1, cy) && scanned_before(cx + 1, cy, sx, sy));
    assert(in_plus(cx, cy, cx, cy - 1) && scanned_before(cx, cy - 1, sx, sy));
    assert(in_plus(cx, cy, cx, cy + 1) && scanned_before(cx, cy + 1, sx, sy));
}

/// The walled compound of radius `r` around `(cx, cy)` stands in `m`, as far
/// as it lies on the map.
pub open spec fn compound_at(m: GameMap, cx: int, cy: int, r: int) -> bool {
    forall|x: int, y: int|
        m.in_bounds(x, y) && in_square(cx, cy, r, x, y) ==> #[trigger] m.tile_at(x, y) == walled_area_tile(
            cx,
            cy,
            r,
            x,
            y,
        ).spec_to_u8()
}

/// A compound's tiles are not grass, so grass-only changes keep it.
pub proof fn lemma_compound_kept(a: GameMap, b: GameMap, cx: int, cy: int, r: int, kinds: Set<u8>)
    requires
        compound_at(a, cx, cy, r),
        grass_changed_to(a, b, kinds),
        b.width == a.width && b.height == a.height,
    ensures
        compound_at(b, cx, cy, r),
{
    assert forall|x: int, y: int| b.in_bounds(x, y) && in_square(cx, cy, r, x, y) implies #[trigger] b.tile_at(x, y)
        == walled_area_tile(cx, cy, r, x, y).spec_to_u8() by {
        assert(a.in_bounds(x, y));
        assert(a.tile_at(x, y) == walled_area_tile(cx, cy, r, x, y).spec_to_u8());
    }
}

/// `after` is `before` with the tile at `(x, y)` turned to `kind` where it
/// was grass.
pub open spec fn grass_turned_one(before: GameMap, after: GameMap, x: int, y: int, kind: TileKind) -> bool {
    forall|x2: int, y2: int|
        before.in_bounds(x2, y2) ==> #[trigger] after.tile_at(x2, y2) == if x2 == x && y2 == y
            && spec_tile_from_u8(before.tile_at(x2, y2)) == TileKind::Grass {
            kind.spec_to_u8()
        } else {
            before.tile_at(x2, y2)
        }
}

pub open spec fn same_tiles(before: GameMap, after: GameMap) -> bool {
    forall|x2: int, y2: int| before.in_bounds(x2, y2) ==> #[trigger] after.tile_at(x2, y2) == before.tile_at(x2, y2)
}

/// One step of a patch scan at `(x, y)`: the tile was turned (as it must be
/// where it lies on the plus) or left alone, and the turned part of the plus
/// grows by that tile.
pub proof fn lemma_plus_step(m0: GameMap, before: GameMap, after: GameMap, cx: int, cy: int, kind: TileKind, x: int, y: int)
    requires
        before.width == m0.width && before.height == m0.height,
        after.width == m0.width && after.height == m0.height,
        m0.in_bounds(cx - 1, cy - 1) && m0.in_bounds(cx + 1, cy + 1),
        spec_tile_from_u8(kind.spec_to_u8()) != TileKind::Grass,
        grass_changed_to(m0, before, set![kind.spec_to_u8()]),
        plus_turned_upto(m0, before, cx, cy, kind, x, y),
        same_tiles(before, after) || grass_turned_one(before, after, x, y, kind),
        in_plus(cx, cy, x, y) ==> grass_turned_one(before, after, x, y, kind),
    ensures
        plus_turned_upto(m0, after, cx, cy, kind, x + 1, y),
        grass_changed_to(m0, after, set![kind.spec_to_u8()]),
{
    assert forall|x2: int, y2: int| in_plus(cx, cy, x2, y2) && scanned_before(x2, y2, x + 1, y) implies #[trigger] grass_turned_at(
        m0,
        after,
        x2,
        y2,
        kind,
    ) by {
        assert(m0.in_bounds(x2, y2));
        assert(before.in_bounds(x2, y2));
        assert(before.tile_at(x2, y2) == m0.tile_at(x2, y2) || (spec_tile_from_u8(m0.tile_at(x2, y2)) == TileKind::Grass
            && set![kind.spec_to_u8()].contains(before.tile_at(x2, y2))));
        if !(x2 == x && y2 == y) {
            assert(scanned_before(x2, y2, x, y));
            assert(grass_turned_at(m0, before, x2, y2, kind));
        }
    }
    assert forall|x2: int, y2: int| m0.in_bounds(x2, y2) implies #[trigger] after.tile_at(x2, y2) == m0.tile_at(x2, y2)
        || (spec_tile_from_u8(m0.tile_at(x2, y2)) == TileKind::Grass && set![kind.spec_to_u8()].contains(
        after.tile_at(x2, y2))) by {
        assert(before.in_bounds(x2, y2));
        assert(before.tile_at(x2, y2) == m0.tile_at(x2, y2) || (spec_tile_from_u8(m0.tile_at(x2, y2)) == TileKind::Grass
            && set![kind.spec_to_u8()].contains(before.tile_at(x2, y2))));
    }
}

/// Grass changes made in two steps are grass changes, where no kind made is
/// grass.
pub proof fn lemma_grass_changed_trans(a: GameMap, b: GameMap, c: GameMap, kinds: Set<u8>)
    requires
        b.width == a.width && b.height == a.height,
        grass_changed_to(a, b, kinds),
        grass_changed_to(b, c, kinds),
        forall|v: u8| #[trigger] kinds.contains(v) ==> spec_tile_from_u8(v) != TileKind::Grass,
    ensures
        grass_changed_to(a, c, kinds),
{
    assert forall|x: int, y: int| a.in_bounds(x, y) implies #[trigger] c.tile_at(x, y) == a.tile_at(x, y)
        || (spec_tile_from_u8(a.tile_at(x, y)) == TileKind::Grass && kinds.contains(c.tile_at(x, y))) by {
        assert(b.in_bounds(x, y));
        assert(c.tile_at(x, y) == b.tile_at(x, y) || (spec_tile_from_u8(b.tile_at(x, y)) == TileKind::Grass
            && kinds.contains(c.tile_at(x, y))));
        assert(b.tile_at(x, y) == a.tile_at(x, y) || (spec_tile_from_u8(a.tile_at(x, y)) == TileKind::Grass
            && kinds.contains(b.tile_at(x, y))));
    }
}

/// A walled compound placed where its square does not meet another
/// compound's square leaves that compound standing.
pub proof fn lemma_compound_untouched(
    before: GameMap,
    after: GameMap,
    cx: int,
    cy: int,
    r: int,
    ox: int,
    oy: int,
    orr: int,
)
    requires
        compound_at(before, cx, cy, r),
        walled_area_result(before, after, ox, oy, orr),
        0 <= orr,
        after.width == before.width && after.height == before.height,
        abs_int(ox - cx) > r + orr || abs_int(oy - cy) > r + orr,
    ensures
        compound_at(after, cx, cy, r),
{
    assert forall|x: int, y: int| after.in_bounds(x, y) && in_square(cx, cy, r, x, y) implies #[trigger] after.tile_at(x, y)
        == walled_area_tile(cx, cy, r, x, y).spec_to_u8() by {
        assert(before.in_bounds(x, y));
        assert(!in_square(ox, oy, orr, x, y));
        assert(before.tile_at(x, y) == walled_area_tile(cx, cy, r, x, y).spec_to_u8());
    }
}

/// Every tile of `m` is one of the tile numbers `kinds`.
pub open spec fn tiles_among(m: GameMap, kinds: Set<u8>) -> bool {
    forall|x: int, y: int| m.in_bounds(x, y) ==> kinds.contains(#[trigger] m.tile_at(x, y))
}

/// Changes into kinds of a set keep every tile in that set.
pub proof fn lemma_tiles_among_kept(a: GameMap, b: GameMap, kinds: Set<u8>, more: Set<u8>)
    requires
        tiles_among(a, kinds),
        changed_to(a, b, more),
        more.subset_of(kinds),
        b.width == a.width && b.height == a.height,
    ensures
        tiles_among(b, kinds),
{
    assert forall|x: int, y: int| b.in_bounds(x, y) implies kinds.contains(#[trigger] b.tile_at(x, y)) by {
        assert(a.in_bounds(x, y));
        assert(b.tile_at(x, y) == a.tile_at(x, y) || more.contains(b.tile_at(x, y)));
    }
}

/// Grass changes are changes.
pub proof fn lemma_grass_changed_is_changed(a: GameMap, b: GameMap, kinds: Set<u8>)
    requires
        grass_changed_to(a, b, kinds),
    ensures
        changed_to(a, b, kinds),
{
    assert forall|x: int, y: int| a.in_bounds(x, y) implies #[trigger] b.tile_at(x, y) == a.tile_at(x, y)
        || kinds.contains(b.tile_at(x, y)) by {
    }
}

/// A compound stands in a map with the same tiles.
pub proof fn lemma_compound_same_tiles(a: GameMap, b: GameMap, cx: int, cy: int, r: int)
    requires
        compound_at(a, cx, cy, r),
        b.width == a.width && b.height == a.height,
        forall|x: int, y: int| #[trigger] b.tile_at(x, y) == a.tile_at(x, y),
    ensures
        compound_at(b, cx, cy, r),
{
    assert forall|x: int, y: int| b.in_bounds(x, y) && in_square(cx, cy, r, x, y) implies #[trigger] b.tile_at(x, y)
        == walled_area_tile(cx, cy, r, x, y).spec_to_u8() by {
        assert(a.tile_at(x, y) == walled_area_tile(cx, cy, r, x, y).spec_to_u8());
    }
}

/// Walling the border keeps every tile among kinds that include wall.
pub proof fn lemma_border_among(a: GameMap, b: GameMap, kinds: Set<u8>)
    requires
        tiles_among(a, kinds),
        kinds.contains(TileKind::Wall.spec_to_u8()),
        b.width == a.width && b.height == a.height,
        b.border_walled(),
        forall|x: int, y: int| b.in_bounds(x, y) && !b.is_border(x, y) ==> #[trigger] b.tile_at(x, y) == a.tile_at(x, y),
    ensures
        tiles_among(b, kinds),
{
    assert forall|x: int, y: int| b.in_bounds(x, y) implies kinds.contains(#[trigger] b.tile_at(x, y)) by {
        assert(a.in_bounds(x, y));
        if b.is_border(x, y) {
            assert(b.tile_at(x, y) == TileKind::Wall.spec_to_u8());
        } else {
            assert(b.tile_at(x, y) == a.tile_at(x, y));
        }
    }
}

/// Every water tile of `a` is still water in `b`.
pub open spec fn water_kept(a: GameMap, b: GameMap) -> bool {
    forall|x: int, y: int|
        a.in_bounds(x, y) && a.tile_at(x, y) == TileKind::Water.spec_to_u8() ==> #[trigger] b.tile_at(x, y)
            == TileKind::Water.spec_to_u8()
}

/// Every water tile of row `y` of `a` is still water in `b`.
pub open spec fn row_water_kept(a: GameMap, b: GameMap, y: int) -> bool {
    forall|x: int|
        a.in_bounds(x, y) && a.tile_at(x, y) == TileKind::Water.spec_to_u8() ==> #[trigger] b.tile_at(x, y)
            == TileKind::Water.spec_to_u8()
}

/// A lake leaves water as water.
pub proof fn lemma_lake_water_kept(before: GameMap, after: GameMap, cx: int, cy: int, r: int, w: int, h: int)
    requires
        lake_result(before, after, cx, cy, r, w, h),
    ensures
        water_kept(before, after),
{
    assert forall|x: int, y: int|
        before.in_bounds(x, y) && before.tile_at(x, y) == TileKind::Water.spec_to_u8() implies #[trigger] after.tile_at(x, y)
            == TileKind::Water.spec_to_u8() by {
        assert(lake_cell(before.tile_at(x, y), after.tile_at(x, y), strictly_inside(w, h, x, y),
            in_square(cx, cy, r, x, y), in_square(cx, cy, r + 1, x, y)));
    }
}

/// Changes of grass only leave water as water.
pub proof fn lemma_grass_water_kept(a: GameMap, b: GameMap, kinds: Set<u8>)
    requires
        grass_changed_to(a, b, kinds),
    ensures
        water_kept(a, b),
{
    assert forall|x: int, y: int|
        a.in_bounds(x, y) && a.tile_at(x, y) == TileKind::Water.spec_to_u8() implies #[trigger] b.tile_at(x, y)
            == TileKind::Water.spec_to_u8() by {
        assert(b.tile_at(x, y) == a.tile_at(x, y) || (spec_tile_from_u8(a.tile_at(x, y)) == TileKind::Grass
            && kinds.contains(b.tile_at(x, y))));
    }
}

/// Water kept everywhere is water kept on each row, and keeping it on a row
/// twice keeps it.
pub proof fn lemma_row_water_trans(a: GameMap, b: GameMap, c: GameMap, y: int)
    requires
        b.width == a.width && b.height == a.height,
        row_water_kept(a, b, y),
        row_water_kept(b, c, y),
    ensures
        row_water_kept(a, c, y),
{
    assert forall|x: int| a.in_bounds(x, y) && a.tile_at(x, y) == TileKind::Water.spec_to_u8() implies #[trigger] c.tile_at(
        x,
        y,
    ) == TileKind::Water.spec_to_u8() by {
        assert(b.in_bounds(x, y));
        assert(b.tile_at(x, y) == TileKind::Water.spec_to_u8());
    }
}

pub proof fn lemma_water_kept_row(a: GameMap, b: GameMap, y: int)
    requires
        water_kept(a, b),
    ensures
        row_water_kept(a, b, y),
{
    assert forall|x: int| a.in_bounds(x, y) && a.tile_at(x, y) == TileKind::Water.spec_to_u8() implies #[trigger] b.tile_at(
        x,
        y,
    ) == TileKind::Water.spec_to_u8() by {
        assert(a.tile_at(x, y) == TileKind::Water.spec_to_u8());
    }
}

/// Where `b` only turned grass into other kinds, every tile that was not
/// grass in `a` is unchanged.
pub proof fn lemma_grass_changed_keeps(a: GameMap, b: GameMap, kinds: Set<u8>)
    requires
        grass_changed_to(a, b, kinds),
    ensures
        forall|x: int, y: int| a.in_bounds(x, y) && spec_tile_from_u8(a.tile_at(x, y)) != TileKind::Grass
            ==> #[trigger] b.tile_at(x, y) == a.tile_at(x, y),
{
    assert forall|x: int, y: int| a.in_bounds(x, y) && spec_tile_from_u8(a.tile_at(x, y)) != TileKind::Grass
        implies #[trigger] b.tile_at(x, y) == a.tile_at(x, y) by {
    }
}

} // verus!
