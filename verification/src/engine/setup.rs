//! Starting a single-player game, and entering a zone.

use vstd::prelude::*;
use rand::rngs::StdRng;
use crate::config::{GameConfig, find_key};
use crate::entity::{ClassDef, Equipment, Item, ItemTemplate, Monster, Player};
use crate::entity::item::{Slot, spec_localized, spec_slot_of};
use crate::entity::monster::{MonsterView, mons_view};
use crate::entity::player::spec_xp_for_level;
use crate::actions::mons_bounded;
use crate::mapgen::{MapStyle, generate_zone, zone_shape, monster_spawn_positions, spawn_ok, framed, zone_name};
use crate::mapgen::large_gen::{generate_large, large_ok, large_shape};
use crate::rng::{range_usize, rng_from_entropy, rng_from_seed};
use crate::rules::ID_LIMIT;
use crate::text::copy_string;
use crate::world::{GameMap, Pos, MAP_W, MAP_H};
use crate::world::pos::{abs_int, abs_i32};
use super::{LocalGame, ids_unique, item_from};
use super::ai::{fresh_monster, spawn_name};

verus! {

pub open spec fn empty_equipment() -> Equipment {
    Equipment { weapon: None, armor: None, helmet: None, ring: None }
}

/// The item template a class starts with, if it names a known one.
pub open spec fn start_item_index(cfg: GameConfig, cls: ClassDef) -> Option<int> {
    match cls.start_item {
        Some(s) => find_key(cfg.items@, s@),
        None => None,
    }
}

/// How many ids a new character's items take: one for a known start item,
/// three for the potions where the configuration knows them.
pub open spec fn start_item_count(cfg: GameConfig, cls: ClassDef) -> int {
    (if start_item_index(cfg, cls) is Some { 1int } else { 0int })
        + (if find_key(cfg.items@, "hp_potion"@) is Some { 3int } else { 0int })
}

/// The gear of a new character of class `cls` whose items take the ids after
/// `first`, named in language `lang`: the start item equipped (a potion
/// cannot be, and is lost), and three health potions in the inventory.
pub open spec fn start_gear(cfg: GameConfig, cls: ClassDef, first: int, lang: Seq<char>, e: Equipment, inv: Seq<Item>) -> bool {
    let n1 = if start_item_index(cfg, cls) is Some { 1int } else { 0int };
    &&& match start_item_index(cfg, cls) {
        None => e == empty_equipment(),
        Some(t) => {
            let s = spec_slot_of(cfg.items@[t].kind);
            if s == Slot::Consumable {
                e == empty_equipment()
            } else {
                &&& e.spec_slot(s) is Some
                &&& item_from(cfg.items@[t], (first + 1) as u64, lang, e.spec_slot(s).unwrap())
                &&& e == empty_equipment().spec_with(s, e.spec_slot(s))
            }
        },
    }
    &&& match find_key(cfg.items@, "hp_potion"@) {
        None => inv.len() == 0,
        Some(t) => inv.len() == 3 && forall|k: int| 0 <= k < 3 ==> item_from(cfg.items@[t], (first + 1 + n1 + k) as u64, lang, #[trigger] inv[k]),
    }
}

/// A new item of template `t` with id `id`, named in language `lang`.
pub fn item_of(t: &ItemTemplate, id: u64, lang: &str) -> (r: Item)
    ensures
        item_from(*t, id, lang@, r),
{
    Item {
        id,
        template_id: copy_string(&t.id),
        name: String::from_str(t.display_name(lang)),
        symbol: t.symbol,
        color: copy_string(&t.color),
        kind: t.kind.duplicate(),
    }
}

/// The gear of a new character (see `start_gear`); returns the equipment,
/// the inventory and the last id taken.
pub fn make_start_gear(cfg: &GameConfig, cls: &ClassDef, first: u64, lang: &str) -> (r: (Equipment, Vec<Item>, u64))
    requires
        cfg.wf(),
        first <= ID_LIMIT + 1,
    ensures
        start_gear(*cfg, *cls, first as int, lang@, r.0, r.1@),
        r.2 == first + start_item_count(*cfg, *cls),
{
    let mut next = first;
    let mut equipment = Equipment::default();
    let mut inventory: Vec<Item> = Vec::new();
    let ghost e0 = equipment;
    assert(e0 == empty_equipment());
    match &cls.start_item {
        Some(sid) => {
            match cfg.item(sid.as_str()) {
                Some(t) => {
                    next = next + 1;
                    let it = item_of(t, next, lang);
                    let _lost = equipment.equip_item(it);
                },
                None => {},
            }
        },
        None => {},
    }
    let ghost n1: int = next - first;
    proof { reveal_strlit("hp_potion"); }
    match cfg.item("hp_potion") {
        Some(t) => {
            let mut k: usize = 0;
            while k < 3
                invariant
                    k <= 3,
                    next == first + n1 + k,
                    first <= ID_LIMIT + 1,
                    0 <= n1 <= 1,
                    inventory@.len() == k,
                    forall|j: int| 0 <= j < k ==> item_from(*t, (first + 1 + n1 + j) as u64, lang@, #[trigger] inventory@[j]),
                decreases 3 - k,
            {
                next = next + 1;
                inventory.push(item_of(t, next, lang));
                k += 1;
            }
        },
        None => {},
    }
    (equipment, inventory, next)
}

/// The center of the large map, where a new character starts.
pub open spec fn start_pos() -> Pos {
    Pos { x: 128, y: 64 }
}

/// A new character of the `ci`-th class: id 1, level 1, the class's starting
/// stats and gear (its items take ids 2 onward), at the center of the map.
pub open spec fn started(cfg: GameConfig, ci: int, name: Seq<char>, class_id: Seq<char>, symbol: char, color: String, p: Player) -> bool {
    let cls = cfg.classes@[ci];
    &&& p.id == 1
    &&& p.name@ == name
    &&& p.class_id@ == class_id
    &&& p.symbol == symbol
    &&& p.color == color
    &&& p.pos == start_pos()
    &&& p.level == 1
    &&& p.xp == 0
    &&& p.xp_next == spec_xp_for_level(2)
    &&& p.stats == cls.spec_make_stats()
    &&& p.stat_points == 0
    &&& start_gear(cfg, cls, 1, cfg.locale.lang@, p.equipment, p.inventory@)
}

/// Whether `map` has a tile where monsters may spawn.
pub open spec fn spawnable(map: GameMap) -> bool {
    exists|x: int, y: int| spawn_ok(map, x, y)
}

/// A tile off the outer ring that can be walked on.
pub open spec fn inner_passable(m: GameMap, x: int, y: int) -> bool {
    0 < x < m.width - 1 && 0 < y < m.height - 1 && m.spec_passable(x, y)
}

/// The offset `(dx, dy)` lies on the square shell of radius `r` (2 to 29)
/// around the center, and its tile can be walked on.
pub open spec fn shell_ok(m: GameMap, r: int, dy: int, dx: int) -> bool {
    &&& 2 <= r < 30
    &&& -r <= dy <= r
    &&& -r <= dx <= r
    &&& (abs_int(dx) == r || abs_int(dy) == r)
    &&& inner_passable(m, m.width / 2 + dx, m.height / 2 + dy)
}

pub open spec fn lex_before(a: (int, int, int), b: (int, int, int)) -> bool {
    a.0 < b.0 || (a.0 == b.0 && (a.1 < b.1 || (a.1 == b.1 && a.2 < b.2)))
}

/// No shell tile comes before `(r, dy, dx)` in the search order.
pub open spec fn none_before(m: GameMap, r: int, dy: int, dx: int) -> bool {
    forall|r2: int, dy2: int, dx2: int| #[trigger] shell_ok(m, r2, dy2, dx2) ==> !lex_before((r2, dy2, dx2), (r, dy, dx))
}

/// No inner tile comes before `(x, y)` in row order.
pub open spec fn none_before_in_rows(m: GameMap, x: int, y: int) -> bool {
    forall|x2: int, y2: int| #[trigger] inner_passable(m, x2, y2) ==> !(y2 < y || (y2 == y && x2 < x))
}

/// Where a player entering zone map `m` stands, coming from `p`: the first
/// walkable tile on the square shells around the center (by radius, then row,
/// then column); failing that the first walkable inner tile in row order;
/// failing that `p`.
pub open spec fn zone_start(m: GameMap, p: Pos, q: Pos) -> bool {
    if exists|r: int, dy: int, dx: int| shell_ok(m, r, dy, dx) {
        exists|r: int, dy: int, dx: int|
            #[trigger] shell_ok(m, r, dy, dx) && none_before(m, r, dy, dx)
                && q == Pos { x: (m.width / 2 + dx) as i32, y: (m.height / 2 + dy) as i32 }
    } else if exists|x: int, y: int| inner_passable(m, x, y) {
        exists|x: int, y: int| #[trigger] inner_passable(m, x, y) && none_before_in_rows(m, x, y) && q == Pos { x: x as i32, y: y as i32 }
    } else {
        q == p
    }
}

/// Finds where a player entering zone map `m` stands (see `zone_start`).
pub fn zone_spawn(m: &GameMap, p: Pos) -> (q: Pos)
    requires
        m.wf(),
        m.width <= 4096,
        m.height <= 4096,
    ensures
        zone_start(*m, p, q),
{
    let cx = m.width / 2;
    let cy = m.height / 2;
    let mut r: i32 = 2;
    while r < 30
        invariant
            m.wf(),
            m.width <= 4096,
            m.height <= 4096,
            cx == m.width / 2,
            cy == m.height / 2,
            2 <= r <= 30,
            none_before(*m, r as int, -(r as int), -(r as int)),
        decreases 30 - r,
    {
        let mut dy: i32 = -r;
        while dy <= r
            invariant
                m.wf(),
                m.width <= 4096,
                m.height <= 4096,
                cx == m.width / 2,
                cy == m.height / 2,
                2 <= r < 30,
                -r <= dy <= r + 1,
                none_before(*m, r as int, dy as int, -(r as int)),
            decreases r + 1 - dy,
        {
            let mut dx: i32 = -r;
            while dx <= r
                invariant
                    m.wf(),
                    m.width <= 4096,
                    m.height <= 4096,
                    cx == m.width / 2,
                    cy == m.height / 2,
                    2 <= r < 30,
                    -r <= dy <= r,
                    -r <= dx <= r + 1,
                    none_before(*m, r as int, dy as int, dx as int),
                decreases r + 1 - dx,
            {
                let on_shell = abs_i32(dx) == r || abs_i32(dy) == r;
                let x = cx + dx;
                let y = cy + dy;
                if on_shell && x > 0 && y > 0 && x < m.width - 1 && y < m.height - 1 && m.passable(x, y) {
                    assert(shell_ok(*m, r as int, dy as int, dx as int));
                    return Pos::new(x, y);
                }
                assert(!shell_ok(*m, r as int, dy as int, dx as int));
                assert(none_before(*m, r as int, dy as int, dx + 1)) by {
                    assert forall|r2: int, dy2: int, dx2: int| #[trigger] shell_ok(*m, r2, dy2, dx2) implies
                        !lex_before((r2, dy2, dx2), (r as int, dy as int, dx + 1)) by {
                        assert(!lex_before((r2, dy2, dx2), (r as int, dy as int, dx as int)));
                    }
                }
                dx += 1;
            }
            assert(none_before(*m, r as int, dy + 1, -(r as int))) by {
                assert forall|r2: int, dy2: int, dx2: int| #[trigger] shell_ok(*m, r2, dy2, dx2) implies
                    !lex_before((r2, dy2, dx2), (r as int, dy + 1, -(r as int))) by {
                    assert(!lex_before((r2, dy2, dx2), (r as int, dy as int, r + 1)));
                }
            }
            dy += 1;
        }
        assert(none_before(*m, r + 1, -(r + 1), -(r + 1))) by {
            assert forall|r2: int, dy2: int, dx2: int| #[trigger] shell_ok(*m, r2, dy2, dx2) implies
                !lex_before((r2, dy2, dx2), (r + 1, -(r + 1), -(r + 1))) by {
                assert(!lex_before((r2, dy2, dx2), (r as int, r + 1, -(r as int))));
            }
        }
        r += 1;
    }
    assert(!exists|r2: int, dy2: int, dx2: int| shell_ok(*m, r2, dy2, dx2)) by {
        if exists|r2: int, dy2: int, dx2: int| shell_ok(*m, r2, dy2, dx2) {
            let (r2, dy2, dx2) = choose|r2: int, dy2: int, dx2: int| shell_ok(*m, r2, dy2, dx2);
            assert(!lex_before((r2, dy2, dx2), (30, -30, -30)));
        }
    }
    let mut y: i32 = 1;
    while y < m.height - 1
        invariant
            m.wf(),
            m.width <= 4096,
            m.height <= 4096,
            1 <= y,
            y <= m.height - 1 || m.height < 2,
            none_before_in_rows(*m, 1, y as int),
            !exists|r2: int, dy2: int, dx2: int| shell_ok(*m, r2, dy2, dx2),
        decreases m.height - y,
    {
        let mut x: i32 = 1;
        while x < m.width - 1
            invariant
                m.wf(),
                m.width <= 4096,
                m.height <= 4096,
                1 <= y < m.height - 1,
                1 <= x,
                x <= m.width - 1 || m.width < 2,
                none_before_in_rows(*m, x as int, y as int),
                !exists|r2: int, dy2: int, dx2: int| shell_ok(*m, r2, dy2, dx2),
            decreases m.width - x,
        {
            if m.passable(x, y) {
                assert(inner_passable(*m, x as int, y as int));
                return Pos::new(x, y);
            }
            assert(none_before_in_rows(*m, x + 1, y as int)) by {
                assert forall|x2: int, y2: int| #[trigger] inner_passable(*m, x2, y2) implies !(y2 < y || (y2 == y && x2 < x + 1)) by {
                    assert(!(y2 < y || (y2 == y && x2 < x)));
                }
            }
            x += 1;
        }
        assert(none_before_in_rows(*m, 1, y + 1)) by {
            assert forall|x2: int, y2: int| #[trigger] inner_passable(*m, x2, y2) implies !(y2 < y + 1 || (y2 == y + 1 && x2 < 1)) by {
                assert(!(y2 < y || (y2 == y && x2 < x)));
            }
        }
        y += 1;
    }
    assert(!exists|x2: int, y2: int| inner_passable(*m, x2, y2)) by {
        if exists|x2: int, y2: int| inner_passable(*m, x2, y2) {
            let (x2, y2) = choose|x2: int, y2: int| inner_passable(*m, x2, y2);
            assert(!(y2 < y || (y2 == y && x2 < 1)));
        }
    }
    p
}


/// The monsters after `count` more joined `old`: the old ones stay, each new
/// one is fresh (see `fresh_monster`) with the ids after `next_id` in turn.
/// The game `LocalGame::new` starts for class number `ci`: a fresh large
/// map, the character at its center with the class's starting gear, no items
/// on the ground, and the configured number of monsters (none without a
/// spawn tile), with ids after the gear's.
pub open spec fn fresh_game(cfg: GameConfig, ci: int, name: Seq<char>, class_id: Seq<char>, symbol: char, color: String, g: LocalGame) -> bool {
    let n0 = 1 + start_item_count(cfg, cfg.classes@[ci]);
    let count = if spawnable(g.map) { cfg.world.monster_count as int } else { 0 };
    &&& g.wf()
    &&& g.cfg == cfg
    &&& large_ok(g.map)
    &&& large_shape(g.map)
    &&& g.map.name@ == "Greater Voidlands"@
    &&& started(cfg, ci, name, class_id, symbol, color, g.player)
    &&& g.ground_items@.len() == 0
    &&& g.tick == 0
    &&& g.next_id == n0 + count
    &&& populated(cfg, g.map, Seq::empty(), n0, count, true, g.mons())
}

/// The game in a zone of style `style`: `player` placed as `zone_start`
/// says, no items on the ground, and a third of the configured monster count
/// (at least four; none without a spawn tile) with ids after 1000.
pub open spec fn zone_game(player: Player, style: MapStyle, cfg: GameConfig, r: LocalGame) -> bool {
    let count = if spawnable(r.map) {
        if cfg.world.monster_count / 3 >= 4 { (cfg.world.monster_count / 3) as int } else { 4 }
    } else {
        0
    };
    &&& r.wf()
    &&& r.cfg == cfg
    &&& framed(r.map, MAP_W as int, MAP_H as int)
    &&& r.map.name@ == zone_name(style)
    &&& zone_shape(style, r.map)
    &&& zone_start(r.map, player.pos, r.player.pos)
    &&& r.player == Player { pos: r.player.pos, ..player }
    &&& r.ground_items@.len() == 0
    &&& r.tick == 0
    &&& r.next_id == 1000 + count
    &&& populated(cfg, r.map, Seq::empty(), 1000, count, true, r.mons())
}

pub open spec fn populated(cfg: GameConfig, map: GameMap, old: Seq<MonsterView>, next_id: int, count: int, localized: bool, new: Seq<MonsterView>) -> bool {
    &&& new.len() == old.len() + count
    &&& new.subrange(0, old.len() as int) == old
    &&& forall|k: int| 0 <= k < count ==> fresh_monster(cfg, map, #[trigger] new[old.len() + k], (next_id + k + 1) as u64, localized)
}

impl LocalGame {
    /// `count` monsters of random templates join on random tiles of
    /// `positions`.
    pub fn populate(&mut self, positions: &Vec<(i32, i32)>, count: usize, localized: bool)
        requires
            positions@.len() > 0,
            forall|i: int| 0 <= i < positions@.len() ==> spawn_ok(old(self).map, (#[trigger] positions@[i]).0 as int, positions@[i].1 as int),
            count > 0 ==> old(self).cfg.monsters@.len() > 0,
            old(self).next_id + count <= u64::MAX,
            old(self).map.wf(),
            old(self).map.width <= 4096,
            old(self).map.height <= 4096,
            ids_unique(old(self).mons()),
            forall|i: int| 0 <= i < old(self).mons().len() ==> (#[trigger] old(self).mons()[i]).id <= old(self).next_id,
            mons_bounded(old(self).mons()),
        ensures
            final(self).map == old(self).map,
            final(self).player == old(self).player,
            final(self).ground_items@ == old(self).ground_items@,
            final(self).cfg == old(self).cfg,
            final(self).tick == old(self).tick,
            final(self).next_id == old(self).next_id + count,
            populated(old(self).cfg, old(self).map, old(self).mons(), old(self).next_id as int, count as int, localized, final(self).mons()),
            ids_unique(final(self).mons()),
            forall|i: int| 0 <= i < final(self).mons().len() ==> (#[trigger] final(self).mons()[i]).id <= final(self).next_id,
            mons_bounded(final(self).mons()),
    {
        let ghost g = *self;
        let ghost n = g.mons().len();
        let mut j: usize = 0;
        while j < count
            invariant
                j <= count,
                self.map == g.map,
                self.cfg == g.cfg,
                self.tick == g.tick,
                self.ground_items@ == g.ground_items@,
                self.player == g.player,
                count > 0 ==> self.cfg.monsters@.len() > 0,
                g.next_id + count <= u64::MAX,
                self.next_id == g.next_id + j,
                self.mons().len() == n + j,
                self.mons().subrange(0, n as int) == g.mons(),
                forall|i: int| 0 <= i < positions@.len() ==> spawn_ok(g.map, (#[trigger] positions@[i]).0 as int, positions@[i].1 as int),
                positions@.len() > 0,
                forall|k: int| 0 <= k < j ==> fresh_monster(g.cfg, g.map, #[trigger] self.mons()[n + k], (g.next_id + k + 1) as u64, localized),
                g.map.width <= 4096,
                g.map.height <= 4096,
                mons_bounded(self.mons()),
                ids_unique(self.mons()),
                forall|i: int| 0 <= i < self.mons().len() ==> (#[trigger] self.mons()[i]).id <= self.next_id,
            decreases count - j,
        {
            let t = range_usize(&mut self.rng, 0, self.cfg.monsters.len());
            let p = positions[range_usize(&mut self.rng, 0, positions.len())];
            let ghost before = self.mons();
            let m = self.spawn_from(t, p.0, p.1, localized);
            proof {
                let cur_m = self.mons();
                assert(cur_m[n + j as int] == cur_m.last());
                assert(spawn_ok(g.map, p.0 as int, p.1 as int));
                assert(fresh_monster(g.cfg, g.map, cur_m[n + j as int], (g.next_id + j + 1) as u64, localized)) by {
                    assert(Pos { x: p.0, y: p.1 } == Pos { x: (p.0 as int) as i32, y: (p.1 as int) as i32 });
                }
                assert forall|k: int| 0 <= k < j + 1 implies fresh_monster(g.cfg, g.map, #[trigger] cur_m[n + k], (g.next_id + k + 1) as u64, localized) by {
                    if k < j {
                        assert(cur_m[n + k] == before[n + k]);
                    }
                }
                assert(cur_m.subrange(0, n as int) =~= before.subrange(0, n as int));
                assert forall|a: int, b: int| 0 <= a < b < cur_m.len() implies (#[trigger] cur_m[a]).id != (#[trigger] cur_m[b]).id by {
                    assert(cur_m[a] == before[a]);
                    if b < cur_m.len() - 1 {
                        assert(cur_m[b] == before[b]);
                    }
                }
                assert forall|a: int| 0 <= a < cur_m.len() implies (#[trigger] cur_m[a]).id <= self.next_id by {
                    if a < cur_m.len() - 1 {
                        assert(cur_m[a] == before[a]);
                    }
                }
                assert forall|a: int| 0 <= a < cur_m.len() implies (#[trigger] cur_m[a]).pos.bounded() && cur_m[a].home.bounded() by {
                    if a < cur_m.len() - 1 {
                        assert(cur_m[a] == before[a]);
                    }
                }
            }
            j += 1;
        }
    }

    /// A new single-player game for a character named `name` of class
    /// `class_id`: a fresh large map, the character at its center with the
    /// class's starting gear, and the configured number of monsters of random
    /// templates on random spawn tiles, named in the configured language.
    /// None for an unknown class.
    pub fn new(cfg: GameConfig, name: &str, class_id: &str, symbol: char, color: String) -> (r: Option<LocalGame>)
        requires
            cfg.wf(),
            cfg.world.monster_count <= ID_LIMIT,
            cfg.world.monster_count > 0 ==> cfg.monsters@.len() > 0,
        ensures
            match find_key(cfg.classes@, class_id@) {
                None => r is None,
                Some(ci) => r is Some && fresh_game(cfg, ci, name@, class_id@, symbol, color, r.unwrap()),
            },
    {
        let cls = match cfg.class(class_id) {
            Some(c) => c,
            None => {
                return None;
            },
        };
        let mut rng = rng_from_entropy();
        let map = generate_large(&mut rng);
        let (equipment, inventory, next_id) = make_start_gear(&cfg, cls, 1, cfg.locale.lang.as_str());
        let player = Player {
            id: 1,
            name: String::from_str(name),
            class_id: String::from_str(class_id),
            symbol,
            color,
            pos: Pos::new(128, 64),
            level: 1,
            xp: 0,
            xp_next: Player::xp_for_level(2),
            stats: cls.make_stats(),
            equipment,
            inventory,
            stat_points: 0,
        };
        let positions = monster_spawn_positions(&map);
        let count: usize = cfg.world.monster_count;
        let mut g = LocalGame { map, player, monsters: Vec::new(), ground_items: Vec::new(), cfg, next_id, tick: 0, rng };
        assert(g.mons() =~= Seq::<MonsterView>::empty());
        if positions.len() > 0 {
            g.populate(&positions, count, true);
            proof {
                let q = positions@[0];
                assert(spawn_ok(g.map, q.0 as int, q.1 as int));
            }
        } else {
            proof {
                assert(!spawnable(g.map)) by {
                    if spawnable(g.map) {
                        let (x, y) = choose|x: int, y: int| spawn_ok(g.map, x, y);
                        assert(spawn_ok(g.map, x, y));
                    }
                }
                assert(g.mons().subrange(0, 0) =~= Seq::<MonsterView>::empty());
                assert(populated(g.cfg, g.map, Seq::empty(), next_id as int, 0, true, g.mons()));
            }
        }
        Some(g)
    }

    /// The game in a zone: a map of style `style` drawn from `zone_seed`,
    /// `player` placed as `zone_start` says, and a third of the configured
    /// monster count (at least four) of random templates on random spawn
    /// tiles, with ids after 1000. On a zone map with no open tile off the
    /// border, `zone_start` keeps the player's position, which is why that
    /// position must be one a game can hold.
    pub fn new_zone(player: Player, zone_seed: u64, style: MapStyle, cfg: GameConfig) -> (r: LocalGame)
        requires
            cfg.wf(),
            cfg.monsters@.len() > 0,
            player.pos.bounded(),
        ensures
            zone_game(player, style, cfg, r),
    {
        let mut rng = rng_from_seed(zone_seed);
        let map = generate_zone(&mut rng, style);
        let mut player = player;
        player.pos = zone_spawn(&map, player.pos);
        let positions = monster_spawn_positions(&map);
        let third = cfg.world.monster_count / 3;
        let count: usize = if third >= 4 { third } else { 4 };
        let mut g = LocalGame { map, player, monsters: Vec::new(), ground_items: Vec::new(), cfg, next_id: 1000, tick: 0, rng };
        assert(g.mons() =~= Seq::<MonsterView>::empty());
        proof {
            assert(g.player.pos.bounded()) by {
                let q = g.player.pos;
                if q != player.pos {
                    assert(g.map.in_bounds(q.x as int, q.y as int) || q == player.pos);
                }
            }
        }
        if positions.len() > 0 {
            g.populate(&positions, count, true);
            proof {
                let q = positions@[0];
                assert(spawn_ok(g.map, q.0 as int, q.1 as int));
            }
        } else {
            proof {
                assert(!spawnable(g.map)) by {
                    if spawnable(g.map) {
                        let (x, y) = choose|x: int, y: int| spawn_ok(g.map, x, y);
                        assert(spawn_ok(g.map, x, y));
                    }
                }
                assert(g.mons().subrange(0, 0) =~= Seq::<MonsterView>::empty());
                assert(populated(g.cfg, g.map, Seq::empty(), 1000, 0, true, g.mons()));
            }
        }
        g
    }
}

} // verus!
