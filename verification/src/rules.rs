//! Rules shared by the single-player engine and the server: the range that
//! game numbers keep, levelling, and the damage formulas.

use vstd::prelude::*;
use crate::entity::{ClassDef, Item, ItemKind, Monster, MonsterTemplate, Player, Spell};
use crate::entity::item::Equipment;
use crate::entity::monster::MonsterView;
use crate::entity::player::{PlayerView, spec_xp_for_level, div_trunc};
use crate::config::GameConfig;
use crate::world::Stats;
use crate::arith::max_int;

verus! {

/// The odds that one entry of a monster's loot table drops: 7 in 20.
pub fn loot_odds() -> (r: (u32, u32))
    ensures
        r == (7u32, 20u32),
{
    (7, 20)
}

/// The odds of a critical hit: one in five for a rogue, one in ten for any
/// other class.
pub fn crit_odds(rogue: bool) -> (r: (u32, u32))
    ensures
        r == (if rogue { (1u32, 5u32) } else { (1u32, 10u32) }),
{
    if rogue { (1, 5) } else { (1, 10) }
}

/// Game numbers (stats, item bonuses, configured values) stay within this
/// magnitude; within it no formula of the game overflows `i32`.
pub const VALUE_LIMIT: i32 = 268435456;

/// Experience stays at most this; with it no award of experience overflows.
pub const XP_LIMIT: u64 = 4611686018427387904;

/// Entity ids stay at most this; with it no run of new ids overflows.
pub const ID_LIMIT: u64 = 4611686018427387904;

pub open spec fn in_limit(v: int) -> bool {
    -VALUE_LIMIT <= v <= VALUE_LIMIT
}

pub open spec fn stats_ok(s: Stats) -> bool {
    &&& in_limit(s.hp as int)
    &&& in_limit(s.max_hp as int)
    &&& in_limit(s.mp as int)
    &&& in_limit(s.max_mp as int)
    &&& in_limit(s.str as int)
    &&& in_limit(s.dex as int)
    &&& in_limit(s.int as int)
    &&& in_limit(s.vit as int)
}

pub open spec fn kind_ok(k: ItemKind) -> bool {
    match k {
        ItemKind::Weapon { dmg } => in_limit(dmg as int),
        ItemKind::Armor { def } => in_limit(def as int),
        ItemKind::Helmet { def } => in_limit(def as int),
        ItemKind::Ring { effect, value } => in_limit(value as int),
        ItemKind::Potion { hp, mp } => in_limit(hp as int) && in_limit(mp as int),
    }
}

pub open spec fn opt_item_ok(o: Option<Item>) -> bool {
    match o {
        Some(i) => kind_ok(i.kind),
        None => true,
    }
}

pub open spec fn equipment_ok(e: Equipment) -> bool {
    opt_item_ok(e.weapon) && opt_item_ok(e.armor) && opt_item_ok(e.helmet) && opt_item_ok(e.ring)
}

pub open spec fn items_ok(s: Seq<Item>) -> bool {
    forall|i: int| 0 <= i < s.len() ==> kind_ok((#[trigger] s[i]).kind)
}

pub open spec fn player_ok(p: PlayerView) -> bool {
    &&& stats_ok(p.stats)
    &&& equipment_ok(p.equipment)
    &&& items_ok(p.inventory)
}

pub open spec fn monster_ok(m: MonsterView) -> bool {
    &&& stats_ok(m.stats)
    &&& m.xp_reward <= VALUE_LIMIT
    &&& m.loot_table.len() <= VALUE_LIMIT
}

pub open spec fn class_ok(c: ClassDef) -> bool {
    &&& in_limit(c.base_hp as int)
    &&& in_limit(c.base_mp as int)
    &&& in_limit(c.base_str as int)
    &&& in_limit(c.base_dex as int)
    &&& in_limit(c.base_int as int)
    &&& in_limit(c.base_vit as int)
    &&& in_limit(c.hp_per_level as int)
    &&& in_limit(c.mp_per_level as int)
}

pub open spec fn template_ok(t: MonsterTemplate) -> bool {
    &&& in_limit(t.hp as int)
    &&& in_limit(t.str as int)
    &&& in_limit(t.vit as int)
    &&& t.xp_reward <= VALUE_LIMIT
    &&& t.loot_table@.len() <= VALUE_LIMIT
}

pub open spec fn spell_ok(s: Spell) -> bool {
    in_limit(s.mp_cost as int) && in_limit(s.damage as int) && in_limit(s.heal as int)
}

pub open spec fn cfg_ok(cfg: GameConfig) -> bool {
    &&& cfg.wf()
    &&& forall|i: int| 0 <= i < cfg.classes@.len() ==> class_ok(#[trigger] cfg.classes@[i])
    &&& forall|i: int| 0 <= i < cfg.monsters@.len() ==> template_ok(#[trigger] cfg.monsters@[i])
    &&& forall|i: int| 0 <= i < cfg.items@.len() ==> kind_ok((#[trigger] cfg.items@[i]).kind)
    &&& forall|i: int| 0 <= i < cfg.spells@.len() ==> spell_ok(#[trigger] cfg.spells@[i])
}

pub fn in_limit_exec(v: i32) -> (r: bool)
    ensures
        r == in_limit(v as int),
{
    -VALUE_LIMIT <= v && v <= VALUE_LIMIT
}

pub fn check_stats(s: &Stats) -> (r: bool)
    ensures
        r == stats_ok(*s),
{
    in_limit_exec(s.hp) && in_limit_exec(s.max_hp) && in_limit_exec(s.mp) && in_limit_exec(s.max_mp)
        && in_limit_exec(s.str) && in_limit_exec(s.dex) && in_limit_exec(s.int) && in_limit_exec(s.vit)
}

pub fn check_kind(k: &ItemKind) -> (r: bool)
    ensures
        r == kind_ok(*k),
{
    match k {
        ItemKind::Weapon { dmg } => in_limit_exec(*dmg),
        ItemKind::Armor { def } => in_limit_exec(*def),
        ItemKind::Helmet { def } => in_limit_exec(*def),
        ItemKind::Ring { effect, value } => in_limit_exec(*value),
        ItemKind::Potion { hp, mp } => in_limit_exec(*hp) && in_limit_exec(*mp),
    }
}

fn check_opt_item(o: &Option<Item>) -> (r: bool)
    ensures
        r == opt_item_ok(*o),
{
    match o {
        Some(i) => check_kind(&i.kind),
        None => true,
    }
}

pub fn check_items(v: &Vec<Item>) -> (r: bool)
    ensures
        r == items_ok(v@),
{
    let mut i: usize = 0;
    while i < v.len()
        invariant
            i <= v@.len(),
            forall|j: int| 0 <= j < i ==> kind_ok((#[trigger] v@[j]).kind),
        decreases v.len() - i,
    {
        if !check_kind(&v[i].kind) {
            return false;
        }
        i += 1;
    }
    true
}

pub fn check_monster(m: &Monster) -> (r: bool)
    ensures
        r == monster_ok(m@),
{
    check_stats(&m.stats) && m.xp_reward <= VALUE_LIMIT as u64 && m.loot_table.len() <= VALUE_LIMIT as usize
}

pub fn check_player(p: &Player) -> (r: bool)
    ensures
        r == player_ok(p@),
{
    check_stats(&p.stats) && check_opt_item(&p.equipment.weapon) && check_opt_item(&p.equipment.armor)
        && check_opt_item(&p.equipment.helmet) && check_opt_item(&p.equipment.ring) && check_items(&p.inventory)
}

pub fn check_cfg(cfg: &GameConfig) -> (r: bool)
    requires
        cfg.wf(),
    ensures
        r == cfg_ok(*cfg),
{
    let mut i: usize = 0;
    while i < cfg.classes.len()
        invariant
            i <= cfg.classes@.len(),
            forall|j: int| 0 <= j < i ==> class_ok(#[trigger] cfg.classes@[j]),
        decreases cfg.classes.len() - i,
    {
        let c = &cfg.classes[i];
        if !(in_limit_exec(c.base_hp) && in_limit_exec(c.base_mp) && in_limit_exec(c.base_str) && in_limit_exec(
            c.base_dex,
        ) && in_limit_exec(c.base_int) && in_limit_exec(c.base_vit) && in_limit_exec(c.hp_per_level)
            && in_limit_exec(c.mp_per_level)) {
            return false;
        }
        i += 1;
    }
    let mut i: usize = 0;
    while i < cfg.monsters.len()
        invariant
            i <= cfg.monsters@.len(),
            forall|j: int| 0 <= j < cfg.classes@.len() ==> class_ok(#[trigger] cfg.classes@[j]),
            forall|j: int| 0 <= j < i ==> template_ok(#[trigger] cfg.monsters@[j]),
        decreases cfg.monsters.len() - i,
    {
        let t = &cfg.monsters[i];
        if !(in_limit_exec(t.hp) && in_limit_exec(t.str) && in_limit_exec(t.vit) && t.xp_reward <= VALUE_LIMIT as u64
            && t.loot_table.len() <= VALUE_LIMIT as usize) {
            return false;
        }
        i += 1;
    }
    let mut i: usize = 0;
    while i < cfg.items.len()
        invariant
            i <= cfg.items@.len(),
            forall|j: int| 0 <= j < cfg.classes@.len() ==> class_ok(#[trigger] cfg.classes@[j]),
            forall|j: int| 0 <= j < cfg.monsters@.len() ==> template_ok(#[trigger] cfg.monsters@[j]),
            forall|j: int| 0 <= j < i ==> kind_ok((#[trigger] cfg.items@[j]).kind),
        decreases cfg.items.len() - i,
    {
        if !check_kind(&cfg.items[i].kind) {
            return false;
        }
        i += 1;
    }
    let mut i: usize = 0;
    while i < cfg.spells.len()
        invariant
            i <= cfg.spells@.len(),
            forall|j: int| 0 <= j < cfg.classes@.len() ==> class_ok(#[trigger] cfg.classes@[j]),
            forall|j: int| 0 <= j < cfg.monsters@.len() ==> template_ok(#[trigger] cfg.monsters@[j]),
            forall|j: int| 0 <= j < cfg.items@.len() ==> kind_ok((#[trigger] cfg.items@[j]).kind),
            forall|j: int| 0 <= j < i ==> spell_ok(#[trigger] cfg.spells@[j]),
        decreases cfg.spells.len() - i,
    {
        let s = &cfg.spells[i];
        if !(in_limit_exec(s.mp_cost) && in_limit_exec(s.damage) && in_limit_exec(s.heal)) {
            return false;
        }
        i += 1;
    }
    true
}

/// Whether one more level fits the integer types of the player's numbers.
pub open spec fn level_step_fits(p: PlayerView, cls: Option<ClassDef>) -> bool {
    &&& p.level + 2 <= u32::MAX
    &&& spec_xp_for_level((p.level + 2) as u32) <= u64::MAX
    &&& p.stat_points + 3 <= u32::MAX
    &&& p.stats.str + 1 <= i32::MAX
    &&& p.stats.vit + 1 <= i32::MAX
    &&& (cls is Some ==> {
        &&& i32::MIN <= p.stats.max_hp + cls.unwrap().hp_per_level <= i32::MAX
        &&& i32::MIN <= p.stats.max_mp + cls.unwrap().mp_per_level <= i32::MAX
    })
}

/// One level up: the experience for it is spent, the level rises, the next
/// threshold is `xp_for_level(level + 1)`, three stat points are granted,
/// strength and vitality rise by one, and with the class known its per-level
/// gains raise the maximum hit points and mana, which are then refilled.
pub open spec fn level_step(p: PlayerView, cls: Option<ClassDef>) -> PlayerView {
    let s1 = Stats { str: (p.stats.str + 1) as i32, vit: (p.stats.vit + 1) as i32, ..p.stats };
    let s2 = match cls {
        Some(c) => Stats {
            max_hp: (p.stats.max_hp + c.hp_per_level) as i32,
            hp: (p.stats.max_hp + c.hp_per_level) as i32,
            max_mp: (p.stats.max_mp + c.mp_per_level) as i32,
            mp: (p.stats.max_mp + c.mp_per_level) as i32,
            ..s1
        },
        None => s1,
    };
    PlayerView {
        xp: (p.xp - p.xp_next) as u64,
        level: (p.level + 1) as u32,
        xp_next: spec_xp_for_level((p.level + 2) as u32) as u64,
        stat_points: (p.stat_points + 3) as u32,
        stats: s2,
        ..p
    }
}

/// A level up spends the experience of the threshold, raises the level by
/// one, sets the next threshold to 150 times the square of the level after
/// the new one, grants three stat points and one each of strength and vitality, and
/// leaves everything else of the player alone but the hit points and mana:
/// with the class known, both maxima rise by the class's per-level gains and
/// the hit points and mana are refilled to the new maxima; with the class
/// unknown, they do not change.
pub proof fn lemma_level_step_refills(p: PlayerView, cls: Option<ClassDef>)
    requires
        p.xp >= p.xp_next,
        level_step_fits(p, cls),
    ensures
        ({
            let q = level_step(p, cls);
            &&& q.level == p.level + 1
            &&& q.xp == p.xp - p.xp_next
            &&& q.xp_next == 150 * (q.level + 1) * (q.level + 1)
            &&& q.stat_points == p.stat_points + 3
            &&& q.stats.str == p.stats.str + 1
            &&& q.stats.vit == p.stats.vit + 1
            &&& q.stats.dex == p.stats.dex
            &&& q.stats.int == p.stats.int
            &&& q == PlayerView { xp: q.xp, level: q.level, xp_next: q.xp_next, stat_points: q.stat_points, stats: q.stats, ..p }
            &&& match cls {
                Some(c) => {
                    &&& q.stats.max_hp == p.stats.max_hp + c.hp_per_level
                    &&& q.stats.hp == q.stats.max_hp
                    &&& q.stats.max_mp == p.stats.max_mp + c.mp_per_level
                    &&& q.stats.mp == q.stats.max_mp
                },
                None => {
                    &&& q.stats.max_hp == p.stats.max_hp && q.stats.hp == p.stats.hp
                    &&& q.stats.max_mp == p.stats.max_mp && q.stats.mp == p.stats.mp
                },
            }
        }),
{
    let l: int = p.level + 2;
    assert(l * l * 150 == 150 * l * l) by (nonlinear_arith);
}

pub fn level_step_fits_exec(p: &Player, cls: Option<&ClassDef>) -> (r: bool)
    ensures
        r == level_step_fits(p@, match cls { Some(c) => Some(*c), None => None }),
{
    if p.level > u32::MAX - 2 || p.stat_points > u32::MAX - 3 || p.stats.str == i32::MAX || p.stats.vit
        == i32::MAX {
        return false;
    }
    let l: u64 = (p.level + 2) as u64;
    if l > 351_000_000 {
        assert(l * l * 150 > u64::MAX) by (nonlinear_arith)
            requires l > 351_000_000;
        return false;
    }
    assert(l * l <= 351_000_000 * 351_000_000) by (nonlinear_arith)
        requires l <= 351_000_000;
    let sq: u64 = l * l;
    if sq > u64::MAX / 150 {
        assert(sq * 150 > u64::MAX) by (nonlinear_arith)
            requires sq > u64::MAX / 150;
        return false;
    }
    assert(sq * 150 <= u64::MAX) by (nonlinear_arith)
        requires sq <= u64::MAX / 150;
    match cls {
        Some(c) => {
            let mh: i64 = p.stats.max_hp as i64 + c.hp_per_level as i64;
            let mm: i64 = p.stats.max_mp as i64 + c.mp_per_level as i64;
            mh >= i32::MIN as i64 && mh <= i32::MAX as i64 && mm >= i32::MIN as i64 && mm <= i32::MAX as i64
        },
        None => true,
    }
}

/// Applies one level up to the player.
pub fn apply_level_step(p: &mut Player, cls: Option<&ClassDef>)
    requires
        old(p).xp >= old(p).xp_next,
        level_step_fits(old(p)@, match cls { Some(c) => Some(*c), None => None }),
    ensures
        final(p)@ == level_step(old(p)@, match cls { Some(c) => Some(*c), None => None }),
        final(p).level == old(p).level + 1,
        cls is Some ==> final(p).stats.hp == final(p).stats.max_hp && final(p).stats.mp == final(p).stats.max_mp
            && final(p).stats.max_mp == old(p).stats.max_mp + cls.unwrap().mp_per_level
            && final(p).stats.max_hp == old(p).stats.max_hp + cls.unwrap().hp_per_level,
{
    p.xp = p.xp - p.xp_next;
    p.level = p.level + 1;
    p.xp_next = Player::xp_for_level(p.level + 1);
    p.stat_points = p.stat_points + 3;
    p.stats.str = p.stats.str + 1;
    p.stats.vit = p.stats.vit + 1;
    if let Some(c) = cls {
        p.stats.max_hp = p.stats.max_hp + c.hp_per_level;
        p.stats.hp = p.stats.max_hp;
        p.stats.max_mp = p.stats.max_mp + c.mp_per_level;
        p.stats.mp = p.stats.max_mp;
    }
}

/// Damage of a melee hit with raw power `raw` on a monster of vitality
/// `vit`: the raw power less a third of the vitality, at least one.
pub open spec fn melee_damage(raw: int, vit: int) -> int {
    max_int(raw - div_trunc(vit, 3), 1)
}

/// Damage of a spell of power `dmg` on a monster of vitality `vit`: the
/// power less a quarter of the vitality, at least one.
pub open spec fn spell_damage(dmg: int, vit: int) -> int {
    max_int(dmg - div_trunc(vit, 4), 1)
}

/// Damage a monster of strength `str` deals to a player of defense `def`:
/// the strength less two (saturating), at least one, less half the defense,
/// at least one.
pub open spec fn monster_damage(str: int, def: int) -> int {
    max_int(max_int(if str - 2 < i32::MIN { i32::MIN as int } else { str - 2 }, 1) - div_trunc(def, 2), 1)
}

} // verus!

verus! {

/// With the player's numbers in range, attack and defense fit `i32` with room
/// to spare.
pub proof fn lemma_player_ok_bounds(p: PlayerView)
    requires
        player_ok(p),
    ensures
        p.attack_fits(),
        p.defense_fits(),
        -2 * VALUE_LIMIT <= p.spec_attack() <= 2 * VALUE_LIMIT,
        -3 * VALUE_LIMIT <= p.spec_defense() <= 3 * VALUE_LIMIT,
{
    assert(-VALUE_LIMIT <= p.equipment.spec_atk_bonus() <= VALUE_LIMIT);
    assert(-VALUE_LIMIT <= p.equipment.spec_armor_def() <= VALUE_LIMIT);
    assert(-VALUE_LIMIT <= p.equipment.spec_helmet_def() <= VALUE_LIMIT);
    assert(-VALUE_LIMIT <= div_trunc(p.stats.vit as int, 2) <= VALUE_LIMIT);
}


/// Every hit deals at least one point of damage.
pub proof fn lemma_damage_positive(raw: int, vit: int, str: int, def: int)
    ensures
        melee_damage(raw, vit) >= 1,
        spell_damage(raw, vit) >= 1,
        monster_damage(str, def) >= 1,
{
}

/// A critical hit, of doubled power, never deals less than a normal one.
pub proof fn lemma_crit_not_weaker(raw: int, vit: int)
    requires
        raw >= 0,
    ensures
        melee_damage(2 * raw, vit) >= melee_damage(raw, vit),
{
}

} // verus!
