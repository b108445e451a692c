//! The player's actions in the single-player game.

use vstd::prelude::*;
use crate::actions::{
    belongings, lemma_equip_keeps_belongings, lemma_ground_index_push, lemma_item_index_bounds, UseOutcome, drop_from_inventory, equip_from_inventory, equipped, find_ground, ground_index, item_index,
    potion_used, use_item,
};
use crate::arith::{max_i32, min_i32, min_int};
use crate::config::find_key;
use crate::entity::{GroundItem, Item, ItemKind, Player, Spell};
use crate::entity::item::{Equipment, Slot, spec_slot_name, spec_slot_of};
use crate::entity::monster::MonsterView;
use crate::entity::player::PlayerView;
use crate::rng::chance;
use crate::rules::{crit_odds, loot_odds, melee_damage, spell_damage, player_ok, stats_ok, monster_ok, spell_ok, lemma_player_ok_bounds};
use crate::text::{copy_string, decimal_int, push_decimal_i64, push_str, str_eq};
use crate::world::{Pos, Stats};
use super::{LocalGame, find_monster, mon_index, nearest_of};
use super::events::{Color, SpEvent, SpEventView, emit, emit_all, events_view};
use super::loot::{struck, lemma_struck_wf};

verus! {

pub open spec fn see_line(name: Seq<char>) -> Seq<char> {
    "You see '"@ + name + "' here. Press P to pick it up."@
}

pub open spec fn used_line(name: Seq<char>, hp: i32, mp: i32) -> Seq<char> {
    "Used "@ + name + ". HP +"@ + decimal_int(hp as int) + " MP +"@ + decimal_int(mp as int)
}

pub open spec fn equipped_line(name: Seq<char>, slot: Seq<char>) -> Seq<char> {
    "Equipped "@ + name + " in "@ + slot + " slot."@
}

pub open spec fn picked_line(name: Seq<char>) -> Seq<char> {
    "Picked up "@ + name + "."@
}

pub open spec fn dropped_line(name: Seq<char>) -> Seq<char> {
    "Dropped "@ + name + "."@
}

pub open spec fn unknown_spell_line(id: Seq<char>) -> Seq<char> {
    "Unknown spell: "@ + id
}

pub open spec fn no_mp_line(name: Seq<char>, mp: i32, cost: i32) -> Seq<char> {
    "Not enough MP to cast "@ + name + "! ("@ + decimal_int(mp as int) + "/"@ + decimal_int(cost as int) + ")"@
}

pub open spec fn heal_line(name: Seq<char>, heal: i32, mp: i32) -> Seq<char> {
    "✨ "@ + name + " heals "@ + decimal_int(heal as int) + " HP! (MP: "@ + decimal_int(mp as int) + ")"@
}

pub open spec fn no_target_line(name: Seq<char>) -> Seq<char> {
    "✨ "@ + name + " — no target in range!"@
}

/// Whether a living monster stands at `p`.
pub open spec fn monster_blocks(s: Seq<MonsterView>, p: Pos) -> bool {
    exists|i: int| 0 <= i < s.len() && (#[trigger] s[i]).pos == p && s[i].stats.hp > 0
}

/// Where a step of `(dx, dy)` leads the player.
pub open spec fn step_target(g: LocalGame, dx: i32, dy: i32) -> Pos {
    Pos { x: (g.player.pos.x + dx) as i32, y: (g.player.pos.y + dy) as i32 }
}

/// The monster the player can strike: the one with id `id`, if alive and
/// next to the player.
pub open spec fn attack_target(g: LocalGame, id: u64) -> Option<int> {
    match mon_index(g.mons(), id) {
        Some(i) => if g.mons()[i].stats.hp > 0 && g.player.pos.spec_adjacent(g.mons()[i].pos) {
            Some(i)
        } else {
            None
        },
        None => None,
    }
}

/// The power of the player's melee hit: the attack, doubled on a critical hit.
pub open spec fn melee_power(g: LocalGame, is_crit: bool) -> int {
    if is_crit { 2 * g.player@.spec_attack() } else { g.player@.spec_attack() }
}

/// The outcome of the player's attack on monster `id`, with `is_crit` and
/// `drops` what the dice gave.
pub open spec fn attacked(g: LocalGame, id: u64, is_crit: bool, drops: Seq<bool>, h: LocalGame, ev: Seq<SpEventView>) -> bool {
    match attack_target(g, id) {
        None => h.same_as(g) && ev.len() == 0,
        Some(i) => {
            &&& ev.len() > 0
            &&& ev.last() == SpEventView::UpdatePlayer(h.player@)
            &&& struck(g, i, melee_damage(melee_power(g, is_crit), g.mons()[i].stats.vit as int), g.player.name@,
                is_crit, drops, h, ev.drop_last())
        },
    }
}

/// The player after paying for spell `sp` and, for a healing spell, healing.
pub open spec fn after_cost(p: Player, sp: Spell) -> Player {
    let hp = if sp.heal > 0 { min_int(p.stats.hp + sp.heal, p.stats.max_hp as int) } else { p.stats.hp as int };
    Player { stats: Stats { mp: (p.stats.mp - sp.mp_cost) as i32, hp: hp as i32, ..p.stats }, ..p }
}

/// Paying for a spell takes its cost off the mana; a healing spell raises
/// the hit points by its heal amount, but never above the maximum, and a
/// spell that does not heal leaves them as they were. Nothing else about
/// the player changes.
pub proof fn lemma_spell_cost_and_heal(p: Player, sp: Spell)
    requires
        player_ok(p@),
        spell_ok(sp),
        p.stats.mp >= sp.mp_cost,
        p.stats.hp <= p.stats.max_hp,
    ensures
        ({
            let q = after_cost(p, sp);
            &&& q.stats.mp == p.stats.mp - sp.mp_cost
            &&& sp.heal > 0 && p.stats.hp + sp.heal <= p.stats.max_hp ==> q.stats.hp == p.stats.hp + sp.heal
            &&& sp.heal > 0 && p.stats.hp + sp.heal > p.stats.max_hp ==> q.stats.hp == p.stats.max_hp
            &&& sp.heal > 0 ==> p.stats.hp < q.stats.hp <= p.stats.hp + sp.heal || q.stats.hp == p.stats.max_hp
            &&& q.stats.hp <= p.stats.max_hp
            &&& sp.heal <= 0 ==> q.stats.hp == p.stats.hp
            &&& q.stats == (Stats { hp: q.stats.hp, mp: q.stats.mp, ..p.stats })
            &&& q == (Player { stats: q.stats, ..p })
        }),
{
}

/// Casting a known spell the player can pay for that hits no monster (it
/// does no damage, or no monster is there to hit): the player's mana drops
/// by the cost and the hit points rise by the heal amount, capped at the
/// maximum; nothing else in the game changes.
pub proof fn lemma_cast_heals(g: LocalGame, id: Seq<char>, drops: Seq<bool>, h: LocalGame, ev: Seq<SpEventView>)
    requires
        g.values_ok(),
        g.player.stats.hp <= g.player.stats.max_hp,
        cast(g, id, drops, h, ev),
        find_key(g.cfg.spells@, id) matches Some(si) && g.player.stats.mp >= g.cfg.spells@[si].mp_cost && (
            g.cfg.spells@[si].damage <= 0 || spell_target(g.with_player(after_cost(g.player, g.cfg.spells@[si]))) is None),
    ensures
        ({
            let sp = g.cfg.spells@[find_key(g.cfg.spells@, id).unwrap()];
            let cap = if g.player.stats.hp + sp.heal <= g.player.stats.max_hp { g.player.stats.hp + sp.heal } else {
                g.player.stats.max_hp as int };
            &&& h.player.stats.mp == g.player.stats.mp - sp.mp_cost
            &&& sp.heal > 0 ==> h.player.stats.hp == cap
            &&& sp.heal <= 0 ==> h.player.stats.hp == g.player.stats.hp
            &&& h.map == g.map && h.monsters@ == g.monsters@ && h.ground_items@ == g.ground_items@
        }),
{
    let si = find_key(g.cfg.spells@, id).unwrap();
    let sp = g.cfg.spells@[si];
    assert(spell_ok(sp));
    lemma_spell_cost_and_heal(g.player, sp);
}

/// The monster a damaging spell hits: the nearest one next to the player, or
/// else the nearest one anywhere.
pub open spec fn spell_target(g: LocalGame) -> Option<int> {
    let t = match nearest_of(g.mons(), g.player.pos, true) {
        Some(id) => Some(id),
        None => nearest_of(g.mons(), g.player.pos, false),
    };
    match t {
        Some(id) => mon_index(g.mons(), id),
        None => None,
    }
}

/// The outcome of casting spell `id`, with `drops` the loot rolls.
pub open spec fn cast(g: LocalGame, id: Seq<char>, drops: Seq<bool>, h: LocalGame, ev: Seq<SpEventView>) -> bool {
    match find_key(g.cfg.spells@, id) {
        None => h.same_as(g) && ev == seq![SpEventView::Log(unknown_spell_line(id), Color::Red)],
        Some(si) => {
            let sp = g.cfg.spells@[si];
            if g.player.stats.mp < sp.mp_cost {
                &&& h.same_as(g)
                &&& ev == seq![SpEventView::Log(no_mp_line(sp.name@, g.player.stats.mp, sp.mp_cost), Color::Red)]
            } else {
                let p1 = after_cost(g.player, sp);
                let g1 = g.with_player(p1);
                let heal_ev = if sp.heal > 0 {
                    seq![SpEventView::Log(heal_line(sp.name@, sp.heal, p1.stats.mp), Color::Green)]
                } else {
                    Seq::empty()
                };
                if sp.damage > 0 {
                    match spell_target(g1) {
                        Some(i) => {
                            &&& ev.len() >= heal_ev.len() + 1
                            &&& ev.subrange(0, heal_ev.len() as int) == heal_ev
                            &&& ev.last() == SpEventView::UpdatePlayer(h.player@)
                            &&& struck(g1, i, spell_damage(sp.damage as int, g.mons()[i].stats.vit as int),
                                g.player.name@ + " ("@ + sp.name@ + ")"@, false, drops, h,
                                ev.subrange(heal_ev.len() as int, ev.len() - 1))
                        },
                        None => {
                            &&& h.same_as(g1)
                            &&& ev == heal_ev + seq![
                                SpEventView::Log(no_target_line(sp.name@), Color::Yellow),
                                SpEventView::UpdatePlayer(p1@),
                            ]
                        },
                    }
                } else {
                    h.same_as(g1) && ev == heal_ev + seq![SpEventView::UpdatePlayer(p1@)]
                }
            }
        },
    }
}

/// The outcome of a step of `(dx, dy)`: the player moves unless dead or the
/// tile is impassable or taken by a living monster, and an item lying there
/// is pointed out.
pub open spec fn move_outcome(g: LocalGame, dx: i32, dy: i32, h: LocalGame, ev: Seq<SpEventView>) -> bool {
    let np = step_target(g, dx, dy);
    if g.player.stats.hp > 0 && g.map.spec_passable(np.x as int, np.y as int) && !monster_blocks(g.mons(), np) {
        let see = match ground_index(g.ground_items@, np) {
            Some(i) => seq![SpEventView::Log(see_line(g.ground_items@[i].item.name@), Color::Yellow)],
            None => Seq::empty(),
        };
        &&& h.same_as(g.with_player(Player { pos: np, ..g.player }))
        &&& ev == see + seq![SpEventView::UpdatePlayer(h.player@)]
    } else {
        h.same_as(g) && ev.len() == 0
    }
}

/// The outcome of drinking item `item_id`.
pub open spec fn use_outcome(g: LocalGame, item_id: u64, h: LocalGame, ev: Seq<SpEventView>) -> bool {
    &&& h.same_but_player(g)
    &&& match item_index(g.player@.inventory, item_id) {
        None => h.player@ == g.player@ && ev.len() == 0,
        Some(i) => match g.player@.inventory[i].kind {
            ItemKind::Potion { hp, mp } => {
                &&& h.player@ == potion_used(g.player@, i, hp, mp)
                &&& ev == seq![
                    SpEventView::Log(used_line(g.player@.inventory[i].name@, hp, mp), Color::Green),
                    SpEventView::UpdatePlayer(h.player@),
                ]
            },
            _ => {
                &&& h.player@ == g.player@
                &&& ev == seq![SpEventView::Log("That item is not a consumable."@, Color::Red)]
            },
        },
    }
}

/// The outcome of equipping item `item_id`.
pub open spec fn equip_outcome(g: LocalGame, item_id: u64, h: LocalGame, ev: Seq<SpEventView>) -> bool {
    &&& h.same_but_player(g)
    &&& match item_index(g.player@.inventory, item_id) {
        None => h.player@ == g.player@ && ev.len() == 0,
        Some(i) => {
            let it = g.player@.inventory[i];
            &&& h.player@ == equipped(g.player@, i)
            &&& ev == seq![
                SpEventView::Log(equipped_line(it.name@, spec_slot_name(it.kind)), Color::Cyan),
                SpEventView::UpdatePlayer(h.player@),
            ]
        },
    }
}

/// Equipping in the game keeps everything the player owns (the item takes
/// its slot and what the slot held goes to the end of the inventory; a
/// potion has no slot and is used up), changes nothing but the player, and
/// reports the slot.
pub proof fn lemma_equip_outcome_keeps(g: LocalGame, item_id: u64, h: LocalGame, ev: Seq<SpEventView>)
    requires
        equip_outcome(g, item_id, h, ev),
        item_index(g.player@.inventory, item_id) is Some,
    ensures
        ({
            let inv = g.player@.inventory;
            let i = item_index(inv, item_id).unwrap();
            let it = inv[i];
            &&& h.same_but_player(g)
            &&& spec_slot_of(it.kind) != Slot::Consumable ==> belongings(h.player@) == belongings(g.player@)
            &&& spec_slot_of(it.kind) == Slot::Consumable ==> belongings(h.player@) == belongings(g.player@).remove(it)
            &&& ev == seq![
                SpEventView::Log(equipped_line(it.name@, spec_slot_name(it.kind)), Color::Cyan),
                SpEventView::UpdatePlayer(h.player@),
            ]
        }),
{
    let inv = g.player@.inventory;
    lemma_item_index_bounds(inv, item_id);
    let i = item_index(inv, item_id).unwrap();
    lemma_equip_keeps_belongings(g.player@, i);
}

/// The outcome of picking up: the first item on the player's tile goes to
/// the inventory.
pub open spec fn pickup_outcome(g: LocalGame, h: LocalGame, ev: Seq<SpEventView>) -> bool {
    &&& h.map == g.map
    &&& h.monsters@ == g.monsters@
    &&& h.cfg == g.cfg
    &&& h.next_id == g.next_id
    &&& h.tick == g.tick
    &&& match ground_index(g.ground_items@, g.player.pos) {
        None => {
            &&& h.player@ == g.player@
            &&& h.ground_items@ == g.ground_items@
            &&& ev == seq![SpEventView::Log("Nothing to pick up here."@, Color::Yellow)]
        },
        Some(i) => {
            let gi = g.ground_items@[i];
            &&& h.ground_items@ == g.ground_items@.remove(i)
            &&& h.player@ == PlayerView { inventory: g.player@.inventory.push(gi.item), ..g.player@ }
            &&& ev == seq![
                SpEventView::Log(picked_line(gi.item.name@), Color::Yellow),
                SpEventView::ItemPickedUp { item_id: gi.item.id },
                SpEventView::UpdatePlayer(h.player@),
            ]
        },
    }
}

/// The outcome of dropping item `item_id` on the player's tile.
pub open spec fn drop_outcome(g: LocalGame, item_id: u64, h: LocalGame, ev: Seq<SpEventView>) -> bool {
    &&& h.map == g.map
    &&& h.monsters@ == g.monsters@
    &&& h.cfg == g.cfg
    &&& h.next_id == g.next_id
    &&& h.tick == g.tick
    &&& match item_index(g.player@.inventory, item_id) {
        None => {
            &&& h.player@ == g.player@
            &&& h.ground_items@ == g.ground_items@
            &&& ev.len() == 0
        },
        Some(i) => {
            let gi = GroundItem { item: g.player@.inventory[i], pos: g.player.pos };
            &&& h.player@ == PlayerView { inventory: g.player@.inventory.remove(i), ..g.player@ }
            &&& h.ground_items@ == g.ground_items@.push(gi)
            &&& ev == seq![
                SpEventView::Log(dropped_line(gi.item.name@), Color::Yellow),
                SpEventView::ItemDropped(gi),
                SpEventView::UpdatePlayer(h.player@),
            ]
        },
    }
}

/// One loot roll per entry, each coming up with the odds of `loot_odds`.
pub fn roll_loot(rng: &mut rand::rngs::StdRng, n: usize) -> (r: Vec<bool>)
    ensures
        r@.len() == n,
{
    let (num, den) = loot_odds();
    let mut out: Vec<bool> = Vec::new();
    let mut k: usize = 0;
    while k < n
        invariant
            k <= n,
            out@.len() == k,
            (num, den) == (7u32, 20u32),
        decreases n - k,
    {
        out.push(chance(rng, num, den));
        k += 1;
    }
    out
}

impl LocalGame {
    /// Moves the player by `(dx, dy)` unless the player is dead or the tile
    /// is impassable or taken by a living monster; an item lying there is
    /// pointed out.
    pub fn move_player(&mut self, dx: i32, dy: i32) -> (events: Vec<SpEvent>)
        requires
            old(self).wf(),
            i32::MIN <= old(self).player.pos.x + dx <= i32::MAX,
            i32::MIN <= old(self).player.pos.y + dy <= i32::MAX,
        ensures
            final(self).wf(),
            move_outcome(*old(self), dx, dy, *final(self), events_view(events@)),
    {
        let mut events: Vec<SpEvent> = Vec::new();
        if !self.player.stats.is_alive() {
            return events;
        }
        let np = Pos::new(self.player.pos.x + dx, self.player.pos.y + dy);
        if !self.map.passable(np.x, np.y) {
            return events;
        }
        let ghost s = self.mons();
        let ghost g0 = *self;
        let mut i: usize = 0;
        while i < self.monsters.len()
            invariant
                i <= s.len(),
                s == self.mons(),
                *self == g0,
                g0 == *old(self),
                g0.wf(),
                events@.len() == 0,
                np == step_target(g0, dx, dy),
                forall|j: int| 0 <= j < i ==> !((#[trigger] s[j]).pos == np && s[j].stats.hp > 0),
            decreases self.monsters.len() - i,
        {
            assert(s[i as int] == self.monsters@[i as int]@);
            if self.monsters[i].pos == np && self.monsters[i].stats.is_alive() {
                assert(monster_blocks(s, np));
                return events;
            }
            i += 1;
        }
        assert(self.map.in_bounds(np.x as int, np.y as int));
        self.player.pos = np;
        match find_ground(&self.ground_items, np) {
            Some(k) => {
                let mut line = String::from_str("You see '");
                push_str(&mut line, self.ground_items[k].item.name.as_str());
                push_str(&mut line, "' here. Press P to pick it up.");
                emit(&mut events, SpEvent::Log(line, Color::Yellow));
            },
            None => {},
        }
        emit(&mut events, SpEvent::UpdatePlayer(self.player.duplicate()));
        proof {
            let ev = events_view(events@);
            if ev.len() == 2 {
                assert(ev =~= seq![ev[0]] + seq![ev[1]]);
            } else {
                assert(ev =~= Seq::<SpEventView>::empty() + seq![ev[0]]);
            }
        }
        events
    }

    /// The player's melee attack on monster `target_id`, with `is_crit`
    /// whether it is critical and `drops` the loot rolls; nothing happens
    /// unless the monster is alive and next to the player.
    pub fn attack_with(&mut self, target_id: u64, is_crit: bool, drops: &Vec<bool>) -> (events: Vec<SpEvent>)
        requires
            old(self).wf(),
            old(self).values_ok(),
        ensures
            final(self).wf(),
            attacked(*old(self), target_id, is_crit, drops@, *final(self), events_view(events@)),
    {
        let idx = match find_monster(&self.monsters, target_id) {
            Some(i) => i,
            None => {
                return Vec::new();
            },
        };
        let ghost g0 = *self;
        assert(g0.mons()[idx as int] == self.monsters@[idx as int]@);
        if !(self.monsters[idx].stats.is_alive() && self.player.pos.adjacent(self.monsters[idx].pos)) {
            return Vec::new();
        }
        proof {
            lemma_player_ok_bounds(self.player@);
            assert(monster_ok(g0.mons()[idx as int]));
        }
        let atk = self.player.attack();
        let raw = if is_crit { atk * 2 } else { atk };
        let dmg = max_i32(raw - self.monsters[idx].stats.vit / 3, 1);
        let name = copy_string(&self.player.name);
        let mut events = self.strike(idx, dmg, name, is_crit, drops);
        let ghost mid = events_view(events@);
        proof {
            lemma_struck_wf(g0, idx as int, dmg as int, g0.player.name@, is_crit, drops@, *self, mid);
        }
        emit(&mut events, SpEvent::UpdatePlayer(self.player.duplicate()));
        assert(events_view(events@).drop_last() =~= mid);
        events
    }

    /// The player's melee attack on monster `target_id`; the dice decide
    /// whether it is critical (one in five for a rogue, else one in ten) and
    /// which loot drops (each entry with probability 7/20).
    pub fn attack(&mut self, target_id: u64) -> (events: Vec<SpEvent>)
        requires
            old(self).wf(),
            old(self).values_ok(),
        ensures
            final(self).wf(),
            exists|c: bool, d: Seq<bool>| attacked(*old(self), target_id, c, d, *final(self), #[trigger] events_view(events@)),
    {
        let n: usize = match find_monster(&self.monsters, target_id) {
            Some(i) => self.monsters[i].loot_table.len(),
            None => 0,
        };
        let rogue = str_eq(self.player.class_id.as_str(), "rogue");
        let (num, den) = crit_odds(rogue);
        let crit = chance(&mut self.rng, num, den);
        let drops = roll_loot(&mut self.rng, n);
        let ghost mid = *self;
        let events = self.attack_with(target_id, crit, &drops);
        proof {
            lemma_attacked_ignores_rng(*old(self), mid, target_id, crit, drops@, *self, events_view(events@));
        }
        events
    }

    /// Casts spell `spell_id` with `drops` the loot rolls: an unknown spell
    /// or too little mana is reported; else the mana is paid, a healing spell
    /// heals, and a damaging one hits the nearest monster next to the player,
    /// or else the nearest anywhere.
    pub fn cast_spell_with(&mut self, spell_id: &str, drops: &Vec<bool>) -> (events: Vec<SpEvent>)
        requires
            old(self).wf(),
            old(self).values_ok(),
        ensures
            final(self).wf(),
            cast(*old(self), spell_id@, drops@, *final(self), events_view(events@)),
    {
        let ghost g0 = *self;
        let mut events: Vec<SpEvent> = Vec::new();
        let (sname, cost, heal, damage) = match self.cfg.spell(spell_id) {
            Some(sp) => (copy_string(&sp.name), sp.mp_cost, sp.heal, sp.damage),
            None => {
                let mut line = String::from_str("Unknown spell: ");
                push_str(&mut line, spell_id);
                emit(&mut events, SpEvent::Log(line, Color::Red));
                assert(events_view(events@) =~= seq![SpEventView::Log(unknown_spell_line(spell_id@), Color::Red)]);
                return events;
            },
        };
        let ghost si = find_key(g0.cfg.spells@, spell_id@).unwrap();
        let ghost sp = g0.cfg.spells@[si];
        assert(spell_ok(sp));
        if self.player.stats.mp < cost {
            let mut line = String::from_str("Not enough MP to cast ");
            push_str(&mut line, sname.as_str());
            push_str(&mut line, "! (");
            push_decimal_i64(&mut line, self.player.stats.mp as i64);
            push_str(&mut line, "/");
            push_decimal_i64(&mut line, cost as i64);
            push_str(&mut line, ")");
            emit(&mut events, SpEvent::Log(line, Color::Red));
            assert(events_view(events@) =~= seq![SpEventView::Log(no_mp_line(sp.name@, g0.player.stats.mp, sp.mp_cost), Color::Red)]);
            return events;
        }
        self.player.stats.mp = self.player.stats.mp - cost;
        if heal > 0 {
            self.player.stats.hp = min_i32(self.player.stats.hp + heal, self.player.stats.max_hp);
            let mut line = String::from_str("✨ ");
            push_str(&mut line, sname.as_str());
            push_str(&mut line, " heals ");
            push_decimal_i64(&mut line, heal as i64);
            push_str(&mut line, " HP! (MP: ");
            push_decimal_i64(&mut line, self.player.stats.mp as i64);
            push_str(&mut line, ")");
            emit(&mut events, SpEvent::Log(line, Color::Green));
        }
        let ghost p1 = after_cost(g0.player, sp);
        let ghost g1 = g0.with_player(p1);
        assert(self.player == p1);
        assert(*self == (LocalGame { rng: self.rng, ..g1 }));
        let ghost heal_ev = events_view(events@);
        assert(heal_ev =~= if sp.heal > 0 {
            seq![SpEventView::Log(heal_line(sp.name@, sp.heal, p1.stats.mp), Color::Green)]
        } else {
            Seq::empty()
        });
        if damage > 0 {
            let target = match self.nearest_monster_id() {
                Some(t) => Some(t),
                None => self.nearest_monster_id_any(),
            };
            let found = match target {
                Some(tid) => find_monster(&self.monsters, tid),
                None => None,
            };
            match found {
                Some(idx) => {
                    assert(g1.mons()[idx as int] == self.monsters@[idx as int]@);
                    assert(monster_ok(g1.mons()[idx as int]));
                    let dmg = max_i32(damage - self.monsters[idx].stats.vit / 4, 1);
                    let mut attacker = copy_string(&self.player.name);
                    push_str(&mut attacker, " (");
                    push_str(&mut attacker, sname.as_str());
                    push_str(&mut attacker, ")");
                    let ghost g2 = *self;
                    let hit = self.strike(idx, dmg, attacker, false, drops);
                    let ghost mid = events_view(hit@);
                    proof {
                        lemma_struck_wf(g2, idx as int, dmg as int, attacker@, false, drops@, *self, mid);
                        lemma_struck_ignores_rng(g1, g2, idx as int, dmg as int, attacker@, false, drops@, *self, mid);
                    }
                    emit_all(&mut events, hit);
                    emit(&mut events, SpEvent::UpdatePlayer(self.player.duplicate()));
                    proof {
                        let ev = events_view(events@);
                        assert(ev.subrange(0, heal_ev.len() as int) =~= heal_ev);
                        assert(ev.subrange(heal_ev.len() as int, ev.len() - 1) =~= mid);
                    }
                },
                None => {
                    let mut line = String::from_str("✨ ");
                    push_str(&mut line, sname.as_str());
                    push_str(&mut line, " — no target in range!");
                    emit(&mut events, SpEvent::Log(line, Color::Yellow));
                    emit(&mut events, SpEvent::UpdatePlayer(self.player.duplicate()));
                    assert(events_view(events@) =~= heal_ev + seq![
                        SpEventView::Log(no_target_line(sp.name@), Color::Yellow),
                        SpEventView::UpdatePlayer(p1@),
                    ]);
                },
            }
        } else {
            emit(&mut events, SpEvent::UpdatePlayer(self.player.duplicate()));
            assert(events_view(events@) =~= heal_ev + seq![SpEventView::UpdatePlayer(p1@)]);
        }
        events
    }

    /// Casts spell `spell_id`; the loot of a slain monster drops by the dice
    /// (each entry with probability 7/20).
    pub fn cast_spell(&mut self, spell_id: &str) -> (events: Vec<SpEvent>)
        requires
            old(self).wf(),
            old(self).values_ok(),
        ensures
            final(self).wf(),
            exists|d: Seq<bool>| cast(*old(self), spell_id@, d, *final(self), #[trigger] events_view(events@)),
    {
        let target = match self.nearest_monster_id() {
            Some(t) => Some(t),
            None => self.nearest_monster_id_any(),
        };
        let n: usize = match target {
            Some(tid) => match find_monster(&self.monsters, tid) {
                Some(i) => self.monsters[i].loot_table.len(),
                None => 0,
            },
            None => 0,
        };
        let drops = roll_loot(&mut self.rng, n);
        let ghost mid = *self;
        let events = self.cast_spell_with(spell_id, &drops);
        proof {
            lemma_cast_ignores_rng(*old(self), mid, spell_id@, drops@, *self, events_view(events@));
        }
        events
    }

    /// Drinks the potion with id `item_id`; another item is refused with a
    /// message, and an unknown id does nothing.
    pub fn use_item(&mut self, item_id: u64) -> (events: Vec<SpEvent>)
        requires
            old(self).wf(),
            old(self).values_ok(),
        ensures
            final(self).wf(),
            use_outcome(*old(self), item_id, *final(self), events_view(events@)),
    {
        let mut events: Vec<SpEvent> = Vec::new();
        let ghost p0 = self.player;
        match use_item(&mut self.player, item_id) {
            UseOutcome::NotFound => {
                proof { assert(self.player@ =~= p0@); }
            },
            UseOutcome::NotConsumable => {
                proof { assert(self.player@ =~= p0@); }
                emit(&mut events, SpEvent::Log(String::from_str("That item is not a consumable."), Color::Red));
                proof { reveal_strlit("That item is not a consumable."); }
                assert(events_view(events@) =~= seq![SpEventView::Log("That item is not a consumable."@, Color::Red)]);
            },
            UseOutcome::Used { name, hp, mp } => {
                let mut line = String::from_str("Used ");
                push_str(&mut line, name.as_str());
                push_str(&mut line, ". HP +");
                push_decimal_i64(&mut line, hp as i64);
                push_str(&mut line, " MP +");
                push_decimal_i64(&mut line, mp as i64);
                emit(&mut events, SpEvent::Log(line, Color::Green));
                emit(&mut events, SpEvent::UpdatePlayer(self.player.duplicate()));
                assert(events_view(events@) =~= seq![events_view(events@)[0], events_view(events@)[1]]);
            },
        }
        events
    }

    /// Equips the inventory item with id `item_id`; what its slot held goes
    /// back to the inventory.
    pub fn equip_item(&mut self, item_id: u64) -> (events: Vec<SpEvent>)
        requires
            old(self).wf(),
        ensures
            final(self).wf(),
            equip_outcome(*old(self), item_id, *final(self), events_view(events@)),
    {
        let mut events: Vec<SpEvent> = Vec::new();
        let ghost p0 = self.player;
        match equip_from_inventory(&mut self.player, item_id) {
            None => {
                proof { assert(self.player@ =~= p0@); }
            },
            Some(item) => {
                let mut line = String::from_str("Equipped ");
                push_str(&mut line, item.name.as_str());
                push_str(&mut line, " in ");
                push_str(&mut line, Equipment::slot_name(&item.kind));
                push_str(&mut line, " slot.");
                emit(&mut events, SpEvent::Log(line, Color::Cyan));
                emit(&mut events, SpEvent::UpdatePlayer(self.player.duplicate()));
                assert(events_view(events@) =~= seq![events_view(events@)[0], events_view(events@)[1]]);
            },
        }
        events
    }

    /// Picks up the first item lying on the player's tile.
    pub fn pickup(&mut self) -> (events: Vec<SpEvent>)
        requires
            old(self).wf(),
        ensures
            final(self).wf(),
            pickup_outcome(*old(self), *final(self), events_view(events@)),
    {
        let mut events: Vec<SpEvent> = Vec::new();
        let pos = self.player.pos;
        match find_ground(&self.ground_items, pos) {
            Some(idx) => {
                let ghost p0 = self.player@;
                let gi = self.ground_items.remove(idx);
                let item_id = gi.item.id;
                let mut line = String::from_str("Picked up ");
                push_str(&mut line, gi.item.name.as_str());
                push_str(&mut line, ".");
                self.player.inventory.push(gi.item);
                assert(self.player@ =~= PlayerView { inventory: p0.inventory.push(gi.item), ..p0 });
                emit(&mut events, SpEvent::Log(line, Color::Yellow));
                emit(&mut events, SpEvent::ItemPickedUp { item_id });
                emit(&mut events, SpEvent::UpdatePlayer(self.player.duplicate()));
                assert(events_view(events@) =~= seq![events_view(events@)[0], events_view(events@)[1], events_view(events@)[2]]);
            },
            None => {
                emit(&mut events, SpEvent::Log(String::from_str("Nothing to pick up here."), Color::Yellow));
                proof { reveal_strlit("Nothing to pick up here."); }
                assert(events_view(events@) =~= seq![SpEventView::Log("Nothing to pick up here."@, Color::Yellow)]);
            },
        }
        events
    }

    /// Lays the inventory item with id `item_id` on the player's tile.
    pub fn drop_item(&mut self, item_id: u64) -> (events: Vec<SpEvent>)
        requires
            old(self).wf(),
        ensures
            final(self).wf(),
            drop_outcome(*old(self), item_id, *final(self), events_view(events@)),
    {
        let mut events: Vec<SpEvent> = Vec::new();
        let pos = self.player.pos;
        let ghost p0 = self.player;
        match drop_from_inventory(&mut self.player, item_id, pos) {
            None => {
                proof { assert(self.player@ =~= p0@); }
            },
            Some(gi) => {
                let mut line = String::from_str("Dropped ");
                push_str(&mut line, gi.item.name.as_str());
                push_str(&mut line, ".");
                emit(&mut events, SpEvent::Log(line, Color::Yellow));
                emit(&mut events, SpEvent::ItemDropped(gi.duplicate()));
                self.ground_items.push(gi);
                emit(&mut events, SpEvent::UpdatePlayer(self.player.duplicate()));
                assert(events_view(events@) =~= seq![events_view(events@)[0], events_view(events@)[1], events_view(events@)[2]]);
            },
        }
        events
    }
}

/// A hit on a monster does not depend on the random generator's state.
pub proof fn lemma_struck_ignores_rng(
    g: LocalGame,
    g2: LocalGame,
    i: int,
    dmg: int,
    attacker: Seq<char>,
    is_crit: bool,
    drops: Seq<bool>,
    h: LocalGame,
    ev: Seq<SpEventView>,
)
    requires
        g2.same_as(g),
        struck(g2, i, dmg, attacker, is_crit, drops, h, ev),
    ensures
        struck(g, i, dmg, attacker, is_crit, drops, h, ev),
{
    assert(g.mons() == g2.mons());
    assert(g.player_class() == g2.player_class());
}

/// The outcome of a spell does not depend on the random generator's state.
pub proof fn lemma_cast_ignores_rng(
    g: LocalGame,
    g2: LocalGame,
    id: Seq<char>,
    drops: Seq<bool>,
    h: LocalGame,
    ev: Seq<SpEventView>,
)
    requires
        g2 == (LocalGame { rng: g2.rng, ..g }),
        cast(g2, id, drops, h, ev),
    ensures
        cast(g, id, drops, h, ev),
{
    assert(g.mons() == g2.mons());
    match find_key(g.cfg.spells@, id) {
        Some(si) => {
            let sp = g.cfg.spells@[si];
            let g1 = g.with_player(after_cost(g.player, sp));
            let g21 = g2.with_player(after_cost(g2.player, sp));
            assert(g21 == (LocalGame { rng: g21.rng, ..g1 }));
            assert(g1.mons() == g21.mons());
            assert(spell_target(g1) == spell_target(g21));
            match spell_target(g1) {
                Some(i) => {
                    let heal_ev = if sp.heal > 0 {
                        seq![SpEventView::Log(heal_line(sp.name@, sp.heal, after_cost(g.player, sp).stats.mp), Color::Green)]
                    } else {
                        Seq::empty()
                    };
                    if sp.damage > 0 && g.player.stats.mp >= sp.mp_cost {
                        lemma_struck_ignores_rng(g1, g21, i, spell_damage(sp.damage as int, g.mons()[i].stats.vit as int),
                            g.player.name@ + " ("@ + sp.name@ + ")"@, false, drops, h,
                            ev.subrange(heal_ev.len() as int, ev.len() - 1));
                    }
                },
                None => {},
            }
        },
        None => {},
    }
}
/// The outcome of an attack does not depend on the random generator's state.
pub proof fn lemma_attacked_ignores_rng(
    g: LocalGame,
    g2: LocalGame,
    id: u64,
    is_crit: bool,
    drops: Seq<bool>,
    h: LocalGame,
    ev: Seq<SpEventView>,
)
    requires
        g2.same_as(g),
        attacked(g2, id, is_crit, drops, h, ev),
    ensures
        attacked(g, id, is_crit, drops, h, ev),
{
    assert(g.mons() == g2.mons());
    assert(g.player_class() == g2.player_class());
}


/// An item dropped on a tile where nothing lay is what a pickup there takes
/// back: the ground is as it was, and the inventory holds the same items, the
/// dropped one now last.
pub proof fn lemma_drop_then_pickup(
    g: LocalGame,
    id: u64,
    g1: LocalGame,
    ev1: Seq<SpEventView>,
    g2: LocalGame,
    ev2: Seq<SpEventView>,
)
    requires
        drop_outcome(g, id, g1, ev1),
        pickup_outcome(g1, g2, ev2),
        item_index(g.player@.inventory, id) is Some,
        ground_index(g.ground_items@, g.player.pos) is None,
    ensures
        ({
            let inv = g.player@.inventory;
            let i = item_index(inv, id).unwrap();
            &&& g2.ground_items@ == g.ground_items@
            &&& g2.player@.inventory == inv.remove(i).push(inv[i])
            &&& g2.player@.inventory.to_multiset() == inv.to_multiset()
            &&& g2.player@ == PlayerView { inventory: inv.remove(i).push(inv[i]), ..g.player@ }
            &&& ev2 == seq![
                SpEventView::Log(picked_line(inv[i].name@), Color::Yellow),
                SpEventView::ItemPickedUp { item_id: id },
                SpEventView::UpdatePlayer(g2.player@),
            ]
        }),
{
    let inv = g.player@.inventory;
    let i = item_index(inv, id).unwrap();
    lemma_item_index_bounds(inv, id);
    let pos = g.player.pos;
    let gs = g.ground_items@;
    let gi = GroundItem { item: inv[i], pos };
    assert(g1.player.pos == pos);
    lemma_ground_index_push(gs, gi);
    assert(g1.ground_items@.remove(gs.len() as int) =~= gs);
    let inv1 = inv.remove(i);
    vstd::seq_lib::to_multiset_build(inv1, inv[i]);
    vstd::seq_lib::to_multiset_remove(inv, i);
    vstd::seq_lib::to_multiset_contains(inv, inv[i]);
    assert(inv.to_multiset().remove(inv[i]).insert(inv[i]) =~= inv.to_multiset());
}

} // verus!
