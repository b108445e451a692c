//! What a slain monster leaves, and a hit on a monster.

use vstd::prelude::*;
use crate::config::{GameConfig, find_key};
use crate::entity::GroundItem;
use crate::entity::monster::MonsterView;
use crate::entity::player::PlayerView;
use crate::rules::{ID_LIMIT, XP_LIMIT, monster_ok};
use crate::world::{Pos, Stats};
use crate::world::combat::{CombatEvent, CombatView};
use crate::text::copy_string;
use super::{LocalGame, item_from, leveled, level_up_events};
use super::events::{SpEvent, SpEventView, emit, emit_all, events_view};

verus! {

/// Whether the roll for loot entry `k` came up: rolls missing at the end
/// count as failed.
pub open spec fn dropped(drops: Seq<bool>, k: int) -> bool {
    0 <= k < drops.len() && drops[k]
}

/// The item template that loot entry `k` drops, if its roll came up and the
/// configuration knows it.
pub open spec fn loot_hit(cfg: GameConfig, loot: Seq<String>, drops: Seq<bool>, k: int) -> Option<int> {
    if dropped(drops, k) {
        find_key(cfg.items@, loot[k]@)
    } else {
        None
    }
}

/// How many of the first `n` loot entries drop an item.
pub open spec fn loot_count(cfg: GameConfig, loot: Seq<String>, drops: Seq<bool>, n: nat) -> nat
    decreases n,
{
    if n == 0 {
        0
    } else {
        loot_count(cfg, loot, drops, (n - 1) as nat) + if loot_hit(cfg, loot, drops, n - 1) is Some { 1nat } else { 0nat }
    }
}

/// `out` is what the first `n` loot entries drop at `pos`, in order: for each
/// entry that drops, a new item of its template, with the ids after `start`
/// in turn, named in language `lang`.
pub open spec fn loot_ok(
    cfg: GameConfig,
    lang: Seq<char>,
    loot: Seq<String>,
    drops: Seq<bool>,
    n: nat,
    start: u64,
    pos: Pos,
    out: Seq<GroundItem>,
) -> bool
    decreases n,
{
    if n == 0 {
        out.len() == 0
    } else {
        match loot_hit(cfg, loot, drops, n - 1) {
            Some(t) => {
                &&& out.len() > 0
                &&& out.last().pos == pos
                &&& item_from(cfg.items@[t], (start + loot_count(cfg, loot, drops, (n - 1) as nat) + 1) as u64, lang, out.last().item)
                &&& loot_ok(cfg, lang, loot, drops, (n - 1) as nat, start, pos, out.drop_last())
            },
            None => loot_ok(cfg, lang, loot, drops, (n - 1) as nat, start, pos, out),
        }
    }
}

/// A monster drops at most one item per loot-table entry.
pub proof fn lemma_loot_count_bound(cfg: GameConfig, loot: Seq<String>, drops: Seq<bool>, n: nat)
    ensures
        loot_count(cfg, loot, drops, n) <= n,
    decreases n,
{
    if n > 0 {
        lemma_loot_count_bound(cfg, loot, drops, (n - 1) as nat);
    }
}

/// One `ItemDropped` event per item.
pub open spec fn dropped_events(g: Seq<GroundItem>) -> Seq<SpEventView> {
    g.map_values(|x: GroundItem| SpEventView::ItemDropped(x))
}

/// The game after the monster at index `i` takes a hit of `dmg` from
/// `attacker`, with `drops` the loot rolls, and the events that tell of it:
/// the hit; then, if the monster lives, its new state; else its death, each
/// item it leaves, the experience and the levels it brings.
pub open spec fn struck(
    g: LocalGame,
    i: int,
    dmg: int,
    attacker: Seq<char>,
    is_crit: bool,
    drops: Seq<bool>,
    h: LocalGame,
    ev: Seq<SpEventView>,
) -> bool {
    let m = g.mons()[i];
    let hp = m.stats.hp - dmg;
    let killed = hp <= 0;
    let combat = SpEventView::Combat(CombatView { attacker, target: m.name@, damage: dmg as i32, is_crit, killed });
    let m2 = MonsterView { stats: Stats { hp: hp as i32, ..m.stats }, ..m };
    let n0 = g.ground_items@.len();
    let added = h.ground_items@.subrange(n0 as int, h.ground_items@.len() as int);
    let p1 = PlayerView { xp: (g.player.xp + m.xp_reward) as u64, ..g.player@ };
    &&& h.map == g.map
    &&& h.cfg == g.cfg
    &&& h.tick == g.tick
    &&& if !killed {
        &&& h.mons() == g.mons().update(i, m2)
        &&& h.player@ == g.player@
        &&& h.ground_items@ == g.ground_items@
        &&& h.next_id == g.next_id
        &&& ev == seq![combat, SpEventView::MonsterUpdate(m2)]
    } else {
        &&& h.mons() == g.mons().remove(i)
        &&& n0 <= h.ground_items@.len()
        &&& h.ground_items@.subrange(0, n0 as int) == g.ground_items@
        &&& loot_ok(g.cfg, g.cfg.locale.lang@, m.loot_table, drops, m.loot_table.len(), g.next_id, m.pos, added)
        &&& h.next_id == g.next_id + loot_count(g.cfg, m.loot_table, drops, m.loot_table.len())
        &&& h.player@ == leveled(p1, g.player_class())
        &&& ev == seq![combat, SpEventView::MonsterDied { id: m.id, xp: m.xp_reward }] + dropped_events(added)
            + level_up_events(p1, g.player_class())
    }
}

impl LocalGame {
    /// Lays the loot of a slain monster at `pos`: each entry whose roll came
    /// up and whose template is known becomes a new item on the ground.
    pub fn drop_loot(&mut self, loot: &Vec<String>, drops: &Vec<bool>, pos: Pos, events: &mut Vec<SpEvent>)
        requires
            old(self).cfg.wf(),
            old(self).next_id + loot@.len() <= u64::MAX,
        ensures
            final(self).map == old(self).map,
            final(self).player == old(self).player,
            final(self).monsters == old(self).monsters,
            final(self).cfg == old(self).cfg,
            final(self).tick == old(self).tick,
            old(self).ground_items@.len() <= final(self).ground_items@.len(),
            final(self).ground_items@.subrange(0, old(self).ground_items@.len() as int) == old(self).ground_items@,
            loot_ok(old(self).cfg, old(self).cfg.locale.lang@, loot@, drops@, loot@.len(), old(self).next_id, pos,
                final(self).ground_items@.subrange(old(self).ground_items@.len() as int, final(self).ground_items@.len() as int)),
            final(self).next_id == old(self).next_id + loot_count(old(self).cfg, loot@, drops@, loot@.len()),
            events_view(final(events)@) == events_view(old(events)@) + dropped_events(
                final(self).ground_items@.subrange(old(self).ground_items@.len() as int, final(self).ground_items@.len() as int)),
    {
        let ghost g0 = *self;
        let ghost ev0 = events_view(events@);
        let ghost n0 = self.ground_items@.len();
        let mut k: usize = 0;
        while k < loot.len()
            invariant
                k <= loot@.len(),
                self.cfg == g0.cfg,
                self.cfg.wf(),
                self.map == g0.map,
                self.player == g0.player,
                self.monsters == g0.monsters,
                self.tick == g0.tick,
                g0.next_id + loot@.len() <= u64::MAX,
                n0 == g0.ground_items@.len(),
                n0 <= self.ground_items@.len(),
                self.ground_items@.subrange(0, n0 as int) == g0.ground_items@,
                self.next_id == g0.next_id + loot_count(g0.cfg, loot@, drops@, k as nat),
                loot_ok(g0.cfg, g0.cfg.locale.lang@, loot@, drops@, k as nat, g0.next_id, pos,
                    self.ground_items@.subrange(n0 as int, self.ground_items@.len() as int)),
                events_view(events@) == ev0 + dropped_events(self.ground_items@.subrange(n0 as int, self.ground_items@.len() as int)),
            decreases loot.len() - k,
        {
            proof { lemma_loot_count_bound(g0.cfg, loot@, drops@, k as nat); }
            let ghost before = self.ground_items@;
            let roll = k < drops.len() && drops[k];
            if roll {
                match self.make_item(loot[k].as_str()) {
                    Some(item) => {
                        let gi = GroundItem { item, pos };
                        emit(events, SpEvent::ItemDropped(gi.duplicate()));
                        self.ground_items.push(gi);
                        proof {
                            let added = self.ground_items@.subrange(n0 as int, self.ground_items@.len() as int);
                            assert(added.drop_last() =~= before.subrange(n0 as int, before.len() as int));
                            assert(self.ground_items@.subrange(0, n0 as int) =~= before.subrange(0, n0 as int));
                            assert(dropped_events(added) =~= dropped_events(added.drop_last()).push(SpEventView::ItemDropped(gi)));
                        }
                    },
                    None => {},
                }
            }
            k += 1;
        }
    }

    /// The monster at index `i` takes a hit of `dmg`; a slain monster leaves
    /// the game with its loot and its experience goes to the player.
    pub fn strike(&mut self, i: usize, dmg: i32, attacker: String, is_crit: bool, drops: &Vec<bool>) -> (events: Vec<SpEvent>)
        requires
            old(self).cfg.wf(),
            i < old(self).monsters@.len(),
            monster_ok(old(self).mons()[i as int]),
            old(self).player.xp <= XP_LIMIT,
            old(self).next_id <= ID_LIMIT,
            i32::MIN <= old(self).monsters@[i as int].stats.hp - dmg <= i32::MAX,
        ensures
            struck(*old(self), i as int, dmg as int, attacker@, is_crit, drops@, *final(self), events_view(events@)),
    {
        let ghost g0 = *self;
        assert(g0.mons()[i as int] == g0.monsters@[i as int]@);
        let ghost m0 = g0.mons()[i as int];
        let mut events: Vec<SpEvent> = Vec::new();
        let target_name = copy_string(&self.monsters[i].name);
        self.monsters[i].stats.hp = self.monsters[i].stats.hp - dmg;
        let killed = !self.monsters[i].stats.is_alive();
        emit(&mut events, SpEvent::Combat(CombatEvent { attacker, target: target_name, damage: dmg, is_crit, killed }));
        if !killed {
            emit(&mut events, SpEvent::MonsterUpdate(self.monsters[i].duplicate()));
            proof {
                assert(self.mons() =~= g0.mons().update(i as int, self.monsters@[i as int]@));
                assert(events_view(events@) =~= seq![events_view(events@)[0], events_view(events@)[1]]);
            }
        } else {
            let m = self.monsters.remove(i);
            proof {
                assert(self.mons() =~= g0.mons().remove(i as int));
            }
            emit(&mut events, SpEvent::MonsterDied { id: m.id, xp: m.xp_reward });
            let ghost ev1 = events_view(events@);
            assert(ev1 =~= seq![ev1[0], ev1[1]]);
            self.drop_loot(&m.loot_table, drops, m.pos, &mut events);
            let ghost ev2 = events_view(events@);
            let ghost after_loot = *self;
            self.player.xp = self.player.xp + m.xp_reward;
            let ghost p1 = self.player@;
            assert(p1 =~= PlayerView { xp: (g0.player.xp + m0.xp_reward) as u64, ..g0.player@ });
            assert(self.player_class() == g0.player_class());
            let ups = self.try_level_up();
            emit_all(&mut events, ups);
            proof {
                assert(self.ground_items == after_loot.ground_items);
            }
        }
        events
    }
}

} // verus!

verus! {

/// A hit on a monster keeps the game well formed.
pub proof fn lemma_struck_wf(
    g: LocalGame,
    i: int,
    dmg: int,
    attacker: Seq<char>,
    is_crit: bool,
    drops: Seq<bool>,
    h: LocalGame,
    ev: Seq<SpEventView>,
)
    requires
        g.wf(),
        0 <= i < g.mons().len(),
        struck(g, i, dmg, attacker, is_crit, drops, h, ev),
    ensures
        h.wf(),
        h.player.pos == g.player.pos,
        h.player.class_id == g.player.class_id,
{
    let m = g.mons()[i];
    let hp = m.stats.hp - dmg;
    let p1 = PlayerView { xp: (g.player.xp + m.xp_reward) as u64, ..g.player@ };
    if hp > 0 {
        let m2 = MonsterView { stats: Stats { hp: hp as i32, ..m.stats }, ..m };
        assert forall|a: int, b: int| 0 <= a < b < h.mons().len() implies (#[trigger] h.mons()[a]).id != (#[trigger] h.mons()[b]).id by {
            assert(g.mons()[a].id != g.mons()[b].id);
        }
        assert forall|a: int| 0 <= a < h.mons().len() implies (#[trigger] h.mons()[a]).id <= h.next_id by {
            assert(g.mons()[a].id <= g.next_id);
        }
        assert forall|a: int| 0 <= a < h.mons().len() implies (#[trigger] h.mons()[a]).pos.bounded()
            && h.mons()[a].home.bounded() by {
            assert(g.mons()[a].pos.bounded());
        }
    } else {
        super::lemma_leveled_keeps(p1, g.player_class());
        assert forall|a: int, b: int| 0 <= a < b < h.mons().len() implies (#[trigger] h.mons()[a]).id != (#[trigger] h.mons()[b]).id by {
            let a0 = if a < i { a } else { a + 1 };
            let b0 = if b < i { b } else { b + 1 };
            assert(h.mons()[a] == g.mons()[a0]);
            assert(h.mons()[b] == g.mons()[b0]);
            assert(g.mons()[a0].id != g.mons()[b0].id);
        }
        assert forall|a: int| 0 <= a < h.mons().len() implies (#[trigger] h.mons()[a]).id <= h.next_id by {
            let a0 = if a < i { a } else { a + 1 };
            assert(h.mons()[a] == g.mons()[a0]);
            assert(g.mons()[a0].id <= g.next_id);
        }
        assert forall|a: int| 0 <= a < h.mons().len() implies (#[trigger] h.mons()[a]).pos.bounded()
            && h.mons()[a].home.bounded() by {
            let a0 = if a < i { a } else { a + 1 };
            assert(h.mons()[a] == g.mons()[a0]);
            assert(g.mons()[a0].pos.bounded());
        }
    }
}

} // verus!

verus! {

/// Lays the loot of a slain monster at `pos` on `ground`: each entry whose
/// roll came up and whose template is known becomes a new item, named in
/// language `lang`, with the next id; returns the new items.
pub fn drop_loot_into(
    cfg: &GameConfig,
    lang: &str,
    loot: &Vec<String>,
    drops: &Vec<bool>,
    pos: Pos,
    next_id: &mut u64,
    ground: &mut Vec<GroundItem>,
) -> (added: Vec<GroundItem>)
    requires
        cfg.wf(),
        *old(next_id) + loot@.len() <= u64::MAX,
    ensures
        final(ground)@ == old(ground)@ + added@,
        loot_ok(*cfg, lang@, loot@, drops@, loot@.len(), *old(next_id), pos, added@),
        *final(next_id) == *old(next_id) + loot_count(*cfg, loot@, drops@, loot@.len()),
{
    let ghost start = *next_id;
    let ghost g0 = ground@;
    let mut added: Vec<GroundItem> = Vec::new();
    let mut k: usize = 0;
    while k < loot.len()
        invariant
            k <= loot@.len(),
            cfg.wf(),
            start + loot@.len() <= u64::MAX,
            *next_id == start + loot_count(*cfg, loot@, drops@, k as nat),
            loot_ok(*cfg, lang@, loot@, drops@, k as nat, start, pos, added@),
            ground@ == g0 + added@,
        decreases loot.len() - k,
    {
        proof { lemma_loot_count_bound(*cfg, loot@, drops@, k as nat); }
        let roll = k < drops.len() && drops[k];
        if roll {
            match cfg.item(loot[k].as_str()) {
                Some(t) => {
                    *next_id = *next_id + 1;
                    let gi = GroundItem { item: super::setup::item_of(t, *next_id, lang), pos };
                    let ghost before = added@;
                    added.push(gi.duplicate());
                    ground.push(gi);
                    assert(added@.drop_last() =~= before);
                    assert(ground@ =~= g0 + added@);
                },
                None => {},
            }
        }
        k += 1;
    }
    added
}

} // verus!
