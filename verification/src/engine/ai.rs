//! One tick of the single-player game: the monsters act, the player
//! regenerates every third tick, and every sixtieth tick monsters respawn.

use vstd::prelude::*;
use crate::actions::{Sighting, ai_run, lemma_ai_run_hits, lemma_ai_run_moves, lemma_ai_run_steps, spread, stepped_or_stayed, hit_damage, hit_taken, monster_ai, mons_bounded, regenerate, regenerated, take_hit};
use crate::arith::min_int;
use crate::entity::{Monster, MonsterTemplate};
use crate::entity::item::spec_localized;
use crate::config::GameConfig;
use crate::world::GameMap;
use crate::entity::monster::{MonsterView, mons_view};
use crate::entity::player::{PlayerView, div_trunc};
use crate::world::Stats;
use crate::mapgen::{monster_spawn_positions, spawn_ok};
use crate::rng::range_usize;
use crate::rules::{lemma_player_ok_bounds, player_ok, monster_ok, stats_ok, in_limit, VALUE_LIMIT};
use crate::text::copy_string;
use crate::world::{Pos, SP_MAP_W, SP_MAP_H};
use crate::world::combat::{CombatEvent, CombatView};
use super::{LocalGame, ids_unique};
use super::events::{Color, SpEvent, SpEventView, emit, events_view};

verus! {

/// Where a slain player comes back: the center of the large map.
pub open spec fn town_center() -> Pos {
    Pos { x: 128, y: 64 }
}

pub open spec fn slain_line() -> Seq<char> {
    "You were slain! Respawned in town."@
}

/// The player and the events after the hits `hits` (player id, strength,
/// monster name) land in order, a slain player coming back at `home`.
pub open spec fn hits_applied(p: PlayerView, hits: Seq<(u64, i32, String)>, home: Pos) -> (PlayerView, Seq<SpEventView>)
    decreases hits.len(),
{
    if hits.len() == 0 {
        (p, Seq::empty())
    } else {
        let prev = hits_applied(p, hits.drop_last(), home);
        let q = prev.0;
        let h = hits.last();
        let dmg = hit_damage(q, h.1 as int);
        let killed = q.stats.hp - dmg <= 0;
        let q2 = hit_taken(q, h.1 as int, home);
        let combat = SpEventView::Combat(CombatView { attacker: h.2@, target: q.name@, damage: dmg as i32, is_crit: false, killed });
        let slain = if killed { seq![SpEventView::Log(slain_line(), Color::Red)] } else { Seq::empty() };
        (q2, prev.1 + seq![combat] + slain + seq![SpEventView::UpdatePlayer(q2)])
    }
}

/// One `MonsterUpdate` event per moved monster, in the order they moved.
pub open spec fn moved_events(mons: Seq<MonsterView>, moved: Seq<usize>) -> Seq<SpEventView> {
    moved.map_values(|k: usize| SpEventView::MonsterUpdate(mons[k as int]))
}

pub open spec fn t_of(g: LocalGame) -> int {
    g.tick + 1
}

/// The player as the monsters see it.
pub open spec fn sighting(g: LocalGame) -> Seq<Sighting> {
    seq![(g.player.id, g.player.pos, g.player.stats.hp > 0)]
}

/// Whether the map has a tile where monsters may spawn.
pub open spec fn has_spawn_tile(g: LocalGame) -> bool {
    exists|x: int, y: int| spawn_ok(g.map, x, y)
}

/// How many monsters respawn on tick number `t` with `cur` monsters alive: on
/// every sixtieth tick, with a spawn tile, up to the configured count, at
/// most five.
pub open spec fn respawn_count(g: LocalGame, t: int, cur: int) -> int {
    if t % 60 == 0 && has_spawn_tile(g) && cur < g.cfg.world.monster_count {
        min_int(g.cfg.world.monster_count - cur, 5)
    } else {
        0
    }
}

/// The name a monster of the `t`-th template gets: the template's name, in
/// the configured language where `localized`.
pub open spec fn spawn_name(cfg: GameConfig, t: int, localized: bool) -> Seq<char> {
    if localized {
        spec_localized(&cfg.monsters@[t].name, &cfg.monsters@[t].name_ru, cfg.locale.lang@)
    } else {
        cfg.monsters@[t].name@
    }
}

/// `m` is a new monster of some template with id `id` on some spawn tile of
/// `map`, named as `spawn_name` says.
pub open spec fn fresh_monster(cfg: GameConfig, map: GameMap, m: MonsterView, id: u64, localized: bool) -> bool {
    exists|t: int, x: int, y: int|
        #![trigger cfg.monsters@[t], spawn_ok(map, x, y)]
        0 <= t < cfg.monsters@.len() && spawn_ok(map, x, y)
            && m == cfg.monsters@[t].spec_spawn(id, m.name, Pos { x: x as i32, y: y as i32 })
            && m.name@ == spawn_name(cfg, t, localized)
}

/// The outcome of one game tick: the monsters act, their hits land on the
/// player, every third tick a living player regenerates, and on every
/// sixtieth tick monsters respawn (see `respawn_count`).
pub open spec fn ticked(g: LocalGame, h: LocalGame, ev: Seq<SpEventView>) -> bool {
    let t = g.tick + 1;
    let run = ai_run(g.map, sighting(g), false, g.mons(), g.mons().len());
    let hit = hits_applied(g.player@, run.1, town_center());
    let regen = t % 3 == 0 && hit.0.stats.hp > 0;
    let p3 = if regen { regenerated(hit.0) } else { hit.0 };
    let regen_ev = if regen { seq![SpEventView::UpdatePlayer(p3)] } else { Seq::empty() };
    let n = run.0.len();
    let count = respawn_count(g, t, n as int);
    &&& h.tick == t
    &&& h.map == g.map
    &&& h.cfg == g.cfg
    &&& h.ground_items@ == g.ground_items@
    &&& h.player@ == p3
    &&& h.next_id == g.next_id + count
    &&& h.mons().len() == n + count
    &&& h.mons().subrange(0, n as int) == run.0
    &&& forall|k: int| 0 <= k < count ==> fresh_monster(g.cfg, g.map, #[trigger] h.mons()[n + k], (g.next_id + k + 1) as u64, false)
    &&& ev == moved_events(run.0, run.2) + hit.1 + regen_ev
        + h.mons().subrange(n as int, h.mons().len() as int).map_values(|m: MonsterView| SpEventView::MonsterUpdate(m))
}

impl LocalGame {
    /// A monster of the `t`-th template at `(x, y)`, with the next id and
    /// named as `spawn_name` says, joins the game; the returned copy is for
    /// the report.
    pub fn spawn_from(&mut self, t: usize, x: i32, y: i32, localized: bool) -> (r: Monster)
        requires
            t < old(self).cfg.monsters@.len(),
            old(self).next_id < u64::MAX,
        ensures
            final(self).map == old(self).map,
            final(self).player == old(self).player,
            final(self).ground_items@ == old(self).ground_items@,
            final(self).cfg == old(self).cfg,
            final(self).tick == old(self).tick,
            final(self).next_id == old(self).next_id + 1,
            final(self).mons() == old(self).mons().push(r@),
            r@ == old(self).cfg.monsters@[t as int].spec_spawn(final(self).next_id, r.name, Pos { x, y }),
            r.name@ == spawn_name(old(self).cfg, t as int, localized),
    {
        let id = self.next_id + 1;
        let tmpl = &self.cfg.monsters[t];
        let name = if localized {
            String::from_str(tmpl.display_name(self.cfg.locale.lang.as_str()))
        } else {
            copy_string(&tmpl.name)
        };
        let m = tmpl.spawn(id, name, Pos::new(x, y));
        let copy = m.duplicate();
        let ghost before = self.mons();
        self.monsters.push(m);
        self.next_id = id;
        assert(self.mons() =~= before.push(copy@));
        copy
    }

    /// One tick: the monsters act on the player (see `ai_run`), their hits
    /// land, the player regenerates on every third tick, and on every
    /// sixtieth tick up to five monsters of random templates respawn on
    /// random spawn tiles.
    pub fn tick(&mut self) -> (events: Vec<SpEvent>)
        requires
            old(self).wf(),
            old(self).values_ok(),
            old(self).tick < u64::MAX,
            respawn_count(*old(self), old(self).tick + 1, old(self).mons().len() as int) > 0
                ==> old(self).cfg.monsters@.len() > 0,
        ensures
            final(self).wf(),
            ticked(*old(self), *final(self), events_view(events@)),
    {
        let ghost g = *self;
        let mut events: Vec<SpEvent> = Vec::new();
        self.tick = self.tick + 1;
        let tick = self.tick;

        // the monsters act
        let mut snap: Vec<Sighting> = Vec::new();
        snap.push((self.player.id, self.player.pos, self.player.stats.is_alive()));
        assert(snap@ =~= sighting(g));
        assert(mons_bounded(self.mons()));
        let ghost strengths_ok = forall|i: int| 0 <= i < self.monsters@.len() ==> in_limit((#[trigger] self.monsters@[i]).stats.str as int);
        assert(strengths_ok) by {
            assert forall|i: int| 0 <= i < self.monsters@.len() implies in_limit((#[trigger] self.monsters@[i]).stats.str as int) by {
                assert(self.mons()[i] == self.monsters@[i]@);
                assert(monster_ok(g.mons()[i]));
            }
        }
        let (hits, moved) = monster_ai(&self.map, &mut self.monsters, &snap, false);
        let ghost run = ai_run(g.map, sighting(g), false, g.mons(), g.mons().len());
        assert(run.0 == self.mons());
        proof {
            let cm = self.mons();
            assert forall|a: int, b: int| 0 <= a < b < cm.len() implies (#[trigger] cm[a]).id != (#[trigger] cm[b]).id by {
                assert(cm[a] == self.monsters@[a]@);
                assert(cm[b] == self.monsters@[b]@);
                assert(g.mons()[a] == g.monsters@[a]@);
                assert(g.mons()[b] == g.monsters@[b]@);
            }
            assert forall|a: int| 0 <= a < cm.len() implies (#[trigger] cm[a]).id <= self.next_id by {
                assert(cm[a] == self.monsters@[a]@);
                assert(g.mons()[a] == g.monsters@[a]@);
            }
        }
        let mut k: usize = 0;
        while k < moved.len()
            invariant
                k <= moved@.len(),
                run.2 == moved@,
                run.0 == self.mons(),
                forall|i: int| 0 <= i < moved@.len() ==> (#[trigger] moved@[i]) < self.monsters@.len(),
                events_view(events@) == moved_events(run.0, run.2).subrange(0, k as int),
            decreases moved.len() - k,
        {
            let mi = moved[k];
            assert(self.mons()[mi as int] == self.monsters@[mi as int]@);
            emit(&mut events, SpEvent::MonsterUpdate(self.monsters[mi].duplicate()));
            assert(moved_events(run.0, run.2).subrange(0, k + 1) =~= moved_events(run.0, run.2).subrange(0, k as int).push(
                SpEventView::MonsterUpdate(run.0[moved@[k as int] as int])));
            k += 1;
        }
        assert(moved_events(run.0, run.2).subrange(0, moved@.len() as int) =~= moved_events(run.0, run.2));
        let ghost ev_moved = events_view(events@);
        let ghost g_ai = *self;

        // their hits land
        let home = Pos::new(SP_MAP_W / 2, SP_MAP_H / 2);
        let mut k: usize = 0;
        while k < hits.len()
            invariant
                k <= hits@.len(),
                run.1 == hits@,
                home == town_center(),
                forall|i: int| 0 <= i < hits@.len() ==> 1 <= (#[trigger] hits@[i]).1 <= VALUE_LIMIT,
                player_ok(self.player@),
                self.same_but_player(g_ai),
                (self.player@, events_view(events@).subrange(ev_moved.len() as int, events_view(events@).len() as int))
                    == hits_applied(g.player@, hits@.subrange(0, k as int), home),
                ev_moved.len() <= events_view(events@).len(),
                events_view(events@).subrange(0, ev_moved.len() as int) == ev_moved,
                self.player.pos.bounded(),
                self.player.id == g.player.id,
                self.player.name == g.player.name,
            decreases hits.len() - k,
        {
            let ghost before = events_view(events@);
            let ghost q = self.player@;
            let (dmg, ref mname) = (hits[k].1, &hits[k].2);
            let target = copy_string(&self.player.name);
            let (actual, killed) = take_hit(&mut self.player, dmg, home);
            emit(&mut events, SpEvent::Combat(CombatEvent { attacker: copy_string(mname), target, damage: actual, is_crit: false, killed }));
            if killed {
                emit(&mut events, SpEvent::Log(String::from_str("You were slain! Respawned in town."), Color::Red));
            }
            emit(&mut events, SpEvent::UpdatePlayer(self.player.duplicate()));
            proof {
                let all = events_view(events@);
                let added = all.subrange(before.len() as int, all.len() as int);
                assert(hits@.subrange(0, k + 1).drop_last() =~= hits@.subrange(0, k as int));
                assert(all.subrange(0, ev_moved.len() as int) =~= before.subrange(0, ev_moved.len() as int));
                assert(all.subrange(ev_moved.len() as int, all.len() as int) =~= before.subrange(ev_moved.len() as int, before.len() as int) + added);
                reveal_strlit("You were slain! Respawned in town.");
            }
            k += 1;
        }
        assert(hits@.subrange(0, hits@.len() as int) =~= hits@);
        let ghost hit = hits_applied(g.player@, run.1, town_center());
        let ghost ev_hits = events_view(events@);

        // regeneration
        if tick % 3 == 0 && self.player.stats.is_alive() {
            regenerate(&mut self.player);
            emit(&mut events, SpEvent::UpdatePlayer(self.player.duplicate()));
        }
        let ghost ev_regen = events_view(events@);
        let ghost n = self.monsters@.len();
        let ghost g_mid = *self;

        // respawn
        if tick % 60 == 0 {
            let positions = monster_spawn_positions(&self.map);
            let target = self.cfg.world.monster_count;
            let cur = self.monsters.len();
            if positions.len() > 0 && cur < target {
                proof {
                    let q = positions@[0];
                    assert(spawn_ok(g.map, q.0 as int, q.1 as int));
                    assert(has_spawn_tile(g));
                    assert(respawn_count(*old(self), old(self).tick + 1, old(self).mons().len() as int) > 0);
                }
                let count: usize = if target - cur < 5 { target - cur } else { 5 };
                let mut j: usize = 0;
                while j < count
                    invariant
                        j <= count,
                        count <= 5,
                        count == respawn_count(g, t_of(g), n as int),
                        self.map == g.map,
                        self.cfg == g.cfg,
                        self.tick == g.tick + 1,
                        self.ground_items@ == g.ground_items@,
                        self.player == g_mid.player,
                        self.cfg.monsters@.len() > 0,
                        g.next_id <= crate::rules::ID_LIMIT,
                        self.next_id == g.next_id + j,
                        self.mons().len() == n + j,
                        self.mons().subrange(0, n as int) == run.0,
                        forall|i: int| 0 <= i < positions@.len() ==> spawn_ok(g.map, (#[trigger] positions@[i]).0 as int, positions@[i].1 as int),
                        positions@.len() > 0,
                        forall|k: int| 0 <= k < j ==> fresh_monster(g.cfg, g.map, #[trigger] self.mons()[n + k], (g.next_id + k + 1) as u64, false),
                        events_view(events@) == ev_regen + self.mons().subrange(n as int, self.mons().len() as int).map_values(
                            |m: MonsterView| SpEventView::MonsterUpdate(m)),
                        g.map.width <= 4096,
                        g.map.height <= 4096,
                        mons_bounded(self.mons()),
                        ids_unique(self.mons()),
                        forall|i: int| 0 <= i < self.mons().len() ==> (#[trigger] self.mons()[i]).id <= self.next_id,
                    decreases count - j,
                {
                    let t = range_usize(&mut self.rng, 0, self.cfg.monsters.len());
                    let p = positions[range_usize(&mut self.rng, 0, positions.len())];
                    let ghost before = self.mons();
                    let ghost evb = events_view(events@);
                    let m = self.spawn_from(t, p.0, p.1, false);
                    emit(&mut events, SpEvent::MonsterUpdate(m));
                    proof {
                        let cur_m = self.mons();
                        assert(cur_m[n + j] == cur_m.last());
                        assert(spawn_ok(g.map, p.0 as int, p.1 as int));
                        assert(fresh_monster(g.cfg, g.map, cur_m[n + j as int], (g.next_id + j + 1) as u64, false)) by {
                            assert(cur_m[n + j as int] == g.cfg.monsters@[t as int].spec_spawn(self.next_id, m.name, Pos { x: p.0, y: p.1 }));
                            assert(Pos { x: p.0, y: p.1 } == Pos { x: (p.0 as int) as i32, y: (p.1 as int) as i32 });
                        }
                        assert forall|k: int| 0 <= k < j + 1 implies fresh_monster(g.cfg, g.map, #[trigger] cur_m[n + k], (g.next_id + k + 1) as u64, false) by {
                            if k < j {
                                assert(cur_m[n + k] == before[n + k]);
                            }
                        }
                        assert(cur_m.subrange(0, n as int) =~= before.subrange(0, n as int));
                        assert(cur_m.subrange(n as int, cur_m.len() as int) =~= before.subrange(n as int, before.len() as int).push(m@));
                        assert(events_view(events@) =~= ev_regen + cur_m.subrange(n as int, cur_m.len() as int).map_values(
                            |m: MonsterView| SpEventView::MonsterUpdate(m)));
                        assert forall|a: int, b: int| 0 <= a < b < cur_m.len() implies (#[trigger] cur_m[a]).id != (#[trigger] cur_m[b]).id by {
                            if b == cur_m.len() - 1 {
                                assert(cur_m[a] == before[a]);
                            } else {
                                assert(cur_m[a] == before[a]);
                                assert(cur_m[b] == before[b]);
                            }
                        }
                        assert forall|a: int| 0 <= a < cur_m.len() implies (#[trigger] cur_m[a]).id <= self.next_id by {
                            if a < cur_m.len() - 1 {
                                assert(cur_m[a] == before[a]);
                            }
                        }
                        assert forall|a: int| 0 <= a < cur_m.len() implies (#[trigger] cur_m[a]).pos.bounded() && cur_m[a].home.bounded() by {
                            if a < cur_m.len() - 1 {
                                assert(cur_m[a] == before[a]);
                            }
                        }
                    }
                    j += 1;
                }
            } else {
                proof {
                    if positions@.len() == 0 {
                        assert(!has_spawn_tile(g)) by {
                            if has_spawn_tile(g) {
                                let (x, y) = choose|x: int, y: int| spawn_ok(g.map, x, y);
                                assert(spawn_ok(g.map, x, y));
                            }
                        }
                    }
                }
            }
        }
        proof {
            let t = g.tick + 1;
            let run = ai_run(g.map, sighting(g), false, g.mons(), g.mons().len());
            let hit = hits_applied(g.player@, run.1, town_center());
            let regen = t % 3 == 0 && hit.0.stats.hp > 0;
            let p3 = if regen { regenerated(hit.0) } else { hit.0 };
            let regen_ev = if regen { seq![SpEventView::UpdatePlayer(p3)] } else { Seq::empty() };
            let n = run.0.len();
            assert(self.mons().subrange(0, n as int) =~= run.0);
            assert(events_view(events@) =~= moved_events(run.0, run.2) + hit.1 + regen_ev
                + self.mons().subrange(n as int, self.mons().len() as int).map_values(|m: MonsterView| SpEventView::MonsterUpdate(m)));
        }
        events
    }
}


/// The player after monsters' hits is the same player but for its hit
/// points and place, whose hit points never rise above the larger of the
/// old value and a quarter of the maximum; from at most the maximum they stay
/// at most the maximum, and a player that was alive, with at least four
/// maximum hit points, is alive after them. Each hit's report names the
/// player and, with strengths and defense in range, does at least one
/// damage.
pub proof fn lemma_hits_applied(p: PlayerView, hits: Seq<(u64, i32, String)>, home: Pos)
    ensures
        ({
            let q = hits_applied(p, hits, home).0;
            let ev = hits_applied(p, hits, home).1;
            &&& q == PlayerView { stats: q.stats, pos: q.pos, ..p }
            &&& q.stats == Stats { hp: q.stats.hp, ..p.stats }
            &&& q.stats.hp <= p.stats.hp || q.stats.hp <= div_trunc(p.stats.max_hp as int, 4)
            &&& 0 <= p.stats.max_hp && p.stats.hp <= p.stats.max_hp ==> q.stats.hp <= p.stats.max_hp
            &&& 0 < p.stats.hp && 4 <= p.stats.max_hp ==> 0 < q.stats.hp
            &&& forall|i: int| 0 <= i < ev.len() && (#[trigger] ev[i]) is Combat ==> ev[i]->Combat_0.target == p.name@
            &&& (forall|i: int| 0 <= i < hits.len() ==> 1 <= (#[trigger] hits[i]).1 <= VALUE_LIMIT)
                && -3 * VALUE_LIMIT <= p.spec_defense() <= 3 * VALUE_LIMIT
                ==> forall|i: int| 0 <= i < ev.len() && (#[trigger] ev[i]) is Combat ==> ev[i]->Combat_0.damage >= 1
        }),
    decreases hits.len(),
{
    if hits.len() > 0 {
        lemma_hits_applied(p, hits.drop_last(), home);
        let prev = hits_applied(p, hits.drop_last(), home);
        let q = prev.0;
        let h = hits.last();
        let dmg = hit_damage(q, h.1 as int);
        assert(dmg >= 1);
        let hp = q.stats.hp - dmg;
        if hp > 0 {
            assert(hp < q.stats.hp);
            assert((hp as i32) as int == hp);
        }
        assert(q.spec_defense() == p.spec_defense());
        let ev = hits_applied(p, hits, home).1;
        let killed = q.stats.hp - dmg <= 0;
        let q2 = hit_taken(q, h.1 as int, home);
        let combat = SpEventView::Combat(CombatView { attacker: h.2@, target: q.name@, damage: dmg as i32, is_crit: false, killed });
        let slain = if killed { seq![SpEventView::Log(slain_line(), Color::Red)] } else { Seq::empty() };
        assert(ev == prev.1 + seq![combat] + slain + seq![SpEventView::UpdatePlayer(q2)]);
        assert forall|i: int| 0 <= i < ev.len() && (#[trigger] ev[i]) is Combat implies ev[i]->Combat_0.target == p.name@ by {
            if i < prev.1.len() {
                assert(ev[i] == prev.1[i]);
            } else if i == prev.1.len() {
                assert(ev[i] == combat);
            } else if i < prev.1.len() + 1 + slain.len() {
                assert(ev[i] == slain[i - prev.1.len() - 1]);
            } else {
                assert(ev[i] == SpEventView::UpdatePlayer(q2));
            }
        }
        if (forall|i: int| 0 <= i < hits.len() ==> 1 <= (#[trigger] hits[i]).1 <= VALUE_LIMIT)
            && -3 * VALUE_LIMIT <= p.spec_defense() <= 3 * VALUE_LIMIT {
            assert forall|i: int| 0 <= i < hits.drop_last().len() implies 1 <= (#[trigger] hits.drop_last()[i]).1 <= VALUE_LIMIT by {
                assert(hits.drop_last()[i] == hits[i]);
            }
            assert(1 <= h.1 <= VALUE_LIMIT);
            assert(dmg <= i32::MAX);
            assert forall|i: int| 0 <= i < ev.len() && (#[trigger] ev[i]) is Combat implies ev[i]->Combat_0.damage >= 1 by {
                if i < prev.1.len() {
                    assert(ev[i] == prev.1[i]);
                } else if i == prev.1.len() {
                    assert(ev[i] == combat);
                } else if i < prev.1.len() + 1 + slain.len() {
                    assert(ev[i] == slain[i - prev.1.len() - 1]);
                } else {
                    assert(ev[i] == SpEventView::UpdatePlayer(q2));
                }
            }
        }
    }
}

/// What every tick keeps:
/// - each monster there before keeps everything but its position and
///   target, and stays or takes one step along a row or column onto a
///   passable tile the player did not hold; monsters that did not share
///   tiles still do not; with the player dead, no monster moves;
/// - new monsters come only on every sixtieth tick, at most five, and never
///   beyond the configured count;
/// - every combat report of the tick names the player and, with the game's
///   numbers in range, does at least one damage;
/// - a living player with at least four maximum hit points and hit points
///   at most the maximum (and no negative vitality) is alive after the tick,
///   still at most the maximum, which does not change;
/// - off every third tick the player does not regenerate: the mana does not
///   change and the hit points do not rise above the larger of the old value
///   and a quarter of the maximum (where a slain player comes back).
pub proof fn lemma_tick_laws(g: LocalGame, h: LocalGame, ev: Seq<SpEventView>)
    requires
        g.wf(),
        ticked(g, h, ev),
    ensures
        forall|k: int| 0 <= k < g.mons().len() ==> stepped_or_stayed(g.map, sighting(g), g.mons()[k], #[trigger] h.mons()[k]),
        spread(g.mons()) ==> spread(h.mons().subrange(0, g.mons().len() as int)),
        g.player.stats.hp <= 0 ==> forall|k: int| 0 <= k < g.mons().len() ==> #[trigger] h.mons()[k] == g.mons()[k],
        (g.tick + 1) % 60 != 0 ==> h.mons().len() == g.mons().len(),
        h.mons().len() <= g.mons().len() + 5,
        h.mons().len() > g.mons().len() ==> h.mons().len() <= g.cfg.world.monster_count,
        forall|i: int| 0 <= i < ev.len() && (#[trigger] ev[i]) is Combat ==> ev[i]->Combat_0.target == g.player.name@,
        g.values_ok() ==> forall|i: int| 0 <= i < ev.len() && (#[trigger] ev[i]) is Combat ==> ev[i]->Combat_0.damage >= 1,
        h.player@.stats.max_hp == g.player@.stats.max_hp,
        g.player.stats.hp > 0 && g.player.stats.hp <= g.player.stats.max_hp && 4 <= g.player.stats.max_hp
            && 0 <= g.player.stats.vit ==> 0 < h.player.stats.hp <= h.player.stats.max_hp,
        (g.tick + 1) % 3 != 0 ==> h.player.stats.mp == g.player.stats.mp && (h.player.stats.hp <= g.player.stats.hp
            || h.player.stats.hp <= div_trunc(g.player.stats.max_hp as int, 4)),
{
    let run = ai_run(g.map, sighting(g), false, g.mons(), g.mons().len());
    lemma_ai_run_steps(g.map, sighting(g), false, g.mons(), g.mons().len());
    lemma_ai_run_moves(g.map, sighting(g), false, g.mons(), g.mons().len());
    let n = run.0.len();
    assert(h.mons().subrange(0, n as int) == run.0);
    assert forall|k: int| 0 <= k < g.mons().len() implies stepped_or_stayed(g.map, sighting(g), g.mons()[k], #[trigger] h.mons()[k]) by {
        assert(h.mons()[k] == h.mons().subrange(0, n as int)[k]);
        assert(stepped_or_stayed(g.map, sighting(g), g.mons()[k], run.0[k]));
    }
    if g.player.stats.hp <= 0 {
        assert forall|j: int| 0 <= j < sighting(g).len() implies !(#[trigger] sighting(g)[j]).2 by {}
        assert forall|k: int| 0 <= k < g.mons().len() implies #[trigger] h.mons()[k] == g.mons()[k] by {
            assert(h.mons()[k] == h.mons().subrange(0, n as int)[k]);
        }
    }
    let p = g.player@;
    lemma_hits_applied(p, run.1, town_center());
    let hit = hits_applied(p, run.1, town_center());
    let q = hit.0;
    let t = g.tick + 1;
    let regen = t % 3 == 0 && q.stats.hp > 0;
    let p3 = if regen { regenerated(q) } else { q };
    let regen_ev = if regen { seq![SpEventView::UpdatePlayer(p3)] } else { Seq::<SpEventView>::empty() };
    let moved = moved_events(run.0, run.2);
    let spawned = h.mons().subrange(n as int, h.mons().len() as int).map_values(|m: MonsterView| SpEventView::MonsterUpdate(m));
    assert(ev == moved + hit.1 + regen_ev + spawned);
    if g.values_ok() {
        assert forall|k: int| 0 <= k < g.mons().len() implies in_limit((#[trigger] g.mons()[k]).stats.str as int) by {
            assert(monster_ok(g.mons()[k]));
        }
        lemma_ai_run_hits(g.map, sighting(g), false, g.mons(), g.mons().len());
        lemma_player_ok_bounds(p);
    }
    assert forall|i: int| 0 <= i < ev.len() && (#[trigger] ev[i]) is Combat implies ev[i]->Combat_0.target == g.player.name@
        && (g.values_ok() ==> ev[i]->Combat_0.damage >= 1) by {
        if i < moved.len() {
            assert(ev[i] == moved[i]);
        } else if i < moved.len() + hit.1.len() {
            assert(ev[i] == hit.1[i - moved.len()]);
        } else if i < moved.len() + hit.1.len() + regen_ev.len() {
            assert(ev[i] == regen_ev[i - moved.len() - hit.1.len()]);
        } else {
            assert(ev[i] == spawned[i - moved.len() - hit.1.len() - regen_ev.len()]);
        }
    }
    if regen {
        if 0 <= q.stats.vit && q.stats.hp <= q.stats.max_hp {
            assert(div_trunc(q.stats.vit as int, 5) >= 0);
            assert(0 < min_int(q.stats.hp + 2 + div_trunc(q.stats.vit as int, 5), q.stats.max_hp as int));
        }
    }
}

} // verus!
