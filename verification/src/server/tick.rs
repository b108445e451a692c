//! The server's tick (monsters act, hits land, players regenerate), the
//! world's start and the respawn of a slain monster.

use vstd::prelude::*;
use crate::actions::{Sighting, ai_run, lemma_ai_run_hits, lemma_ai_run_moves, lemma_ai_run_steps, spread, stepped_or_stayed, hit_damage, hit_taken, monster_ai, mons_bounded, regenerate, regenerated, take_hit};
use crate::config::{GameConfig, find_key, keys_unique, Keyed};
use crate::engine::ai::{slain_line, fresh_monster};
use crate::engine::ids_unique;
use crate::engine::setup::{populated, spawnable};
use crate::entity::{Monster, Player};
use crate::entity::monster::{MonsterView, mons_view};
use crate::entity::player::{PlayerView, div_trunc};
use crate::world::Stats;
use crate::mapgen::{monster_spawn_positions, spawn_ok};
use crate::mapgen::world_gen::{generate, world_ok};
use crate::protocol::ServerMsg;
use crate::rng::{range_usize, rng_from_entropy};
use crate::rules::{lemma_player_ok_bounds, player_ok, monster_ok, stats_ok, in_limit, VALUE_LIMIT, ID_LIMIT};
use crate::text::copy_string;
use crate::world::{GameMap, Pos};
use crate::world::combat::{CombatEvent, CombatView};
use super::{GameState, MsgView, OutView, Outgoing, find_player, outs_view, player_slot, players_view, send, server_home};

verus! {

/// The players as the monsters see them.
pub open spec fn snapshot(ps: Seq<PlayerView>) -> Seq<Sighting> {
    ps.map_values(|p: PlayerView| (p.id, p.pos, p.stats.hp > 0))
}

/// The players, the messages and the ids of the players hit, after the hits
/// `hits` (player id, strength, monster name) land in order; a slain player
/// comes back at the map's center.
pub open spec fn server_hits(ps: Seq<PlayerView>, hits: Seq<(u64, i32, String)>) -> (Seq<PlayerView>, Seq<OutView>, Seq<u64>)
    decreases hits.len(),
{
    if hits.len() == 0 {
        (ps, Seq::empty(), Seq::empty())
    } else {
        let prev = server_hits(ps, hits.drop_last());
        let h = hits.last();
        match player_slot(prev.0, h.0) {
            None => prev,
            Some(i) => {
                let q = prev.0[i];
                let dmg = hit_damage(q, h.1 as int);
                let killed = q.stats.hp - dmg <= 0;
                let q2 = hit_taken(q, h.1 as int, server_home());
                let combat = OutView::All(MsgView::Combat(CombatView { attacker: h.2@, target: q.name@, damage: dmg as i32, is_crit: false, killed }));
                let slain = if killed { seq![OutView::To(h.0, MsgView::System(slain_line()))] } else { Seq::empty() };
                (prev.0.update(i, q2), prev.1 + seq![combat] + slain, prev.2.push(h.0))
            },
        }
    }
}

/// One `PlayerUpdate` to everyone per id, with the player's state in `ps`.
pub open spec fn update_outs(ps: Seq<PlayerView>, ids: Seq<u64>) -> Seq<OutView>
    decreases ids.len(),
{
    if ids.len() == 0 {
        Seq::empty()
    } else {
        update_outs(ps, ids.drop_last()) + match player_slot(ps, ids.last()) {
            Some(i) => seq![OutView::All(MsgView::PlayerUpdate(ps[i]))],
            None => Seq::empty(),
        }
    }
}

/// The first `n` players after regenerating, the living ones each told.
pub open spec fn regen_all(ps: Seq<PlayerView>, n: nat) -> (Seq<PlayerView>, Seq<OutView>)
    decreases n,
{
    if n == 0 {
        (ps, Seq::empty())
    } else {
        let prev = regen_all(ps, (n - 1) as nat);
        let p = ps[n - 1];
        if p.stats.hp > 0 {
            (prev.0.update(n - 1, regenerated(p)), prev.1.push(OutView::To(p.id, MsgView::PlayerUpdate(regenerated(p)))))
        } else {
            prev
        }
    }
}

pub open spec fn moved_outs(mons: Seq<MonsterView>, moved: Seq<usize>) -> Seq<OutView> {
    moved.map_values(|k: usize| OutView::All(MsgView::MonsterUpdate(mons[k as int])))
}

proof fn lemma_server_hits_keeps(ps: Seq<PlayerView>, hits: Seq<(u64, i32, String)>)
    ensures
        server_hits(ps, hits).0.len() == ps.len(),
        forall|i: int| 0 <= i < ps.len() ==> (#[trigger] server_hits(ps, hits).0[i]).id == ps[i].id,
    decreases hits.len(),
{
    if hits.len() > 0 {
        lemma_server_hits_keeps(ps, hits.drop_last());
        let prev = server_hits(ps, hits.drop_last());
        reveal(player_slot);
        match player_slot(prev.0, hits.last().0) {
            Some(i) => {
                assert(0 <= i < prev.0.len());
            },
            None => {},
        }
    }
}

/// The outcome of one server tick: every monster acts on the players online
/// (see `ai_run`, taking the player it strikes as its target), the hits land,
/// each player hit is shown to everyone, and on every third tick the living
/// players regenerate.
pub open spec fn game_ticked(g: GameState, h: GameState, outs: Seq<OutView>) -> bool {
    let t = g.tick + 1;
    let run = ai_run(g.map, snapshot(g.plist()), true, g.mons(), g.mons().len());
    let hit = server_hits(g.plist(), run.1);
    let ups = update_outs(hit.0, hit.2);
    let reg = if t % 3 == 0 { regen_all(hit.0, hit.0.len()) } else { (hit.0, Seq::empty()) };
    &&& h.tick == t
    &&& h.mons() == run.0
    &&& h.plist() == reg.0
    &&& h.accounts@ == g.accounts@
    &&& h.ground_items@ == g.ground_items@
    &&& h.map == g.map
    &&& h.cfg == g.cfg
    &&& h.next_id == g.next_id
    &&& outs == moved_outs(run.0, run.2) + hit.1 + ups + reg.1
}

/// A message that, where it is a combat report, reports at least one
/// damage.
pub open spec fn report_ok(o: OutView) -> bool {
    match o {
        OutView::All(MsgView::Combat(c)) => c.damage >= 1,
        _ => true,
    }
}

/// A player after hits: the same player but for its hit points and place;
/// from at most the maximum the hit points stay at most the maximum, and a
/// living player with at least four maximum hit points stays alive.
pub open spec fn hit_kept(before: PlayerView, after: PlayerView) -> bool {
    &&& after == PlayerView { stats: after.stats, pos: after.pos, ..before }
    &&& after.stats == Stats { hp: after.stats.hp, ..before.stats }
    &&& 0 <= before.stats.max_hp && before.stats.hp <= before.stats.max_hp ==> after.stats.hp <= before.stats.max_hp
    &&& 0 < before.stats.hp && 4 <= before.stats.max_hp ==> 0 < after.stats.hp
}

/// Hits on the players keep each player as `hit_kept` says; each combat
/// report, with strengths and defenses in range, does at least one damage.
pub proof fn lemma_server_hits_players(ps: Seq<PlayerView>, hits: Seq<(u64, i32, String)>)
    ensures
        ({
            let r = server_hits(ps, hits);
            &&& r.0.len() == ps.len()
            &&& forall|i: int| 0 <= i < ps.len() ==> hit_kept(ps[i], #[trigger] r.0[i])
            &&& (forall|i: int| 0 <= i < hits.len() ==> 1 <= (#[trigger] hits[i]).1 <= VALUE_LIMIT)
                && (forall|i: int| 0 <= i < ps.len() ==> -3 * VALUE_LIMIT <= (#[trigger] ps[i]).spec_defense() <= 3 * VALUE_LIMIT)
                ==> forall|i: int| 0 <= i < r.1.len() ==> report_ok(#[trigger] r.1[i])
        }),
    decreases hits.len(),
{
    if hits.len() > 0 {
        lemma_server_hits_players(ps, hits.drop_last());
        let prev = server_hits(ps, hits.drop_last());
        let h = hits.last();
        let r = server_hits(ps, hits);
        reveal(player_slot);
        match player_slot(prev.0, h.0) {
            None => {
                if (forall|i: int| 0 <= i < hits.len() ==> 1 <= (#[trigger] hits[i]).1 <= VALUE_LIMIT) {
                    assert forall|i: int| 0 <= i < hits.drop_last().len() implies 1 <= (#[trigger] hits.drop_last()[i]).1 <= VALUE_LIMIT by {
                        assert(hits.drop_last()[i] == hits[i]);
                    }
                }
            },
            Some(i) => {
                assert(0 <= i < prev.0.len());
                let q = prev.0[i];
                let dmg = hit_damage(q, h.1 as int);
                assert(dmg >= 1);
                let hp = q.stats.hp - dmg;
                if hp > 0 {
                    assert(hp < q.stats.hp);
                    assert((hp as i32) as int == hp);
                }
                let q2 = hit_taken(q, h.1 as int, server_home());
                assert(hit_kept(ps[i], q) ==> hit_kept(ps[i], q2));
                assert forall|j: int| 0 <= j < ps.len() implies hit_kept(ps[j], #[trigger] r.0[j]) by {
                    if j != i {
                        assert(r.0[j] == prev.0[j]);
                    }
                }
                let killed = q.stats.hp - dmg <= 0;
                let combat = OutView::All(MsgView::Combat(CombatView { attacker: h.2@, target: q.name@, damage: dmg as i32, is_crit: false, killed }));
                let slain = if killed { seq![OutView::To(h.0, MsgView::System(slain_line()))] } else { Seq::empty() };
                assert(r.1 == prev.1 + seq![combat] + slain);
                if (forall|k: int| 0 <= k < hits.len() ==> 1 <= (#[trigger] hits[k]).1 <= VALUE_LIMIT)
                    && (forall|k: int| 0 <= k < ps.len() ==> -3 * VALUE_LIMIT <= (#[trigger] ps[k]).spec_defense() <= 3 * VALUE_LIMIT) {
                    assert forall|k: int| 0 <= k < hits.drop_last().len() implies 1 <= (#[trigger] hits.drop_last()[k]).1 <= VALUE_LIMIT by {
                        assert(hits.drop_last()[k] == hits[k]);
                    }
                    assert(q.spec_defense() == ps[i].spec_defense());
                    assert(-3 * VALUE_LIMIT <= ps[i].spec_defense() <= 3 * VALUE_LIMIT);
                    assert(1 <= h.1 <= VALUE_LIMIT);
                    assert forall|k: int| 0 <= k < r.1.len() implies report_ok(#[trigger] r.1[k]) by {
                        if k < prev.1.len() {
                            assert(r.1[k] == prev.1[k]);
                        } else if k == prev.1.len() {
                            assert(r.1[k] == combat);
                        } else {
                            assert(r.1[k] == slain[k - prev.1.len() - 1]);
                        }
                    }
                }
            },
        }
    }
}

/// Regeneration of the first `n` players: each living one regenerates,
/// the others stay as they are.
pub proof fn lemma_regen_all(ps: Seq<PlayerView>, n: nat)
    requires
        n <= ps.len(),
    ensures
        regen_all(ps, n).0.len() == ps.len(),
        forall|i: int| 0 <= i < ps.len() ==> #[trigger] regen_all(ps, n).0[i] == if i < n && ps[i].stats.hp > 0 {
            regenerated(ps[i])
        } else {
            ps[i]
        },
    decreases n,
{
    if n > 0 {
        lemma_regen_all(ps, (n - 1) as nat);
    }
}

/// What every server tick keeps:
/// - each monster keeps everything but its position and target, and stays
///   or takes one step along a row or column onto a passable tile no player
///   online held; the monsters' ids stay as they were, and monsters that did
///   not share tiles still do not;
/// - every player keeps everything but hit points and place; hit points at
///   most the maximum stay at most the maximum, and a living player with at
///   least four maximum hit points (and no negative vitality) stays alive;
/// - with the game's numbers in range, every combat report does at least
///   one damage (`report_ok`).
pub proof fn lemma_game_tick_laws(g: GameState, h: GameState, outs: Seq<OutView>)
    requires
        g.wf(),
        game_ticked(g, h, outs),
    ensures
        h.mons().len() == g.mons().len(),
        forall|k: int| 0 <= k < g.mons().len() ==> stepped_or_stayed(g.map, snapshot(g.plist()), g.mons()[k], #[trigger] h.mons()[k]),
        spread(g.mons()) ==> spread(h.mons()),
        h.plist().len() == g.plist().len(),
        forall|i: int| 0 <= i < g.plist().len() ==> (#[trigger] h.plist()[i]).id == g.plist()[i].id
            && h.plist()[i].stats.max_hp == g.plist()[i].stats.max_hp,
        forall|i: int| 0 <= i < g.plist().len() && 0 <= g.plist()[i].stats.max_hp
            && g.plist()[i].stats.hp <= g.plist()[i].stats.max_hp ==> (#[trigger] h.plist()[i]).stats.hp <= h.plist()[i].stats.max_hp,
        forall|i: int| 0 <= i < g.plist().len() && 0 < g.plist()[i].stats.hp && 4 <= g.plist()[i].stats.max_hp
            && g.plist()[i].stats.hp <= g.plist()[i].stats.max_hp && 0 <= g.plist()[i].stats.vit
            ==> 0 < (#[trigger] h.plist()[i]).stats.hp,
        g.values_ok() ==> forall|i: int| 0 <= i < outs.len() ==> report_ok(#[trigger] outs[i]),
{
    let ps = g.plist();
    let run = ai_run(g.map, snapshot(ps), true, g.mons(), g.mons().len());
    lemma_ai_run_steps(g.map, snapshot(ps), true, g.mons(), g.mons().len());
    lemma_ai_run_moves(g.map, snapshot(ps), true, g.mons(), g.mons().len());
    lemma_server_hits_players(ps, run.1);
    let hit = server_hits(ps, run.1);
    let t = g.tick + 1;
    lemma_regen_all(hit.0, hit.0.len());
    let reg = if t % 3 == 0 { regen_all(hit.0, hit.0.len()) } else { (hit.0, Seq::empty()) };
    assert forall|i: int| 0 <= i < ps.len() implies (#[trigger] h.plist()[i]).id == ps[i].id
        && h.plist()[i].stats.max_hp == ps[i].stats.max_hp
        && (0 <= ps[i].stats.max_hp && ps[i].stats.hp <= ps[i].stats.max_hp ==> h.plist()[i].stats.hp <= h.plist()[i].stats.max_hp)
        && (0 < ps[i].stats.hp && 4 <= ps[i].stats.max_hp && ps[i].stats.hp <= ps[i].stats.max_hp && 0 <= ps[i].stats.vit
            ==> 0 < h.plist()[i].stats.hp) by {
        assert(hit_kept(ps[i], hit.0[i]));
        let q = hit.0[i];
        if t % 3 == 0 && q.stats.hp > 0 {
            assert(h.plist()[i] == regenerated(q));
            if 0 <= q.stats.vit {
                assert(div_trunc(q.stats.vit as int, 5) >= 0);
            }
        } else {
            assert(h.plist()[i] == q);
        }
    }
    if g.values_ok() {
        assert forall|k: int| 0 <= k < g.mons().len() implies in_limit((#[trigger] g.mons()[k]).stats.str as int) by {
            assert(monster_ok(g.mons()[k]));
        }
        lemma_ai_run_hits(g.map, snapshot(ps), true, g.mons(), g.mons().len());
        assert forall|i: int| 0 <= i < ps.len() implies -3 * VALUE_LIMIT <= (#[trigger] ps[i]).spec_defense() <= 3 * VALUE_LIMIT by {
            assert(player_ok(ps[i]));
            lemma_player_ok_bounds(ps[i]);
        }
        let moved = moved_outs(run.0, run.2);
        let ups = update_outs(hit.0, hit.2);
        assert(outs == moved + hit.1 + ups + reg.1);
        lemma_update_outs_no_combat(hit.0, hit.2);
        assert forall|i: int| 0 <= i < outs.len() implies report_ok(#[trigger] outs[i]) by {
            if i < moved.len() {
                assert(outs[i] == moved[i]);
            } else if i < moved.len() + hit.1.len() {
                assert(outs[i] == hit.1[i - moved.len()]);
            } else if i < moved.len() + hit.1.len() + ups.len() {
                assert(outs[i] == ups[i - moved.len() - hit.1.len()]);
            } else {
                assert(outs[i] == reg.1[i - moved.len() - hit.1.len() - ups.len()]);
                if t % 3 == 0 {
                    lemma_regen_outs_no_combat(hit.0, hit.0.len());
                }
            }
        }
    }
}

/// The update messages are no combat reports.
proof fn lemma_update_outs_no_combat(ps: Seq<PlayerView>, ids: Seq<u64>)
    ensures
        forall|i: int| 0 <= i < update_outs(ps, ids).len() ==> report_ok(#[trigger] update_outs(ps, ids)[i]),
    decreases ids.len(),
{
    if ids.len() > 0 {
        lemma_update_outs_no_combat(ps, ids.drop_last());
        let prev = update_outs(ps, ids.drop_last());
        let r = update_outs(ps, ids);
        assert forall|i: int| 0 <= i < r.len() implies report_ok(#[trigger] r[i]) by {
            if i < prev.len() {
                assert(r[i] == prev[i]);
            }
        }
    }
}

/// The regeneration messages are no combat reports.
proof fn lemma_regen_outs_no_combat(ps: Seq<PlayerView>, n: nat)
    requires
        n <= ps.len(),
    ensures
        forall|i: int| 0 <= i < regen_all(ps, n).1.len() ==> report_ok(#[trigger] regen_all(ps, n).1[i]),
    decreases n,
{
    if n > 0 {
        lemma_regen_outs_no_combat(ps, (n - 1) as nat);
        let prev = regen_all(ps, (n - 1) as nat);
        let r = regen_all(ps, n);
        assert forall|i: int| 0 <= i < r.1.len() implies report_ok(#[trigger] r.1[i]) by {
            if i < prev.1.len() {
                assert(r.1[i] == prev.1[i]);
            }
        }
    }
}

impl GameState {
    /// One tick: every monster acts on the players online (see `ai_run`,
    /// taking the player it strikes as its target), the hits land, each
    /// player hit is shown to everyone, and on every third tick the living
    /// players regenerate.
    pub fn game_tick(&mut self) -> (out: Vec<Outgoing>)
        requires
            old(self).wf(),
            old(self).values_ok(),
            old(self).tick < u64::MAX,
        ensures
            final(self).wf(),
            game_ticked(*old(self), *final(self), outs_view(out@)),
    {
        let ghost g = *self;
        let mut out: Vec<Outgoing> = Vec::new();
        self.tick = self.tick + 1;
        let tick = self.tick;

        // the monsters act
        let mut snap: Vec<Sighting> = Vec::new();
        let mut k: usize = 0;
        while k < self.players.len()
            invariant
                k <= self.players@.len(),
                self.plist() == g.plist(),
                snap@ == snapshot(g.plist()).subrange(0, k as int),
                forall|j: int| 0 <= j < snap@.len() ==> (#[trigger] snap@[j]).1.bounded(),
                g.wf(),
            decreases self.players.len() - k,
        {
            assert(g.plist()[k as int] == self.players@[k as int]@);
            snap.push((self.players[k].id, self.players[k].pos, self.players[k].stats.is_alive()));
            assert(snap@ =~= snapshot(g.plist()).subrange(0, k + 1));
            k += 1;
        }
        assert(snap@ =~= snapshot(g.plist()));
        proof {
            assert forall|i: int| 0 <= i < self.monsters@.len() implies in_limit((#[trigger] self.monsters@[i]).stats.str as int) by {
                assert(self.mons()[i] == self.monsters@[i]@);
                assert(monster_ok(g.mons()[i]));
            }
        }
        let (hits, moved) = monster_ai(&self.map, &mut self.monsters, &snap, true);
        let ghost run = ai_run(g.map, snapshot(g.plist()), true, g.mons(), g.mons().len());
        assert(run.0 == self.mons());
        proof {
            let cm = self.mons();
            assert forall|a: int, b: int| 0 <= a < b < cm.len() implies (#[trigger] cm[a]).id != (#[trigger] cm[b]).id by {
                assert(cm[a] == self.monsters@[a]@);
                assert(cm[b] == self.monsters@[b]@);
                assert(g.mons()[a] == g.monsters@[a]@);
                assert(g.mons()[b] == g.monsters@[b]@);
            }
            assert forall|a: int| 0 <= a < cm.len() implies (#[trigger] cm[a]).id <= self.next_id by {
                assert(cm[a] == self.monsters@[a]@);
                assert(g.mons()[a] == g.monsters@[a]@);
            }
        }
        let mut k: usize = 0;
        while k < moved.len()
            invariant
                k <= moved@.len(),
                run.2 == moved@,
                run.0 == self.mons(),
                forall|i: int| 0 <= i < moved@.len() ==> (#[trigger] moved@[i]) < self.monsters@.len(),
                outs_view(out@) == moved_outs(run.0, run.2).subrange(0, k as int),
            decreases moved.len() - k,
        {
            let mi = moved[k];
            assert(self.mons()[mi as int] == self.monsters@[mi as int]@);
            send(&mut out, Outgoing::All(ServerMsg::MonsterUpdate(self.monsters[mi].duplicate())));
            assert(moved_outs(run.0, run.2).subrange(0, k + 1) =~= moved_outs(run.0, run.2).subrange(0, k as int).push(
                OutView::All(MsgView::MonsterUpdate(run.0[moved@[k as int] as int]))));
            k += 1;
        }
        assert(moved_outs(run.0, run.2).subrange(0, moved@.len() as int) =~= moved_outs(run.0, run.2));
        let ghost o_moved = outs_view(out@);

        // the hits land
        let ghost g_ai = *self;
        let mut hit_ids: Vec<u64> = Vec::new();
        let mut k: usize = 0;
        while k < hits.len()
            invariant
                k <= hits@.len(),
                run.1 == hits@,
                forall|i: int| 0 <= i < hits@.len() ==> 1 <= (#[trigger] hits@[i]).1 <= VALUE_LIMIT,
                forall|i: int| 0 <= i < self.plist().len() ==> player_ok(#[trigger] self.plist()[i]),
                (self.plist(), outs_view(out@).subrange(o_moved.len() as int, outs_view(out@).len() as int), hit_ids@)
                    == server_hits(g.plist(), hits@.subrange(0, k as int)),
                o_moved.len() <= outs_view(out@).len(),
                outs_view(out@).subrange(0, o_moved.len() as int) == o_moved,
                self.accounts@ == g.accounts@,
                self.monsters@ == g_ai.monsters@,
                self.ground_items@ == g.ground_items@,
                self.map == g.map,
                self.cfg == g.cfg,
                self.next_id == g.next_id,
                self.tick == g.tick + 1,
                self.plist().len() == g.plist().len(),
                forall|i: int| 0 <= i < self.plist().len() ==> (#[trigger] self.plist()[i]).id == g.plist()[i].id,
                players_bounded_local(self.plist()),
            decreases hits.len() - k,
        {
            let ghost before = outs_view(out@);
            let ghost ps0 = self.plist();
            let pid = hits[k].0;
            let dmg = hits[k].1;
            assert(hits@.subrange(0, k + 1).drop_last() =~= hits@.subrange(0, k as int));
            match find_player(&self.players, pid) {
                Some(i) => {
                    assert(ps0[i as int] == self.players@[i as int]@);
                    let target = copy_string(&self.players[i].name);
                    let (actual, killed) = take_hit(&mut self.players[i], dmg, Pos::new(40, 25));
                    send(&mut out, Outgoing::All(ServerMsg::Combat(CombatEvent {
                        attacker: copy_string(&hits[k].2),
                        target,
                        damage: actual,
                        is_crit: false,
                        killed,
                    })));
                    if killed {
                        send(&mut out, Outgoing::To(pid, ServerMsg::System(String::from_str("You were slain! Respawned in town."))));
                    }
                    hit_ids.push(pid);
                    proof {
                        let all = outs_view(out@);
                        let added = all.subrange(before.len() as int, all.len() as int);
                        assert(self.plist() =~= ps0.update(i as int, self.players@[i as int]@));
                        assert(all.subrange(0, o_moved.len() as int) =~= before.subrange(0, o_moved.len() as int));
                        assert(all.subrange(o_moved.len() as int, all.len() as int) =~= before.subrange(o_moved.len() as int, before.len() as int) + added);
                        assert forall|a: int| 0 <= a < self.plist().len() implies player_ok(#[trigger] self.plist()[a]) by {
                            if a != i {
                                assert(self.plist()[a] == ps0[a]);
                            }
                        }
                        assert forall|a: int| 0 <= a < self.plist().len() implies (#[trigger] self.plist()[a]).pos.bounded() by {
                            if a != i {
                                assert(self.plist()[a] == ps0[a]);
                            }
                        }
                    }
                },
                None => {
                    assert(outs_view(out@).subrange(o_moved.len() as int, outs_view(out@).len() as int)
                        =~= before.subrange(o_moved.len() as int, before.len() as int));
                },
            }
            k += 1;
        }
        assert(hits@.subrange(0, hits@.len() as int) =~= hits@);
        let ghost hit = server_hits(g.plist(), run.1);
        let ghost o_hits = outs_view(out@);
        assert(o_hits =~= o_moved + hit.1);
        proof { lemma_server_hits_keeps(g.plist(), run.1); }

        // each player hit, shown to everyone
        let mut k: usize = 0;
        while k < hit_ids.len()
            invariant
                k <= hit_ids@.len(),
                hit_ids@ == hit.2,
                self.plist() == hit.0,
                outs_view(out@) == o_hits + update_outs(hit.0, hit.2.subrange(0, k as int)),
                self.accounts@ == g.accounts@,
                self.monsters@ == g_ai.monsters@,
                self.ground_items@ == g.ground_items@,
                self.map == g.map,
                self.cfg == g.cfg,
                self.next_id == g.next_id,
                self.tick == g.tick + 1,
                g.wf(),
                run.0 == g_ai.mons(),
                ids_unique(g_ai.mons()),
                forall|a: int| 0 <= a < g_ai.mons().len() ==> (#[trigger] g_ai.mons()[a]).id <= g.next_id,
                mons_bounded(g_ai.mons()),
                g_ai.monsters@.len() == g.monsters@.len(),
                players_bounded_local(hit.0),
                hit.0.len() == g.plist().len(),
                forall|a: int| 0 <= a < hit.0.len() ==> (#[trigger] hit.0[a]).id == g.plist()[a].id,
            decreases hit_ids.len() - k,
        {
            let ghost before = outs_view(out@);
            assert(hit.2.subrange(0, k + 1).drop_last() =~= hit.2.subrange(0, k as int));
            match find_player(&self.players, hit_ids[k]) {
                Some(i) => {
                    assert(self.plist()[i as int] == self.players@[i as int]@);
                    send(&mut out, Outgoing::All(ServerMsg::PlayerUpdate(self.players[i].duplicate())));
                },
                None => {},
            }
            assert(outs_view(out@) =~= o_hits + update_outs(hit.0, hit.2.subrange(0, k + 1)));
            k += 1;
        }
        assert(hit.2.subrange(0, hit.2.len() as int) =~= hit.2);
        let ghost o_ups = outs_view(out@);

        // regeneration
        if tick % 3 == 0 {
            let mut i: usize = 0;
            while i < self.players.len()
                invariant
                    i <= self.players@.len(),
                    hit.0.len() == self.players@.len(),
                    forall|a: int| 0 <= a < hit.0.len() ==> player_ok(#[trigger] hit.0[a]),
                    (self.plist(), outs_view(out@).subrange(o_ups.len() as int, outs_view(out@).len() as int))
                        == regen_all(hit.0, i as nat),
                    forall|a: int| i <= a < self.players@.len() ==> #[trigger] self.plist()[a] == hit.0[a],
                    o_ups.len() <= outs_view(out@).len(),
                    outs_view(out@).subrange(0, o_ups.len() as int) == o_ups,
                    self.plist().len() == hit.0.len(),
                    forall|a: int| 0 <= a < hit.0.len() ==> (#[trigger] self.plist()[a]).id == hit.0[a].id
                        && self.plist()[a].pos == hit.0[a].pos,
                    self.accounts@ == g.accounts@,
                    self.monsters@ == g_ai.monsters@,
                    self.ground_items@ == g.ground_items@,
                    self.map == g.map,
                    self.cfg == g.cfg,
                    self.next_id == g.next_id,
                    self.tick == g.tick + 1,
                    g.wf(),
                    run.0 == g_ai.mons(),
                    ids_unique(g_ai.mons()),
                    forall|a: int| 0 <= a < g_ai.mons().len() ==> (#[trigger] g_ai.mons()[a]).id <= g.next_id,
                    mons_bounded(g_ai.mons()),
                    g_ai.monsters@.len() == g.monsters@.len(),
                    players_bounded_local(hit.0),
                    hit.0.len() == g.plist().len(),
                    forall|a: int| 0 <= a < hit.0.len() ==> (#[trigger] hit.0[a]).id == g.plist()[a].id,
                decreases self.players.len() - i,
            {
                let ghost before = outs_view(out@);
                let ghost ps0 = self.plist();
                assert(ps0[i as int] == self.players@[i as int]@);
                if self.players[i].stats.is_alive() {
                    assert(player_ok(hit.0[i as int]));
                    regenerate(&mut self.players[i]);
                    let pid = self.players[i].id;
                    send(&mut out, Outgoing::To(pid, ServerMsg::PlayerUpdate(self.players[i].duplicate())));
                    proof {
                        assert(self.plist() =~= ps0.update(i as int, self.players@[i as int]@));
                        let all = outs_view(out@);
                        assert(all.subrange(0, o_ups.len() as int) =~= before.subrange(0, o_ups.len() as int));
                        assert(all.subrange(o_ups.len() as int, all.len() as int) =~= before.subrange(o_ups.len() as int, before.len() as int).push(all.last()));
                    }
                }
                i += 1;
            }
            proof {
                let reg = regen_all(hit.0, hit.0.len());
                assert(outs_view(out@) =~= o_ups + reg.1);
            }
        } else {
            assert(outs_view(out@) =~= o_ups + Seq::<OutView>::empty());
        }
        proof {
            lemma_server_hits_keeps(g.plist(), run.1);
            let ps = self.plist();
            assert forall|a: int, b: int| 0 <= a < b < ps.len() implies (#[trigger] ps[a]).id != (#[trigger] ps[b]).id by {
                assert(g.plist()[a].id != g.plist()[b].id);
                assert(hit.0[a].id == g.plist()[a].id);
                assert(hit.0[b].id == g.plist()[b].id);
            }
        }
        out
    }
}

pub open spec fn players_bounded_local(s: Seq<PlayerView>) -> bool {
    forall|i: int| 0 <= i < s.len() ==> (#[trigger] s[i]).pos.bounded()
}


impl GameState {
    /// The configured number of monsters of random templates join on random
    /// spawn tiles (none where the map has no spawn tile), named by their
    /// templates.
    pub fn initial_monster_spawn(&mut self)
        requires
            old(self).wf(),
            old(self).next_id <= ID_LIMIT,
            old(self).cfg.world.monster_count <= ID_LIMIT,
            old(self).cfg.world.monster_count > 0 ==> old(self).cfg.monsters@.len() > 0,
        ensures
            final(self).wf(),
            ({
                let count = if spawnable(old(self).map) { old(self).cfg.world.monster_count as int } else { 0 };
                &&& final(self).next_id == old(self).next_id + count
                &&& populated(old(self).cfg, old(self).map, old(self).mons(), old(self).next_id as int, count, false, final(self).mons())
                &&& final(self).accounts@ == old(self).accounts@
                &&& final(self).players@ == old(self).players@
                &&& final(self).ground_items@ == old(self).ground_items@
                &&& final(self).map == old(self).map
                &&& final(self).cfg == old(self).cfg
                &&& final(self).tick == old(self).tick
            }),
    {
        let ghost g = *self;
        let ghost n = g.mons().len();
        let positions = monster_spawn_positions(&self.map);
        if positions.len() == 0 {
            proof {
                assert(!spawnable(g.map)) by {
                    if spawnable(g.map) {
                        let (x, y) = choose|x: int, y: int| spawn_ok(g.map, x, y);
                        assert(spawn_ok(g.map, x, y));
                    }
                }
                assert(self.mons().subrange(0, n as int) =~= g.mons());
            }
            return;
        }
        proof {
            let q = positions@[0];
            assert(spawn_ok(g.map, q.0 as int, q.1 as int));
        }
        let count = self.cfg.world.monster_count;
        let mut j: usize = 0;
        while j < count
            invariant
                j <= count,
                count == g.cfg.world.monster_count,
                count <= ID_LIMIT,
                g.next_id <= ID_LIMIT,
                count > 0 ==> g.cfg.monsters@.len() > 0,
                self.map == g.map,
                self.cfg == g.cfg,
                self.tick == g.tick,
                self.accounts@ == g.accounts@,
                self.players@ == g.players@,
                self.ground_items@ == g.ground_items@,
                self.next_id == g.next_id + j,
                self.mons().len() == n + j,
                self.mons().subrange(0, n as int) == g.mons(),
                forall|i: int| 0 <= i < positions@.len() ==> spawn_ok(g.map, (#[trigger] positions@[i]).0 as int, positions@[i].1 as int),
                positions@.len() > 0,
                forall|k: int| 0 <= k < j ==> fresh_monster(g.cfg, g.map, #[trigger] self.mons()[n + k], (g.next_id + k + 1) as u64, false),
                g.wf(),
                mons_bounded(self.mons()),
                ids_unique(self.mons()),
                forall|i: int| 0 <= i < self.mons().len() ==> (#[trigger] self.mons()[i]).id <= self.next_id,
                self.monsters@.len() > 0 ==> self.cfg.monsters@.len() > 0,
            decreases count - j,
        {
            let t = range_usize(&mut self.rng, 0, self.cfg.monsters.len());
            let p = positions[range_usize(&mut self.rng, 0, positions.len())];
            let tid = copy_string(&self.cfg.monsters[t].id);
            proof { crate::config::lemma_find_key_at(self.cfg.monsters@, t as int); }
            let ghost before = self.mons();
            match self.spawn_monster_from_template(tid.as_str(), p.0, p.1) {
                Some(m) => {
                    let ghost mv = m@;
                    self.monsters.push(m);
                    proof {
                        let cur_m = self.mons();
                        assert(cur_m =~= before.push(mv));
                        assert(spawn_ok(g.map, p.0 as int, p.1 as int));
                        assert(fresh_monster(g.cfg, g.map, cur_m[n + j as int], (g.next_id + j + 1) as u64, false)) by {
                            assert(Pos { x: p.0, y: p.1 } == Pos { x: (p.0 as int) as i32, y: (p.1 as int) as i32 });
                        }
                        assert forall|k: int| 0 <= k < j + 1 implies fresh_monster(g.cfg, g.map, #[trigger] cur_m[n + k], (g.next_id + k + 1) as u64, false) by {
                            if k < j {
                                assert(cur_m[n + k] == before[n + k]);
                            }
                        }
                        assert(cur_m.subrange(0, n as int) =~= before.subrange(0, n as int));
                        assert forall|a: int, b: int| 0 <= a < b < cur_m.len() implies (#[trigger] cur_m[a]).id != (#[trigger] cur_m[b]).id by {
                            assert(cur_m[a] == before[a]);
                            if b < cur_m.len() - 1 {
                                assert(cur_m[b] == before[b]);
                            }
                        }
                        assert forall|a: int| 0 <= a < cur_m.len() implies (#[trigger] cur_m[a]).id <= self.next_id by {
                            if a < cur_m.len() - 1 {
                                assert(cur_m[a] == before[a]);
                            }
                        }
                        assert forall|a: int| 0 <= a < cur_m.len() implies (#[trigger] cur_m[a]).pos.bounded() && cur_m[a].home.bounded() by {
                            if a < cur_m.len() - 1 {
                                assert(cur_m[a] == before[a]);
                            }
                        }
                    }
                },
                None => {
                    proof { assert(false); }
                },
            }
            j += 1;
        }
    }

    /// The world at the server's start: a fresh map and the configured
    /// monsters on it (see `initial_monster_spawn`); nobody registered yet.
    pub fn new(cfg: GameConfig) -> (r: GameState)
        requires
            cfg.wf(),
            cfg.world.monster_count <= ID_LIMIT,
            cfg.world.monster_count > 0 ==> cfg.monsters@.len() > 0,
        ensures
            r.wf(),
            world_ok(r.map),
            r.map.name@ == "Voidlands"@,
            r.cfg == cfg,
            r.accounts@.len() == 0,
            r.players@.len() == 0,
            r.ground_items@.len() == 0,
            r.tick == 0,
            ({
                let count = if spawnable(r.map) { cfg.world.monster_count as int } else { 0 };
                r.next_id == count && populated(cfg, r.map, Seq::empty(), 0, count, false, r.mons())
            }),
    {
        let mut rng = rng_from_entropy();
        let map = generate(&mut rng);
        let mut g = GameState {
            accounts: Vec::new(),
            players: Vec::new(),
            monsters: Vec::new(),
            ground_items: Vec::new(),
            map,
            next_id: 0,
            cfg,
            tick: 0,
            rng,
        };
        assert(g.mons() =~= Seq::<MonsterView>::empty());
        assert(g.plist() =~= Seq::<PlayerView>::empty());
        g.initial_monster_spawn();
        g
    }

    /// A slain monster's successor of template `template_id` joins on a
    /// random spawn tile, with a fresh id; nothing happens without a spawn
    /// tile or for an unknown template.
    pub fn respawn_monster(&mut self, template_id: &str) -> (out: Vec<Outgoing>)
        requires
            old(self).wf(),
            old(self).next_id <= ID_LIMIT,
        ensures
            final(self).wf(),
            final(self).accounts@ == old(self).accounts@,
            final(self).players@ == old(self).players@,
            final(self).ground_items@ == old(self).ground_items@,
            final(self).map == old(self).map,
            final(self).cfg == old(self).cfg,
            final(self).tick == old(self).tick,
            match find_key(old(self).cfg.monsters@, template_id@) {
                Some(t) if spawnable(old(self).map) => {
                    let id = (old(self).next_id + 1) as u64;
                    let m = final(self).mons().last();
                    &&& final(self).next_id == id
                    &&& final(self).mons() == old(self).mons().push(m)
                    &&& exists|x: int, y: int| #[trigger] spawn_ok(old(self).map, x, y)
                        && m == old(self).cfg.monsters@[t].spec_spawn(id, old(self).cfg.monsters@[t].name, Pos { x: x as i32, y: y as i32 })
                    &&& outs_view(out@) == seq![OutView::All(MsgView::MonsterUpdate(m))]
                },
                _ => {
                    &&& final(self).next_id == old(self).next_id
                    &&& final(self).monsters@ == old(self).monsters@
                    &&& out@.len() == 0
                },
            },
    {
        let mut out: Vec<Outgoing> = Vec::new();
        let ghost g = *self;
        let positions = monster_spawn_positions(&self.map);
        if positions.len() == 0 {
            proof {
                assert(!spawnable(g.map)) by {
                    if spawnable(g.map) {
                        let (x, y) = choose|x: int, y: int| spawn_ok(g.map, x, y);
                        assert(spawn_ok(g.map, x, y));
                    }
                }
            }
            return out;
        }
        let p = positions[range_usize(&mut self.rng, 0, positions.len())];
        proof {
            assert(spawn_ok(g.map, p.0 as int, p.1 as int));
        }
        match self.spawn_monster_from_template(template_id, p.0, p.1) {
            Some(m) => {
                let copy = m.duplicate();
                let ghost before = self.mons();
                self.monsters.push(m);
                send(&mut out, Outgoing::All(ServerMsg::MonsterUpdate(copy)));
                proof {
                    let cur_m = self.mons();
                    assert(cur_m =~= before.push(copy@));
                    assert(Pos { x: p.0, y: p.1 } == Pos { x: (p.0 as int) as i32, y: (p.1 as int) as i32 });
                    assert(outs_view(out@) =~= seq![OutView::All(MsgView::MonsterUpdate(copy@))]);
                    assert forall|a: int, b: int| 0 <= a < b < cur_m.len() implies (#[trigger] cur_m[a]).id != (#[trigger] cur_m[b]).id by {
                        assert(cur_m[a] == before[a]);
                        if b < cur_m.len() - 1 {
                            assert(cur_m[b] == before[b]);
                        }
                    }
                    assert forall|a: int| 0 <= a < cur_m.len() implies (#[trigger] cur_m[a]).id <= self.next_id by {
                        if a < cur_m.len() - 1 {
                            assert(cur_m[a] == before[a]);
                        }
                    }
                    assert forall|a: int| 0 <= a < cur_m.len() implies (#[trigger] cur_m[a]).pos.bounded() && cur_m[a].home.bounded() by {
                        if a < cur_m.len() - 1 {
                            assert(cur_m[a] == before[a]);
                        }
                    }
                }
            },
            None => {},
        }
        out
    }
}

} // verus!
