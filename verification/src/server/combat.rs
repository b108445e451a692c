//! A player's attack on a monster, on the server.

use vstd::prelude::*;
use crate::arith::max_i32;
use crate::config::find_key;
use crate::engine::{class_of, find_monster, mon_index};
use crate::engine::loot::{drop_loot_into, loot_count, loot_ok};
use crate::entity::GroundItem;
use crate::entity::monster::MonsterView;
use crate::entity::player::PlayerView;
use crate::rules::{level_step, level_step_fits, level_step_fits_exec, apply_level_step, melee_damage, monster_ok,
    player_ok, lemma_player_ok_bounds, XP_LIMIT, ID_LIMIT};
use crate::text::{copy_string, decimal, push_decimal, push_str, str_eq};
use crate::world::Stats;
use crate::world::combat::{CombatEvent, CombatView};
use crate::protocol::ServerMsg;
use crate::engine::actions::roll_loot;
use super::{GameState, MsgView, OutView, Outgoing, Session, outs_view, send};
use super::session::{my_slot, same_world};

verus! {

pub open spec fn server_level_line(level: u32) -> Seq<char> {
    "*** LEVEL UP! You are now level "@ + decimal(level as nat) + "! +3 stat points ***"@
}

pub open spec fn crit_line(name: Seq<char>) -> Seq<char> {
    "CRITICAL HIT on "@ + name + "!"@
}

/// The session's character and the monster `tid` it can strike: the
/// character alive and next to the monster.
pub open spec fn server_target(g: GameState, s: Session, tid: u64) -> Option<(int, int)> {
    match my_slot(g, s) {
        Some(pi) => match mon_index(g.mons(), tid) {
            Some(mi) => if g.plist()[pi].stats.hp > 0 && g.plist()[pi].pos.spec_adjacent(g.mons()[mi].pos) {
                Some((pi, mi))
            } else {
                None
            },
            None => None,
        },
        None => None,
    }
}

/// The character after the experience of a kill: one level up where it
/// reaches the next threshold (and the numbers fit).
pub open spec fn rewarded(g: GameState, p: PlayerView, xp: u64) -> PlayerView {
    let p1 = PlayerView { xp: (p.xp + xp) as u64, ..p };
    let cls = class_of(g.cfg, p.class_id@);
    if p1.xp >= p1.xp_next && level_step_fits(p1, cls) { level_step(p1, cls) } else { p1 }
}

/// The outcome of the session's character attacking monster `tid`, with
/// `is_crit`, the loot rolls `drops` and the template `pick` of the monster
/// that respawns what the dice gave.
pub open spec fn server_attacked(
    g: GameState,
    s: Session,
    tid: u64,
    is_crit: bool,
    drops: Seq<bool>,
    pick: int,
    h: GameState,
    out: Seq<OutView>,
    respawn: Option<String>,
) -> bool {
    match server_target(g, s, tid) {
        None => same_world(h, g) && out.len() == 0 && respawn is None,
        Some((pi, mi)) => {
            let p = g.plist()[pi];
            let m = g.mons()[mi];
            let pid = p.id;
            let raw = if is_crit { 2 * p.spec_attack() } else { p.spec_attack() };
            let dmg = melee_damage(raw, m.stats.vit as int);
            let hp = m.stats.hp - dmg;
            let killed = hp <= 0;
            let combat = OutView::All(MsgView::Combat(CombatView { attacker: p.name@, target: m.name@, damage: dmg as i32, is_crit, killed }));
            let crit_out = if is_crit { seq![OutView::To(pid, MsgView::System(crit_line(m.name@)))] } else { Seq::empty() };
            &&& h.accounts@ == g.accounts@
            &&& h.map == g.map
            &&& h.cfg == g.cfg
            &&& h.tick == g.tick
            &&& if !killed {
                let m2 = MonsterView { stats: Stats { hp: hp as i32, ..m.stats }, ..m };
                &&& h.mons() == g.mons().update(mi, m2)
                &&& h.players@ == g.players@
                &&& h.ground_items@ == g.ground_items@
                &&& h.next_id == g.next_id
                &&& out == seq![combat, OutView::All(MsgView::MonsterUpdate(m2))] + crit_out
                &&& respawn is None
            } else {
                let n0 = g.ground_items@.len();
                let added = h.ground_items@.subrange(n0 as int, h.ground_items@.len() as int);
                let p2 = rewarded(g, p, m.xp_reward);
                let levelled = p2.level != p.level;
                let lvl_out = if levelled {
                    seq![
                        OutView::To(pid, MsgView::LevelUp { level: p2.level, stat_points: p2.stat_points }),
                        OutView::To(pid, MsgView::System(server_level_line(p2.level))),
                    ]
                } else {
                    Seq::empty()
                };
                &&& h.mons() == g.mons().remove(mi)
                &&& n0 <= h.ground_items@.len()
                &&& h.ground_items@.subrange(0, n0 as int) == g.ground_items@
                &&& loot_ok(g.cfg, "en"@, m.loot_table, drops, m.loot_table.len(), g.next_id, m.pos, added)
                &&& h.next_id == g.next_id + loot_count(g.cfg, m.loot_table, drops, m.loot_table.len())
                &&& h.plist() == g.plist().update(pi, p2)
                &&& out == seq![combat, OutView::All(MsgView::MonsterDied { id: m.id, xp: m.xp_reward })]
                    + added.map_values(|x: GroundItem| OutView::All(MsgView::ItemDropped(x)))
                    + lvl_out + seq![OutView::All(MsgView::PlayerUpdate(p2))] + crit_out
                &&& respawn == Some(g.cfg.monsters@[pick].id)
            }
        },
    }
}

impl GameState {
    /// The session's character attacks monster `target_id` (see
    /// `server_attacked`).
    pub fn attack_with(&mut self, sess: &Session, target_id: u64, is_crit: bool, drops: &Vec<bool>, pick: usize)
        -> (r: (Vec<Outgoing>, Option<String>))
        requires
            old(self).wf(),
            old(self).values_ok(),
            old(self).cfg.monsters@.len() > 0 ==> pick < old(self).cfg.monsters@.len(),
        ensures
            final(self).wf(),
            server_attacked(*old(self), *sess, target_id, is_crit, drops@, pick as int, *final(self), outs_view(r.0@), r.1),
    {
        let mut out: Vec<Outgoing> = Vec::new();
        let pi = match self.my_index(sess) {
            Some(i) => i,
            None => {
                return (out, None);
            },
        };
        let mi = match find_monster(&self.monsters, target_id) {
            Some(i) => i,
            None => {
                return (out, None);
            },
        };
        let ghost g = *self;
        assert(g.plist()[pi as int] == self.players@[pi as int]@);
        assert(g.mons()[mi as int] == self.monsters@[mi as int]@);
        if !(self.players[pi].stats.is_alive() && self.players[pi].pos.adjacent(self.monsters[mi].pos)) {
            return (out, None);
        }
        proof {
            assert(player_ok(g.plist()[pi as int]));
            lemma_player_ok_bounds(g.plist()[pi as int]);
            assert(monster_ok(g.mons()[mi as int]));
        }
        let pid = self.players[pi].id;
        let atk = self.players[pi].attack();
        let raw = if is_crit { atk * 2 } else { atk };
        let dmg = max_i32(raw - self.monsters[mi].stats.vit / 3, 1);
        let mname = copy_string(&self.monsters[mi].name);
        self.monsters[mi].stats.hp = self.monsters[mi].stats.hp - dmg;
        let killed = !self.monsters[mi].stats.is_alive();
        send(&mut out, Outgoing::All(ServerMsg::Combat(CombatEvent {
            attacker: copy_string(&self.players[pi].name),
            target: copy_string(&mname),
            damage: dmg,
            is_crit,
            killed,
        })));
        let ghost o0 = outs_view(out@);
        let mut respawn: Option<String> = None;
        if !killed {
            send(&mut out, Outgoing::All(ServerMsg::MonsterUpdate(self.monsters[mi].duplicate())));
            proof {
                assert(outs_view(out@) =~= seq![o0[0], outs_view(out@)[1]]);
                assert(self.mons() =~= g.mons().update(mi as int, self.monsters@[mi as int]@));
                assert forall|a: int, b: int| 0 <= a < b < self.mons().len() implies (#[trigger] self.mons()[a]).id != (#[trigger] self.mons()[b]).id by {
                    assert(g.mons()[a].id != g.mons()[b].id);
                }
                assert forall|a: int| 0 <= a < self.mons().len() implies (#[trigger] self.mons()[a]).id <= self.next_id by {
                    assert(g.mons()[a].id <= g.next_id);
                }
                assert forall|a: int| 0 <= a < self.mons().len() implies (#[trigger] self.mons()[a]).pos.bounded() && self.mons()[a].home.bounded() by {
                    assert(g.mons()[a].pos.bounded());
                }
            }
        } else {
            let m = self.monsters.remove(mi);
            proof {
                assert(self.mons() =~= g.mons().remove(mi as int));
                assert forall|a: int, b: int| 0 <= a < b < self.mons().len() implies (#[trigger] self.mons()[a]).id != (#[trigger] self.mons()[b]).id by {
                    let a0 = if a < mi { a } else { a + 1 };
                    let b0 = if b < mi { b } else { b + 1 };
                    assert(g.mons()[a0].id != g.mons()[b0].id);
                }
                assert forall|a: int| 0 <= a < self.mons().len() implies (#[trigger] self.mons()[a]).id <= g.next_id by {
                    let a0 = if a < mi { a } else { a + 1 };
                    assert(g.mons()[a0].id <= g.next_id);
                }
                assert forall|a: int| 0 <= a < self.mons().len() implies (#[trigger] self.mons()[a]).pos.bounded() && self.mons()[a].home.bounded() by {
                    let a0 = if a < mi { a } else { a + 1 };
                    assert(g.mons()[a0].pos.bounded());
                }
            }
            send(&mut out, Outgoing::All(ServerMsg::MonsterDied { id: m.id, xp: m.xp_reward }));
            let ghost o1 = outs_view(out@);
            assert(o1 =~= seq![o1[0], o1[1]]);
            let added = drop_loot_into(&self.cfg, "en", &m.loot_table, drops, m.pos, &mut self.next_id, &mut self.ground_items);
            let mut k: usize = 0;
            while k < added.len()
                invariant
                    k <= added@.len(),
                    outs_view(out@) == o1 + added@.subrange(0, k as int).map_values(|x: GroundItem| OutView::All(MsgView::ItemDropped(x))),
                decreases added.len() - k,
            {
                send(&mut out, Outgoing::All(ServerMsg::ItemDropped(added[k].duplicate())));
                assert(added@.subrange(0, k + 1) =~= added@.subrange(0, k as int).push(added@[k as int]));
                assert(outs_view(out@) =~= o1 + added@.subrange(0, k + 1).map_values(|x: GroundItem| OutView::All(MsgView::ItemDropped(x))));
                k += 1;
            }
            assert(added@.subrange(0, added@.len() as int) =~= added@);
            assert(self.ground_items@.subrange(g.ground_items@.len() as int, self.ground_items@.len() as int) =~= added@);
            assert(self.ground_items@.subrange(0, g.ground_items@.len() as int) =~= g.ground_items@);
            let ghost o2 = outs_view(out@);
            self.players[pi].xp = self.players[pi].xp + m.xp_reward;
            let ghost p1 = self.players@[pi as int]@;
            let cls = self.cfg.class(self.players[pi].class_id.as_str());
            let ghost cls_v = class_of(g.cfg, g.plist()[pi as int].class_id@);
            assert(match cls { Some(c) => Some(*c), None => None } == cls_v);
            assert(p1 =~= PlayerView { xp: (g.plist()[pi as int].xp + m.xp_reward) as u64, ..g.plist()[pi as int] });
            if self.players[pi].xp >= self.players[pi].xp_next && level_step_fits_exec(&self.players[pi], cls) {
                apply_level_step(&mut self.players[pi], cls);
                assert(self.players@[pi as int]@.level == p1.level + 1);
                let level = self.players[pi].level;
                let points = self.players[pi].stat_points;
                send(&mut out, Outgoing::To(pid, ServerMsg::LevelUp { level, stat_points: points }));
                let mut line = String::from_str("*** LEVEL UP! You are now level ");
                push_decimal(&mut line, level as u64);
                push_str(&mut line, "! +3 stat points ***");
                send(&mut out, Outgoing::To(pid, ServerMsg::System(line)));
            }
            let ghost o3 = outs_view(out@);
            assert(self.players@[pi as int]@ == rewarded(g, g.plist()[pi as int], m.xp_reward));
            send(&mut out, Outgoing::All(ServerMsg::PlayerUpdate(self.players[pi].duplicate())));
            proof {
                let p2 = rewarded(g, g.plist()[pi as int], m.xp_reward);
                let lvl_out = if p2.level != g.plist()[pi as int].level {
                    seq![
                        OutView::To(pid, MsgView::LevelUp { level: p2.level, stat_points: p2.stat_points }),
                        OutView::To(pid, MsgView::System(server_level_line(p2.level))),
                    ]
                } else {
                    Seq::empty()
                };
                assert(o3 =~= o2 + lvl_out);
                assert(outs_view(out@) =~= seq![o1[0], o1[1]]
                    + added@.map_values(|x: GroundItem| OutView::All(MsgView::ItemDropped(x)))
                    + lvl_out + seq![OutView::All(MsgView::PlayerUpdate(p2))]);
            }
            let t = &self.cfg.monsters[pick];
            respawn = Some(copy_string(&t.id));
            proof {
                assert(self.plist() =~= g.plist().update(pi as int, self.players@[pi as int]@));
                assert forall|a: int, b: int| 0 <= a < b < self.plist().len() implies (#[trigger] self.plist()[a]).id != (#[trigger] self.plist()[b]).id by {
                    assert(g.plist()[a].id != g.plist()[b].id);
                }
                assert forall|a: int| 0 <= a < self.plist().len() implies (#[trigger] self.plist()[a]).pos.bounded() by {
                    assert(g.plist()[a].pos.bounded());
                }
                assert forall|a: int| 0 <= a < self.mons().len() implies (#[trigger] self.mons()[a]).id <= self.next_id by {
                    assert(self.mons()[a].id <= g.next_id);
                }
            }
        }
        let ghost before_crit = outs_view(out@);
        if is_crit {
            let mut line = String::from_str("CRITICAL HIT on ");
            push_str(&mut line, mname.as_str());
            push_str(&mut line, "!");
            send(&mut out, Outgoing::To(pid, ServerMsg::System(line)));
            assert(outs_view(out@) =~= before_crit + seq![OutView::To(pid, MsgView::System(crit_line(mname@)))]);
        } else {
            assert(outs_view(out@) =~= before_crit + Seq::<OutView>::empty());
        }
        (out, respawn)
    }
}

} // verus!
