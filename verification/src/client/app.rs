//! The client beyond its network connection: the screens' state, the
//! single-player game it may be running, and what the front end draws.

use vstd::prelude::*;
use crate::config::{GameConfig, Keyed, find_key, keys_unique};
use crate::rules::ID_LIMIT;
use crate::engine::setup::{fresh_game, zone_game};
use crate::engine::{LocalGame, ids_unique, mon_index};
use crate::engine::ai::ticked;
use crate::engine::actions::{attacked, drop_outcome, equip_outcome, lemma_attacked_ignores_rng, monster_blocks, move_outcome, pickup_outcome, step_target, use_outcome};
use crate::engine::events::{SpEvent, SpEventView, events_view};
use crate::entity::{ClassDef, GroundItem, Monster, Player};
use crate::entity::class::{ClassView, classes_view, copy_classes};
use vstd::multiset::Multiset;
use crate::entity::monster::{MonsterView, mons_view};
use crate::entity::player::PlayerView;
use crate::mapgen::MapStyle;
use crate::protocol::{ClientMsg, ClientMsgView};
use crate::server::{copy_monsters, find_player, insert_player, player_slot, players_view, put_player};
use crate::text::{first_char, chars_before, lemma_chars_before_irreflexive, lemma_chars_before_total, lemma_chars_before_transitive, str_before, copy_string, decimal, decimal_int, push_decimal, push_decimal_i64, push_str, str_eq};
use crate::world::{GameMap, Pos};
use crate::world::pos::abs_int;
use crate::entity::Item;
use crate::entity::item::Equipment;
use crate::entity::item::spec_localized;
use vstd::utf8::encode_utf8;
use crate::world::combat::CombatView;
use crate::entity::item::copy_ground_items;
use super::bridge::{Cmd, CmdKind, CmdView, EntityInfo, HudData, MapInfo, Payload, PayloadView, no_cmd, none_cmd};
use super::keys::{error_cleared, first_of, key_step};
use super::json::{inventory_json, items_json, lines_json, monsters_json, nearby_json, strings_json};
use super::state::{
    ClientView, GameState, Screen, client_ok, initial_client, combat_line, insert_monster, items_without, level_line, logged,
    put_monster, put_players, spec_zone_style, without_monster, xp_line, zone_style_at, ZONE_STYLES_LEN,
    LoginMode, spec_color, spec_symbol, color_at, symbol_at, strings_view,
};

verus! {

/// The RGB bytes of a named game color.
pub open spec fn spec_named_color(name: Seq<char>) -> (u8, u8, u8) {
    if name == "white"@ { (220, 220, 220) }
    else if name == "red"@ { (220, 60, 60) }
    else if name == "green"@ { (60, 200, 60) }
    else if name == "blue"@ { (60, 100, 220) }
    else if name == "yellow"@ { (220, 200, 60) }
    else if name == "cyan"@ { (60, 200, 200) }
    else if name == "magenta"@ { (180, 60, 180) }
    else if name == "gray"@ { (140, 140, 140) }
    else if name == "orange"@ { (220, 140, 40) }
    else if name == "purple"@ { (140, 40, 200) }
    else { (180, 180, 180) }
}

/// Maps a named game color to RGB bytes; unknown names are light gray.
pub fn named_color(name: &str) -> (r: (u8, u8, u8))
    ensures
        r == spec_named_color(name@),
{
    if str_eq(name, "white") { (220, 220, 220) }
    else if str_eq(name, "red") { (220, 60, 60) }
    else if str_eq(name, "green") { (60, 200, 60) }
    else if str_eq(name, "blue") { (60, 100, 220) }
    else if str_eq(name, "yellow") { (220, 200, 60) }
    else if str_eq(name, "cyan") { (60, 200, 200) }
    else if str_eq(name, "magenta") { (180, 60, 180) }
    else if str_eq(name, "gray") { (140, 140, 140) }
    else if str_eq(name, "orange") { (220, 140, 40) }
    else if str_eq(name, "purple") { (140, 40, 200) }
    else { (180, 180, 180) }
}

/// The classes in strictly increasing order of id.
pub open spec fn sorted_by_id(cs: Seq<ClassView>) -> bool {
    forall|i: int, j: int| 0 <= i < j < cs.len() ==> chars_before((#[trigger] cs[i]).id@, (#[trigger] cs[j]).id@)
}

/// The classes sorted by id.
pub fn sorted_classes(v: &Vec<ClassDef>) -> (r: Vec<ClassDef>)
    requires
        keys_unique(v@),
    ensures
        classes_view(r@).to_multiset() == classes_view(v@).to_multiset(),
        sorted_by_id(classes_view(r@)),
{
    broadcast use vstd::seq_lib::group_to_multiset_ensures;
    let mut rem = copy_classes(v);
    let mut out: Vec<ClassDef> = Vec::new();
    assert(classes_view(out@) =~= Seq::<ClassView>::empty());
    assert(classes_view(out@).to_multiset() =~= Multiset::<ClassView>::empty());
    assert forall|a: int, b: int| 0 <= a < b < rem@.len() implies (#[trigger] rem@[a]).id@ != (#[trigger] rem@[b]).id@ by {
        assert(classes_view(rem@).len() == rem@.len());
        assert(classes_view(v@).len() == v@.len());
        assert(classes_view(rem@)[a] == classes_view(v@)[a]);
        assert(classes_view(rem@)[b] == classes_view(v@)[b]);
        assert(v@[a].key_view() != v@[b].key_view());
    }
    while rem.len() > 0
        invariant
            classes_view(out@).to_multiset().add(classes_view(rem@).to_multiset()) == classes_view(v@).to_multiset(),
            forall|a: int, b: int| 0 <= a < b < out@.len() ==> chars_before((#[trigger] out@[a]).id@, (#[trigger] out@[b]).id@),
            forall|a: int, b: int| 0 <= a < out@.len() && 0 <= b < rem@.len() ==> chars_before((#[trigger] out@[a]).id@, (#[trigger] rem@[b]).id@),
            forall|a: int, b: int| 0 <= a < b < rem@.len() ==> (#[trigger] rem@[a]).id@ != (#[trigger] rem@[b]).id@,
        decreases rem.len(),
    {
        let mut best: usize = 0;
        let mut j: usize = 1;
        while j < rem.len()
            invariant
                best < j <= rem@.len(),
                forall|k: int| 0 <= k < j ==> !chars_before((#[trigger] rem@[k]).id@, rem@[best as int].id@),
            decreases rem.len() - j,
        {
            proof { lemma_chars_before_irreflexive(rem@[best as int].id@); }
            if str_before(rem[j].id.as_str(), rem[best].id.as_str()) {
                proof {
                    assert forall|k: int| 0 <= k < j + 1 implies !chars_before((#[trigger] rem@[k]).id@, rem@[j as int].id@) by {
                        if k < j && chars_before(rem@[k].id@, rem@[j as int].id@) {
                            lemma_chars_before_transitive(rem@[k].id@, rem@[j as int].id@, rem@[best as int].id@);
                        }
                        if k == j {
                            lemma_chars_before_irreflexive(rem@[j as int].id@);
                        }
                    }
                }
                best = j;
            }
            j += 1;
        }
        let ghost r0 = rem@;
        let ghost o0 = out@;
        let x = rem.remove(best);
        proof {
            assert forall|b: int| 0 <= b < rem@.len() implies chars_before(x.id@, (#[trigger] rem@[b]).id@) by {
                let k = if b < best { b } else { b + 1 };
                assert(rem@[b] == r0[k]);
                assert(r0[k].id@ != r0[best as int].id@);
                lemma_chars_before_total(x.id@, rem@[b].id@);
            }
            assert(classes_view(rem@) =~= classes_view(r0).remove(best as int));
        }
        out.push(x);
        proof {
            assert(classes_view(out@) =~= classes_view(o0).push(x@));
            let ov = classes_view(o0);
            let rv = classes_view(r0);
            assert(rv[best as int] == x@);
            vstd::seq_lib::to_multiset_build(ov, x@);
            vstd::seq_lib::to_multiset_remove(rv, best as int);
            vstd::seq_lib::to_multiset_contains(rv, x@);
            assert(rv.contains(x@)) by { assert(rv[best as int] == x@); }
            assert(rv.to_multiset().count(x@) > 0);
            assert(ov.to_multiset().insert(x@).add(rv.to_multiset().remove(x@)) =~= ov.to_multiset().add(rv.to_multiset()));
            assert forall|a: int, b: int| 0 <= a < out@.len() && 0 <= b < rem@.len() implies chars_before((#[trigger] out@[a]).id@, (#[trigger] rem@[b]).id@) by {
                if a < o0.len() {
                    let k = if b < best { b } else { b + 1 };
                    assert(rem@[b] == r0[k]);
                    assert(out@[a] == o0[a]);
                }
            }
            assert forall|a: int, b: int| 0 <= a < b < out@.len() implies chars_before((#[trigger] out@[a]).id@, (#[trigger] out@[b]).id@) by {
                if b < o0.len() {
                    assert(out@[a] == o0[a]);
                    assert(out@[b] == o0[b]);
                } else {
                    assert(out@[a] == o0[a]);
                    assert(r0[best as int] == x);
                }
            }
            assert forall|a: int, b: int| 0 <= a < b < rem@.len() implies (#[trigger] rem@[a]).id@ != (#[trigger] rem@[b]).id@ by {
                let ka = if a < best { a } else { a + 1 };
                let kb = if b < best { b } else { b + 1 };
                assert(rem@[a] == r0[ka]);
                assert(rem@[b] == r0[kb]);
            }
        }
    }
    proof {
        assert(classes_view(rem@) =~= Seq::<ClassView>::empty());
        assert(classes_view(rem@).to_multiset() =~= Multiset::<ClassView>::empty());
        assert(classes_view(out@).to_multiset().add(Multiset::<ClassView>::empty()) =~= classes_view(out@).to_multiset());
        assert forall|i: int, j: int| 0 <= i < j < classes_view(out@).len() implies
            chars_before((#[trigger] classes_view(out@)[i]).id@, (#[trigger] classes_view(out@)[j]).id@) by {
            assert(out@[i].id@ == classes_view(out@)[i].id@);
            assert(out@[j].id@ == classes_view(out@)[j].id@);
        }
    }
    out
}

/// The client without its connection.
pub struct GameApp {
    pub state: GameState,
    pub view_w: i32,
    pub view_h: i32,
    pub local_game: Option<LocalGame>,
    pub sp_ai_timer: u32,
}

/// The client's picture after single-player event `e`.
pub open spec fn event_step(s: ClientView, e: SpEventView) -> ClientView {
    match e {
        SpEventView::UpdatePlayer(p) => ClientView { my_id: p.id, players: put_player(s.players, p), ..s },
        SpEventView::MonsterUpdate(m) => ClientView { monsters: put_monster(s.monsters, m), ..s },
        SpEventView::MonsterDied { id, xp } => ClientView {
            monsters: without_monster(s.monsters, id),
            log: if xp > 0 { logged(s.log, xp_line(xp)) } else { s.log },
            ..s
        },
        SpEventView::ItemDropped(g) => ClientView { ground_items: s.ground_items.push(g), ..s },
        SpEventView::ItemPickedUp { item_id } => ClientView { ground_items: items_without(s.ground_items, item_id), ..s },
        SpEventView::LevelUp { level, stat_points } => ClientView { log: logged(s.log, level_line(level, stat_points)), ..s },
        SpEventView::Log(msg, _c) => ClientView { log: logged(s.log, msg), ..s },
        SpEventView::Combat(c) => ClientView { log: logged(s.log, combat_line(c)), ..s },
    }
}

/// The client's picture after the events in order.
pub open spec fn events_step(s: ClientView, ev: Seq<SpEventView>) -> ClientView
    decreases ev.len(),
{
    if ev.len() == 0 { s } else { event_step(events_step(s, ev.drop_last()), ev.last()) }
}

/// The last player update among the events whose position is in the
/// coordinate range, if any.
pub open spec fn last_player_update(ev: Seq<SpEventView>) -> Option<PlayerView>
    decreases ev.len(),
{
    if ev.len() == 0 {
        None
    } else {
        match ev.last() {
            SpEventView::UpdatePlayer(p) => if p.pos.bounded() { Some(p) } else { last_player_update(ev.drop_last()) },
            _ => last_player_update(ev.drop_last()),
        }
    }
}

/// A player update the client passes on to its game is in the coordinate range.
pub proof fn lemma_last_update_bounded(ev: Seq<SpEventView>)
    ensures
        last_player_update(ev) matches Some(p) ==> p.pos.bounded(),
    decreases ev.len(),
{
    if ev.len() > 0 {
        lemma_last_update_bounded(ev.drop_last());
    }
}

/// `b` is game `a` with its player following the last player update among
/// the events that the client passes on.
pub open spec fn synced(a: LocalGame, b: LocalGame, ev: Seq<SpEventView>) -> bool {
    &&& b.same_but_player(a)
    &&& match last_player_update(ev) {
        Some(p) => b.player@ == p,
        None => b.player@ == a.player@,
    }
}

/// The first living monster standing at `p`, if any.
pub open spec fn living_at(s: Seq<MonsterView>, p: Pos) -> Option<int>
    decreases s.len(),
{
    if s.len() == 0 {
        None
    } else {
        match living_at(s.drop_last(), p) {
            Some(i) => Some(i),
            None => if s.last().pos == p && s.last().stats.hp > 0 { Some(s.len() - 1) } else { None },
        }
    }
}

/// The monster `living_at` finds is alive and stands there.
pub proof fn lemma_living_at(s: Seq<MonsterView>, p: Pos)
    ensures
        living_at(s, p) matches Some(i) ==> 0 <= i < s.len() && s[i].pos == p && s[i].stats.hp > 0,
    decreases s.len(),
{
    if s.len() > 0 {
        lemma_living_at(s.drop_last(), p);
    }
}

proof fn lemma_living_at_prefix(s: Seq<MonsterView>, p: Pos, n: int)
    requires
        0 <= n <= s.len(),
        living_at(s.subrange(0, n), p) is Some,
    ensures
        living_at(s, p) == living_at(s.subrange(0, n), p),
    decreases s.len(),
{
    if n < s.len() {
        assert(s.drop_last().subrange(0, n) =~= s.subrange(0, n));
        lemma_living_at_prefix(s.drop_last(), p, n);
    } else {
        assert(s.subrange(0, n) =~= s);
    }
}

/// The position of the first living monster standing at `p`.
pub fn find_living_at(v: &Vec<Monster>, p: Pos) -> (r: Option<usize>)
    ensures
        match r {
            Some(i) => living_at(mons_view(v@), p) == Some(i as int) && i < v@.len(),
            None => living_at(mons_view(v@), p) is None,
        },
{
    proof { lemma_living_at(mons_view(v@), p); }
    let ghost s = mons_view(v@);
    let mut i: usize = 0;
    assert(s.subrange(0, 0) =~= Seq::<MonsterView>::empty());
    while i < v.len()
        invariant
            i <= v@.len(),
            s == mons_view(v@),
            living_at(s.subrange(0, i as int), p) is None,
        decreases v.len() - i,
    {
        assert(s.subrange(0, i + 1).drop_last() =~= s.subrange(0, i as int));
        assert(s[i as int] == v@[i as int]@);
        if v[i].pos == p && v[i].stats.hp > 0 {
            proof {
                assert(s.subrange(0, i + 1).last() == s[i as int]);
                lemma_living_at_prefix(s, p, i + 1);
            }
            return Some(i);
        }
        i += 1;
    }
    assert(s.subrange(0, s.len() as int) =~= s);
    None
}

/// Whether the player can step onto `np`: alive, the tile passable and no
/// living monster on it.
pub open spec fn walkable(g: LocalGame, np: Pos) -> bool {
    g.player.stats.hp > 0 && g.map.spec_passable(np.x as int, np.y as int) && !monster_blocks(g.mons(), np)
}

/// Whether a step of `(dx, dy)` stays within `i32` coordinates.
pub open spec fn step_fits(g: LocalGame, dx: i32, dy: i32) -> bool {
    &&& i32::MIN <= g.player.pos.x + dx <= i32::MAX
    &&& i32::MIN <= g.player.pos.y + dy <= i32::MAX
}

/// Nothing happens but, perhaps, to the random generator.
pub open spec fn idle(g: LocalGame, h: LocalGame, ev: Seq<SpEventView>) -> bool {
    h.same_as(g) && ev.len() == 0
}

/// The outcome of a request in the single-player game: a step (a step that
/// does not go through attacks a living monster standing there), picking up,
/// equipping, drinking or dropping an item. A step whose coordinates leave
/// `i32`, a drink or an attack in a game whose numbers left their range, and
/// any other request do nothing.
pub open spec fn sp_action(g: LocalGame, m: ClientMsgView, h: LocalGame, ev: Seq<SpEventView>) -> bool {
    match m {
        ClientMsgView::Move { dx, dy } => {
            let np = step_target(g, dx, dy);
            if !step_fits(g, dx, dy) {
                idle(g, h, ev)
            } else if walkable(g, np) {
                move_outcome(g, dx, dy, h, ev)
            } else {
                match living_at(g.mons(), np) {
                    Some(i) if g.values_ok() => exists|c: bool, d: Seq<bool>| #[trigger] attacked(g, g.mons()[i].id, c, d, h, ev),
                    _ => idle(g, h, ev),
                }
            }
        },
        ClientMsgView::Pickup => pickup_outcome(g, h, ev),
        ClientMsgView::Equip { item_id } => equip_outcome(g, item_id, h, ev),
        ClientMsgView::UseItem { item_id } => if g.values_ok() { use_outcome(g, item_id, h, ev) } else { idle(g, h, ev) },
        ClientMsgView::DropItem { item_id } => drop_outcome(g, item_id, h, ev),
        _ => idle(g, h, ev),
    }
}

/// Bumping into a monster attacks it: when the living player steps one
/// tile (a step that fits in `i32`) onto a tile where a living monster
/// stands, and the game numbers are in range, the outcome is that
/// monster's being attacked (for some roll of the dice), not a move.
pub proof fn lemma_bump_attack(g: LocalGame, dx: i32, dy: i32, h: LocalGame, ev: Seq<SpEventView>)
    requires
        sp_action(g, ClientMsgView::Move { dx, dy }, h, ev),
        step_fits(g, dx, dy),
        g.wf(),
        g.values_ok(),
        living_at(g.mons(), step_target(g, dx, dy)) is Some,
    ensures
        ({
            let i = living_at(g.mons(), step_target(g, dx, dy))->0;
            &&& 0 <= i < g.mons().len()
            &&& g.mons()[i].pos == step_target(g, dx, dy)
            &&& g.mons()[i].stats.hp > 0
            &&& exists|c: bool, d: Seq<bool>| #[trigger] attacked(g, g.mons()[i].id, c, d, h, ev)
            &&& -1 <= dx <= 1 && -1 <= dy <= 1 ==> crate::engine::actions::attack_target(g, g.mons()[i].id) == Some(i)
        }),
{
    let np = step_target(g, dx, dy);
    lemma_living_at(g.mons(), np);
    let i = living_at(g.mons(), np)->0;
    let id = g.mons()[i].id;
    let ms = g.mons();
    assert(forall|j: int| 0 <= j < i ==> (#[trigger] ms[j]).id != id) by {
        assert forall|j: int| 0 <= j < i implies (#[trigger] ms[j]).id != id by {
            assert(ids_unique(ms));
        }
    }
    assert(exists|i2: int| 0 <= i2 < ms.len() && (#[trigger] ms[i2]).id == id
        && forall|j: int| 0 <= j < i2 ==> (#[trigger] ms[j]).id != id);
    let k = choose|k: int| 0 <= k < ms.len() && (#[trigger] ms[k]).id == id
        && forall|j: int| 0 <= j < k ==> (#[trigger] ms[j]).id != id;
    if k < i {
        assert(ms[k].id != id);
    }
    if i < k {
        assert(ms[i].id != id);
    }
    reveal(mon_index);
    assert(mon_index(g.mons(), id) == Some(i));
    assert(monster_blocks(g.mons(), np));
    assert(!walkable(g, np));
}

/// Carries out a request in the single-player game (see `sp_action`).
pub fn sp_perform(lg: &mut LocalGame, m: ClientMsg) -> (events: Vec<SpEvent>)
    requires
        old(lg).wf(),
    ensures
        final(lg).wf(),
        final(lg).cfg == old(lg).cfg,
        sp_action(*old(lg), m@, *final(lg), events_view(events@)),
{
    let ghost g = *lg;
    match m {
        ClientMsg::Move { dx, dy } => {
            let x: i64 = lg.player.pos.x as i64 + dx as i64;
            let y: i64 = lg.player.pos.y as i64 + dy as i64;
            if x < i32::MIN as i64 || x > i32::MAX as i64 || y < i32::MIN as i64 || y > i32::MAX as i64 {
                return Vec::new();
            }
            let evs = lg.move_player(dx, dy);
            if evs.len() > 0 {
                return evs;
            }
            let ghost g1 = *lg;
            assert(events_view(evs@).len() == 0);
            assert(!walkable(g, step_target(g, dx, dy)));
            let dest = Pos::new(lg.player.pos.x + dx, lg.player.pos.y + dy);
            assert(dest == step_target(g, dx, dy));
            assert(g1.mons() == g.mons());
            match find_living_at(&lg.monsters, dest) {
                Some(i) => {
                    if lg.check_values() {
                        let id = lg.monsters[i].id;
                        assert(id == g.mons()[i as int].id);
                        let evs = lg.attack(id);
                        proof {
                            let (c, d) = choose|c: bool, d: Seq<bool>| #[trigger] attacked(g1, id, c, d, *lg, events_view(evs@));
                            lemma_attacked_ignores_rng(g, g1, id, c, d, *lg, events_view(evs@));
                            assert(living_at(g.mons(), step_target(g, dx, dy)) == Some(i as int));
                            assert(attacked(g, g.mons()[i as int].id, c, d, *lg, events_view(evs@)));
                        }
                        evs
                    } else {
                        Vec::new()
                    }
                },
                None => Vec::new(),
            }
        },
        ClientMsg::Pickup => lg.pickup(),
        ClientMsg::Equip { item_id } => lg.equip_item(item_id),
        ClientMsg::UseItem { item_id } => {
            if lg.check_values() {
                lg.use_item(item_id)
            } else {
                Vec::new()
            }
        },
        ClientMsg::DropItem { item_id } => lg.drop_item(item_id),
        _ => Vec::new(),
    }
}

/// A single-player game the client can run: well formed, with a monster
/// template to draw from whenever monsters are to be kept up.
pub open spec fn game_ok(g: LocalGame) -> bool {
    &&& g.wf()
    &&& (g.cfg.monsters@.len() > 0 || g.cfg.world.monster_count == 0)
}

/// Passing events on keeps a game runnable.
pub proof fn lemma_synced_ok(a: LocalGame, b: LocalGame, ev: Seq<SpEventView>)
    requires
        game_ok(a),
        synced(a, b, ev),
    ensures
        game_ok(b),
{
    lemma_last_update_bounded(ev);
    assert(b.mons() == a.mons());
}

/// Whether a game can take a tick: its numbers in range and its tick count
/// below the limit.
pub open spec fn can_tick(g: LocalGame) -> bool {
    g.values_ok() && g.tick < u64::MAX
}

/// The client after one frame: the animation counter advances, a timed-out
/// error goes, and every second frame the single-player game takes a tick
/// whose events the client takes in.
pub open spec fn framed_step(c: GameApp, d: GameApp) -> bool {
    let s2 = error_cleared(ClientView { anim_tick: (c.state.anim_tick + 1) as u64, ..c.state@ });
    &&& d.view_w == c.view_w
    &&& d.view_h == c.view_h
    &&& match c.local_game {
        None => d.state@ == s2 && d.local_game is None && d.sp_ai_timer == c.sp_ai_timer,
        Some(g) => if c.sp_ai_timer + 1 < 2 {
            d.state@ == s2 && d.local_game == c.local_game && d.sp_ai_timer == c.sp_ai_timer + 1
        } else if can_tick(g) {
            &&& d.sp_ai_timer == 0
            &&& d.local_game is Some
            &&& exists|h: LocalGame, ev: Seq<SpEventView>| #[trigger] ticked(g, h, ev)
                && d.state@ == events_step(s2, ev) && synced(h, d.local_game.unwrap(), ev)
        } else {
            d.state@ == s2 && d.local_game == c.local_game && d.sp_ai_timer == 0
        },
    }
}

/// Whether a configuration can populate a single-player game: ids in range,
/// and a monster template whenever monsters are wanted.
pub open spec fn startable(cfg: GameConfig) -> bool {
    &&& cfg.world.monster_count <= ID_LIMIT
    &&& (cfg.world.monster_count == 0 || cfg.monsters@.len() > 0)
}

/// The symbol a character gets: the first character chosen, '@' if none.
pub open spec fn symbol_of(t: Seq<char>) -> char {
    match first_of(t) {
        Some(c) => c,
        None => '@',
    }
}

pub open spec fn sp_welcome_line(name: Seq<char>) -> Seq<char> {
    "Singleplayer started — welcome, "@ + name + "!"@
}

/// The client showing game `g` as its world, with `g`'s player alone in it.
pub open spec fn showing(s: ClientView, g: LocalGame) -> ClientView {
    ClientView {
        world: g.map@,
        players: seq![g.player@],
        monsters: g.mons(),
        ground_items: g.ground_items@,
        ..s
    }
}

/// The zone style at place `i` of the zone cycle.
pub open spec fn zone_style_of(i: int) -> MapStyle {
    if i == 0 { MapStyle::Wilderness }
    else if i == 1 { MapStyle::Dungeon }
    else if i == 2 { MapStyle::Desert }
    else if i == 3 { MapStyle::Forest }
    else if i == 4 { MapStyle::Swamp }
    else { MapStyle::Town }
}

fn zone_style_exec(i: usize) -> (r: MapStyle)
    ensures
        r == zone_style_of(i as int),
{
    if i == 0 { MapStyle::Wilderness }
    else if i == 1 { MapStyle::Dungeon }
    else if i == 2 { MapStyle::Desert }
    else if i == 3 { MapStyle::Forest }
    else if i == 4 { MapStyle::Swamp }
    else { MapStyle::Town }
}

pub open spec fn entered_line(i: int) -> Seq<char> {
    "Entered "@ + spec_zone_style(i) + "."@
}

/// The client after travelling to the next zone of the cycle: the game moves
/// there with its player and configuration; without monster templates to
/// fill the zone, travel fails with a note.
pub open spec fn zone_travelled(c: GameApp, d: GameApp) -> bool {
    let s = c.state@;
    let g = c.local_game.unwrap();
    let i = (s.zone_idx + 1) % (ZONE_STYLES_LEN as int);
    &&& d.sp_ai_timer == c.sp_ai_timer
    &&& d.view_w == c.view_w
    &&& d.view_h == c.view_h
    &&& if g.cfg.monsters@.len() > 0 {
        &&& d.local_game is Some
        &&& zone_game(g.player, zone_style_of(i), g.cfg, d.local_game.unwrap())
        &&& d.state@ == (ClientView {
            zone_idx: i as usize,
            log: logged(s.log, entered_line(i)),
            ..showing(s, d.local_game.unwrap())
        })
    } else {
        &&& d.local_game == c.local_game
        &&& d.state@ == (ClientView { zone_idx: i as usize, log: logged(s.log, "Zone travel failed."@), ..s })
    }
}

/// The client after a request in its single-player game: chat is refused
/// with a note, zone travel goes to the next zone, the requests of
/// `sp_action` are carried out and their events taken in, and anything else
/// does nothing.
pub open spec fn sp_dispatched(c: GameApp, p: PayloadView, d: GameApp) -> bool {
    let s = c.state@;
    let g = c.local_game.unwrap();
    match p {
        PayloadView::Msg(ClientMsgView::Chat { .. }) => {
            &&& d.state@ == (ClientView { log: logged(s.log, "(Chat is multiplayer only.)"@), ..s })
            &&& d.local_game == c.local_game
            &&& d.sp_ai_timer == c.sp_ai_timer
        },
        PayloadView::Msg(m) => {
            &&& d.sp_ai_timer == c.sp_ai_timer
            &&& d.local_game is Some
            &&& exists|h: LocalGame, ev: Seq<SpEventView>| #[trigger] sp_action(g, m, h, ev)
                && d.state@ == events_step(s, ev) && synced(h, d.local_game.unwrap(), ev)
        },
        PayloadView::ZoneTravel => zone_travelled(c, d),
        _ => d.state@ == s && d.local_game == c.local_game && d.sp_ai_timer == c.sp_ai_timer,
    }
}

/// The client after a key press, and what is left for the front end and the
/// network to do: the command of `key_step`, with a request carried out in
/// the single-player game when there is one (and nothing left then), the
/// single-player game ended on disconnect or quit, and the main menu shown
/// on disconnect.
pub open spec fn key_pressed(c: GameApp, k: i32, t: Seq<char>, d: GameApp, r: CmdView) -> bool {
    let (s1, cmd) = key_step(c.state@, k, t);
    let c1 = GameApp { state: d.state, ..c };
    &&& d.view_w == c.view_w
    &&& d.view_h == c.view_h
    &&& match cmd.kind {
        CmdKind::SendMsg => if c.local_game is Some {
            &&& r == no_cmd()
            &&& exists|e: GameApp| #[trigger] e.state@ == s1 && e.local_game == c.local_game
                && e.sp_ai_timer == c.sp_ai_timer && e.view_w == c.view_w && e.view_h == c.view_h
                && sp_dispatched(e, cmd.payload, d)
        } else {
            r == cmd && d.state@ == s1 && d.local_game is None && d.sp_ai_timer == c.sp_ai_timer
        },
        CmdKind::Disconnect => {
            &&& r == cmd
            &&& d.state@ == (ClientView { screen: Screen::MainMenu, ..s1 })
            &&& d.local_game is None
            &&& d.sp_ai_timer == c.sp_ai_timer
        },
        CmdKind::Quit => r == cmd && d.state@ == s1 && d.local_game is None && d.sp_ai_timer == c.sp_ai_timer,
        _ => r == cmd && d.state@ == s1 && d.local_game == c.local_game && d.sp_ai_timer == c.sp_ai_timer,
    }
}

/// The camera's top-left tile and the player's tile: the view centred on the
/// client's player (with `i32` wrapping), or all at the origin while the
/// player is unknown.
pub open spec fn map_info(c: GameApp) -> MapInfo {
    let s = c.state@;
    match player_slot(s.players, s.my_id) {
        Some(i) => {
            let p = s.players[i].pos;
            MapInfo {
                map_w: s.world.width,
                map_h: s.world.height,
                cam_x: vstd::wrapping::i32_specs::wrapping_sub(p.x, (c.view_w / 2) as i32),
                cam_y: vstd::wrapping::i32_specs::wrapping_sub(p.y, (c.view_h / 2) as i32),
                view_w: c.view_w,
                view_h: c.view_h,
                player_x: p.x,
                player_y: p.y,
            }
        },
        None => MapInfo {
            map_w: s.world.width,
            map_h: s.world.height,
            cam_x: 0,
            cam_y: 0,
            view_w: c.view_w,
            view_h: c.view_h,
            player_x: 0,
            player_y: 0,
        },
    }
}

/// Whether the camera shows tile `p`.
pub open spec fn in_view(info: MapInfo, p: Pos) -> bool {
    &&& 0 <= p.x - info.cam_x < info.view_w
    &&& 0 <= p.y - info.cam_y < info.view_h
}

/// An entity of kind `kind` at `p`, in the color named `color`.
pub open spec fn entity_at(p: Pos, kind: u8, color: Seq<char>, anim: u32) -> EntityInfo {
    let rgb = spec_named_color(color);
    EntityInfo { x: p.x, y: p.y, kind, r: rgb.0, g: rgb.1, b: rgb.2, anim }
}

/// The items on the ground in view.
pub open spec fn item_entities(s: Seq<GroundItem>, info: MapInfo, anim: u32) -> Seq<EntityInfo>
    decreases s.len(),
{
    if s.len() == 0 {
        Seq::empty()
    } else {
        let rest = item_entities(s.drop_last(), info, anim);
        if in_view(info, s.last().pos) { rest.push(entity_at(s.last().pos, 3, s.last().item.color@, anim)) } else { rest }
    }
}

/// The players in view but the one with id `me`.
pub open spec fn player_entities(s: Seq<PlayerView>, me: u64, info: MapInfo) -> Seq<EntityInfo>
    decreases s.len(),
{
    if s.len() == 0 {
        Seq::empty()
    } else {
        let rest = player_entities(s.drop_last(), me, info);
        if s.last().id != me && in_view(info, s.last().pos) { rest.push(entity_at(s.last().pos, 1, s.last().color@, 0)) } else { rest }
    }
}

/// The monsters in view.
pub open spec fn monster_entities(s: Seq<MonsterView>, info: MapInfo) -> Seq<EntityInfo>
    decreases s.len(),
{
    if s.len() == 0 {
        Seq::empty()
    } else {
        let rest = monster_entities(s.drop_last(), info);
        if in_view(info, s.last().pos) { rest.push(entity_at(s.last().pos, 2, s.last().color@, 0)) } else { rest }
    }
}

/// What the camera shows: the items on the ground, the other players, the
/// monsters, and the client's own player last (drawn on top).
pub open spec fn entities(c: GameApp) -> Seq<EntityInfo> {
    let s = c.state@;
    let info = map_info(c);
    let anim = s.anim_tick as u32;
    let me = match player_slot(s.players, s.my_id) {
        Some(i) => if in_view(info, s.players[i].pos) {
            seq![entity_at(s.players[i].pos, 0, s.players[i].color@, anim)]
        } else {
            Seq::empty()
        },
        None => Seq::empty(),
    };
    item_entities(s.ground_items, info, anim) + player_entities(s.players, s.my_id, info)
        + monster_entities(s.monsters, info) + me
}

fn shows(info: &MapInfo, p: Pos) -> (r: bool)
    ensures
        r == in_view(*info, p),
{
    let vc: i64 = p.x as i64 - info.cam_x as i64;
    let vr: i64 = p.y as i64 - info.cam_y as i64;
    vc >= 0 && vc < info.view_w as i64 && vr >= 0 && vr < info.view_h as i64
}

fn entity(p: Pos, kind: u8, color: &str, anim: u32) -> (r: EntityInfo)
    ensures
        r == entity_at(p, kind, color@, anim),
{
    let (r, g, b) = named_color(color);
    EntityInfo { x: p.x, y: p.y, kind, r, g, b, anim }
}

/// The number of a screen on the display.
pub open spec fn screen_code(s: Screen) -> u8 {
    match s {
        Screen::MainMenu => 0,
        Screen::Connect => 1,
        Screen::Login => 2,
        Screen::CharCreate => 3,
        Screen::Playing => 4,
    }
}

/// The name of what an equipment slot holds, empty if nothing.
pub open spec fn slot_name(o: Option<Item>) -> Seq<char> {
    match o {
        Some(it) => it.name@,
        None => Seq::empty(),
    }
}

/// The color of what an equipment slot holds, dark gray if nothing.
pub open spec fn slot_rgb(o: Option<Item>) -> (u8, u8, u8) {
    match o {
        Some(it) => spec_named_color(it.color@),
        None => (90, 90, 90),
    }
}

/// The heads-up display of the client's state, with three lists as JSON:
/// the last log lines (`log_tail`), and, when the client's own player is
/// known, its inventory and the monsters nearby (`nearby`).
pub open spec fn hud_of(c: GameApp, r: HudData) -> bool {
    let s = c.state@;
    &&& r.screen == screen_code(s.screen)
    &&& r.anim_tick == s.anim_tick
    &&& r.world_name@ == s.world.name
    &&& r.chat_active == s.chat_active
    &&& r.chat_buf@ == s.chat_buf
    &&& r.inv_open == s.inv_open
    &&& r.equip_open == s.equip_open
    &&& r.inv_sel == s.inv_sel as i32
    &&& r.log_json@ == strings_json(log_tail(s.log))
    &&& r.inventory_json@ == match player_slot(s.players, s.my_id) {
        Some(i) => items_json(s.players[i].inventory),
        None => Seq::empty(),
    }
    &&& r.nearby_json@ == match player_slot(s.players, s.my_id) {
        Some(_) => monsters_json(nearby(s)),
        None => Seq::empty(),
    }
    &&& r.camera_mode == s.camera_mode
    &&& r.is_singleplayer == c.local_game is Some
    &&& r.player_face_dx == s.player_face_dx
    &&& r.player_face_dy == s.player_face_dy
    &&& r.zone_style@ == spec_zone_style(s.zone_idx as int)
    &&& r.menu_sel == s.menu_sel as i32
    &&& r.conn_host@ == s.conn_host
    &&& r.conn_port@ == s.conn_port
    &&& r.conn_cursor == s.conn_cursor as i32
    &&& r.login_user@ == s.login_user
    &&& r.login_pass_len == (encode_utf8(s.login_pass).len() as usize) as i32
    &&& r.login_cursor == s.login_cursor as i32
    &&& r.login_is_register == (s.login_mode == LoginMode::Register)
    &&& r.char_name@ == s.char_name
    &&& r.char_symbol@ == spec_symbol(s.char_symbol_idx as int)
    &&& r.char_cursor == s.char_cursor as i32
    &&& r.char_n_classes == s.avail_classes.len() as i32
    &&& r.char_is_sp == s.sp_pending
    &&& r.error_msg@ == s.error_msg
    &&& if s.char_class_idx < s.avail_classes.len() {
        let cls = s.avail_classes[s.char_class_idx as int];
        let rgb = spec_named_color(spec_color(s.char_color_idx as int));
        &&& r.char_class_name@ == spec_localized(&cls.name, &cls.name_ru, "en"@)
        &&& r.char_class_desc@ == spec_localized(&cls.description, &cls.description_ru, "en"@)
        &&& (r.char_col_r, r.char_col_g, r.char_col_b) == rgb
    } else {
        &&& r.char_class_name@.len() == 0
        &&& r.char_class_desc@.len() == 0
        &&& r.char_col_r == 200 && r.char_col_g == 200 && r.char_col_b == 200
    }
    &&& {
        let me = match player_slot(s.players, s.my_id) { Some(i) => Some(s.players[i]), None => None };
        let panel = spec_panel(me);
        &&& (r.player_level, r.hp, r.max_hp, r.mp, r.max_mp, r.xp, r.xp_next, r.stat_str, r.stat_dex, r.stat_int,
            r.stat_vit, r.atk, r.def_, r.stat_points) == panel
        &&& match me {
            Some(p) => {
                let e = p.equipment;
                &&& r.player_name@ == p.name@
                &&& r.player_class@ == p.class_id@
                &&& r.eq_weapon@ == slot_name(e.weapon)
                &&& r.eq_armor@ == slot_name(e.armor)
                &&& r.eq_helmet@ == slot_name(e.helmet)
                &&& r.eq_ring@ == slot_name(e.ring)
                &&& (r.eq_weapon_r, r.eq_weapon_g, r.eq_weapon_b) == slot_rgb(e.weapon)
                &&& (r.eq_armor_r, r.eq_armor_g, r.eq_armor_b) == slot_rgb(e.armor)
                &&& (r.eq_helmet_r, r.eq_helmet_g, r.eq_helmet_b) == slot_rgb(e.helmet)
                &&& (r.eq_ring_r, r.eq_ring_g, r.eq_ring_b) == slot_rgb(e.ring)
            },
            None => {
                &&& r.player_name@.len() == 0 && r.player_class@.len() == 0
                &&& r.eq_weapon@.len() == 0 && r.eq_armor@.len() == 0 && r.eq_helmet@.len() == 0 && r.eq_ring@.len() == 0
                &&& (r.eq_weapon_r, r.eq_weapon_g, r.eq_weapon_b) == (90u8, 90u8, 90u8)
                &&& (r.eq_armor_r, r.eq_armor_g, r.eq_armor_b) == (90u8, 90u8, 90u8)
                &&& (r.eq_helmet_r, r.eq_helmet_g, r.eq_helmet_b) == (90u8, 90u8, 90u8)
                &&& (r.eq_ring_r, r.eq_ring_g, r.eq_ring_b) == (90u8, 90u8, 90u8)
            },
        }
    }
}

/// The last twenty log lines, oldest first.
pub open spec fn log_tail(log: Seq<Seq<char>>) -> Seq<Seq<char>> {
    if log.len() > 20 { log.subrange(log.len() - 20, log.len() as int) } else { log }
}

/// The monsters within twelve tiles of `p` on both axes, in order.
pub open spec fn near(s: Seq<MonsterView>, p: Pos) -> Seq<MonsterView>
    decreases s.len(),
{
    if s.len() == 0 {
        Seq::empty()
    } else {
        let rest = near(s.drop_last(), p);
        let m = s.last();
        if abs_int(m.pos.x - p.x) <= 12 && abs_int(m.pos.y - p.y) <= 12 { rest.push(m) } else { rest }
    }
}

/// The first six monsters near the client's player, none while the player is
/// unknown.
pub open spec fn nearby(s: ClientView) -> Seq<MonsterView> {
    match player_slot(s.players, s.my_id) {
        Some(i) => {
            let n = near(s.monsters, s.players[i].pos);
            if n.len() > 6 { n.take(6) } else { n }
        },
        None => Seq::empty(),
    }
}

fn slot_info(o: &Option<Item>) -> (r: (String, (u8, u8, u8)))
    ensures
        r.0@ == slot_name(*o),
        r.1 == slot_rgb(*o),
{
    match o {
        Some(it) => (copy_string(&it.name), named_color(it.color.as_str())),
        None => (String::new(), (90, 90, 90)),
    }
}

/// The player's numbers on the display: level, hit and mana points,
/// experience, the four attributes, attack, defense and unspent points; all
/// zero for no player.
pub open spec fn spec_panel(p: Option<PlayerView>) -> (i32, i32, i32, i32, i32, i64, i64, i32, i32, i32, i32, i32, i32, i32) {
    match p {
        Some(p) => (p.level as i32, p.stats.hp, p.stats.max_hp, p.stats.mp, p.stats.max_mp, p.xp as i64,
            p.xp_next as i64, p.stats.str, p.stats.dex, p.stats.int, p.stats.vit, p.spec_attack() as i32,
            p.spec_defense() as i32, p.stat_points as i32),
        None => (0, 0, 0, 0, 0, 0, 0, 0, 0, 0, 0, 0, 0, 0),
    }
}

fn player_panel(p: Option<&Player>) -> (r: (i32, i32, i32, i32, i32, i64, i64, i32, i32, i32, i32, i32, i32, i32))
    ensures
        r == spec_panel(match p { Some(q) => Some(q@), None => None }),
{
    match p {
        Some(p) => (p.level as i32, p.stats.hp, p.stats.max_hp, p.stats.mp, p.stats.max_mp, p.xp as i64,
            p.xp_next as i64, p.stats.str, p.stats.dex, p.stats.int, p.stats.vit, p.attack_wide() as i32,
            p.defense_wide() as i32, p.stat_points as i32),
        None => (0, 0, 0, 0, 0, 0, 0, 0, 0, 0, 0, 0, 0, 0),
    }
}

/// The slot of number `k` (weapon, armor, helmet, ring) of an equipment.
pub open spec fn slot_k(e: Equipment, k: int) -> Option<Item> {
    if k == 0 { e.weapon } else if k == 1 { e.armor } else if k == 2 { e.helmet } else { e.ring }
}

fn equipment_slot(p: Option<&Player>, k: u8) -> (r: (String, (u8, u8, u8)))
    ensures
        match p {
            Some(q) => r.0@ == slot_name(slot_k(q.equipment, k as int)) && r.1 == slot_rgb(slot_k(q.equipment, k as int)),
            None => r.0@.len() == 0 && r.1 == (90u8, 90u8, 90u8),
        },
{
    match p {
        Some(q) => {
            if k == 0 { slot_info(&q.equipment.weapon) }
            else if k == 1 { slot_info(&q.equipment.armor) }
            else if k == 2 { slot_info(&q.equipment.helmet) }
            else { slot_info(&q.equipment.ring) }
        },
        None => (String::new(), (90, 90, 90)),
    }
}

impl GameApp {
    /// The client's own shape, and a single-player game it can run.
    pub open spec fn wf(self) -> bool {
        &&& client_ok(self.state@)
        &&& self.sp_ai_timer < 2
        &&& self.view_w >= 8
        &&& self.view_h >= 6
        &&& match self.local_game {
            Some(g) => game_ok(g),
            None => true,
        }
    }

    /// One frame (about thirty a second); see `framed_step`. A game whose
    /// numbers left their range takes no tick.
    pub fn tick(&mut self)
        requires
            old(self).wf(),
            old(self).state.anim_tick < u64::MAX,
        ensures
            final(self).wf(),
            framed_step(*old(self), *final(self)),
    {
        self.state.anim_tick = self.state.anim_tick + 1;
        if !self.state.error_msg.as_str().is_empty() && self.state.anim_tick >= self.state.error_clear_tick {
            self.state.error_msg = String::new();
        }
        let ghost s2 = self.state@;
        assert(s2 == error_cleared(ClientView { anim_tick: (old(self).state.anim_tick + 1) as u64, ..old(self).state@ }));
        if self.local_game.is_none() {
            return;
        }
        self.sp_ai_timer = self.sp_ai_timer + 1;
        if self.sp_ai_timer < 2 {
            return;
        }
        self.sp_ai_timer = 0;
        let ghost g = self.local_game.unwrap();
        let mut ran = false;
        let events = match &mut self.local_game {
            Some(lg) => {
                if lg.check_values() && lg.tick < u64::MAX {
                    ran = true;
                    lg.tick()
                } else {
                    Vec::new()
                }
            },
            None => Vec::new(),
        };
        if ran {
            let ghost h = self.local_game.unwrap();
            let ghost ev = events_view(events@);
            assert(ticked(g, h, ev));
            self.apply_sp_events(events);
            proof {
                lemma_synced_ok(h, self.local_game.unwrap(), ev);
            }
        }
    }

    /// The classes for character creation: the configuration's classes in
    /// order of id; the class, the cursor and the name start over.
    pub fn load_classes(&mut self, cfg: &GameConfig)
        requires
            old(self).wf(),
            cfg.wf(),
        ensures
            final(self).wf(),
            final(self).state@.avail_classes.to_multiset() == classes_view(cfg.classes@).to_multiset(),
            sorted_by_id(final(self).state@.avail_classes),
            final(self).state@ == (ClientView {
                avail_classes: final(self).state@.avail_classes,
                char_class_idx: 0,
                char_cursor: 0,
                char_name: Seq::empty(),
                ..old(self).state@
            }),
            final(self).local_game == old(self).local_game,
            final(self).sp_ai_timer == old(self).sp_ai_timer,
            final(self).view_w == old(self).view_w,
            final(self).view_h == old(self).view_h,
    {
        self.state.avail_classes = sorted_classes(&cfg.classes);
        self.state.char_class_idx = 0;
        self.state.char_cursor = 0;
        self.state.char_name = String::new();
    }

    /// Starts a single-player game for the character made on the creation
    /// screen, with `symbol`'s first character as its symbol ('@' if none).
    /// On success the client shows the new game; for an unknown class, or a
    /// configuration that cannot populate a game, it goes back to the main
    /// menu with an error.
    pub fn start_sp(&mut self, cfg: GameConfig, name: &str, class_id: &str, symbol: &str, color: String)
        requires
            old(self).wf(),
            cfg.wf(),
            old(self).state.anim_tick + 180 <= u64::MAX,
        ensures
            final(self).wf(),
            final(self).view_w == old(self).view_w,
            final(self).view_h == old(self).view_h,
            ({
                let s = old(self).state@;
                match find_key(cfg.classes@, class_id@) {
                    Some(ci) if startable(cfg) => {
                        &&& final(self).local_game is Some
                        &&& final(self).sp_ai_timer == 0
                        &&& fresh_game(cfg, ci, name@, class_id@, symbol_of(symbol@), color, final(self).local_game.unwrap())
                        &&& final(self).state@ == (ClientView {
                            my_id: final(self).local_game.unwrap().player.id,
                            screen: Screen::Playing,
                            sp_pending: false,
                            log: logged(s.log, sp_welcome_line(name@)),
                            ..showing(s, final(self).local_game.unwrap())
                        })
                    },
                    _ => {
                        &&& final(self).local_game == old(self).local_game
                        &&& final(self).sp_ai_timer == old(self).sp_ai_timer
                        &&& final(self).state@ == (ClientView {
                            error_msg: "Failed to start singleplayer game."@,
                            error_clear_tick: (s.anim_tick + 180) as u64,
                            screen: Screen::MainMenu,
                            ..s
                        })
                    },
                }
            }),
    {
        let sym = match first_char(symbol) {
            Some(c) => c,
            None => '@',
        };
        let ok = cfg.world.monster_count as u64 <= ID_LIMIT && (cfg.world.monster_count == 0 || cfg.monsters.len() > 0);
        let started = if ok { LocalGame::new(cfg, name, class_id, sym, color) } else { None };
        match started {
            Some(lg) => {
                self.state.my_id = lg.player.id;
                self.state.world = lg.map.duplicate();
                let mut players: Vec<Player> = Vec::new();
                players.push(lg.player.duplicate());
                self.state.players = players;
                self.state.monsters = copy_monsters(&lg.monsters);
                self.state.ground_items = copy_ground_items(&lg.ground_items);
                self.state.screen = Screen::Playing;
                self.state.sp_pending = false;
                let mut line = String::from_str("Singleplayer started — welcome, ");
                push_str(&mut line, name);
                push_str(&mut line, "!");
                let ghost s1 = self.state@;
                assert(s1.players =~= seq![lg.player@]);
                self.state.add_log(line);
                self.local_game = Some(lg);
                self.sp_ai_timer = 0;
            },
            None => {
                self.state.error_msg = String::from_str("Failed to start singleplayer game.");
                self.state.error_clear_tick = self.state.anim_tick + 180;
                self.state.screen = Screen::MainMenu;
            },
        }
    }

    /// Travels to the next zone of the cycle (see `zone_travelled`), with a
    /// map drawn from the animation counter.
    pub fn travel_zone(&mut self)
        requires
            old(self).wf(),
            old(self).local_game is Some,
        ensures
            final(self).wf(),
            zone_travelled(*old(self), *final(self)),
    {
        self.state.zone_idx = (self.state.zone_idx + 1) % ZONE_STYLES_LEN;
        let i = self.state.zone_idx;
        let lg = match self.local_game.take() {
            Some(lg) => lg,
            None => {
                return;
            },
        };
        if lg.cfg.monsters.len() == 0 {
            self.local_game = Some(lg);
            self.state.add_log(String::from_str("Zone travel failed."));
            return;
        }
        let seed = self.state.anim_tick.wrapping_mul(0x9e37_79b9_7f4a_7c15);
        let style = zone_style_exec(i);
        let LocalGame { player, cfg, .. } = lg;
        let ng = LocalGame::new_zone(player, seed, style, cfg);
        self.state.world = ng.map.duplicate();
        let mut players: Vec<Player> = Vec::new();
        players.push(ng.player.duplicate());
        self.state.players = players;
        self.state.monsters = copy_monsters(&ng.monsters);
        self.state.ground_items = copy_ground_items(&ng.ground_items);
        let mut line = String::from_str("Entered ");
        push_str(&mut line, zone_style_at(i));
        push_str(&mut line, ".");
        let ghost s1 = self.state@;
        assert(s1.players =~= seq![ng.player@]);
        self.state.add_log(line);
        self.local_game = Some(ng);
    }

    /// Carries out a request in the single-player game (see `sp_dispatched`).
    pub fn dispatch_sp(&mut self, payload: Payload)
        requires
            old(self).wf(),
            old(self).local_game is Some,
        ensures
            final(self).wf(),
            final(self).view_w == old(self).view_w,
            final(self).view_h == old(self).view_h,
            sp_dispatched(*old(self), payload@, *final(self)),
    {
        match payload {
            Payload::Msg(m) => {
                if let ClientMsg::Chat { .. } = m {
                    self.state.add_log(String::from_str("(Chat is multiplayer only.)"));
                    return;
                }
                let ghost g = self.local_game.unwrap();
                let ghost mv = m@;
                let events = match &mut self.local_game {
                    Some(lg) => sp_perform(lg, m),
                    None => Vec::new(),
                };
                let ghost h = self.local_game.unwrap();
                let ghost ev = events_view(events@);
                assert(sp_action(g, mv, h, ev));
                proof {
                    assert(game_ok(h));
                }
                self.apply_sp_events(events);
                proof {
                    lemma_synced_ok(h, self.local_game.unwrap(), ev);
                }
            },
            Payload::ZoneTravel => {
                self.travel_zone();
            },
            _ => {},
        }
    }

    /// A key press (see `key_pressed`); the command returned is what is left
    /// for the front end and the network.
    pub fn on_key(&mut self, qt_key: i32, qt_mods: u32, text: &str) -> (r: Cmd)
        requires
            old(self).wf(),
        ensures
            final(self).wf(),
            key_pressed(*old(self), qt_key, text@, *final(self), r@),
    {
        let cmd = self.state.handle_key(qt_key, qt_mods, text);
        match cmd.kind {
            CmdKind::SendMsg => {
                if self.local_game.is_some() {
                    let ghost e = *self;
                    self.dispatch_sp(cmd.payload);
                    proof {
                        assert(e.state@ == key_step(old(self).state@, qt_key, text@).0);
                    }
                    none_cmd()
                } else {
                    cmd
                }
            },
            CmdKind::Disconnect => {
                self.local_game = None;
                self.state.screen = Screen::MainMenu;
                cmd
            },
            CmdKind::Quit => {
                self.local_game = None;
                cmd
            },
            _ => cmd,
        }
    }

    /// Map size, camera and the player's tile (see `map_info`).
    pub fn get_map_info(&self) -> (r: MapInfo)
        requires
            self.wf(),
        ensures
            r == map_info(*self),
    {
        match self.state.my_player() {
            Some(p) => MapInfo {
                map_w: self.state.world.width,
                map_h: self.state.world.height,
                cam_x: p.pos.x.wrapping_sub(self.view_w / 2),
                cam_y: p.pos.y.wrapping_sub(self.view_h / 2),
                view_w: self.view_w,
                view_h: self.view_h,
                player_x: p.pos.x,
                player_y: p.pos.y,
            },
            None => MapInfo {
                map_w: self.state.world.width,
                map_h: self.state.world.height,
                cam_x: 0,
                cam_y: 0,
                view_w: self.view_w,
                view_h: self.view_h,
                player_x: 0,
                player_y: 0,
            },
        }
    }

    /// The number of the tile at `(x, y)` of the client's map; wall outside it.
    pub fn get_tile(&self, x: i32, y: i32) -> (r: u8)
        requires
            self.state.world.wf(),
        ensures
            r == self.state.world.spec_get(x as int, y as int).spec_to_u8(),
    {
        self.state.world.get(x, y).to_u8()
    }

    /// What the camera shows (see `entities`).
    pub fn get_entities(&self) -> (r: Vec<EntityInfo>)
        requires
            self.wf(),
        ensures
            r@ == entities(*self),
    {
        let info = self.get_map_info();
        let anim = self.state.anim_tick as u32;
        let mut out: Vec<EntityInfo> = Vec::new();
        let ghost gs = self.state.ground_items@;
        let mut i: usize = 0;
        while i < self.state.ground_items.len()
            invariant
                i <= gs.len(),
                gs == self.state.ground_items@,
                out@ == item_entities(gs.subrange(0, i as int), info, anim),
            decreases self.state.ground_items.len() - i,
        {
            assert(gs.subrange(0, i + 1).drop_last() =~= gs.subrange(0, i as int));
            let gi = &self.state.ground_items[i];
            if shows(&info, gi.pos) {
                out.push(entity(gi.pos, 3, gi.item.color.as_str(), anim));
            }
            i += 1;
        }
        assert(gs.subrange(0, gs.len() as int) =~= gs);
        let ghost e1 = out@;
        let ghost ps = self.state@.players;
        let mut i: usize = 0;
        while i < self.state.players.len()
            invariant
                i <= ps.len(),
                ps == self.state@.players,
                out@ == e1 + player_entities(ps.subrange(0, i as int), self.state.my_id, info),
            decreases self.state.players.len() - i,
        {
            assert(ps.subrange(0, i + 1).drop_last() =~= ps.subrange(0, i as int));
            assert(ps[i as int] == self.state.players@[i as int]@);
            let pl = &self.state.players[i];
            if pl.id != self.state.my_id && shows(&info, pl.pos) {
                out.push(entity(pl.pos, 1, pl.color.as_str(), 0));
            }
            i += 1;
        }
        assert(ps.subrange(0, ps.len() as int) =~= ps);
        let ghost e2 = out@;
        let ghost ms = self.state@.monsters;
        let mut i: usize = 0;
        while i < self.state.monsters.len()
            invariant
                i <= ms.len(),
                ms == self.state@.monsters,
                out@ == e2 + monster_entities(ms.subrange(0, i as int), info),
            decreases self.state.monsters.len() - i,
        {
            assert(ms.subrange(0, i + 1).drop_last() =~= ms.subrange(0, i as int));
            assert(ms[i as int] == self.state.monsters@[i as int]@);
            let m = &self.state.monsters[i];
            if shows(&info, m.pos) {
                out.push(entity(m.pos, 2, m.color.as_str(), 0));
            }
            i += 1;
        }
        assert(ms.subrange(0, ms.len() as int) =~= ms);
        let ghost e3 = out@;
        match self.state.my_player() {
            Some(p) => {
                if shows(&info, p.pos) {
                    out.push(entity(p.pos, 0, p.color.as_str(), anim));
                }
            },
            None => {},
        }
        proof {
            let me = out@.subrange(e3.len() as int, out@.len() as int);
            assert(out@ =~= e3 + me);
        }
        out
    }

    /// The heads-up display (see `hud_of`).
    #[verifier::spinoff_prover]
    #[verifier::rlimit(60)]
    pub fn get_hud(&self) -> (r: HudData)
        requires
            self.wf(),
        ensures
            hud_of(*self, r),
    {
        let log_json = lines_json(&self.log_tail());
        let (inventory_json, nearby_json) = match self.state.my_player() {
            Some(p) => (inventory_json(&p.inventory), nearby_json(&self.nearby_monsters())),
            None => (String::new(), String::new()),
        };
        let s = &self.state;
        let screen: u8 = match s.screen {
            Screen::MainMenu => 0,
            Screen::Connect => 1,
            Screen::Login => 2,
            Screen::CharCreate => 3,
            Screen::Playing => 4,
        };
        let (char_class_name, char_class_desc, char_col_r, char_col_g, char_col_b) =
            if s.char_class_idx < s.avail_classes.len() {
                let cls = &s.avail_classes[s.char_class_idx];
                let (r, g, b) = named_color(color_at(s.char_color_idx));
                proof { assert(s@.avail_classes[s.char_class_idx as int] == s.avail_classes@[s.char_class_idx as int]@); }
                (String::from_str(cls.display_name("en")), String::from_str(cls.display_desc("en")), r, g, b)
            } else {
                (String::new(), String::new(), 200u8, 200u8, 200u8)
            };
        let me = s.my_player();
        let panel = player_panel(me);
        let (eq_weapon, (eq_weapon_r, eq_weapon_g, eq_weapon_b)) = equipment_slot(me, 0);
        let (eq_armor, (eq_armor_r, eq_armor_g, eq_armor_b)) = equipment_slot(me, 1);
        let (eq_helmet, (eq_helmet_r, eq_helmet_g, eq_helmet_b)) = equipment_slot(me, 2);
        let (eq_ring, (eq_ring_r, eq_ring_g, eq_ring_b)) = equipment_slot(me, 3);
        let (player_name, player_class) = match me {
            Some(p) => (copy_string(&p.name), copy_string(&p.class_id)),
            None => (String::new(), String::new()),
        };
        HudData {
            screen,
            anim_tick: s.anim_tick,
            player_name,
            player_class,
            player_level: panel.0,
            hp: panel.1,
            max_hp: panel.2,
            mp: panel.3,
            max_mp: panel.4,
            xp: panel.5,
            xp_next: panel.6,
            stat_str: panel.7,
            stat_dex: panel.8,
            stat_int: panel.9,
            stat_vit: panel.10,
            atk: panel.11,
            def_: panel.12,
            stat_points: panel.13,
            world_name: copy_string(&s.world.name),
            eq_weapon,
            eq_armor,
            eq_helmet,
            eq_ring,
            eq_weapon_r,
            eq_weapon_g,
            eq_weapon_b,
            eq_armor_r,
            eq_armor_g,
            eq_armor_b,
            eq_helmet_r,
            eq_helmet_g,
            eq_helmet_b,
            eq_ring_r,
            eq_ring_g,
            eq_ring_b,
            chat_active: s.chat_active,
            chat_buf: copy_string(&s.chat_buf),
            inv_open: s.inv_open,
            equip_open: s.equip_open,
            inv_sel: s.inv_sel as i32,
            inventory_json,
            log_json,
            nearby_json,
            camera_mode: s.camera_mode,
            is_singleplayer: self.local_game.is_some(),
            player_face_dx: s.player_face_dx,
            player_face_dy: s.player_face_dy,
            zone_style: String::from_str(zone_style_at(s.zone_idx)),
            menu_sel: s.menu_sel as i32,
            conn_host: copy_string(&s.conn_host),
            conn_port: copy_string(&s.conn_port),
            conn_cursor: s.conn_cursor as i32,
            login_user: copy_string(&s.login_user),
            login_pass_len: s.login_pass.as_str().len() as i32,
            login_cursor: s.login_cursor as i32,
            login_is_register: s.login_mode == LoginMode::Register,
            char_name: copy_string(&s.char_name),
            char_class_name,
            char_class_desc,
            char_symbol: String::from_str(symbol_at(s.char_symbol_idx)),
            char_col_r,
            char_col_g,
            char_col_b,
            char_cursor: s.char_cursor as i32,
            char_n_classes: s.avail_classes.len() as i32,
            char_is_sp: s.sp_pending,
            error_msg: copy_string(&s.error_msg),
        }
    }

    /// The last twenty log lines, oldest first.
    pub fn log_tail(&self) -> (r: Vec<String>)
        ensures
            strings_view(r@) == log_tail(self.state@.log),
    {
        let n = self.state.log.len();
        let start: usize = if n > 20 { n - 20 } else { 0 };
        let mut out: Vec<String> = Vec::new();
        let mut i: usize = start;
        let ghost l = self.state@.log;
        while i < n
            invariant
                start <= i <= n,
                n == self.state.log@.len(),
                l == strings_view(self.state.log@),
                strings_view(out@) == l.subrange(start as int, i as int),
            decreases n - i,
        {
            let ghost prev = out@;
            let line = copy_string(&self.state.log[i]);
            out.push(line);
            assert(l[i as int] == self.state.log@[i as int]@);
            assert(strings_view(out@) =~= strings_view(prev).push(line@));
            assert(l.subrange(start as int, i + 1) =~= l.subrange(start as int, i as int).push(l[i as int]));
            i += 1;
        }
        assert(l.subrange(0, n as int) =~= l);
        out
    }

    /// The first six monsters near the client's player (see `nearby`).
    pub fn nearby_monsters(&self) -> (r: Vec<Monster>)
        ensures
            mons_view(r@) == nearby(self.state@),
    {
        let mut out: Vec<Monster> = Vec::new();
        let p = match self.state.my_player() {
            Some(p) => p.pos,
            None => {
                assert(mons_view(out@) =~= Seq::<MonsterView>::empty());
                return out;
            },
        };
        let ghost ms = self.state@.monsters;
        let mut i: usize = 0;
        while i < self.state.monsters.len()
            invariant
                i <= ms.len(),
                ms == self.state@.monsters,
                mons_view(out@) == {
                    let n = near(ms.subrange(0, i as int), p);
                    if n.len() > 6 { n.take(6) } else { n }
                },
            decreases self.state.monsters.len() - i,
        {
            let ghost before = near(ms.subrange(0, i as int), p);
            assert(ms.subrange(0, i + 1).drop_last() =~= ms.subrange(0, i as int));
            assert(ms[i as int] == self.state.monsters@[i as int]@);
            let m = &self.state.monsters[i];
            let dx: i64 = m.pos.x as i64 - p.x as i64;
            let dy: i64 = m.pos.y as i64 - p.y as i64;
            if -12 <= dx && dx <= 12 && -12 <= dy && dy <= 12 {
                if out.len() < 6 {
                    let ghost prev = out@;
                    let c = m.duplicate();
                    out.push(c);
                    assert(mons_view(out@) =~= mons_view(prev).push(c@));
                    assert(mons_view(out@) =~= before.push(ms[i as int]));
                } else {
                    assert(before.push(ms[i as int]).take(6) =~= before.take(6));
                }
            }
            i += 1;
        }
        assert(ms.subrange(0, ms.len() as int) =~= ms);
        out
    }

    pub fn new() -> (r: GameApp)
        ensures
            initial_client(r.state@),
            r.view_w == 24,
            r.view_h == 16,
            r.local_game is None,
            r.sp_ai_timer == 0,
            r.wf(),
    {
        GameApp { state: GameState::new(), view_w: 24, view_h: 16, local_game: None, sp_ai_timer: 0 }
    }

    /// The front end's view resized: at least 8 by 6 tiles.
    pub fn on_resize(&mut self, view_w: i32, view_h: i32)
        requires
            old(self).wf(),
        ensures
            final(self).wf(),
            final(self).view_w == if view_w >= 8 { view_w } else { 8 },
            final(self).view_h == if view_h >= 6 { view_h } else { 6 },
            final(self).state == old(self).state,
            final(self).local_game == old(self).local_game,
            final(self).sp_ai_timer == old(self).sp_ai_timer,
    {
        self.view_w = if view_w >= 8 { view_w } else { 8 };
        self.view_h = if view_h >= 6 { view_h } else { 6 };
    }

    /// Applies single-player events to the client's picture, in order; the
    /// single-player game's player follows the last player update.
    pub fn apply_sp_events(&mut self, events: Vec<SpEvent>)
        requires
            client_ok(old(self).state@),
        ensures
            final(self).state@ == events_step(old(self).state@, events_view(events@)),
            client_ok(final(self).state@),
            final(self).view_w == old(self).view_w,
            final(self).view_h == old(self).view_h,
            final(self).sp_ai_timer == old(self).sp_ai_timer,
            match (old(self).local_game, final(self).local_game) {
                (Some(a), Some(b)) => synced(a, b, events_view(events@)),
                (None, None) => true,
                _ => false,
            },
    {
        let ghost s0 = self.state@;
        let ghost ev = events_view(events@);
        let ghost lg0 = self.local_game;
        let mut events = events;
        let mut rev: Vec<SpEvent> = Vec::new();
        let ghost all = events@;
        let n0 = events.len();
        assert(all.len() == n0);
        while events.len() > 0
            invariant
                events@.len() + rev@.len() == all.len(),
                events@ == all.subrange(0, events@.len() as int),
                forall|k: int| 0 <= k < rev@.len() ==> #[trigger] rev@[k] == all[all.len() - 1 - k],
            decreases events.len(),
        {
            let e = events.pop().unwrap();
            rev.push(e);
        }
        let mut k: usize = 0;
        while rev.len() > 0
            invariant
                all.len() <= usize::MAX,
                rev@.len() <= all.len(),
                k == all.len() - rev@.len(),
                forall|j: int| 0 <= j < rev@.len() ==> #[trigger] rev@[j] == all[all.len() - 1 - j],
                ev == events_view(all),
                self.state@ == events_step(s0, ev.subrange(0, k as int)),
                client_ok(self.state@),
                self.view_w == old(self).view_w,
                self.view_h == old(self).view_h,
                self.sp_ai_timer == old(self).sp_ai_timer,
                match (lg0, self.local_game) {
                    (Some(a), Some(b)) => synced(a, b, ev.subrange(0, k as int)),
                    (None, None) => true,
                    _ => false,
                },
            decreases rev.len(),
        {
            let e = rev.pop().unwrap();
            assert(e == all[k as int]);
            let ghost sub = ev.subrange(0, k + 1);
            assert(sub.drop_last() =~= ev.subrange(0, k as int));
            assert(sub.last() == e@);
            let ghost before = self.state@;
            let ghost lg_before = self.local_game;
            self.apply_one(e);
            proof {
                assert(self.state@ == event_step(before, e@));
            }
            k += 1;
        }
        assert(ev.subrange(0, all.len() as int) =~= ev);
    }

    fn sync_player(&mut self, p: &Player)
        ensures
            final(self).state == old(self).state,
            final(self).view_w == old(self).view_w,
            final(self).view_h == old(self).view_h,
            final(self).sp_ai_timer == old(self).sp_ai_timer,
            match (old(self).local_game, final(self).local_game) {
                (Some(a), Some(b)) => {
                    &&& b.same_but_player(a)
                    &&& if p.pos.bounded() { b.player@ == p@ } else { b.player@ == a.player@ }
                },
                (None, None) => true,
                _ => false,
            },
    {
        if p.pos.x >= -8192 && p.pos.x <= 8192 && p.pos.y >= -8192 && p.pos.y <= 8192 {
            match &mut self.local_game {
                Some(lg) => {
                    lg.player = p.duplicate();
                },
                None => {},
            }
        }
    }

    #[verifier::spinoff_prover]
    #[verifier::rlimit(80)]
    fn apply_one(&mut self, e: SpEvent)
        requires
            client_ok(old(self).state@),
        ensures
            final(self).state@ == event_step(old(self).state@, e@),
            client_ok(final(self).state@),
            final(self).view_w == old(self).view_w,
            final(self).view_h == old(self).view_h,
            final(self).sp_ai_timer == old(self).sp_ai_timer,
            match (old(self).local_game, final(self).local_game) {
                (Some(a), Some(b)) => {
                    &&& b.same_but_player(a)
                    &&& match e@ {
                        SpEventView::UpdatePlayer(p) => if p.pos.bounded() { b.player@ == p } else { b.player@ == a.player@ },
                        _ => b.player@ == a.player@,
                    }
                },
                (None, None) => true,
                _ => false,
            },
    {
        let ghost lg = self.local_game;
        match e {
            SpEvent::UpdatePlayer(p) => {
                self.sync_player(&p);
                self.state.update_player(p);
            },
            SpEvent::MonsterUpdate(m) => {
                self.state.update_monster(m);
            },
            SpEvent::MonsterDied { id, xp } => {
                self.state.monster_died(id, xp);
            },
            SpEvent::ItemDropped(g) => {
                self.state.item_dropped(g);
            },
            SpEvent::ItemPickedUp { item_id } => {
                self.state.remove_ground_item(item_id);
            },
            SpEvent::LevelUp { level, stat_points } => {
                self.state.log_level_up(level, stat_points);
            },
            SpEvent::Log(msg, _color) => {
                self.state.add_log(msg);
            },
            SpEvent::Combat(ce) => {
                self.state.log_combat(ce);
            },
        }
    }
}

} // verus!
