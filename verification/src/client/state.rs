//! The client's state: the screen and its fields, and its picture of the
//! world, which server messages keep up to date.

use std::collections::VecDeque;
use vstd::prelude::*;
use crate::entity::{ClassDef, GroundItem, Monster, Player};
use crate::entity::class::{ClassView, classes_view};
use crate::entity::monster::{MonsterView, mons_view};
use crate::entity::player::PlayerView;
use crate::engine::{find_monster, mon_index};
use crate::protocol::ServerMsg;
use crate::server::{MsgView, find_player, insert_player, player_slot, players_view, put_player};
use crate::server::session::{lemma_player_slot_facts, lemma_player_slot_is};
use crate::text::{decimal, decimal_int, push_decimal, push_decimal_i64, push_str};
use crate::world::GameMap;
use crate::world::combat::{CombatEvent, CombatView};
use crate::world::map::MapView;

verus! {

/// The log keeps this many lines.
pub const LOG_MAX: usize = 50;

/// How many character symbols, colors and zone styles there are.
pub const SYMBOLS_LEN: usize = 10;
pub const COLORS_LEN: usize = 8;
pub const ZONE_STYLES_LEN: usize = 6;

/// The character symbols to choose from.
pub open spec fn spec_symbol(i: int) -> Seq<char> {
    if i == 0 { "@"@ }
    else if i == 1 { "$"@ }
    else if i == 2 { "%"@ }
    else if i == 3 { "&"@ }
    else if i == 4 { "?"@ }
    else if i == 5 { "!"@ }
    else if i == 6 { "*"@ }
    else if i == 7 { "~"@ }
    else if i == 8 { "+"@ }
    else { "#"@ }
}

pub fn symbol_at(i: usize) -> (r: &'static str)
    requires
        i < SYMBOLS_LEN,
    ensures
        r@ == spec_symbol(i as int),
{
    if i == 0 { "@" }
    else if i == 1 { "$" }
    else if i == 2 { "%" }
    else if i == 3 { "&" }
    else if i == 4 { "?" }
    else if i == 5 { "!" }
    else if i == 6 { "*" }
    else if i == 7 { "~" }
    else if i == 8 { "+" }
    else { "#" }
}

/// The character colors to choose from.
pub open spec fn spec_color(i: int) -> Seq<char> {
    if i == 0 { "white"@ }
    else if i == 1 { "red"@ }
    else if i == 2 { "green"@ }
    else if i == 3 { "blue"@ }
    else if i == 4 { "yellow"@ }
    else if i == 5 { "cyan"@ }
    else if i == 6 { "magenta"@ }
    else { "gray"@ }
}

pub fn color_at(i: usize) -> (r: &'static str)
    requires
        i < COLORS_LEN,
    ensures
        r@ == spec_color(i as int),
{
    if i == 0 { "white" }
    else if i == 1 { "red" }
    else if i == 2 { "green" }
    else if i == 3 { "blue" }
    else if i == 4 { "yellow" }
    else if i == 5 { "cyan" }
    else if i == 6 { "magenta" }
    else { "gray" }
}

/// The zones of the single-player zone cycle.
pub open spec fn spec_zone_style(i: int) -> Seq<char> {
    if i == 0 { "Wilderness"@ }
    else if i == 1 { "Dungeon"@ }
    else if i == 2 { "Desert"@ }
    else if i == 3 { "Forest"@ }
    else if i == 4 { "Swamp"@ }
    else { "Town"@ }
}

pub fn zone_style_at(i: usize) -> (r: &'static str)
    requires
        i < ZONE_STYLES_LEN,
    ensures
        r@ == spec_zone_style(i as int),
{
    if i == 0 { "Wilderness" }
    else if i == 1 { "Dungeon" }
    else if i == 2 { "Desert" }
    else if i == 3 { "Forest" }
    else if i == 4 { "Swamp" }
    else { "Town" }
}

#[derive(Debug, Clone, Copy, PartialEq, Eq, Structural)]
pub enum Screen {
    MainMenu,
    Connect,
    Login,
    /// Character creation, for the server or the single-player game.
    CharCreate,
    Playing,
}

#[derive(Debug, Clone, Copy, PartialEq, Eq, Structural)]
pub enum LoginMode {
    Login,
    Register,
}

/// The client's state.
pub struct GameState {
    pub screen: Screen,
    /// 0 play online, 1 single-player, 2 quit.
    pub menu_sel: usize,
    /// The character being created is for the single-player game.
    pub sp_pending: bool,
    pub conn_host: String,
    pub conn_port: String,
    pub conn_cursor: usize,
    pub login_mode: LoginMode,
    pub login_user: String,
    pub login_pass: String,
    pub login_cursor: usize,
    pub char_name: String,
    pub char_class_idx: usize,
    pub char_symbol_idx: usize,
    pub char_color_idx: usize,
    pub char_cursor: usize,
    pub avail_classes: Vec<ClassDef>,
    pub my_id: u64,
    pub world: GameMap,
    pub players: Vec<Player>,
    pub monsters: Vec<Monster>,
    pub ground_items: Vec<GroundItem>,
    pub log: VecDeque<String>,
    pub inv_open: bool,
    pub equip_open: bool,
    pub inv_sel: usize,
    pub chat_active: bool,
    pub chat_buf: String,
    /// 0 top down, 1 third person, 2 first person, 3 flat.
    pub camera_mode: u8,
    pub player_face_dx: i32,
    pub player_face_dy: i32,
    pub zone_idx: usize,
    pub anim_tick: u64,
    pub error_msg: String,
    pub error_clear_tick: u64,
}

/// The client's state as a value.
#[verifier::ext_equal]
pub struct ClientView {
    pub screen: Screen,
    pub menu_sel: usize,
    pub sp_pending: bool,
    pub conn_host: Seq<char>,
    pub conn_port: Seq<char>,
    pub conn_cursor: usize,
    pub login_mode: LoginMode,
    pub login_user: Seq<char>,
    pub login_pass: Seq<char>,
    pub login_cursor: usize,
    pub char_name: Seq<char>,
    pub char_class_idx: usize,
    pub char_symbol_idx: usize,
    pub char_color_idx: usize,
    pub char_cursor: usize,
    pub avail_classes: Seq<ClassView>,
    pub my_id: u64,
    pub world: MapView,
    pub players: Seq<PlayerView>,
    pub monsters: Seq<MonsterView>,
    pub ground_items: Seq<GroundItem>,
    pub log: Seq<Seq<char>>,
    pub inv_open: bool,
    pub equip_open: bool,
    pub inv_sel: usize,
    pub chat_active: bool,
    pub chat_buf: Seq<char>,
    pub camera_mode: u8,
    pub player_face_dx: i32,
    pub player_face_dy: i32,
    pub zone_idx: usize,
    pub anim_tick: u64,
    pub error_msg: Seq<char>,
    pub error_clear_tick: u64,
}

pub open spec fn strings_view(v: Seq<String>) -> Seq<Seq<char>> {
    v.map_values(|s: String| s@)
}

impl View for GameState {
    type V = ClientView;

    open spec fn view(&self) -> ClientView {
        ClientView {
            screen: self.screen,
            menu_sel: self.menu_sel,
            sp_pending: self.sp_pending,
            conn_host: self.conn_host@,
            conn_port: self.conn_port@,
            conn_cursor: self.conn_cursor,
            login_mode: self.login_mode,
            login_user: self.login_user@,
            login_pass: self.login_pass@,
            login_cursor: self.login_cursor,
            char_name: self.char_name@,
            char_class_idx: self.char_class_idx,
            char_symbol_idx: self.char_symbol_idx,
            char_color_idx: self.char_color_idx,
            char_cursor: self.char_cursor,
            avail_classes: classes_view(self.avail_classes@),
            my_id: self.my_id,
            world: self.world@,
            players: players_view(self.players@),
            monsters: mons_view(self.monsters@),
            ground_items: self.ground_items@,
            log: strings_view(self.log@),
            inv_open: self.inv_open,
            equip_open: self.equip_open,
            inv_sel: self.inv_sel,
            chat_active: self.chat_active,
            chat_buf: self.chat_buf@,
            camera_mode: self.camera_mode,
            player_face_dx: self.player_face_dx,
            player_face_dy: self.player_face_dy,
            zone_idx: self.zone_idx,
            anim_tick: self.anim_tick,
            error_msg: self.error_msg@,
            error_clear_tick: self.error_clear_tick,
        }
    }
}

/// The log after line `line`: the last `LOG_MAX` lines.
pub open spec fn logged(log: Seq<Seq<char>>, line: Seq<char>) -> Seq<Seq<char>> {
    let l = log.push(line);
    if l.len() > LOG_MAX { l.subrange(l.len() - LOG_MAX, l.len() as int) } else { l }
}

/// The monsters with `m` put in: in place of the one with its id, or at the end.
pub open spec fn put_monster(s: Seq<MonsterView>, m: MonsterView) -> Seq<MonsterView> {
    match mon_index(s, m.id) {
        Some(i) => s.update(i, m),
        None => s.push(m),
    }
}

/// The players with the one with id `id` taken out.
pub open spec fn without_player(s: Seq<PlayerView>, id: u64) -> Seq<PlayerView> {
    match player_slot(s, id) {
        Some(i) => s.remove(i),
        None => s,
    }
}

/// No two players of `s` share an id.
pub open spec fn ids_distinct(s: Seq<PlayerView>) -> bool {
    forall|i: int, j: int| 0 <= i < s.len() && 0 <= j < s.len() && i != j ==> (#[trigger] s[i]).id != (#[trigger] s[j]).id
}

/// When the server reports that player `id` left, the client's list of
/// players no longer holds any player with that id, still holds every other
/// player, holds no one new, and is one shorter if the player was there;
/// nothing else of the client's state changes.
pub proof fn lemma_player_left(s: ClientView, id: u64)
    requires
        ids_distinct(s.players),
    ensures
        ({
            let t = msg_step(s, MsgView::PlayerLeft(id));
            &&& t == (ClientView { players: t.players, ..s })
            &&& forall|i: int| 0 <= i < t.players.len() ==> (#[trigger] t.players[i]).id != id
            &&& forall|j: int| 0 <= j < s.players.len() && (#[trigger] s.players[j]).id != id ==> t.players.contains(s.players[j])
            &&& forall|i: int| 0 <= i < t.players.len() ==> s.players.contains(#[trigger] t.players[i])
            &&& (exists|j: int| 0 <= j < s.players.len() && (#[trigger] s.players[j]).id == id) ==> t.players.len() == s.players.len() - 1
            &&& (forall|j: int| 0 <= j < s.players.len() ==> (#[trigger] s.players[j]).id != id) ==> t.players == s.players
        }),
{
    let ps = s.players;
    let t = msg_step(s, MsgView::PlayerLeft(id));
    lemma_player_slot_facts(ps, id);
    match player_slot(ps, id) {
        Some(k) => {
            assert(t.players == ps.remove(k));
            assert forall|i: int| 0 <= i < t.players.len() implies (#[trigger] t.players[i]).id != id by {
                if i < k {
                    assert(t.players[i] == ps[i]);
                } else {
                    assert(t.players[i] == ps[i + 1]);
                    assert(ps[i + 1].id != ps[k].id);
                }
            }
            assert forall|j: int| 0 <= j < ps.len() && (#[trigger] ps[j]).id != id implies t.players.contains(ps[j]) by {
                if j < k {
                    assert(t.players[j] == ps[j]);
                } else {
                    assert(j != k);
                    assert(t.players[j - 1] == ps[j]);
                }
            }
            assert forall|i: int| 0 <= i < t.players.len() implies ps.contains(#[trigger] t.players[i]) by {
                if i < k {
                    assert(t.players[i] == ps[i]);
                } else {
                    assert(t.players[i] == ps[i + 1]);
                }
            }
        },
        None => {
            assert forall|j: int| 0 <= j < ps.len() implies (#[trigger] ps[j]).id != id by {
                if ps[j].id == id {
                    assert forall|m: int| 0 <= m < j implies (#[trigger] ps[m]).id != id by {
                        assert(ps[m].id != ps[j].id);
                    }
                    lemma_player_slot_is(ps, id, j);
                }
            }
            assert(t.players == ps);
            assert forall|i: int| 0 <= i < t.players.len() implies ps.contains(#[trigger] t.players[i]) by {
                assert(t.players[i] == ps[i]);
            }
            assert forall|j: int| 0 <= j < ps.len() && (#[trigger] ps[j]).id != id implies t.players.contains(ps[j]) by {
                assert(t.players[j] == ps[j]);
            }
        },
    }
}

/// No two monsters of `s` share an id.
pub open spec fn mon_ids_distinct(s: Seq<MonsterView>) -> bool {
    forall|i: int, j: int| 0 <= i < s.len() && 0 <= j < s.len() && i != j ==> (#[trigger] s[i]).id != (#[trigger] s[j]).id
}

/// When the server reports that monster `id` died, the client's list of
/// monsters no longer holds any monster with that id, still holds every
/// other monster, and holds no one new; only the monsters and the log change.
pub proof fn lemma_monster_died(s: ClientView, id: u64, xp: u64)
    requires
        mon_ids_distinct(s.monsters),
    ensures
        ({
            let t = msg_step(s, MsgView::MonsterDied { id, xp });
            &&& t == (ClientView { monsters: t.monsters, log: t.log, ..s })
            &&& forall|i: int| 0 <= i < t.monsters.len() ==> (#[trigger] t.monsters[i]).id != id
            &&& forall|j: int| 0 <= j < s.monsters.len() && (#[trigger] s.monsters[j]).id != id ==> t.monsters.contains(s.monsters[j])
            &&& forall|i: int| 0 <= i < t.monsters.len() ==> s.monsters.contains(#[trigger] t.monsters[i])
        }),
{
    reveal(mon_index);
    let ms = s.monsters;
    let t = msg_step(s, MsgView::MonsterDied { id, xp });
    match mon_index(ms, id) {
        Some(k) => {
            assert(t.monsters == ms.remove(k));
            assert forall|i: int| 0 <= i < t.monsters.len() implies (#[trigger] t.monsters[i]).id != id by {
                if i < k {
                    assert(t.monsters[i] == ms[i]);
                } else {
                    assert(t.monsters[i] == ms[i + 1]);
                    assert(ms[i + 1].id != ms[k].id);
                }
            }
            assert forall|j: int| 0 <= j < ms.len() && (#[trigger] ms[j]).id != id implies t.monsters.contains(ms[j]) by {
                if j < k {
                    assert(t.monsters[j] == ms[j]);
                } else {
                    assert(t.monsters[j - 1] == ms[j]);
                }
            }
            assert forall|i: int| 0 <= i < t.monsters.len() implies ms.contains(#[trigger] t.monsters[i]) by {
                if i < k {
                    assert(t.monsters[i] == ms[i]);
                } else {
                    assert(t.monsters[i] == ms[i + 1]);
                }
            }
        },
        None => {
            assert forall|j: int| 0 <= j < ms.len() implies (#[trigger] ms[j]).id != id by {
                if ms[j].id == id {
                    assert forall|m: int| 0 <= m < j implies (#[trigger] ms[m]).id != id by {
                        assert(ms[m].id != ms[j].id);
                    }
                    assert(0 <= j < ms.len() && ms[j].id == id && forall|m: int| 0 <= m < j ==> (#[trigger] ms[m]).id != id);
                }
            }
            assert(t.monsters == ms);
            assert forall|i: int| 0 <= i < t.monsters.len() implies ms.contains(#[trigger] t.monsters[i]) by {
                assert(t.monsters[i] == ms[i]);
            }
            assert forall|j: int| 0 <= j < ms.len() && (#[trigger] ms[j]).id != id implies t.monsters.contains(ms[j]) by {
                assert(t.monsters[j] == ms[j]);
            }
        },
    }
}

/// When the server reports player `p`, the client's list holds `p` in place
/// of the player with its id, or at the end if there was none: every other
/// player stays, no one else is added, and ids stay distinct.
pub proof fn lemma_player_update(s: ClientView, p: PlayerView)
    requires
        ids_distinct(s.players),
    ensures
        ({
            let t = msg_step(s, MsgView::PlayerUpdate(p));
            &&& t == (ClientView { players: t.players, ..s })
            &&& t.players.contains(p)
            &&& forall|j: int| 0 <= j < s.players.len() && (#[trigger] s.players[j]).id != p.id ==> t.players.contains(s.players[j])
            &&& forall|i: int| 0 <= i < t.players.len() ==> #[trigger] t.players[i] == p || (s.players.contains(t.players[i]) && t.players[i].id != p.id)
            &&& ids_distinct(t.players)
        }),
{
    let ps = s.players;
    let t = msg_step(s, MsgView::PlayerUpdate(p));
    lemma_player_slot_facts(ps, p.id);
    match player_slot(ps, p.id) {
        Some(k) => {
            assert(t.players == ps.update(k, p));
            assert(t.players[k] == p);
            assert forall|j: int| 0 <= j < ps.len() && (#[trigger] ps[j]).id != p.id implies t.players.contains(ps[j]) by {
                assert(j != k);
                assert(t.players[j] == ps[j]);
            }
            assert forall|i: int| 0 <= i < t.players.len() implies #[trigger] t.players[i] == p || (ps.contains(t.players[i])
                && t.players[i].id != p.id) by {
                if i != k {
                    assert(t.players[i] == ps[i]);
                    assert(ps[i].id != ps[k].id);
                }
            }
        },
        None => {
            assert forall|j: int| 0 <= j < ps.len() implies (#[trigger] ps[j]).id != p.id by {
                if ps[j].id == p.id {
                    assert forall|m: int| 0 <= m < j implies (#[trigger] ps[m]).id != p.id by {
                        assert(ps[m].id != ps[j].id);
                    }
                    lemma_player_slot_is(ps, p.id, j);
                }
            }
            assert(t.players == ps.push(p));
            assert(t.players[ps.len() as int] == p);
            assert forall|j: int| 0 <= j < ps.len() && (#[trigger] ps[j]).id != p.id implies t.players.contains(ps[j]) by {
                assert(t.players[j] == ps[j]);
            }
            assert forall|i: int| 0 <= i < t.players.len() implies #[trigger] t.players[i] == p || (ps.contains(t.players[i])
                && t.players[i].id != p.id) by {
                if i < ps.len() {
                    assert(t.players[i] == ps[i]);
                }
            }
        },
    }
}

/// Taking the items with item id `id` off the ground leaves none with that
/// id, keeps every other item in its order, and adds nothing.
pub proof fn lemma_items_without(s: Seq<GroundItem>, id: u64)
    ensures
        forall|i: int| 0 <= i < items_without(s, id).len() ==> (#[trigger] items_without(s, id)[i]).item.id != id,
        forall|j: int| 0 <= j < s.len() && (#[trigger] s[j]).item.id != id ==> items_without(s, id).contains(s[j]),
        forall|i: int| 0 <= i < items_without(s, id).len() ==> s.contains(#[trigger] items_without(s, id)[i]),
        items_without(s, id).len() <= s.len(),
    decreases s.len(),
{
    if s.len() > 0 {
        let d = s.drop_last();
        lemma_items_without(d, id);
        let r = items_without(s, id);
        let rd = items_without(d, id);
        assert forall|j: int| 0 <= j < s.len() && (#[trigger] s[j]).item.id != id implies r.contains(s[j]) by {
            if j < s.len() - 1 {
                assert(d[j] == s[j]);
                let k = choose|k: int| 0 <= k < rd.len() && rd[k] == d[j];
                if s.last().item.id != id {
                    assert(r[k] == rd[k]);
                } else {
                    assert(r[k] == rd[k]);
                }
            } else {
                assert(r[r.len() - 1] == s.last());
            }
        }
        assert forall|i: int| 0 <= i < r.len() implies s.contains(#[trigger] r[i]) by {
            if i < rd.len() {
                assert(r[i] == rd[i]);
                let k = choose|k: int| 0 <= k < d.len() && d[k] == rd[i];
                assert(s[k] == d[k]);
            } else {
                assert(r[i] == s[s.len() - 1]);
            }
        }
        assert forall|i: int| 0 <= i < r.len() implies (#[trigger] r[i]).item.id != id by {
            if i < rd.len() {
                assert(r[i] == rd[i]);
            }
        }
    }
}

/// The monsters with the one with id `id` taken out.
pub open spec fn without_monster(s: Seq<MonsterView>, id: u64) -> Seq<MonsterView> {
    match mon_index(s, id) {
        Some(i) => s.remove(i),
        None => s,
    }
}

/// The players put in one after another.
pub open spec fn put_players(s: Seq<PlayerView>, l: Seq<PlayerView>) -> Seq<PlayerView>
    decreases l.len(),
{
    if l.len() == 0 { s } else { put_player(put_players(s, l.drop_last()), l.last()) }
}

/// The monsters put in one after another.
pub open spec fn put_monsters(s: Seq<MonsterView>, l: Seq<MonsterView>) -> Seq<MonsterView>
    decreases l.len(),
{
    if l.len() == 0 { s } else { put_monster(put_monsters(s, l.drop_last()), l.last()) }
}

/// The items on the ground but those with item id `id`.
pub open spec fn items_without(s: Seq<GroundItem>, id: u64) -> Seq<GroundItem>
    decreases s.len(),
{
    if s.len() == 0 {
        s
    } else if s.last().item.id == id {
        items_without(s.drop_last(), id)
    } else {
        items_without(s.drop_last(), id).push(s.last())
    }
}

pub open spec fn combat_line(c: CombatView) -> Seq<char> {
    c.attacker + " hits "@ + c.target + " for "@ + decimal_int(c.damage as int)
        + (if c.is_crit { " [CRIT]"@ } else { ""@ }) + (if c.killed { " — killed!"@ } else { ""@ })
}

pub open spec fn level_line(level: u32, points: u32) -> Seq<char> {
    "*** LEVEL UP! Level "@ + decimal(level as nat) + " (+"@ + decimal(points as nat) + " stat points) ***"@
}

pub open spec fn xp_line(xp: u64) -> Seq<char> {
    "You gain "@ + decimal(xp as nat) + " XP."@
}

/// The client after server message `m`.
pub open spec fn msg_step(s: ClientView, m: MsgView) -> ClientView {
    match m {
        MsgView::RegisterOk => ClientView {
            log: logged(s.log, "Registration successful — please log in."@),
            login_mode: LoginMode::Login,
            ..s
        },
        MsgView::LoginOk => s,
        MsgView::CharOk => ClientView { log: logged(s.log, "Character created!"@), ..s },
        MsgView::Pong => s,
        MsgView::Error { msg } => ClientView {
            log: logged(s.log, "[ERROR] "@ + msg),
            error_msg: msg,
            error_clear_tick: (s.anim_tick + 120) as u64,
            ..s
        },
        MsgView::NeedChar { classes } => ClientView {
            avail_classes: classes,
            char_class_idx: 0,
            char_symbol_idx: 0,
            char_color_idx: 0,
            char_cursor: 0,
            char_name: Seq::empty(),
            sp_pending: false,
            screen: Screen::CharCreate,
            ..s
        },
        MsgView::WorldInit { player_id, map, players, monsters, items } => ClientView {
            my_id: player_id,
            world: map,
            players: put_players(Seq::empty(), players),
            monsters: put_monsters(Seq::empty(), monsters),
            ground_items: items,
            screen: Screen::Playing,
            log: logged(s.log, "Welcome to "@ + map.name + "!"@),
            ..s
        },
        MsgView::PlayerUpdate(p) => ClientView { players: put_player(s.players, p), ..s },
        MsgView::PlayerLeft(id) => ClientView { players: without_player(s.players, id), ..s },
        MsgView::MonsterUpdate(m) => ClientView { monsters: put_monster(s.monsters, m), ..s },
        MsgView::MonsterDied { id, xp } => ClientView {
            monsters: without_monster(s.monsters, id),
            log: if xp > 0 { logged(s.log, xp_line(xp)) } else { s.log },
            ..s
        },
        MsgView::ItemDropped(g) => ClientView { ground_items: s.ground_items.push(g), ..s },
        MsgView::ItemPickedUp { item_id, by } => ClientView {
            ground_items: items_without(s.ground_items, item_id),
            log: logged(s.log, by + " picked up an item."@),
            ..s
        },
        MsgView::Combat(c) => ClientView { log: logged(s.log, combat_line(c)), ..s },
        MsgView::Chat { from, msg } => ClientView { log: logged(s.log, "<"@ + from + "> "@ + msg), ..s },
        MsgView::System(t) => ClientView { log: logged(s.log, "* "@ + t), ..s },
        MsgView::LevelUp { level, stat_points } => ClientView { log: logged(s.log, level_line(level, stat_points)), ..s },
    }
}

/// The client's own shape: the chosen symbol, color and class exist, the
/// facing is one step, and the zone is one of the cycle.
pub open spec fn client_ok(s: ClientView) -> bool {
    &&& s.char_symbol_idx < SYMBOLS_LEN
    &&& s.char_color_idx < COLORS_LEN
    &&& s.avail_classes.len() > 0 ==> s.char_class_idx < s.avail_classes.len()
    &&& -1 <= s.player_face_dx <= 1
    &&& -1 <= s.player_face_dy <= 1
    &&& s.zone_idx < ZONE_STYLES_LEN
    &&& s.camera_mode < 4
}

/// The state the client starts in: the main menu, the default server
/// address, an empty map named "World", nothing else.
pub open spec fn initial_client(r: ClientView) -> bool {
    &&& r.screen == Screen::MainMenu
    &&& r.menu_sel == 0
    &&& !r.sp_pending
    &&& r.conn_host == "127.0.0.1"@
    &&& r.conn_port == "7777"@
    &&& r.conn_cursor == 0
    &&& r.login_mode == LoginMode::Login
    &&& r.login_user.len() == 0
    &&& r.login_pass.len() == 0
    &&& r.login_cursor == 0
    &&& r.char_name.len() == 0
    &&& r.char_class_idx == 0
    &&& r.char_symbol_idx == 0
    &&& r.char_color_idx == 0
    &&& r.char_cursor == 0
    &&& r.avail_classes.len() == 0
    &&& r.my_id == 0
    &&& r.world.width == 0 && r.world.height == 0
    &&& r.world.tiles.len() == 0
    &&& r.world.name == "World"@
    &&& r.players.len() == 0
    &&& r.monsters.len() == 0
    &&& r.ground_items.len() == 0
    &&& r.log.len() == 0
    &&& !r.inv_open && !r.equip_open && r.inv_sel == 0
    &&& !r.chat_active && r.chat_buf.len() == 0
    &&& r.camera_mode == 0
    &&& r.player_face_dx == 0 && r.player_face_dy == 1
    &&& r.zone_idx == 0
    &&& r.anim_tick == 0
    &&& r.error_msg.len() == 0
    &&& r.error_clear_tick == 0
}

impl GameState {
    /// The state the client starts in: the main menu, the default server
    /// address, nothing else.
    pub fn new() -> (r: GameState)
        ensures
            initial_client(r@),
            client_ok(r@),
    {
        let r = GameState {
            screen: Screen::MainMenu,
            menu_sel: 0,
            sp_pending: false,
            conn_host: String::from_str("127.0.0.1"),
            conn_port: String::from_str("7777"),
            conn_cursor: 0,
            login_mode: LoginMode::Login,
            login_user: String::new(),
            login_pass: String::new(),
            login_cursor: 0,
            char_name: String::new(),
            char_class_idx: 0,
            char_symbol_idx: 0,
            char_color_idx: 0,
            char_cursor: 0,
            avail_classes: Vec::new(),
            my_id: 0,
            world: GameMap::new(0, 0),
            players: Vec::new(),
            monsters: Vec::new(),
            ground_items: Vec::new(),
            log: VecDeque::new(),
            inv_open: false,
            equip_open: false,
            inv_sel: 0,
            chat_active: false,
            chat_buf: String::new(),
            camera_mode: 0,
            player_face_dx: 0,
            player_face_dy: 1,
            zone_idx: 0,
            anim_tick: 0,
            error_msg: String::new(),
            error_clear_tick: 0,
        };
        assert(r@.avail_classes =~= Seq::<ClassView>::empty());
        assert(r@.players =~= Seq::<PlayerView>::empty());
        assert(r@.monsters =~= Seq::<MonsterView>::empty());
        assert(r@.log =~= Seq::<Seq<char>>::empty());
        r
    }

    /// The player this client plays, if known.
    pub fn my_player(&self) -> (r: Option<&Player>)
        ensures
            match player_slot(self@.players, self.my_id) {
                Some(i) => r is Some && r.unwrap()@ == self@.players[i],
                None => r is None,
            },
    {
        match find_player(&self.players, self.my_id) {
            Some(i) => {
                assert(self@.players[i as int] == self.players@[i as int]@);
                Some(&self.players[i])
            },
            None => None,
        }
    }

    /// Adds a line to the log, which keeps the last `LOG_MAX` lines.
    pub fn add_log(&mut self, line: String)
        ensures
            final(self)@ == (ClientView { log: logged(old(self)@.log, line@), ..old(self)@ }),
    {
        let ghost l0 = self@.log;
        let ghost v0 = self@;
        self.log.push_back(line);
        assert(strings_view(self.log@) =~= l0.push(line@));
        while self.log.len() > LOG_MAX
            invariant
                self@ == (ClientView { log: self@.log, ..v0 }),
                strings_view(self.log@).len() >= LOG_MAX ==> strings_view(self.log@) == {
                    let l = l0.push(line@);
                    l.subrange(l.len() - strings_view(self.log@).len(), l.len() as int)
                },
                strings_view(self.log@).len() < LOG_MAX ==> strings_view(self.log@) == l0.push(line@),
                strings_view(self.log@).len() <= l0.len() + 1,
            decreases self.log.len(),
        {
            let ghost before = strings_view(self.log@);
            self.log.pop_front();
            assert(strings_view(self.log@) =~= before.subrange(1, before.len() as int));
        }
        proof {
            let l = l0.push(line@);
            if l.len() <= LOG_MAX {
                assert(strings_view(self.log@) =~= l);
            }
        }
        assert(self@ =~= ClientView { log: logged(v0.log, line@), ..v0 });
    }

    /// Applies server message `msg` (see `msg_step`).
    #[verifier::rlimit(40)]
    pub fn handle_message(&mut self, msg: ServerMsg)
        requires
            old(self).anim_tick + 120 <= u64::MAX,
            client_ok(old(self)@),
        ensures
            final(self)@ == msg_step(old(self)@, msg@),
            client_ok(final(self)@),
    {
        let ghost s = self@;
        let ghost mv0 = msg@;
        match msg {
            ServerMsg::RegisterOk => {
                self.add_log(String::from_str("Registration successful — please log in."));
                self.login_mode = LoginMode::Login;
                assert(self@ =~= msg_step(s, mv0));
            },
            ServerMsg::LoginOk => {
                assert(self@ =~= msg_step(s, mv0));
            },
            ServerMsg::CharOk => {
                self.add_log(String::from_str("Character created!"));
                assert(self@ =~= msg_step(s, mv0));
            },
            ServerMsg::Pong => {
                assert(self@ =~= msg_step(s, mv0));
            },
            ServerMsg::Error { msg } => {
                let mut line = String::from_str("[ERROR] ");
                push_str(&mut line, msg.as_str());
                self.add_log(line);
                self.error_msg = msg;
                self.error_clear_tick = self.anim_tick + 120;
                assert(self@ =~= msg_step(s, mv0));
            },
            ServerMsg::NeedChar { classes } => {
                self.avail_classes = classes;
                self.char_class_idx = 0;
                self.char_symbol_idx = 0;
                self.char_color_idx = 0;
                self.char_cursor = 0;
                self.char_name = String::new();
                self.sp_pending = false;
                self.screen = Screen::CharCreate;
                assert(self@ =~= msg_step(s, mv0));
            },
            ServerMsg::WorldInit { player_id, map, players, monsters, items } => {
                self.world_init(player_id, map, players, monsters, items);
                assert(self@ =~= msg_step(s, mv0));
            },
            ServerMsg::PlayerUpdate(p) => {
                insert_player(&mut self.players, p);
                assert(self@ =~= msg_step(s, mv0));
            },
            ServerMsg::PlayerLeft(id) => {
                match find_player(&self.players, id) {
                    Some(i) => {
                        let ghost before = players_view(self.players@);
                        self.players.remove(i);
                        assert(players_view(self.players@) =~= before.remove(i as int));
                    },
                    None => {},
                }
                assert(self@ =~= msg_step(s, mv0));
            },
            ServerMsg::MonsterUpdate(m) => {
                insert_monster(&mut self.monsters, m);
                assert(self@ =~= msg_step(s, mv0));
            },
            ServerMsg::MonsterDied { id, xp } => {
                match find_monster(&self.monsters, id) {
                    Some(i) => {
                        let ghost before = mons_view(self.monsters@);
                        self.monsters.remove(i);
                        assert(mons_view(self.monsters@) =~= before.remove(i as int));
                    },
                    None => {},
                }
                if xp > 0 {
                    let mut line = String::from_str("You gain ");
                    push_decimal(&mut line, xp);
                    push_str(&mut line, " XP.");
                    self.add_log(line);
                }
                assert(self@ =~= msg_step(s, mv0));
            },
            ServerMsg::ItemDropped(g) => {
                self.ground_items.push(g);
                assert(self@ =~= msg_step(s, mv0));
            },
            ServerMsg::ItemPickedUp { item_id, by } => {
                self.remove_ground_item(item_id);
                let mut line = by;
                push_str(&mut line, " picked up an item.");
                self.add_log(line);
                assert(self@ =~= msg_step(s, mv0));
            },
            ServerMsg::Combat(ce) => {
                let mut line = ce.attacker;
                push_str(&mut line, " hits ");
                push_str(&mut line, ce.target.as_str());
                push_str(&mut line, " for ");
                push_decimal_i64(&mut line, ce.damage as i64);
                push_str(&mut line, if ce.is_crit { " [CRIT]" } else { "" });
                push_str(&mut line, if ce.killed { " — killed!" } else { "" });
                self.add_log(line);
                assert(self@ =~= msg_step(s, mv0));
            },
            ServerMsg::Chat { from, msg } => {
                let mut line = String::from_str("<");
                push_str(&mut line, from.as_str());
                push_str(&mut line, "> ");
                push_str(&mut line, msg.as_str());
                self.add_log(line);
                assert(self@ =~= msg_step(s, mv0));
            },
            ServerMsg::System(t) => {
                let mut line = String::from_str("* ");
                push_str(&mut line, t.as_str());
                self.add_log(line);
                assert(self@ =~= msg_step(s, mv0));
            },
            ServerMsg::LevelUp { level, stat_points } => {
                let mut line = String::from_str("*** LEVEL UP! Level ");
                push_decimal(&mut line, level as u64);
                push_str(&mut line, " (+");
                push_decimal(&mut line, stat_points as u64);
                push_str(&mut line, " stat points) ***");
                self.add_log(line);
                assert(self@ =~= msg_step(s, mv0));
            },
        }
    }

    fn world_init(&mut self, player_id: u64, map: GameMap, players: Vec<Player>, monsters: Vec<Monster>, items: Vec<GroundItem>)
        ensures
            final(self)@ == (ClientView {
                my_id: player_id,
                world: map@,
                players: put_players(Seq::empty(), players_view(players@)),
                monsters: put_monsters(Seq::empty(), mons_view(monsters@)),
                ground_items: items@,
                screen: Screen::Playing,
                log: logged(old(self)@.log, "Welcome to "@ + map@.name + "!"@),
                ..old(self)@
            }),
    {
        let ghost s0 = self@;
        self.my_id = player_id;
        self.world = map;
        self.players = Vec::new();
        let ghost pl = players_view(players@);
        let ghost v1 = self@;
        let mut i: usize = 0;
        while i < players.len()
            invariant
                self@ == (ClientView { players: self@.players, ..v1 }),
                i <= players@.len(),
                pl == players_view(players@),
                players_view(self.players@) == put_players(Seq::empty(), pl.subrange(0, i as int)),
            decreases players.len() - i,
        {
            assert(pl.subrange(0, i + 1).drop_last() =~= pl.subrange(0, i as int));
            insert_player(&mut self.players, players[i].duplicate());
            i += 1;
        }
        assert(pl.subrange(0, pl.len() as int) =~= pl);
        self.monsters = Vec::new();
        let ghost ml = mons_view(monsters@);
        let ghost v2 = self@;
        let mut i: usize = 0;
        while i < monsters.len()
            invariant
                self@ == (ClientView { monsters: self@.monsters, ..v2 }),
                i <= monsters@.len(),
                ml == mons_view(monsters@),
                mons_view(self.monsters@) == put_monsters(Seq::empty(), ml.subrange(0, i as int)),
            decreases monsters.len() - i,
        {
            assert(ml.subrange(0, i + 1).drop_last() =~= ml.subrange(0, i as int));
            insert_monster(&mut self.monsters, monsters[i].duplicate());
            i += 1;
        }
        assert(ml.subrange(0, ml.len() as int) =~= ml);
        self.ground_items = items;
        self.screen = Screen::Playing;
        let mut line = String::from_str("Welcome to ");
        push_str(&mut line, self.world.name.as_str());
        push_str(&mut line, "!");
        self.add_log(line);
    }

    pub fn remove_ground_item(&mut self, item_id: u64)
        ensures
            final(self)@ == (ClientView { ground_items: items_without(old(self)@.ground_items, item_id), ..old(self)@ }),
    {
        let ghost g0 = self.ground_items@;
        let mut kept: Vec<GroundItem> = Vec::new();
        let mut k: usize = 0;
        while k < self.ground_items.len()
            invariant
                k <= g0.len(),
                self.ground_items@ == g0,
                kept@ == items_without(g0.subrange(0, k as int), item_id),
            decreases self.ground_items.len() - k,
        {
            assert(g0.subrange(0, k + 1).drop_last() =~= g0.subrange(0, k as int));
            if self.ground_items[k].item.id != item_id {
                kept.push(self.ground_items[k].duplicate());
            }
            k += 1;
        }
        assert(g0.subrange(0, g0.len() as int) =~= g0);
        self.ground_items = kept;
    }
}

/// Puts monster `m` in: in place of the one with its id, or at the end.
pub fn insert_monster(v: &mut Vec<Monster>, m: Monster)
    ensures
        mons_view(final(v)@) == put_monster(mons_view(old(v)@), m@),
{
    let ghost s = mons_view(v@);
    match find_monster(v, m.id) {
        Some(i) => {
            v.set(i, m);
            assert(mons_view(v@) =~= s.update(i as int, m@));
        },
        None => {
            v.push(m);
            assert(mons_view(v@) =~= s.push(m@));
        },
    }
}


impl GameState {
    /// A single-player player update: the player's id becomes the client's
    /// own, and the player is put in.
    pub fn update_player(&mut self, p: Player)
        ensures
            final(self)@ == (ClientView { my_id: p.id, players: put_player(old(self)@.players, p@), ..old(self)@ }),
    {
        let ghost s = self@;
        self.my_id = p.id;
        insert_player(&mut self.players, p);
        assert(self@ =~= ClientView { my_id: p.id, players: put_player(s.players, p@), ..s });
    }

    pub fn update_monster(&mut self, m: Monster)
        ensures
            final(self)@ == (ClientView { monsters: put_monster(old(self)@.monsters, m@), ..old(self)@ }),
    {
        let ghost s = self@;
        insert_monster(&mut self.monsters, m);
        assert(self@ =~= ClientView { monsters: put_monster(s.monsters, m@), ..s });
    }

    pub fn monster_died(&mut self, id: u64, xp: u64)
        ensures
            final(self)@ == (ClientView {
                monsters: without_monster(old(self)@.monsters, id),
                log: if xp > 0 { logged(old(self)@.log, xp_line(xp)) } else { old(self)@.log },
                ..old(self)@
            }),
    {
        let ghost s = self@;
        match find_monster(&self.monsters, id) {
            Some(i) => {
                let ghost before = mons_view(self.monsters@);
                self.monsters.remove(i);
                assert(mons_view(self.monsters@) =~= before.remove(i as int));
            },
            None => {},
        }
        if xp > 0 {
            let mut line = String::from_str("You gain ");
            push_decimal(&mut line, xp);
            push_str(&mut line, " XP.");
            self.add_log(line);
        }
        assert(self@ =~= ClientView {
            monsters: without_monster(s.monsters, id),
            log: if xp > 0 { logged(s.log, xp_line(xp)) } else { s.log },
            ..s
        });
    }

    pub fn item_dropped(&mut self, g: GroundItem)
        ensures
            final(self)@ == (ClientView { ground_items: old(self)@.ground_items.push(g), ..old(self)@ }),
    {
        let ghost s = self@;
        self.ground_items.push(g);
        assert(self@ =~= ClientView { ground_items: s.ground_items.push(g), ..s });
    }

    pub fn log_level_up(&mut self, level: u32, stat_points: u32)
        ensures
            final(self)@ == (ClientView { log: logged(old(self)@.log, level_line(level, stat_points)), ..old(self)@ }),
    {
        let mut line = String::from_str("*** LEVEL UP! Level ");
        push_decimal(&mut line, level as u64);
        push_str(&mut line, " (+");
        push_decimal(&mut line, stat_points as u64);
        push_str(&mut line, " stat points) ***");
        self.add_log(line);
    }

    pub fn log_combat(&mut self, ce: CombatEvent)
        ensures
            final(self)@ == (ClientView { log: logged(old(self)@.log, combat_line(ce@)), ..old(self)@ }),
    {
        let mut line = ce.attacker;
        push_str(&mut line, " hits ");
        push_str(&mut line, ce.target.as_str());
        push_str(&mut line, " for ");
        push_decimal_i64(&mut line, ce.damage as i64);
        push_str(&mut line, if ce.is_crit { " [CRIT]" } else { "" });
        push_str(&mut line, if ce.killed { " — killed!" } else { "" });
        self.add_log(line);
    }
}


/// The log never holds more than `LOG_MAX` lines, and its last line is the
/// newest.
pub proof fn lemma_logged(log: Seq<Seq<char>>, line: Seq<char>)
    requires
        log.len() <= LOG_MAX,
    ensures
        logged(log, line).len() <= LOG_MAX,
        logged(log, line).last() == line,
        log.len() < LOG_MAX ==> logged(log, line) == log.push(line),
{
}

} // verus!
