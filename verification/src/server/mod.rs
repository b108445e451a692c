//! The multiplayer server's state and rules: accounts, characters online,
//! monsters and items on one shared map, what each client message does and
//! what each tick does. Sockets, timers and JSON are the caller's: the
//! handlers here hand back the messages to deliver.

pub mod session;
pub mod combat;
pub mod tick;
pub mod dispatch;

use vstd::prelude::*;
use rand::rngs::StdRng;
use crate::actions::{mons_bounded, Sighting};
use crate::config::{GameConfig, find_key};
use crate::entity::{ClassDef, GroundItem, Item, Monster, Player};
use crate::entity::class::{ClassView, classes_view};
use crate::world::map::MapView;
use crate::entity::monster::{MonsterView, mons_view};
use crate::entity::player::{PlayerView, spec_xp_for_level};
use crate::engine::{ids_unique, item_from};
use crate::engine::setup::{start_gear, start_item_count, make_start_gear, item_of};
use crate::engine::ai::fresh_monster;
use crate::engine::setup::populated;
use crate::mapgen::{monster_spawn_positions, spawn_ok};
use crate::mapgen::world_gen::{generate, world_ok};
use crate::protocol::ServerMsg;
use crate::rng::{range_usize, rng_from_entropy};
use crate::rules::{player_ok, monster_ok, cfg_ok, check_player, check_monster, check_cfg, XP_LIMIT, ID_LIMIT};
use crate::text::{copy_string, str_eq};
use crate::world::{GameMap, Pos, MAP_W, MAP_H};
use crate::world::combat::CombatView;

verus! {

/// A registered user: name, password and, once created, the character.
pub struct Account {
    pub username: String,
    pub password: String,
    pub player: Option<Player>,
}

/// What one client connection knows: the user it logged in as and the id
/// of the character it plays.
pub struct Session {
    pub auth_username: Option<String>,
    pub player_id: Option<u64>,
}

impl Session {
    pub fn new() -> (r: Session)
        ensures
            r.auth_username is None,
            r.player_id is None,
    {
        Session { auth_username: None, player_id: None }
    }
}

/// A server message as a value.
pub enum MsgView {
    RegisterOk,
    LoginOk,
    NeedChar { classes: Seq<ClassView> },
    CharOk,
    Error { msg: Seq<char> },
    WorldInit { player_id: u64, map: MapView, players: Seq<PlayerView>, monsters: Seq<MonsterView>, items: Seq<GroundItem> },
    PlayerUpdate(PlayerView),
    PlayerLeft(u64),
    MonsterUpdate(MonsterView),
    MonsterDied { id: u64, xp: u64 },
    ItemDropped(GroundItem),
    ItemPickedUp { item_id: u64, by: Seq<char> },
    Combat(CombatView),
    Chat { from: Seq<char>, msg: Seq<char> },
    System(Seq<char>),
    LevelUp { level: u32, stat_points: u32 },
    Pong,
}

pub open spec fn players_view(v: Seq<Player>) -> Seq<PlayerView> {
    v.map_values(|p: Player| p@)
}

impl View for ServerMsg {
    type V = MsgView;

    open spec fn view(&self) -> MsgView {
        match self {
            ServerMsg::RegisterOk => MsgView::RegisterOk,
            ServerMsg::LoginOk => MsgView::LoginOk,
            ServerMsg::NeedChar { classes } => MsgView::NeedChar { classes: classes_view(classes@) },
            ServerMsg::CharOk => MsgView::CharOk,
            ServerMsg::Error { msg } => MsgView::Error { msg: msg@ },
            ServerMsg::WorldInit { player_id, map, players, monsters, items } => MsgView::WorldInit {
                player_id: *player_id,
                map: map@,
                players: players_view(players@),
                monsters: mons_view(monsters@),
                items: items@,
            },
            ServerMsg::PlayerUpdate(p) => MsgView::PlayerUpdate(p@),
            ServerMsg::PlayerLeft(id) => MsgView::PlayerLeft(*id),
            ServerMsg::MonsterUpdate(m) => MsgView::MonsterUpdate(m@),
            ServerMsg::MonsterDied { id, xp } => MsgView::MonsterDied { id: *id, xp: *xp },
            ServerMsg::ItemDropped(g) => MsgView::ItemDropped(*g),
            ServerMsg::ItemPickedUp { item_id, by } => MsgView::ItemPickedUp { item_id: *item_id, by: by@ },
            ServerMsg::Combat(c) => MsgView::Combat(c@),
            ServerMsg::Chat { from, msg } => MsgView::Chat { from: from@, msg: msg@ },
            ServerMsg::System(s) => MsgView::System(s@),
            ServerMsg::LevelUp { level, stat_points } => MsgView::LevelUp { level: *level, stat_points: *stat_points },
            ServerMsg::Pong => MsgView::Pong,
        }
    }
}

/// A message and where it goes.
pub enum Outgoing {
    /// To the connection that sent the request.
    Reply(ServerMsg),
    /// To the connection playing the character with this id, if any.
    To(u64, ServerMsg),
    /// To every connection playing a character.
    All(ServerMsg),
    /// To every connection playing a character, but the one with this id.
    AllBut(u64, ServerMsg),
}

pub enum OutView {
    Reply(MsgView),
    To(u64, MsgView),
    All(MsgView),
    AllBut(u64, MsgView),
}

impl View for Outgoing {
    type V = OutView;

    open spec fn view(&self) -> OutView {
        match self {
            Outgoing::Reply(m) => OutView::Reply(m@),
            Outgoing::To(id, m) => OutView::To(*id, m@),
            Outgoing::All(m) => OutView::All(m@),
            Outgoing::AllBut(id, m) => OutView::AllBut(*id, m@),
        }
    }
}

pub open spec fn outs_view(v: Seq<Outgoing>) -> Seq<OutView> {
    v.map_values(|o: Outgoing| o@)
}

/// Appends a message to deliver.
pub fn send(out: &mut Vec<Outgoing>, o: Outgoing)
    ensures
        outs_view(final(out)@) == outs_view(old(out)@).push(o@),
{
    let ghost before = out@;
    out.push(o);
    assert(outs_view(out@) =~= outs_view(before).push(o@));
}

/// The server's world.
pub struct GameState {
    pub accounts: Vec<Account>,
    pub players: Vec<Player>,
    pub monsters: Vec<Monster>,
    pub ground_items: Vec<GroundItem>,
    pub map: GameMap,
    pub next_id: u64,
    pub cfg: GameConfig,
    pub tick: u64,
    pub rng: StdRng,
}

/// The index of the first account named `u`, if any.
#[verifier::opaque]
pub open spec fn account_index(s: Seq<Account>, u: Seq<char>) -> Option<int> {
    if exists|i: int| 0 <= i < s.len() && (#[trigger] s[i]).username@ == u
            && forall|j: int| 0 <= j < i ==> (#[trigger] s[j]).username@ != u {
        Some(choose|i: int| 0 <= i < s.len() && (#[trigger] s[i]).username@ == u
            && forall|j: int| 0 <= j < i ==> (#[trigger] s[j]).username@ != u)
    } else {
        None
    }
}

/// The index of the first player with id `id`, if any.
#[verifier::opaque]
pub open spec fn player_slot(s: Seq<PlayerView>, id: u64) -> Option<int> {
    if exists|i: int| 0 <= i < s.len() && (#[trigger] s[i]).id == id
            && forall|j: int| 0 <= j < i ==> (#[trigger] s[j]).id != id {
        Some(choose|i: int| 0 <= i < s.len() && (#[trigger] s[i]).id == id
            && forall|j: int| 0 <= j < i ==> (#[trigger] s[j]).id != id)
    } else {
        None
    }
}

/// The players with `p` put in: in place of the one with its id, or at the end.
pub open spec fn put_player(s: Seq<PlayerView>, p: PlayerView) -> Seq<PlayerView> {
    match player_slot(s, p.id) {
        Some(i) => s.update(i, p),
        None => s.push(p),
    }
}

pub fn find_account(v: &Vec<Account>, u: &str) -> (r: Option<usize>)
    ensures
        match account_index(v@, u@) {
            Some(i) => 0 <= i < v@.len() && r is Some && r.unwrap() as int == i,
            None => r is None,
        },
        match r {
            Some(i) => i < v@.len() && v@[i as int].username@ == u@,
            None => forall|j: int| 0 <= j < v@.len() ==> (#[trigger] v@[j]).username@ != u@,
        },
{
    let mut i: usize = 0;
    while i < v.len()
        invariant
            i <= v@.len(),
            forall|j: int| 0 <= j < i ==> (#[trigger] v@[j]).username@ != u@,
        decreases v.len() - i,
    {
        if str_eq(v[i].username.as_str(), u) {
            proof {
                reveal(account_index);
                let c = choose|c: int| 0 <= c < v@.len() && (#[trigger] v@[c]).username@ == u@
                    && forall|j: int| 0 <= j < c ==> (#[trigger] v@[j]).username@ != u@;
                assert(c == i as int) by {
                    if c > i {
                        assert(v@[i as int].username@ != u@);
                    }
                }
            }
            return Some(i);
        }
        i += 1;
    }
    proof { reveal(account_index); }
    None
}

pub fn find_player(v: &Vec<Player>, id: u64) -> (r: Option<usize>)
    ensures
        match player_slot(players_view(v@), id) {
            Some(i) => 0 <= i < v@.len() && r is Some && r.unwrap() as int == i,
            None => r is None,
        },
        match r {
            Some(i) => i < v@.len() && v@[i as int].id == id,
            None => forall|j: int| 0 <= j < v@.len() ==> (#[trigger] v@[j]).id != id,
        },
{
    let ghost s = players_view(v@);
    let mut i: usize = 0;
    while i < v.len()
        invariant
            i <= v@.len(),
            s == players_view(v@),
            forall|j: int| 0 <= j < i ==> (#[trigger] s[j]).id != id,
        decreases v.len() - i,
    {
        assert(s[i as int] == v@[i as int]@);
        if v[i].id == id {
            proof {
                reveal(player_slot);
                let c = choose|c: int| 0 <= c < s.len() && (#[trigger] s[c]).id == id
                    && forall|j: int| 0 <= j < c ==> (#[trigger] s[j]).id != id;
                assert(c == i as int) by {
                    if c > i {
                        assert(s[i as int].id != id);
                    }
                }
            }
            return Some(i);
        }
        i += 1;
    }
    proof {
        reveal(player_slot);
        assert forall|j: int| 0 <= j < v@.len() implies (#[trigger] v@[j]).id != id by {
            assert(s[j] == v@[j]@);
        }
    }
    None
}

/// Puts `p` among the players online (see `put_player`).
pub fn insert_player(v: &mut Vec<Player>, p: Player)
    ensures
        players_view(final(v)@) == put_player(players_view(old(v)@), p@),
{
    let ghost s = players_view(v@);
    match find_player(v, p.id) {
        Some(i) => {
            v.set(i, p);
            assert(players_view(v@) =~= s.update(i as int, p@));
        },
        None => {
            v.push(p);
            assert(players_view(v@) =~= s.push(p@));
        },
    }
}

/// A copy of a list of players.
pub fn copy_players(v: &Vec<Player>) -> (r: Vec<Player>)
    ensures
        players_view(r@) == players_view(v@),
{
    let mut out: Vec<Player> = Vec::new();
    let mut i: usize = 0;
    while i < v.len()
        invariant
            i <= v@.len(),
            out@.len() == i,
            forall|k: int| 0 <= k < i ==> (#[trigger] out@[k])@ == v@[k]@,
        decreases v.len() - i,
    {
        out.push(v[i].duplicate());
        i += 1;
    }
    assert(players_view(out@) =~= players_view(v@));
    out
}

/// A copy of a list of monsters.
pub fn copy_monsters(v: &Vec<Monster>) -> (r: Vec<Monster>)
    ensures
        mons_view(r@) == mons_view(v@),
{
    let mut out: Vec<Monster> = Vec::new();
    let mut i: usize = 0;
    while i < v.len()
        invariant
            i <= v@.len(),
            out@.len() == i,
            forall|k: int| 0 <= k < i ==> (#[trigger] out@[k])@ == v@[k]@,
        decreases v.len() - i,
    {
        out.push(v[i].duplicate());
        i += 1;
    }
    assert(mons_view(out@) =~= mons_view(v@));
    out
}

/// An account named `u` is found by its name.
pub proof fn lemma_account_found(s: Seq<Account>, i: int, u: Seq<char>)
    requires
        0 <= i < s.len(),
        s[i].username@ == u,
    ensures
        account_index(s, u) is Some,
{
    reveal(account_index);
    assert(exists|k: int| 0 <= k < s.len() && (#[trigger] s[k]).username@ == u);
    let k = choose|k: int| 0 <= k < s.len() && (#[trigger] s[k]).username@ == u;
    assert(exists|c: int| 0 <= c < s.len() && (#[trigger] s[c]).username@ == u
        && forall|j: int| 0 <= j < c ==> (#[trigger] s[j]).username@ != u) by {
        lemma_first_account(s, u, k);
    }
}

proof fn lemma_first_account(s: Seq<Account>, u: Seq<char>, k: int)
    requires
        0 <= k < s.len(),
        s[k].username@ == u,
    ensures
        exists|c: int| 0 <= c < s.len() && (#[trigger] s[c]).username@ == u
            && forall|j: int| 0 <= j < c ==> (#[trigger] s[j]).username@ != u,
    decreases k,
{
    if exists|j: int| 0 <= j < k && (#[trigger] s[j]).username@ == u {
        let j = choose|j: int| 0 <= j < k && (#[trigger] s[j]).username@ == u;
        lemma_first_account(s, u, j);
    } else {
        assert(forall|j: int| 0 <= j < k ==> (#[trigger] s[j]).username@ != u);
    }
}

/// Putting a player in keeps the ids unique and the positions bounded.
pub proof fn lemma_put_player(s: Seq<PlayerView>, p: PlayerView)
    requires
        player_ids_unique(s),
        players_bounded(s),
        p.pos.bounded(),
    ensures
        player_ids_unique(put_player(s, p)),
        players_bounded(put_player(s, p)),
        put_player(s, p).len() >= s.len(),
{
    reveal(player_slot);
    let t = put_player(s, p);
    match player_slot(s, p.id) {
        Some(i) => {
            assert forall|a: int, b: int| 0 <= a < b < t.len() implies (#[trigger] t[a]).id != (#[trigger] t[b]).id by {
                if a == i {
                    assert(s[b].id != s[i].id);
                } else if b == i {
                    assert(s[a].id != s[i].id);
                } else {
                    assert(s[a].id != s[b].id);
                }
            }
        },
        None => {
            assert forall|a: int, b: int| 0 <= a < b < t.len() implies (#[trigger] t[a]).id != (#[trigger] t[b]).id by {
                if b == s.len() {
                    assert(s[a].id != p.id);
                } else {
                    assert(s[a].id != s[b].id);
                }
            }
        },
    }
}

/// Where players arrive and come back after being slain: the map's center.
pub open spec fn server_home() -> Pos {
    Pos { x: 40, y: 25 }
}

pub open spec fn players_bounded(s: Seq<PlayerView>) -> bool {
    forall|i: int| 0 <= i < s.len() ==> (#[trigger] s[i]).pos.bounded()
}

pub open spec fn player_ids_unique(s: Seq<PlayerView>) -> bool {
    forall|i: int, j: int| 0 <= i < j < s.len() ==> (#[trigger] s[i]).id != (#[trigger] s[j]).id
}

impl GameState {
    pub open spec fn plist(self) -> Seq<PlayerView> {
        players_view(self.players@)
    }

    pub open spec fn mons(self) -> Seq<MonsterView> {
        mons_view(self.monsters@)
    }

    /// Structural invariant: a valid map of moderate size, a valid
    /// configuration, unique user names, unique ids of players online and of
    /// monsters, monster ids no greater than `next_id`, bounded positions, and
    /// monster templates whenever there are monsters.
    pub open spec fn wf(self) -> bool {
        &&& self.map.wf()
        &&& self.map.width <= 4096
        &&& self.map.height <= 4096
        &&& self.cfg.wf()
        &&& forall|i: int, j: int| 0 <= i < j < self.accounts@.len()
            ==> (#[trigger] self.accounts@[i]).username@ != (#[trigger] self.accounts@[j]).username@
        &&& player_ids_unique(self.plist())
        &&& players_bounded(self.plist())
        &&& forall|i: int| 0 <= i < self.accounts@.len() && (#[trigger] self.accounts@[i]).player is Some
            ==> self.accounts@[i].player.unwrap().pos.bounded()
        &&& ids_unique(self.mons())
        &&& forall|i: int| 0 <= i < self.mons().len() ==> (#[trigger] self.mons()[i]).id <= self.next_id
        &&& mons_bounded(self.mons())
        &&& self.monsters@.len() > 0 ==> self.cfg.monsters@.len() > 0
    }

    /// The game numbers are in range (see `rules`).
    pub open spec fn values_ok(self) -> bool {
        &&& forall|i: int| 0 <= i < self.plist().len() ==> player_ok(#[trigger] self.plist()[i]) && self.plist()[i].xp <= XP_LIMIT
        &&& forall|i: int| 0 <= i < self.mons().len() ==> monster_ok(#[trigger] self.mons()[i])
        &&& self.next_id <= ID_LIMIT
        &&& cfg_ok(self.cfg)
    }

    /// Whether `values_ok` holds.
    pub fn check_values(&self) -> (r: bool)
        requires
            self.cfg.wf(),
        ensures
            r == self.values_ok(),
    {
        if self.next_id > ID_LIMIT || !check_cfg(&self.cfg) {
            return false;
        }
        let ghost ps = self.plist();
        let mut i: usize = 0;
        while i < self.players.len()
            invariant
                i <= ps.len(),
                ps == self.plist(),
                forall|j: int| 0 <= j < i ==> player_ok(#[trigger] ps[j]) && ps[j].xp <= XP_LIMIT,
            decreases self.players.len() - i,
        {
            assert(ps[i as int] == self.players@[i as int]@);
            if !check_player(&self.players[i]) || self.players[i].xp > XP_LIMIT {
                return false;
            }
            i += 1;
        }
        let ghost ms = self.mons();
        let mut i: usize = 0;
        while i < self.monsters.len()
            invariant
                i <= ms.len(),
                ms == self.mons(),
                forall|j: int| 0 <= j < i ==> monster_ok(#[trigger] ms[j]),
            decreases self.monsters.len() - i,
        {
            assert(ms[i as int] == self.monsters@[i as int]@);
            if !check_monster(&self.monsters[i]) {
                return false;
            }
            i += 1;
        }
        true
    }

    /// A fresh id: one more than the last.
    pub fn new_id(&mut self) -> (r: u64)
        requires
            old(self).next_id < u64::MAX,
        ensures
            r == old(self).next_id + 1,
            final(self).next_id == r,
            final(self).accounts@ == old(self).accounts@,
            final(self).players@ == old(self).players@,
            final(self).monsters@ == old(self).monsters@,
            final(self).ground_items@ == old(self).ground_items@,
            final(self).map == old(self).map,
            final(self).cfg == old(self).cfg,
            final(self).tick == old(self).tick,
    {
        self.next_id = self.next_id + 1;
        self.next_id
    }

    /// A new item of template `template_id` with a fresh id and the
    /// template's name; none for an unknown template.
    pub fn make_item(&mut self, template_id: &str) -> (r: Option<Item>)
        requires
            old(self).cfg.wf(),
            old(self).next_id < u64::MAX,
        ensures
            final(self).accounts@ == old(self).accounts@,
            final(self).players@ == old(self).players@,
            final(self).monsters@ == old(self).monsters@,
            final(self).ground_items@ == old(self).ground_items@,
            final(self).map == old(self).map,
            final(self).cfg == old(self).cfg,
            final(self).tick == old(self).tick,
            match find_key(old(self).cfg.items@, template_id@) {
                Some(i) => {
                    &&& final(self).next_id == old(self).next_id + 1
                    &&& r is Some
                    &&& item_from(old(self).cfg.items@[i], final(self).next_id, "en"@, r.unwrap())
                },
                None => r is None && final(self).next_id == old(self).next_id,
            },
    {
        match self.cfg.item(template_id) {
            Some(t) => {
                let id = self.next_id + 1;
                let it = item_of(t, id, "en");
                self.next_id = id;
                Some(it)
            },
            None => None,
        }
    }

    /// A new character named `name` of class `class_id` with a fresh id, at
    /// the map's center with the class's starting stats and gear (items with
    /// the ids after it, named by their templates); none for an unknown class.
    pub fn spawn_player(&mut self, name: &str, class_id: &str, symbol: char, color: String) -> (r: Option<Player>)
        requires
            old(self).cfg.wf(),
            old(self).next_id <= ID_LIMIT,
        ensures
            final(self).accounts@ == old(self).accounts@,
            final(self).players@ == old(self).players@,
            final(self).monsters@ == old(self).monsters@,
            final(self).ground_items@ == old(self).ground_items@,
            final(self).map == old(self).map,
            final(self).cfg == old(self).cfg,
            final(self).tick == old(self).tick,
            match find_key(old(self).cfg.classes@, class_id@) {
                None => r is None && final(self).next_id == old(self).next_id,
                Some(ci) => r is Some && spawned(old(self).cfg, ci, name@, class_id@, symbol, color, (old(self).next_id + 1) as u64, r.unwrap())
                    && final(self).next_id == old(self).next_id + 1 + start_item_count(old(self).cfg, old(self).cfg.classes@[ci]),
            },
    {
        let cls = match self.cfg.class(class_id) {
            Some(c) => c,
            None => {
                return None;
            },
        };
        let id = self.next_id + 1;
        let (equipment, inventory, last) = make_start_gear(&self.cfg, cls, id, "en");
        let stats = cls.make_stats();
        self.next_id = last;
        Some(Player {
            id,
            name: String::from_str(name),
            class_id: String::from_str(class_id),
            symbol,
            color,
            pos: Pos::new(40, 25),
            level: 1,
            xp: 0,
            xp_next: Player::xp_for_level(2),
            stats,
            equipment,
            inventory,
            stat_points: 0,
        })
    }

    /// A monster of template `template_id` with a fresh id at `(x, y)`, named
    /// by the template; none for an unknown template.
    pub fn spawn_monster_from_template(&mut self, template_id: &str, x: i32, y: i32) -> (r: Option<Monster>)
        requires
            old(self).cfg.wf(),
            old(self).next_id < u64::MAX,
        ensures
            final(self).accounts@ == old(self).accounts@,
            final(self).players@ == old(self).players@,
            final(self).monsters@ == old(self).monsters@,
            final(self).ground_items@ == old(self).ground_items@,
            final(self).map == old(self).map,
            final(self).cfg == old(self).cfg,
            final(self).tick == old(self).tick,
            match find_key(old(self).cfg.monsters@, template_id@) {
                None => r is None && final(self).next_id == old(self).next_id,
                Some(t) => {
                    &&& final(self).next_id == old(self).next_id + 1
                    &&& r is Some
                    &&& r.unwrap()@ == old(self).cfg.monsters@[t].spec_spawn(final(self).next_id,
                        old(self).cfg.monsters@[t].name, Pos { x, y })
                },
            },
    {
        let tmpl = match self.cfg.monster_template(template_id) {
            Some(t) => t,
            None => {
                return None;
            },
        };
        let id = self.next_id + 1;
        let m = tmpl.spawn(id, copy_string(&tmpl.name), Pos::new(x, y));
        self.next_id = id;
        Some(m)
    }
}

/// `p` is a new character of the `ci`-th class with id `id`: at the map's
/// center, level 1, the class's starting stats, and its gear with the ids
/// after `id`, named by their templates.
pub open spec fn spawned(cfg: GameConfig, ci: int, name: Seq<char>, class_id: Seq<char>, symbol: char, color: String, id: u64, p: Player) -> bool {
    let cls = cfg.classes@[ci];
    &&& p.id == id
    &&& p.name@ == name
    &&& p.class_id@ == class_id
    &&& p.symbol == symbol
    &&& p.color == color
    &&& p.pos == server_home()
    &&& p.level == 1
    &&& p.xp == 0
    &&& p.xp_next == spec_xp_for_level(2)
    &&& p.stats == cls.spec_make_stats()
    &&& p.stat_points == 0
    &&& start_gear(cfg, cls, id as int, "en"@, p.equipment, p.inventory@)
}

} // verus!
