//! What each client request does to the server's world, and what it answers.

use vstd::prelude::*;
use crate::actions::{
    lemma_ground_index_push, lemma_item_index_bounds, UseOutcome, drop_from_inventory, equip_from_inventory, equipped, find_ground, ground_index, item_index,
    potion_used, use_item,
};
use crate::config::find_key;
use crate::engine::actions::{see_line, used_line, equipped_line, picked_line, dropped_line};
use crate::engine::setup::start_item_count;
use crate::entity::{GroundItem, ItemKind, Player};
use crate::entity::class::classes_view;
use crate::entity::item::{Equipment, spec_slot_name};
use crate::entity::player::PlayerView;
use crate::text::{copy_string, push_decimal_i64, push_str, str_eq};
use crate::world::Pos;
use super::{
    Account, GameState, MsgView, OutView, Outgoing, Session, account_index, copy_monsters, copy_players,
    find_account, find_player, lemma_account_found, insert_player, outs_view, player_slot, players_bounded, player_ids_unique,
    players_view, put_player, send, server_home, spawned,
};
use crate::protocol::ServerMsg;
use crate::entity::item::copy_ground_items;

verus! {

pub open spec fn welcome_line() -> Seq<char> {
    "Welcome to VoidQuest! WASD: move  F: attack  U: use item  E: equip  P: pickup  Enter: chat"@
}

/// Everything but the random generator is as in `g`.
pub open spec fn same_world(h: GameState, g: GameState) -> bool {
    &&& h.accounts@ == g.accounts@
    &&& h.players@ == g.players@
    &&& h.monsters@ == g.monsters@
    &&& h.ground_items@ == g.ground_items@
    &&& h.map == g.map
    &&& h.next_id == g.next_id
    &&& h.cfg == g.cfg
    &&& h.tick == g.tick
}

/// Everything but the players online (and the random generator) is as in `g`.
pub open spec fn same_but_players(h: GameState, g: GameState) -> bool {
    &&& h.accounts@ == g.accounts@
    &&& h.monsters@ == g.monsters@
    &&& h.ground_items@ == g.ground_items@
    &&& h.map == g.map
    &&& h.next_id == g.next_id
    &&& h.cfg == g.cfg
    &&& h.tick == g.tick
}

/// The session's user, if it is logged in, has an account.
pub open spec fn session_ok(g: GameState, s: Session) -> bool {
    s.auth_username matches Some(u) ==> account_index(g.accounts@, u@) is Some
}

/// The outcome of a registration.
pub open spec fn registered(g: GameState, s: Session, u: String, pw: String, h: GameState, s2: Session, out: Seq<OutView>) -> bool {
    match account_index(g.accounts@, u@) {
        Some(_) => {
            &&& same_world(h, g)
            &&& s2 == s
            &&& out == seq![OutView::Reply(MsgView::Error { msg: "Username already taken."@ })]
        },
        None => {
            &&& h.accounts@ == g.accounts@.push(Account { username: u, password: pw, player: None })
            &&& h.players@ == g.players@
            &&& same_but_players(h, GameState { accounts: h.accounts, ..g })
            &&& s2 == Session { auth_username: Some(u), player_id: s.player_id }
            &&& out == seq![OutView::Reply(MsgView::RegisterOk)]
        },
    }
}

/// The outcome of a login.
pub open spec fn logged_in(g: GameState, s: Session, u: String, pw: String, h: GameState, s2: Session, out: Seq<OutView>) -> bool {
    let ok = match account_index(g.accounts@, u@) {
        Some(i) => g.accounts@[i].password@ == pw@,
        None => false,
    };
    if !ok {
        &&& same_world(h, g)
        &&& s2 == s
        &&& out == seq![OutView::Reply(MsgView::Error { msg: "Invalid username or password."@ })]
    } else {
        let acc = g.accounts@[account_index(g.accounts@, u@).unwrap()];
        match acc.player {
            Some(p) => {
                &&& s2 == Session { auth_username: Some(u), player_id: Some(p.id) }
                &&& h.plist() == put_player(g.plist(), p@)
                &&& same_but_players(h, g)
                &&& out == seq![
                    OutView::Reply(MsgView::LoginOk),
                    OutView::Reply(MsgView::WorldInit {
                        player_id: p.id,
                        map: g.map@,
                        players: h.plist(),
                        monsters: g.mons(),
                        items: g.ground_items@,
                    }),
                    OutView::AllBut(p.id, MsgView::PlayerUpdate(p@)),
                ]
            },
            None => {
                &&& same_world(h, g)
                &&& s2 == Session { auth_username: Some(u), player_id: s.player_id }
                &&& out == seq![
                    OutView::Reply(MsgView::LoginOk),
                    OutView::Reply(MsgView::NeedChar { classes: classes_view(g.cfg.classes@) }),
                ]
            },
        }
    }
}

/// Whether a character online or saved in an account has this name.
pub open spec fn name_taken(g: GameState, name: Seq<char>) -> bool {
    (exists|i: int| 0 <= i < g.plist().len() && (#[trigger] g.plist()[i]).name@ == name)
        || (exists|i: int| 0 <= i < g.accounts@.len() && (#[trigger] g.accounts@[i]).player is Some
            && g.accounts@[i].player.unwrap().name@ == name)
}

/// The outcome of creating a character.
pub open spec fn char_created(
    g: GameState,
    s: Session,
    name: Seq<char>,
    class_id: Seq<char>,
    symbol: char,
    color: String,
    h: GameState,
    s2: Session,
    out: Seq<OutView>,
) -> bool {
    match s.auth_username {
        None => same_world(h, g) && s2 == s && out == seq![OutView::Reply(MsgView::Error { msg: "Not logged in."@ })],
        Some(u) => match find_key(g.cfg.classes@, class_id) {
            None => {
                &&& same_world(h, g)
                &&& s2 == s
                &&& out == seq![OutView::Reply(MsgView::Error { msg: "Unknown class: "@ + class_id })]
            },
            Some(ci) => if name_taken(g, name) {
                &&& same_world(h, g)
                &&& s2 == s
                &&& out == seq![OutView::Reply(MsgView::Error { msg: "Character name already in use."@ })]
            } else {
                let pid = (g.next_id + 1) as u64;
                let ai = account_index(g.accounts@, u@).unwrap();
                let q = h.accounts@[ai].player.unwrap();
                &&& h.accounts@.len() == g.accounts@.len()
                &&& forall|k: int| 0 <= k < g.accounts@.len() && k != ai ==> h.accounts@[k] == g.accounts@[k]
                &&& h.accounts@[ai].username == g.accounts@[ai].username
                &&& h.accounts@[ai].password == g.accounts@[ai].password
                &&& h.accounts@[ai].player is Some
                &&& spawned(g.cfg, ci, name, class_id, symbol, color, pid, q)
                &&& h.plist() == put_player(g.plist(), q@)
                &&& h.next_id == pid + start_item_count(g.cfg, g.cfg.classes@[ci])
                &&& h.monsters@ == g.monsters@
                &&& h.ground_items@ == g.ground_items@
                &&& h.map == g.map
                &&& h.cfg == g.cfg
                &&& h.tick == g.tick
                &&& s2 == Session { auth_username: s.auth_username, player_id: Some(pid) }
                &&& out == seq![
                    OutView::Reply(MsgView::CharOk),
                    OutView::Reply(MsgView::WorldInit {
                        player_id: pid,
                        map: g.map@,
                        players: h.plist(),
                        monsters: g.mons(),
                        items: g.ground_items@,
                    }),
                    OutView::AllBut(pid, MsgView::PlayerUpdate(q@)),
                    OutView::To(pid, MsgView::System(welcome_line())),
                ]
            },
        },
    }
}

/// The session's character online, as an index into the players.
pub open spec fn my_slot(g: GameState, s: Session) -> Option<int> {
    match s.player_id {
        Some(pid) => player_slot(g.plist(), pid),
        None => None,
    }
}

/// Whether any monster stands at `p`.
pub open spec fn monster_on(s: Seq<crate::entity::monster::MonsterView>, p: Pos) -> bool {
    exists|i: int| 0 <= i < s.len() && (#[trigger] s[i]).pos == p
}

/// Whether a player other than `pid` stands at `p`.
pub open spec fn other_player_on(s: Seq<PlayerView>, pid: u64, p: Pos) -> bool {
    exists|i: int| 0 <= i < s.len() && (#[trigger] s[i]).id != pid && s[i].pos == p
}

/// The outcome of a step of `(dx, dy)`: a living character steps onto a
/// walkable tile that no monster and no other character holds; a step whose
/// coordinates leave `i32` goes nowhere.
pub open spec fn stepped(g: GameState, s: Session, dx: i32, dy: i32, h: GameState, out: Seq<OutView>) -> bool {
    match my_slot(g, s) {
        None => same_world(h, g) && out.len() == 0,
        Some(i) => {
            let p = g.plist()[i];
            let pid = p.id;
            let fits = i32::MIN <= p.pos.x + dx <= i32::MAX && i32::MIN <= p.pos.y + dy <= i32::MAX;
            let np = Pos { x: (p.pos.x + dx) as i32, y: (p.pos.y + dy) as i32 };
            if !(p.stats.hp > 0) || !fits || !g.map.spec_passable(np.x as int, np.y as int)
                || monster_on(g.mons(), np) || other_player_on(g.plist(), pid, np) {
                same_world(h, g) && out.len() == 0
            } else {
                let p2 = PlayerView { pos: np, ..p };
                let see = match ground_index(g.ground_items@, np) {
                    Some(k) => seq![OutView::To(pid, MsgView::System(see_line(g.ground_items@[k].item.name@)))],
                    None => Seq::empty(),
                };
                &&& h.plist() == g.plist().update(i, p2)
                &&& same_but_players(h, g)
                &&& out == see + seq![OutView::All(MsgView::PlayerUpdate(p2))]
            }
        },
    }
}

/// The outcome of using inventory item `id`.
pub open spec fn item_used(g: GameState, s: Session, id: u64, h: GameState, out: Seq<OutView>) -> bool {
    match my_slot(g, s) {
        None => same_world(h, g) && out.len() == 0,
        Some(i) => {
            let p = g.plist()[i];
            match item_index(p.inventory, id) {
                None => same_but_players(h, g) && h.plist() == g.plist() && out.len() == 0,
                Some(k) => match p.inventory[k].kind {
                    ItemKind::Potion { hp, mp } => {
                        let p2 = potion_used(p, k, hp, mp);
                        &&& h.plist() == g.plist().update(i, p2)
                        &&& same_but_players(h, g)
                        &&& out == seq![
                            OutView::To(p.id, MsgView::System(used_line(p.inventory[k].name@, hp, mp))),
                            OutView::To(p.id, MsgView::PlayerUpdate(p2)),
                        ]
                    },
                    _ => {
                        &&& same_but_players(h, g)
                        &&& h.plist() == g.plist()
                        &&& out == seq![OutView::To(p.id, MsgView::Error { msg: "That item is not a consumable."@ })]
                    },
                },
            }
        },
    }
}

/// The outcome of equipping inventory item `id`.
pub open spec fn item_equipped(g: GameState, s: Session, id: u64, h: GameState, out: Seq<OutView>) -> bool {
    match my_slot(g, s) {
        None => same_world(h, g) && out.len() == 0,
        Some(i) => {
            let p = g.plist()[i];
            match item_index(p.inventory, id) {
                None => same_but_players(h, g) && h.plist() == g.plist() && out.len() == 0,
                Some(k) => {
                    let it = p.inventory[k];
                    let p2 = equipped(p, k);
                    &&& h.plist() == g.plist().update(i, p2)
                    &&& same_but_players(h, g)
                    &&& out == seq![
                        OutView::To(p.id, MsgView::System(equipped_line(it.name@, spec_slot_name(it.kind)))),
                        OutView::To(p.id, MsgView::PlayerUpdate(p2)),
                    ]
                },
            }
        },
    }
}

/// The outcome of picking up what lies on the character's tile.
pub open spec fn picked_up(g: GameState, s: Session, h: GameState, out: Seq<OutView>) -> bool {
    match my_slot(g, s) {
        None => same_world(h, g) && out.len() == 0,
        Some(i) => {
            let p = g.plist()[i];
            match ground_index(g.ground_items@, p.pos) {
                None => {
                    &&& same_world(h, g)
                    &&& out == seq![OutView::To(p.id, MsgView::Error { msg: "Nothing to pick up here."@ })]
                },
                Some(k) => {
                    let gi = g.ground_items@[k];
                    let p2 = PlayerView { inventory: p.inventory.push(gi.item), ..p };
                    &&& h.plist() == g.plist().update(i, p2)
                    &&& h.ground_items@ == g.ground_items@.remove(k)
                    &&& same_but_players(h, GameState { ground_items: h.ground_items, ..g })
                    &&& out == seq![
                        OutView::All(MsgView::ItemPickedUp { item_id: gi.item.id, by: p.name@ }),
                        OutView::To(p.id, MsgView::System(picked_line(gi.item.name@))),
                        OutView::To(p.id, MsgView::PlayerUpdate(p2)),
                    ]
                },
            }
        },
    }
}

/// The outcome of dropping inventory item `id`.
pub open spec fn item_dropped(g: GameState, s: Session, id: u64, h: GameState, out: Seq<OutView>) -> bool {
    match my_slot(g, s) {
        None => same_world(h, g) && out.len() == 0,
        Some(i) => {
            let p = g.plist()[i];
            match item_index(p.inventory, id) {
                None => same_but_players(h, g) && h.plist() == g.plist() && out.len() == 0,
                Some(k) => {
                    let gi = GroundItem { item: p.inventory[k], pos: p.pos };
                    let p2 = PlayerView { inventory: p.inventory.remove(k), ..p };
                    &&& h.plist() == g.plist().update(i, p2)
                    &&& h.ground_items@ == g.ground_items@.push(gi)
                    &&& same_but_players(h, GameState { ground_items: h.ground_items, ..g })
                    &&& out == seq![
                        OutView::All(MsgView::ItemDropped(gi)),
                        OutView::To(p.id, MsgView::System(dropped_line(gi.item.name@))),
                        OutView::To(p.id, MsgView::PlayerUpdate(p2)),
                    ]
                },
            }
        },
    }
}

/// The first account whose saved character has id `pid`, if any.
#[verifier::opaque]
pub open spec fn account_of(s: Seq<Account>, pid: u64) -> Option<int> {
    if exists|i: int| 0 <= i < s.len() && (#[trigger] s[i]).player is Some && s[i].player.unwrap().id == pid
            && forall|j: int| 0 <= j < i ==> !((#[trigger] s[j]).player is Some && s[j].player.unwrap().id == pid) {
        Some(choose|i: int| 0 <= i < s.len() && (#[trigger] s[i]).player is Some && s[i].player.unwrap().id == pid
            && forall|j: int| 0 <= j < i ==> !((#[trigger] s[j]).player is Some && s[j].player.unwrap().id == pid))
    } else {
        None
    }
}

/// Finds the first account whose saved character has id `pid`.
pub fn find_owner(v: &Vec<Account>, pid: u64) -> (r: Option<usize>)
    ensures
        match account_of(v@, pid) {
            Some(a) => r is Some && r.unwrap() as int == a && a < v@.len(),
            None => r is None,
        },
{
    let mut a: usize = 0;
    while a < v.len()
        invariant
            a <= v@.len(),
            forall|j: int| 0 <= j < a ==> !((#[trigger] v@[j]).player is Some && v@[j].player.unwrap().id == pid),
        decreases v.len() - a,
    {
        let hit = match &v[a].player {
            Some(q) => q.id == pid,
            None => false,
        };
        if hit {
            proof {
                reveal(account_of);
                let c = choose|c: int| 0 <= c < v@.len() && (#[trigger] v@[c]).player is Some
                    && v@[c].player.unwrap().id == pid
                    && forall|j: int| 0 <= j < c ==> !((#[trigger] v@[j]).player is Some && v@[j].player.unwrap().id == pid);
                assert(c == a as int) by {
                    if c > a {
                        assert(v@[a as int].player is Some);
                    }
                }
            }
            return Some(a);
        }
        a += 1;
    }
    proof { reveal(account_of); }
    None
}

/// The outcome of a connection closing: its character leaves the world and
/// is saved to the account it came from; everyone is told.
pub open spec fn left(g: GameState, s: Session, h: GameState, out: Seq<OutView>) -> bool {
    match my_slot(g, s) {
        None => same_world(h, g) && out.len() == 0,
        Some(i) => {
            let p = g.players@[i];
            &&& h.players@ == g.players@.remove(i)
            &&& h.accounts@ == match account_of(g.accounts@, p.id) {
                Some(a) => g.accounts@.update(a, Account { player: Some(p), ..g.accounts@[a] }),
                None => g.accounts@,
            }
            &&& h.monsters@ == g.monsters@
            &&& h.ground_items@ == g.ground_items@
            &&& h.map == g.map
            &&& h.next_id == g.next_id
            &&& h.cfg == g.cfg
            &&& h.tick == g.tick
            &&& out == seq![OutView::All(MsgView::PlayerLeft(p.id))]
        },
    }
}

impl GameState {
    /// Registers user `username`; a taken name is refused.
    pub fn register(&mut self, sess: &mut Session, username: String, password: String) -> (out: Vec<Outgoing>)
        requires
            old(self).wf(),
        ensures
            final(self).wf(),
            registered(*old(self), *old(sess), username, password, *final(self), *final(sess), outs_view(out@)),
    {
        let mut out: Vec<Outgoing> = Vec::new();
        match find_account(&self.accounts, username.as_str()) {
            Some(_) => {
                send(&mut out, Outgoing::Reply(ServerMsg::Error { msg: String::from_str("Username already taken.") }));
                assert(outs_view(out@) =~= seq![OutView::Reply(MsgView::Error { msg: "Username already taken."@ })]);
            },
            None => {
                let ghost before = self.accounts@;
                let name2 = copy_string(&username);
                self.accounts.push(Account { username, password, player: None });
                proof {
                    assert forall|i: int, j: int| 0 <= i < j < self.accounts@.len()
                        implies (#[trigger] self.accounts@[i]).username@ != (#[trigger] self.accounts@[j]).username@ by {
                        if j == self.accounts@.len() - 1 {
                            assert(before[i].username@ != name2@);
                        }
                    }
                }
                sess.auth_username = Some(name2);
                send(&mut out, Outgoing::Reply(ServerMsg::RegisterOk));
                assert(outs_view(out@) =~= seq![OutView::Reply(MsgView::RegisterOk)]);
            },
        }
        out
    }

    /// Logs in as `username`; with a saved character it enters the world,
    /// else the classes to create one are sent.
    pub fn login(&mut self, sess: &mut Session, username: String, password: String) -> (out: Vec<Outgoing>)
        requires
            old(self).wf(),
        ensures
            final(self).wf(),
            logged_in(*old(self), *old(sess), username, password, *final(self), *final(sess), outs_view(out@)),
    {
        let mut out: Vec<Outgoing> = Vec::new();
        let ai = match find_account(&self.accounts, username.as_str()) {
            Some(i) => i,
            None => {
                send(&mut out, Outgoing::Reply(ServerMsg::Error { msg: String::from_str("Invalid username or password.") }));
                assert(outs_view(out@) =~= seq![OutView::Reply(MsgView::Error { msg: "Invalid username or password."@ })]);
                return out;
            },
        };
        if !str_eq(self.accounts[ai].password.as_str(), password.as_str()) {
            send(&mut out, Outgoing::Reply(ServerMsg::Error { msg: String::from_str("Invalid username or password.") }));
            assert(outs_view(out@) =~= seq![OutView::Reply(MsgView::Error { msg: "Invalid username or password."@ })]);
            return out;
        }
        let ghost g = *self;
        sess.auth_username = Some(copy_string(&username));
        match &self.accounts[ai].player {
            Some(p) => {
                let pid = p.id;
                let pc = p.duplicate();
                let pc2 = p.duplicate();
                proof {
                    assert(g.accounts@[ai as int].player.unwrap().pos.bounded());
                    super::lemma_put_player(g.plist(), pc@);
                }
                sess.player_id = Some(pid);
                insert_player(&mut self.players, pc);
                send(&mut out, Outgoing::Reply(ServerMsg::LoginOk));
                send(&mut out, Outgoing::Reply(ServerMsg::WorldInit {
                    player_id: pid,
                    map: self.map.duplicate(),
                    players: copy_players(&self.players),
                    monsters: copy_monsters(&self.monsters),
                    items: copy_ground_items(&self.ground_items),
                }));
                send(&mut out, Outgoing::AllBut(pid, ServerMsg::PlayerUpdate(pc2)));
                assert(outs_view(out@) =~= seq![outs_view(out@)[0], outs_view(out@)[1], outs_view(out@)[2]]);
            },
            None => {
                send(&mut out, Outgoing::Reply(ServerMsg::LoginOk));
                send(&mut out, Outgoing::Reply(ServerMsg::NeedChar { classes: crate::entity::class::copy_classes(&self.cfg.classes) }));
                assert(outs_view(out@) =~= seq![outs_view(out@)[0], outs_view(out@)[1]]);
            },
        }
        out
    }

    fn name_in_use(&self, name: &str) -> (r: bool)
        ensures
            r == name_taken(*self, name@),
    {
        let ghost ps = self.plist();
        let mut i: usize = 0;
        while i < self.players.len()
            invariant
                i <= ps.len(),
                ps == self.plist(),
                forall|j: int| 0 <= j < i ==> (#[trigger] ps[j]).name@ != name@,
            decreases self.players.len() - i,
        {
            assert(ps[i as int] == self.players@[i as int]@);
            if str_eq(self.players[i].name.as_str(), name) {
                return true;
            }
            i += 1;
        }
        let mut i: usize = 0;
        while i < self.accounts.len()
            invariant
                i <= self.accounts@.len(),
                ps == self.plist(),
                forall|j: int| 0 <= j < ps.len() ==> (#[trigger] ps[j]).name@ != name@,
                forall|j: int| 0 <= j < i ==> !((#[trigger] self.accounts@[j]).player is Some
                    && self.accounts@[j].player.unwrap().name@ == name@),
            decreases self.accounts.len() - i,
        {
            match &self.accounts[i].player {
                Some(p) => {
                    if str_eq(p.name.as_str(), name) {
                        return true;
                    }
                },
                None => {},
            }
            i += 1;
        }
        false
    }

    /// Creates the logged-in user's character named `name` of class
    /// `class_id`, saves it to the account and enters the world with it.
    pub fn create_char(&mut self, sess: &mut Session, name: String, class_id: String, symbol: char, color: String)
        -> (out: Vec<Outgoing>)
        requires
            old(self).wf(),
            old(self).next_id <= crate::rules::ID_LIMIT,
            session_ok(*old(self), *old(sess)),
        ensures
            final(self).wf(),
            session_ok(*final(self), *final(sess)),
            char_created(*old(self), *old(sess), name@, class_id@, symbol, color, *final(self), *final(sess), outs_view(out@)),
    {
        let mut out: Vec<Outgoing> = Vec::new();
        let u = match &sess.auth_username {
            Some(u) => copy_string(u),
            None => {
                send(&mut out, Outgoing::Reply(ServerMsg::Error { msg: String::from_str("Not logged in.") }));
                assert(outs_view(out@) =~= seq![OutView::Reply(MsgView::Error { msg: "Not logged in."@ })]);
                return out;
            },
        };
        if self.cfg.class(class_id.as_str()).is_none() {
            let mut msg = String::from_str("Unknown class: ");
            push_str(&mut msg, class_id.as_str());
            send(&mut out, Outgoing::Reply(ServerMsg::Error { msg }));
            assert(outs_view(out@) =~= seq![OutView::Reply(MsgView::Error { msg: "Unknown class: "@ + class_id@ })]);
            return out;
        }
        if self.name_in_use(name.as_str()) {
            send(&mut out, Outgoing::Reply(ServerMsg::Error { msg: String::from_str("Character name already in use.") }));
            assert(outs_view(out@) =~= seq![OutView::Reply(MsgView::Error { msg: "Character name already in use."@ })]);
            return out;
        }
        let ghost g = *self;
        let ai = match find_account(&self.accounts, u.as_str()) {
            Some(a) => a,
            None => {
                proof { assert(false); }
                return out;
            },
        };
        let player = match self.spawn_player(name.as_str(), class_id.as_str(), symbol, color) {
            Some(p) => p,
            None => {
                proof { assert(false); }
                return out;
            },
        };
        let pid = player.id;
        sess.player_id = Some(pid);
        let saved = player.duplicate();
        let online = player.duplicate();
        let shown = player.duplicate();
        let ghost acc0 = self.accounts@;
        self.accounts[ai].player = Some(saved);
        proof {
            super::lemma_put_player(g.plist(), online@);
            assert forall|i: int, j: int| 0 <= i < j < self.accounts@.len()
                implies (#[trigger] self.accounts@[i]).username@ != (#[trigger] self.accounts@[j]).username@ by {
                assert(acc0[i].username == self.accounts@[i].username);
                assert(acc0[j].username == self.accounts@[j].username);
            }
            assert forall|i: int| 0 <= i < self.accounts@.len() && (#[trigger] self.accounts@[i]).player is Some
                implies self.accounts@[i].player.unwrap().pos.bounded() by {
                if i != ai {
                    assert(self.accounts@[i] == acc0[i]);
                }
            }
        }
        insert_player(&mut self.players, online);
        send(&mut out, Outgoing::Reply(ServerMsg::CharOk));
        send(&mut out, Outgoing::Reply(ServerMsg::WorldInit {
            player_id: pid,
            map: self.map.duplicate(),
            players: copy_players(&self.players),
            monsters: copy_monsters(&self.monsters),
            items: copy_ground_items(&self.ground_items),
        }));
        send(&mut out, Outgoing::AllBut(pid, ServerMsg::PlayerUpdate(shown)));
        send(&mut out, Outgoing::To(pid, ServerMsg::System(String::from_str(
            "Welcome to VoidQuest! WASD: move  F: attack  U: use item  E: equip  P: pickup  Enter: chat",
        ))));
        proof {
            assert(outs_view(out@) =~= seq![outs_view(out@)[0], outs_view(out@)[1], outs_view(out@)[2], outs_view(out@)[3]]);
            assert forall|a: int| 0 <= a < self.accounts@.len() && a != ai implies self.accounts@[a] == g.accounts@[a] by {}
            super::lemma_account_found(self.accounts@, ai as int, u@);
        }
        out
    }

    /// The session's character, as an index into the players online.
    pub fn my_index(&self, sess: &Session) -> (r: Option<usize>)
        ensures
            match my_slot(*self, *sess) {
                Some(i) => r is Some && r.unwrap() as int == i && i < self.players@.len(),
                None => r is None,
            },
    {
        match sess.player_id {
            Some(pid) => find_player(&self.players, pid),
            None => None,
        }
    }

    /// Moves the session's character by `(dx, dy)` (see `stepped`).
    #[verifier::loop_isolation(false)]
    pub fn move_player(&mut self, sess: &Session, dx: i32, dy: i32) -> (out: Vec<Outgoing>)
        requires
            old(self).wf(),
        ensures
            final(self).wf(),
            stepped(*old(self), *sess, dx, dy, *final(self), outs_view(out@)),
    {
        let mut out: Vec<Outgoing> = Vec::new();
        let i = match self.my_index(sess) {
            Some(i) => i,
            None => {
                return out;
            },
        };
        let ghost g = *self;
        assert(g.plist()[i as int] == self.players@[i as int]@);
        let pid = self.players[i].id;
        if !self.players[i].stats.is_alive() {
            return out;
        }
        let px = self.players[i].pos.x as i64 + dx as i64;
        let py = self.players[i].pos.y as i64 + dy as i64;
        if px < i32::MIN as i64 || px > i32::MAX as i64 || py < i32::MIN as i64 || py > i32::MAX as i64 {
            return out;
        }
        let np = Pos::new(px as i32, py as i32);
        if !self.map.passable(np.x, np.y) {
            return out;
        }
        let ghost ms = self.mons();
        let mut k: usize = 0;
        while k < self.monsters.len()
            invariant
                k <= ms.len(),
                ms == self.mons(),
                *self == g,
                forall|j: int| 0 <= j < k ==> (#[trigger] ms[j]).pos != np,
            decreases self.monsters.len() - k,
        {
            assert(ms[k as int] == self.monsters@[k as int]@);
            if self.monsters[k].pos == np {
                assert(monster_on(ms, np));
                return out;
            }
            k += 1;
        }
        let ghost ps = self.plist();
        let mut k: usize = 0;
        while k < self.players.len()
            invariant
                k <= ps.len(),
                ps == self.plist(),
                *self == g,
                forall|j: int| 0 <= j < k ==> !((#[trigger] ps[j]).id != pid && ps[j].pos == np),
            decreases self.players.len() - k,
        {
            assert(ps[k as int] == self.players@[k as int]@);
            if self.players[k].id != pid && self.players[k].pos == np {
                assert(other_player_on(ps, pid, np));
                return out;
            }
            k += 1;
        }
        self.players[i].pos = np;
        proof {
            assert(self.plist() =~= g.plist().update(i as int, PlayerView { pos: np, ..g.plist()[i as int] }));
            assert(self.map.in_bounds(np.x as int, np.y as int));
            assert forall|a: int, b: int| 0 <= a < b < self.plist().len() implies (#[trigger] self.plist()[a]).id != (#[trigger] self.plist()[b]).id by {
                assert(g.plist()[a].id != g.plist()[b].id);
            }
        }
        match find_ground(&self.ground_items, np) {
            Some(gk) => {
                let mut line = String::from_str("You see '");
                push_str(&mut line, self.ground_items[gk].item.name.as_str());
                push_str(&mut line, "' here. Press P to pick it up.");
                send(&mut out, Outgoing::To(pid, ServerMsg::System(line)));
            },
            None => {},
        }
        send(&mut out, Outgoing::All(ServerMsg::PlayerUpdate(self.players[i].duplicate())));
        proof {
            let o = outs_view(out@);
            if o.len() == 2 {
                assert(o =~= seq![o[0]] + seq![o[1]]);
            } else {
                assert(o =~= Seq::<OutView>::empty() + seq![o[0]]);
            }
        }
        out
    }

    /// Drinks the potion with id `item_id` (see `item_used`).
    pub fn use_item(&mut self, sess: &Session, item_id: u64) -> (out: Vec<Outgoing>)
        requires
            old(self).wf(),
            old(self).values_ok(),
        ensures
            final(self).wf(),
            item_used(*old(self), *sess, item_id, *final(self), outs_view(out@)),
    {
        let mut out: Vec<Outgoing> = Vec::new();
        let i = match self.my_index(sess) {
            Some(i) => i,
            None => {
                return out;
            },
        };
        let ghost g = *self;
        assert(g.plist()[i as int] == self.players@[i as int]@);
        assert(crate::rules::player_ok(g.plist()[i as int]));
        let pid = self.players[i].id;
        match use_item(&mut self.players[i], item_id) {
            UseOutcome::NotFound => {
                assert(self.plist() =~= g.plist());
            },
            UseOutcome::NotConsumable => {
                assert(self.plist() =~= g.plist());
                send(&mut out, Outgoing::To(pid, ServerMsg::Error { msg: String::from_str("That item is not a consumable.") }));
                assert(outs_view(out@) =~= seq![OutView::To(pid, MsgView::Error { msg: "That item is not a consumable."@ })]);
            },
            UseOutcome::Used { name, hp, mp } => {
                let mut line = String::from_str("Used ");
                push_str(&mut line, name.as_str());
                push_str(&mut line, ". HP +");
                push_decimal_i64(&mut line, hp as i64);
                push_str(&mut line, " MP +");
                push_decimal_i64(&mut line, mp as i64);
                send(&mut out, Outgoing::To(pid, ServerMsg::System(line)));
                send(&mut out, Outgoing::To(pid, ServerMsg::PlayerUpdate(self.players[i].duplicate())));
                assert(outs_view(out@) =~= seq![outs_view(out@)[0], outs_view(out@)[1]]);
            },
        }
        proof {
            assert(self.plist() =~= g.plist().update(i as int, self.players@[i as int]@));
            assert forall|a: int, b: int| 0 <= a < b < self.plist().len() implies (#[trigger] self.plist()[a]).id != (#[trigger] self.plist()[b]).id by {
                assert(g.plist()[a].id != g.plist()[b].id);
            }
            assert forall|a: int| 0 <= a < self.plist().len() implies (#[trigger] self.plist()[a]).pos.bounded() by {
                assert(g.plist()[a].pos.bounded());
            }
        }
        out
    }

    /// Equips inventory item `item_id` (see `item_equipped`).
    pub fn equip(&mut self, sess: &Session, item_id: u64) -> (out: Vec<Outgoing>)
        requires
            old(self).wf(),
        ensures
            final(self).wf(),
            item_equipped(*old(self), *sess, item_id, *final(self), outs_view(out@)),
    {
        let mut out: Vec<Outgoing> = Vec::new();
        let i = match self.my_index(sess) {
            Some(i) => i,
            None => {
                return out;
            },
        };
        let ghost g = *self;
        assert(g.plist()[i as int] == self.players@[i as int]@);
        let pid = self.players[i].id;
        match equip_from_inventory(&mut self.players[i], item_id) {
            None => {
                assert(self.plist() =~= g.plist());
            },
            Some(item) => {
                let mut line = String::from_str("Equipped ");
                push_str(&mut line, item.name.as_str());
                push_str(&mut line, " in ");
                push_str(&mut line, Equipment::slot_name(&item.kind));
                push_str(&mut line, " slot.");
                send(&mut out, Outgoing::To(pid, ServerMsg::System(line)));
                send(&mut out, Outgoing::To(pid, ServerMsg::PlayerUpdate(self.players[i].duplicate())));
                assert(outs_view(out@) =~= seq![outs_view(out@)[0], outs_view(out@)[1]]);
            },
        }
        proof {
            assert(self.plist() =~= g.plist().update(i as int, self.players@[i as int]@));
            assert forall|a: int, b: int| 0 <= a < b < self.plist().len() implies (#[trigger] self.plist()[a]).id != (#[trigger] self.plist()[b]).id by {
                assert(g.plist()[a].id != g.plist()[b].id);
            }
            assert forall|a: int| 0 <= a < self.plist().len() implies (#[trigger] self.plist()[a]).pos.bounded() by {
                assert(g.plist()[a].pos.bounded());
            }
        }
        out
    }

    /// Picks up the first item on the session's character's tile.
    pub fn pickup(&mut self, sess: &Session) -> (out: Vec<Outgoing>)
        requires
            old(self).wf(),
        ensures
            final(self).wf(),
            picked_up(*old(self), *sess, *final(self), outs_view(out@)),
    {
        let mut out: Vec<Outgoing> = Vec::new();
        let i = match self.my_index(sess) {
            Some(i) => i,
            None => {
                return out;
            },
        };
        let ghost g = *self;
        assert(g.plist()[i as int] == self.players@[i as int]@);
        let pid = self.players[i].id;
        let pos = self.players[i].pos;
        match find_ground(&self.ground_items, pos) {
            None => {
                send(&mut out, Outgoing::To(pid, ServerMsg::Error { msg: String::from_str("Nothing to pick up here.") }));
                assert(outs_view(out@) =~= seq![OutView::To(pid, MsgView::Error { msg: "Nothing to pick up here."@ })]);
            },
            Some(k) => {
                let gi = self.ground_items.remove(k);
                let item_id = gi.item.id;
                let mut line = String::from_str("Picked up ");
                push_str(&mut line, gi.item.name.as_str());
                push_str(&mut line, ".");
                let by = copy_string(&self.players[i].name);
                self.players[i].inventory.push(gi.item);
                send(&mut out, Outgoing::All(ServerMsg::ItemPickedUp { item_id, by }));
                send(&mut out, Outgoing::To(pid, ServerMsg::System(line)));
                send(&mut out, Outgoing::To(pid, ServerMsg::PlayerUpdate(self.players[i].duplicate())));
                proof {
                    assert(outs_view(out@) =~= seq![outs_view(out@)[0], outs_view(out@)[1], outs_view(out@)[2]]);
                    assert(self.plist() =~= g.plist().update(i as int, self.players@[i as int]@));
                    assert(self.players@[i as int]@ =~= PlayerView { inventory: g.plist()[i as int].inventory.push(gi.item), ..g.plist()[i as int] });
                    assert forall|a: int, b: int| 0 <= a < b < self.plist().len() implies (#[trigger] self.plist()[a]).id != (#[trigger] self.plist()[b]).id by {
                        assert(g.plist()[a].id != g.plist()[b].id);
                    }
                    assert forall|a: int| 0 <= a < self.plist().len() implies (#[trigger] self.plist()[a]).pos.bounded() by {
                        assert(g.plist()[a].pos.bounded());
                    }
                }
            },
        }
        out
    }

    /// Drops inventory item `item_id` on the session's character's tile.
    pub fn drop_item(&mut self, sess: &Session, item_id: u64) -> (out: Vec<Outgoing>)
        requires
            old(self).wf(),
        ensures
            final(self).wf(),
            item_dropped(*old(self), *sess, item_id, *final(self), outs_view(out@)),
    {
        let mut out: Vec<Outgoing> = Vec::new();
        let i = match self.my_index(sess) {
            Some(i) => i,
            None => {
                return out;
            },
        };
        let ghost g = *self;
        assert(g.plist()[i as int] == self.players@[i as int]@);
        let pid = self.players[i].id;
        let pos = self.players[i].pos;
        match drop_from_inventory(&mut self.players[i], item_id, pos) {
            None => {
                assert(self.plist() =~= g.plist());
            },
            Some(gi) => {
                let mut line = String::from_str("Dropped ");
                push_str(&mut line, gi.item.name.as_str());
                push_str(&mut line, ".");
                send(&mut out, Outgoing::All(ServerMsg::ItemDropped(gi.duplicate())));
                self.ground_items.push(gi);
                send(&mut out, Outgoing::To(pid, ServerMsg::System(line)));
                send(&mut out, Outgoing::To(pid, ServerMsg::PlayerUpdate(self.players[i].duplicate())));
                assert(outs_view(out@) =~= seq![outs_view(out@)[0], outs_view(out@)[1], outs_view(out@)[2]]);
            },
        }
        proof {
            assert(self.plist() =~= g.plist().update(i as int, self.players@[i as int]@));
            assert forall|a: int, b: int| 0 <= a < b < self.plist().len() implies (#[trigger] self.plist()[a]).id != (#[trigger] self.plist()[b]).id by {
                assert(g.plist()[a].id != g.plist()[b].id);
            }
            assert forall|a: int| 0 <= a < self.plist().len() implies (#[trigger] self.plist()[a]).pos.bounded() by {
                assert(g.plist()[a].pos.bounded());
            }
        }
        out
    }

    /// A chat line from the session's character, to everyone.
    pub fn chat(&self, sess: &Session, msg: String) -> (out: Vec<Outgoing>)
        ensures
            outs_view(out@) == match my_slot(*self, *sess) {
                Some(i) => seq![OutView::All(MsgView::Chat { from: self.plist()[i].name@, msg: msg@ })],
                None => Seq::empty(),
            },
    {
        let mut out: Vec<Outgoing> = Vec::new();
        match self.my_index(sess) {
            Some(i) => {
                assert(self.plist()[i as int] == self.players@[i as int]@);
                let from = copy_string(&self.players[i].name);
                send(&mut out, Outgoing::All(ServerMsg::Chat { from, msg }));
                assert(outs_view(out@) =~= seq![outs_view(out@)[0]]);
            },
            None => {
                assert(outs_view(out@) =~= Seq::<OutView>::empty());
            },
        }
        out
    }

    /// The session's connection closed (see `left`).
    pub fn disconnect(&mut self, sess: &Session) -> (out: Vec<Outgoing>)
        requires
            old(self).wf(),
        ensures
            final(self).wf(),
            left(*old(self), *sess, *final(self), outs_view(out@)),
    {
        let mut out: Vec<Outgoing> = Vec::new();
        let i = match self.my_index(sess) {
            Some(i) => i,
            None => {
                return out;
            },
        };
        let ghost g = *self;
        let p = self.players.remove(i);
        let pid = p.id;
        let found = find_owner(&self.accounts, pid);
        match found {
            Some(f) => {
                self.accounts[f].player = Some(p);
                proof {
                    assert(self.accounts@ =~= g.accounts@.update(f as int, Account { player: Some(g.players@[i as int]), ..g.accounts@[f as int] }));
                    assert forall|x: int, y: int| 0 <= x < y < self.accounts@.len()
                        implies (#[trigger] self.accounts@[x]).username@ != (#[trigger] self.accounts@[y]).username@ by {
                        assert(g.accounts@[x].username@ != g.accounts@[y].username@);
                    }
                    assert(g.plist()[i as int] == g.players@[i as int]@);
                    assert forall|x: int| 0 <= x < self.accounts@.len() && (#[trigger] self.accounts@[x]).player is Some
                        implies self.accounts@[x].player.unwrap().pos.bounded() by {
                        if x != f {
                            assert(self.accounts@[x] == g.accounts@[x]);
                        }
                    }
                }
            },
            None => {},
        }
        send(&mut out, Outgoing::All(ServerMsg::PlayerLeft(pid)));
        proof {
            assert(outs_view(out@) =~= seq![OutView::All(MsgView::PlayerLeft(pid))]);
            let ps = self.plist();
            assert(ps =~= g.plist().remove(i as int));
            assert forall|x: int, y: int| 0 <= x < y < ps.len() implies (#[trigger] ps[x]).id != (#[trigger] ps[y]).id by {
                let x0 = if x < i { x } else { x + 1 };
                let y0 = if y < i { y } else { y + 1 };
                assert(g.plist()[x0].id != g.plist()[y0].id);
            }
            assert forall|x: int| 0 <= x < ps.len() implies (#[trigger] ps[x]).pos.bounded() by {
                let x0 = if x < i { x } else { x + 1 };
                assert(g.plist()[x0].pos.bounded());
            }
        }
        out
    }
}


/// The characterization of `player_slot`: the first position with the id.
pub proof fn lemma_player_slot_is(s: Seq<PlayerView>, id: u64, i: int)
    requires
        0 <= i < s.len(),
        s[i].id == id,
        forall|j: int| 0 <= j < i ==> (#[trigger] s[j]).id != id,
    ensures
        player_slot(s, id) == Some(i),
{
    reveal(player_slot);
    assert(s[i].id == id);
    let c = choose|c: int| 0 <= c < s.len() && (#[trigger] s[c]).id == id
        && forall|j: int| 0 <= j < c ==> (#[trigger] s[j]).id != id;
    assert(c == i) by {
        if c < i {
            assert(s[c].id != id);
        } else if c > i {
            assert(s[i].id != id);
        }
    }
}

/// What `player_slot` finds is the first position with the id.
pub proof fn lemma_player_slot_facts(s: Seq<PlayerView>, id: u64)
    ensures
        player_slot(s, id) matches Some(i) ==> 0 <= i < s.len() && s[i].id == id
            && forall|j: int| 0 <= j < i ==> (#[trigger] s[j]).id != id,
{
    reveal(player_slot);
}

/// Replacing a player by one with the same id keeps every slot.
pub proof fn lemma_player_slot_update(s: Seq<PlayerView>, i: int, p: PlayerView, id: u64)
    requires
        0 <= i < s.len(),
        p.id == s[i].id,
        player_slot(s, id) is Some,
    ensures
        player_slot(s.update(i, p), id) == player_slot(s, id),
{
    lemma_player_slot_facts(s, id);
    let k = player_slot(s, id).unwrap();
    let t = s.update(i, p);
    assert forall|j: int| 0 <= j < k implies (#[trigger] t[j]).id != id by {
        assert(s[j].id != id);
    }
    lemma_player_slot_is(t, id, k);
}

/// A name that no account had is found, after registering, at the end.
pub proof fn lemma_account_index_push(s: Seq<Account>, a: Account)
    requires
        account_index(s, a.username@) is None,
    ensures
        account_index(s.push(a), a.username@) == Some(s.len() as int),
{
    let u = a.username@;
    let t = s.push(a);
    let n = s.len() as int;
    assert forall|j: int| 0 <= j < n implies (#[trigger] s[j]).username@ != u by {
        if s[j].username@ == u {
            lemma_account_found(s, j, u);
        }
    }
    assert forall|j: int| 0 <= j < n implies (#[trigger] t[j]).username@ != u by {
        assert(t[j] == s[j]);
    }
    assert(t[n].username@ == u);
    reveal(account_index);
    let c = choose|c: int| 0 <= c < t.len() && (#[trigger] t[c]).username@ == u
        && forall|j: int| 0 <= j < c ==> (#[trigger] t[j]).username@ != u;
    assert(c == n) by {
        if c < n {
            assert(t[c].username@ != u);
        }
    }
}

/// A user who has just registered logs in with the password given, to the
/// character creation; any other password is refused.
pub proof fn lemma_register_then_login(
    g: GameState,
    s: Session,
    u: String,
    pw: String,
    h: GameState,
    s2: Session,
    out: Seq<OutView>,
    pw2: String,
    k: GameState,
    s3: Session,
    out2: Seq<OutView>,
)
    requires
        account_index(g.accounts@, u@) is None,
        registered(g, s, u, pw, h, s2, out),
        logged_in(h, s2, u, pw2, k, s3, out2),
    ensures
        out == seq![OutView::Reply(MsgView::RegisterOk)],
        pw2@ == pw@ ==> {
            &&& s3 == Session { auth_username: Some(u), player_id: s.player_id }
            &&& out2 == seq![
                OutView::Reply(MsgView::LoginOk),
                OutView::Reply(MsgView::NeedChar { classes: classes_view(g.cfg.classes@) }),
            ]
        },
        pw2@ != pw@ ==> {
            &&& s3 == s2
            &&& out2 == seq![OutView::Reply(MsgView::Error { msg: "Invalid username or password."@ })]
        },
{
    lemma_account_index_push(g.accounts@, Account { username: u, password: pw, player: None });
}

/// An item dropped on a tile where nothing lay is what a pickup there by the
/// same player takes back: the ground is as it was, and the inventory holds
/// the same items, the dropped one now last.
pub proof fn lemma_server_drop_then_pickup(
    g: GameState,
    s: Session,
    id: u64,
    h: GameState,
    out: Seq<OutView>,
    k: GameState,
    out2: Seq<OutView>,
)
    requires
        item_dropped(g, s, id, h, out),
        picked_up(h, s, k, out2),
        my_slot(g, s) is Some,
        item_index(g.plist()[my_slot(g, s).unwrap()].inventory, id) is Some,
        ground_index(g.ground_items@, g.plist()[my_slot(g, s).unwrap()].pos) is None,
    ensures
        ({
            let i = my_slot(g, s).unwrap();
            let p = g.plist()[i];
            let j = item_index(p.inventory, id).unwrap();
            &&& k.ground_items@ == g.ground_items@
            &&& k.plist()[i].inventory == p.inventory.remove(j).push(p.inventory[j])
            &&& k.plist()[i].inventory.to_multiset() == p.inventory.to_multiset()
            &&& out2[0] == OutView::All(MsgView::ItemPickedUp { item_id: id, by: p.name@ })
        }),
{
    let i = my_slot(g, s).unwrap();
    let p = g.plist()[i];
    let inv = p.inventory;
    let j = item_index(inv, id).unwrap();
    lemma_player_slot_facts(g.plist(), s.player_id.unwrap());
    lemma_item_index_bounds(inv, id);
    let p2 = PlayerView { inventory: inv.remove(j), ..p };
    lemma_player_slot_update(g.plist(), i, p2, s.player_id.unwrap());
    assert(my_slot(h, s) == Some(i));
    assert(h.plist()[i] == p2);
    let gi = GroundItem { item: inv[j], pos: p.pos };
    lemma_ground_index_push(g.ground_items@, gi);
    assert(h.ground_items@.remove(g.ground_items@.len() as int) =~= g.ground_items@);
    let inv1 = inv.remove(j);
    vstd::seq_lib::to_multiset_build(inv1, inv[j]);
    vstd::seq_lib::to_multiset_remove(inv, j);
    vstd::seq_lib::to_multiset_contains(inv, inv[j]);
    assert(inv.to_multiset().remove(inv[j]).insert(inv[j]) =~= inv.to_multiset());
}


/// Character names are unique: once a character is created under a name, a
/// later request for the same name is refused and changes nothing.
pub proof fn lemma_name_unique(
    g: GameState,
    s: Session,
    name: Seq<char>,
    class_id: Seq<char>,
    symbol: char,
    color: String,
    h: GameState,
    s2: Session,
    out: Seq<OutView>,
    s3: Session,
    class_id2: Seq<char>,
    symbol2: char,
    color2: String,
    k: GameState,
    s4: Session,
    out2: Seq<OutView>,
)
    requires
        session_ok(g, s),
        char_created(g, s, name, class_id, symbol, color, h, s2, out),
        out[0] == OutView::Reply(MsgView::CharOk),
        char_created(h, s3, name, class_id2, symbol2, color2, k, s4, out2),
        s3.auth_username is Some,
        find_key(h.cfg.classes@, class_id2) is Some,
    ensures
        out2 == seq![OutView::Reply(MsgView::Error { msg: "Character name already in use."@ })],
        same_world(k, h),
        s4 == s3,
{
    let u = s.auth_username.unwrap();
    let ai = account_index(g.accounts@, u@).unwrap();
    lemma_account_index_facts(g.accounts@, u@);
    let q = h.accounts@[ai].player.unwrap();
    assert(q.name@ == name);
    assert(0 <= ai < h.accounts@.len() && h.accounts@[ai].player is Some && h.accounts@[ai].player.unwrap().name@ == name);
    assert(name_taken(h, name));
}

/// What `account_index` finds is an account with the name.
pub proof fn lemma_account_index_facts(s: Seq<Account>, u: Seq<char>)
    ensures
        account_index(s, u) matches Some(i) ==> 0 <= i < s.len() && s[i].username@ == u,
{
    reveal(account_index);
}

} // verus!
