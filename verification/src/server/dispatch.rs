//! One client request, whatever its kind.

use vstd::prelude::*;
use crate::engine::find_monster;
use crate::engine::actions::roll_loot;
use crate::protocol::ClientMsg;
use crate::protocol::ServerMsg;
use crate::rng::{chance, range_usize};
use crate::rules::crit_odds;
use crate::text::str_eq;
use super::{GameState, MsgView, OutView, Outgoing, Session, outs_view, send, lemma_account_found};
use super::session::{
    registered, logged_in, char_created, stepped, item_used, item_equipped, picked_up, item_dropped, same_world,
    session_ok, my_slot,
};
use super::combat::server_attacked;

verus! {

/// What handling a request came to: the messages to deliver, the template
/// of a monster to respawn later, and whether the client asked to quit.
pub struct Handled {
    pub out: Vec<Outgoing>,
    pub respawn: Option<String>,
    pub quit: bool,
}

/// The outcome of request `msg`; `exists` over what the dice give.
pub open spec fn handled(g: GameState, s: Session, msg: ClientMsg, h: GameState, s2: Session, out: Seq<OutView>, respawn: Option<String>, quit: bool) -> bool {
    match msg {
        ClientMsg::Register { username, password } =>
            registered(g, s, username, password, h, s2, out) && respawn is None && !quit,
        ClientMsg::Login { username, password } =>
            logged_in(g, s, username, password, h, s2, out) && respawn is None && !quit,
        ClientMsg::CreateChar { name, class_id, symbol, color } =>
            char_created(g, s, name@, class_id@, symbol, color, h, s2, out) && respawn is None && !quit,
        ClientMsg::Move { dx, dy } => stepped(g, s, dx, dy, h, out) && s2 == s && respawn is None && !quit,
        ClientMsg::Attack { target_id } => {
            &&& s2 == s
            &&& !quit
            &&& exists|c: bool, d: Seq<bool>, pick: int| #[trigger] server_attacked(g, s, target_id, c, d, pick, h, out, respawn)
        },
        ClientMsg::UseItem { item_id } => item_used(g, s, item_id, h, out) && s2 == s && respawn is None && !quit,
        ClientMsg::Equip { item_id } => item_equipped(g, s, item_id, h, out) && s2 == s && respawn is None && !quit,
        ClientMsg::Pickup => picked_up(g, s, h, out) && s2 == s && respawn is None && !quit,
        ClientMsg::DropItem { item_id } => item_dropped(g, s, item_id, h, out) && s2 == s && respawn is None && !quit,
        ClientMsg::Chat { msg } => {
            &&& same_world(h, g)
            &&& s2 == s
            &&& respawn is None
            &&& !quit
            &&& out == match my_slot(g, s) {
                Some(i) => seq![OutView::All(MsgView::Chat { from: g.plist()[i].name@, msg: msg@ })],
                None => Seq::empty(),
            }
        },
        ClientMsg::Ping => same_world(h, g) && s2 == s && respawn is None && !quit && out == seq![OutView::Reply(MsgView::Pong)],
        ClientMsg::Quit => same_world(h, g) && s2 == s && respawn is None && quit && out.len() == 0,
    }
}

impl GameState {
    /// The session's character attacks monster `target_id`; the dice decide
    /// a critical hit (one in five for a rogue, else one in ten), the loot
    /// (each entry with probability 7/20) and the template of the monster
    /// that respawns.
    pub fn attack(&mut self, sess: &Session, target_id: u64) -> (r: (Vec<Outgoing>, Option<String>))
        requires
            old(self).wf(),
            old(self).values_ok(),
        ensures
            final(self).wf(),
            exists|c: bool, d: Seq<bool>, pick: int| #[trigger] server_attacked(*old(self), *sess, target_id, c, d, pick, *final(self), outs_view(r.0@), r.1),
    {
        let rogue = match self.my_index(sess) {
            Some(i) => str_eq(self.players[i].class_id.as_str(), "rogue"),
            None => false,
        };
        let n: usize = match find_monster(&self.monsters, target_id) {
            Some(i) => self.monsters[i].loot_table.len(),
            None => 0,
        };
        let (num, den) = crit_odds(rogue);
        let crit = chance(&mut self.rng, num, den);
        let drops = roll_loot(&mut self.rng, n);
        let pick: usize = if self.cfg.monsters.len() > 0 { range_usize(&mut self.rng, 0, self.cfg.monsters.len()) } else { 0 };
        let ghost mid = *self;
        let r = self.attack_with(sess, target_id, crit, &drops, pick);
        proof {
            lemma_attack_ignores_rng(*old(self), mid, *sess, target_id, crit, drops@, pick as int, *self, outs_view(r.0@), r.1);
        }
        r
    }

    /// Handles one request of the session (see `handled`).
    pub fn handle(&mut self, sess: &mut Session, msg: ClientMsg) -> (r: Handled)
        requires
            old(self).wf(),
            old(self).values_ok(),
            session_ok(*old(self), *old(sess)),
        ensures
            final(self).wf(),
            session_ok(*final(self), *final(sess)),
            handled(*old(self), *old(sess), msg, *final(self), *final(sess), outs_view(r.out@), r.respawn, r.quit),
    {
        let ghost g = *self;
        let ghost msg0 = msg;
        match msg {
            ClientMsg::Register { username, password } => {
                let ghost u = username;
                let out = self.register(sess, username, password);
                proof {
                    match account_index_of(g, u) {
                        Some(_) => {},
                        None => {
                            lemma_account_found(self.accounts@, self.accounts@.len() - 1, u@);
                        },
                    }
                    lemma_session_kept(g, *self, *old(sess), *sess, u);
                }
                Handled { out, respawn: None, quit: false }
            },
            ClientMsg::Login { username, password } => {
                let ghost u = username;
                let out = self.login(sess, username, password);
                proof { lemma_session_kept(g, *self, *old(sess), *sess, u); }
                Handled { out, respawn: None, quit: false }
            },
            ClientMsg::CreateChar { name, class_id, symbol, color } => {
                let out = self.create_char(sess, name, class_id, symbol, color);
                Handled { out, respawn: None, quit: false }
            },
            ClientMsg::Move { dx, dy } => {
                let out = self.move_player(sess, dx, dy);
                Handled { out, respawn: None, quit: false }
            },
            ClientMsg::Attack { target_id } => {
                let (out, respawn) = self.attack(sess, target_id);
                Handled { out, respawn, quit: false }
            },
            ClientMsg::UseItem { item_id } => {
                let out = self.use_item(sess, item_id);
                Handled { out, respawn: None, quit: false }
            },
            ClientMsg::Equip { item_id } => {
                let out = self.equip(sess, item_id);
                Handled { out, respawn: None, quit: false }
            },
            ClientMsg::Pickup => {
                let out = self.pickup(sess);
                Handled { out, respawn: None, quit: false }
            },
            ClientMsg::DropItem { item_id } => {
                let out = self.drop_item(sess, item_id);
                Handled { out, respawn: None, quit: false }
            },
            ClientMsg::Chat { msg } => {
                let out = self.chat(sess, msg);
                Handled { out, respawn: None, quit: false }
            },
            ClientMsg::Ping => {
                let mut out: Vec<Outgoing> = Vec::new();
                send(&mut out, Outgoing::Reply(ServerMsg::Pong));
                assert(outs_view(out@) =~= seq![OutView::Reply(MsgView::Pong)]);
                Handled { out, respawn: None, quit: false }
            },
            ClientMsg::Quit => {
                let out: Vec<Outgoing> = Vec::new();
                assert(outs_view(out@) =~= Seq::<OutView>::empty());
                Handled { out, respawn: None, quit: true }
            },
        }
    }
}

pub open spec fn account_index_of(g: GameState, u: String) -> Option<int> {
    super::account_index(g.accounts@, u@)
}

/// After a registration or a login, the session's user has an account.
proof fn lemma_session_kept(g: GameState, h: GameState, s: Session, s2: Session, u: String)
    requires
        session_ok(g, s),
        g.accounts@.len() <= h.accounts@.len(),
        forall|i: int| 0 <= i < g.accounts@.len() ==> (#[trigger] h.accounts@[i]).username == g.accounts@[i].username,
        s2.auth_username == s.auth_username || (s2.auth_username == Some(u) && super::account_index(h.accounts@, u@) is Some),
    ensures
        session_ok(h, s2),
{
    if s2.auth_username == s.auth_username {
        match s.auth_username {
            Some(v) => {
                reveal(super::account_index);
                let i = super::account_index(g.accounts@, v@).unwrap();
                lemma_account_found(h.accounts@, i, v@);
            },
            None => {},
        }
    }
}

/// The outcome of an attack does not depend on the random generator's state.
proof fn lemma_attack_ignores_rng(
    g: GameState,
    g2: GameState,
    s: Session,
    tid: u64,
    c: bool,
    d: Seq<bool>,
    pick: int,
    h: GameState,
    out: Seq<OutView>,
    respawn: Option<String>,
)
    requires
        g2 == (GameState { rng: g2.rng, ..g }),
        server_attacked(g2, s, tid, c, d, pick, h, out, respawn),
    ensures
        server_attacked(g, s, tid, c, d, pick, h, out, respawn),
{
    assert(g.plist() == g2.plist());
    assert(g.mons() == g2.mons());
}

} // verus!
