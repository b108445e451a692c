//! What a key press does on each screen, and what it asks of the front end.

use vstd::prelude::*;
use vstd::utf8::encode_utf8;
use vstd::arithmetic::div_mod::{lemma_add_mod_noop_right, lemma_mod_add_multiples_vanish, lemma_mod_pos_bound, lemma_small_mod};
use crate::entity::Item;
use crate::entity::monster::MonsterView;
use crate::world::Pos;
use crate::protocol::{ClientMsg, ClientMsgView};
use crate::server::player_slot;
use crate::text::{chars_of, copy_string, first_char, is_alphanumeric, is_ascii_graphic, is_control, char_alphanumeric, string_pop, string_push};
use super::bridge::{Cmd, CmdKind, CmdView, Payload, PayloadView, cmd_of, make_cmd, no_cmd, none_cmd};
use super::state::{
    ClientView, GameState, LoginMode, Screen, client_ok, spec_color, spec_symbol, color_at, symbol_at, COLORS_LEN,
    SYMBOLS_LEN,
};

verus! {

// Qt key codes.
pub const QK_RETURN: i32 = 0x01000004;
pub const QK_ENTER: i32 = 0x01000005;
pub const QK_ESCAPE: i32 = 0x01000000;
pub const QK_BACKSPACE: i32 = 0x01000003;
pub const QK_TAB: i32 = 0x01000001;
pub const QK_F1: i32 = 0x01000030;
pub const QK_F5: i32 = 0x01000034;
pub const QK_UP: i32 = 0x01000013;
pub const QK_DOWN: i32 = 0x01000015;
pub const QK_LEFT: i32 = 0x01000012;
pub const QK_RIGHT: i32 = 0x01000014;
pub const QK_A: i32 = 0x41;
pub const QK_B: i32 = 0x42;
pub const QK_C: i32 = 0x43;
pub const QK_D: i32 = 0x44;
pub const QK_E: i32 = 0x45;
pub const QK_F: i32 = 0x46;
pub const QK_G: i32 = 0x47;
pub const QK_H: i32 = 0x48;
pub const QK_I: i32 = 0x49;
pub const QK_J: i32 = 0x4a;
pub const QK_K: i32 = 0x4b;
pub const QK_L: i32 = 0x4c;
pub const QK_N: i32 = 0x4e;
pub const QK_P: i32 = 0x50;
pub const QK_Q: i32 = 0x51;
pub const QK_S: i32 = 0x53;
pub const QK_T: i32 = 0x54;
pub const QK_U: i32 = 0x55;
pub const QK_V: i32 = 0x56;
pub const QK_W: i32 = 0x57;
pub const QK_X: i32 = 0x58;
pub const QK_Y: i32 = 0x59;
pub const QK_Z: i32 = 0x5a;

pub open spec fn is_enter(k: i32) -> bool {
    k == QK_RETURN || k == QK_ENTER
}

/// The first character of the key's text, if any.
pub open spec fn first_of(t: Seq<char>) -> Option<char> {
    if t.len() > 0 { Some(t[0]) } else { None }
}

/// A string with its last character removed, as `String::pop` leaves it.
pub open spec fn popped(s: Seq<char>) -> Seq<char> {
    if s.len() > 0 { s.drop_last() } else { s }
}

pub open spec fn ascii_graphic(c: char) -> bool {
    '!' <= c && c <= '~'
}

pub open spec fn control(c: char) -> bool {
    c <= '\u{1f}' || ('\u{7f}' <= c && c <= '\u{9f}')
}

/// The next entry of a cycle of `n`, and the previous one.
pub open spec fn cycle_next(a: int, n: int) -> int {
    (a + 1) % n
}

pub open spec fn cycle_prev(a: int, n: int) -> int {
    (a + n - 1) % n
}

/// A port number as `str::parse::<u16>` reads it: an optional `+` and then
/// decimal digits of a value below 65536.
pub open spec fn digits_value(s: Seq<char>) -> int
    decreases s.len(),
{
    if s.len() == 0 { 0 } else { digits_value(s.drop_last()) * 10 + (s.last() as int - '0' as int) }
}

pub open spec fn all_digits(s: Seq<char>) -> bool {
    forall|i: int| 0 <= i < s.len() ==> '0' <= #[trigger] s[i] <= '9'
}

pub open spec fn spec_parse_u16(s: Seq<char>) -> Option<u16> {
    let d = if s.len() > 0 && s[0] == '+' { s.subrange(1, s.len() as int) } else { s };
    if d.len() > 0 && all_digits(d) && digits_value(d) <= u16::MAX { Some(digits_value(d) as u16) } else { None }
}

/// The error overlay after a key press: gone once its time is up.
pub open spec fn error_cleared(s: ClientView) -> ClientView {
    if s.error_msg.len() > 0 && s.anim_tick >= s.error_clear_tick {
        ClientView { error_msg: Seq::empty(), ..s }
    } else {
        s
    }
}

/// The main menu.
pub open spec fn menu_key(s: ClientView, k: i32) -> (ClientView, CmdView) {
    if k == QK_UP || k == QK_K {
        (if s.menu_sel > 0 { ClientView { menu_sel: (s.menu_sel - 1) as usize, ..s } } else { s }, no_cmd())
    } else if k == QK_DOWN || k == QK_J {
        (ClientView { menu_sel: if s.menu_sel + 1 <= 2 { (s.menu_sel + 1) as usize } else { 2 }, ..s }, no_cmd())
    } else if is_enter(k) {
        if s.menu_sel == 0 {
            (ClientView { screen: Screen::Connect, ..s }, no_cmd())
        } else if s.menu_sel == 1 {
            (ClientView {
                sp_pending: true,
                char_name: Seq::empty(),
                char_class_idx: 0,
                char_symbol_idx: 0,
                char_color_idx: 0,
                char_cursor: 0,
                screen: Screen::CharCreate,
                ..s
            }, cmd_of(CmdKind::StartSP, PayloadView::LoadClasses))
        } else {
            (s, cmd_of(CmdKind::Quit, PayloadView::Nothing))
        }
    } else if k == QK_Q || k == QK_ESCAPE {
        (s, cmd_of(CmdKind::Quit, PayloadView::Nothing))
    } else {
        (s, no_cmd())
    }
}

/// The connect screen: host and port fields.
pub open spec fn connect_key(s: ClientView, k: i32, t: Seq<char>) -> (ClientView, CmdView) {
    if k == QK_TAB || k == QK_DOWN || k == QK_UP {
        (ClientView { conn_cursor: s.conn_cursor ^ 1, ..s }, no_cmd())
    } else if k == QK_BACKSPACE {
        (if s.conn_cursor == 0 {
            ClientView { conn_host: popped(s.conn_host), ..s }
        } else {
            ClientView { conn_port: popped(s.conn_port), ..s }
        }, no_cmd())
    } else if k == QK_ESCAPE {
        (ClientView { screen: Screen::MainMenu, ..s }, no_cmd())
    } else if is_enter(k) {
        let port = match spec_parse_u16(s.conn_port) { Some(p) => p, None => 7777u16 };
        (ClientView { screen: Screen::Login, ..s }, CmdView { kind: CmdKind::Connect, host: s.conn_host, port, payload: PayloadView::Nothing })
    } else {
        match first_of(t) {
            Some(ch) => if ascii_graphic(ch) || ch == '.' {
                (if s.conn_cursor == 0 {
                    ClientView { conn_host: s.conn_host.push(ch), ..s }
                } else {
                    ClientView { conn_port: s.conn_port.push(ch), ..s }
                }, no_cmd())
            } else {
                (s, no_cmd())
            },
            None => (s, no_cmd()),
        }
    }
}

/// The login screen: user and password fields.
pub open spec fn login_key(s: ClientView, k: i32, t: Seq<char>) -> (ClientView, CmdView) {
    if k == QK_TAB || k == QK_DOWN || k == QK_UP {
        (ClientView { login_cursor: s.login_cursor ^ 1, ..s }, no_cmd())
    } else if k == QK_BACKSPACE {
        (if s.login_cursor == 0 {
            ClientView { login_user: popped(s.login_user), ..s }
        } else {
            ClientView { login_pass: popped(s.login_pass), ..s }
        }, no_cmd())
    } else if k == QK_ESCAPE {
        (ClientView { screen: Screen::Connect, ..s }, no_cmd())
    } else if k == QK_F1 {
        (ClientView {
            login_mode: if s.login_mode == LoginMode::Login { LoginMode::Register } else { LoginMode::Login },
            ..s
        }, no_cmd())
    } else if is_enter(k) {
        let m = match s.login_mode {
            LoginMode::Login => ClientMsgView::Login { username: s.login_user, password: s.login_pass },
            LoginMode::Register => ClientMsgView::Register { username: s.login_user, password: s.login_pass },
        };
        (ClientView { login_pass: Seq::empty(), ..s }, cmd_of(CmdKind::SendMsg, PayloadView::Msg(m)))
    } else {
        match first_of(t) {
            Some(ch) => if ascii_graphic(ch) {
                (if s.login_cursor == 0 {
                    ClientView { login_user: s.login_user.push(ch), ..s }
                } else {
                    ClientView { login_pass: s.login_pass.push(ch), ..s }
                }, no_cmd())
            } else {
                (s, no_cmd())
            },
            None => (s, no_cmd()),
        }
    }
}

/// The character creation screen: name, class, symbol and color.
pub open spec fn char_key(s: ClientView, k: i32, t: Seq<char>) -> (ClientView, CmdView) {
    let n = s.avail_classes.len();
    if k == QK_TAB || k == QK_DOWN {
        (ClientView { char_cursor: cycle_next(s.char_cursor as int, 4) as usize, ..s }, no_cmd())
    } else if k == QK_UP {
        (ClientView { char_cursor: ((s.char_cursor + 3) % 4) as usize, ..s }, no_cmd())
    } else if k == QK_LEFT {
        (if s.char_cursor == 1 && n > 0 {
            ClientView { char_class_idx: cycle_prev(s.char_class_idx as int, n as int) as usize, ..s }
        } else if s.char_cursor == 2 {
            ClientView { char_symbol_idx: cycle_prev(s.char_symbol_idx as int, 10) as usize, ..s }
        } else if s.char_cursor == 3 {
            ClientView { char_color_idx: cycle_prev(s.char_color_idx as int, 8) as usize, ..s }
        } else {
            s
        }, no_cmd())
    } else if k == QK_RIGHT {
        (if s.char_cursor == 1 && n > 0 {
            ClientView { char_class_idx: cycle_next(s.char_class_idx as int, n as int) as usize, ..s }
        } else if s.char_cursor == 2 {
            ClientView { char_symbol_idx: cycle_next(s.char_symbol_idx as int, 10) as usize, ..s }
        } else if s.char_cursor == 3 {
            ClientView { char_color_idx: cycle_next(s.char_color_idx as int, 8) as usize, ..s }
        } else {
            s
        }, no_cmd())
    } else if k == QK_BACKSPACE {
        (if s.char_cursor == 0 { ClientView { char_name: popped(s.char_name), ..s } } else { s }, no_cmd())
    } else if k == QK_ESCAPE {
        (ClientView { sp_pending: false, screen: Screen::MainMenu, ..s }, no_cmd())
    } else if is_enter(k) {
        if s.char_name.len() > 0 && n > 0 {
            let cls = s.avail_classes[s.char_class_idx as int];
            let sym = spec_symbol(s.char_symbol_idx as int);
            let col = spec_color(s.char_color_idx as int);
            if s.sp_pending {
                (s, cmd_of(CmdKind::StartSP, PayloadView::StartSp { name: s.char_name, class_id: cls.id@, symbol: sym, color: col }))
            } else {
                (s, cmd_of(CmdKind::SendMsg, PayloadView::Msg(ClientMsgView::CreateChar {
                    name: s.char_name,
                    class_id: cls.id@,
                    symbol: sym[0],
                    color: col,
                })))
            }
        } else {
            (s, no_cmd())
        }
    } else {
        if s.char_cursor == 0 && (encode_utf8(s.char_name).len() as usize) < 16 {
            match first_of(t) {
                Some(ch) => if char_alphanumeric(ch) { (ClientView { char_name: s.char_name.push(ch), ..s }, no_cmd()) } else { (s, no_cmd()) },
                None => (s, no_cmd()),
            }
        } else {
            (s, no_cmd())
        }
    }
}

/// The chat line, while open.
pub open spec fn chat_key(s: ClientView, k: i32, t: Seq<char>) -> (ClientView, CmdView) {
    if is_enter(k) {
        if s.chat_buf.len() > 0 {
            (ClientView { chat_buf: Seq::empty(), chat_active: false, ..s },
                cmd_of(CmdKind::SendMsg, PayloadView::Msg(ClientMsgView::Chat { msg: s.chat_buf })))
        } else {
            (ClientView { chat_active: false, ..s }, no_cmd())
        }
    } else if k == QK_ESCAPE {
        (ClientView { chat_buf: Seq::empty(), chat_active: false, ..s }, no_cmd())
    } else if k == QK_BACKSPACE {
        (ClientView { chat_buf: popped(s.chat_buf), ..s }, no_cmd())
    } else {
        match first_of(t) {
            Some(ch) => if !control(ch) { (ClientView { chat_buf: s.chat_buf.push(ch), ..s }, no_cmd()) } else { (s, no_cmd()) },
            None => (s, no_cmd()),
        }
    }
}

/// The inventory of the client's own player; empty when unknown.
pub open spec fn my_inventory(s: ClientView) -> Seq<Item> {
    match player_slot(s.players, s.my_id) {
        Some(i) => s.players[i].inventory,
        None => Seq::empty(),
    }
}

/// The id of the item at the inventory selection, if there is one.
pub open spec fn selected_id(s: ClientView) -> Option<u64> {
    let inv = my_inventory(s);
    if (s.inv_sel as int) < inv.len() {
        Some(inv[s.inv_sel as int].id)
    } else {
        None
    }
}

/// The selection moved down (`down`) or up the inventory, round the end.
pub open spec fn inv_step(s: ClientView, down: bool) -> ClientView {
    let len = my_inventory(s).len();
    if len > 0 {
        ClientView {
            inv_sel: (if down { cycle_next(s.inv_sel as int, len as int) } else { cycle_prev(s.inv_sel as int, len as int) }) as usize,
            ..s
        }
    } else {
        s
    }
}

/// A message about the selected item, or nothing when none is selected.
pub open spec fn item_cmd(s: ClientView, m: spec_fn(u64) -> ClientMsgView) -> CmdView {
    match selected_id(s) {
        Some(id) => cmd_of(CmdKind::SendMsg, PayloadView::Msg(m(id))),
        None => no_cmd(),
    }
}

pub open spec fn equip_msg(id: u64) -> ClientMsgView {
    ClientMsgView::Equip { item_id: id }
}

pub open spec fn use_msg(id: u64) -> ClientMsgView {
    ClientMsgView::UseItem { item_id: id }
}

pub open spec fn drop_msg(id: u64) -> ClientMsgView {
    ClientMsgView::DropItem { item_id: id }
}

/// The inventory panel, while open: up and down (or K and J) move the
/// selection, G or Enter equips, U uses, X drops and closes the panel, I or
/// Esc closes it.
pub open spec fn inv_key(s: ClientView, k: i32) -> (ClientView, CmdView) {
    if k == QK_UP || k == QK_K {
        (inv_step(s, false), no_cmd())
    } else if k == QK_DOWN || k == QK_J {
        (inv_step(s, true), no_cmd())
    } else if k == QK_G || k == QK_RETURN {
        (s, item_cmd(s, |id: u64| equip_msg(id)))
    } else if k == QK_U {
        (s, item_cmd(s, |id: u64| use_msg(id)))
    } else if k == QK_X {
        if selected_id(s) is Some {
            (ClientView { inv_open: false, ..s }, item_cmd(s, |id: u64| drop_msg(id)))
        } else {
            (s, no_cmd())
        }
    } else if k == QK_I || k == QK_ESCAPE {
        (ClientView { inv_open: false, ..s }, no_cmd())
    } else {
        (s, no_cmd())
    }
}

pub open spec fn move_cmd(dx: i32, dy: i32) -> CmdView {
    cmd_of(CmdKind::SendMsg, PayloadView::Msg(ClientMsgView::Move { dx, dy }))
}

pub open spec fn pickup_cmd() -> CmdView {
    cmd_of(CmdKind::SendMsg, PayloadView::Msg(ClientMsgView::Pickup))
}

/// A monster that can be attacked from `p`: alive and next to it.
pub open spec fn attackable(m: MonsterView, p: Pos) -> bool {
    m.stats.hp > 0 && p.spec_adjacent(m.pos)
}

/// Among the first `n` monsters, the index of the first attackable one at
/// the least squared distance from `p`.
pub open spec fn nearest_adjacent(ms: Seq<MonsterView>, p: Pos, n: nat) -> Option<int>
    decreases n,
{
    if n == 0 {
        None
    } else {
        let b = nearest_adjacent(ms, p, (n - 1) as nat);
        let m = ms[n - 1];
        if attackable(m, p) && (match b {
            Some(j) => p.spec_dist_sq(m.pos) < p.spec_dist_sq(ms[j].pos),
            None => true,
        }) {
            Some(n - 1)
        } else {
            b
        }
    }
}

/// The monster the client's own player attacks: the nearest living adjacent
/// one.
pub open spec fn attack_target(s: ClientView) -> Option<u64> {
    match player_slot(s.players, s.my_id) {
        Some(i) => match nearest_adjacent(s.monsters, s.players[i].pos, s.monsters.len()) {
            Some(j) => Some(s.monsters[j].id),
            None => None,
        },
        None => None,
    }
}

/// A diagonal step for Q, E, Z and C: up-left, up-right, down-left,
/// down-right.
pub open spec fn diagonal(k: i32) -> Option<(i32, i32)> {
    if k == QK_Q {
        Some((-1i32, -1i32))
    } else if k == QK_E {
        Some((1i32, -1i32))
    } else if k == QK_Z {
        Some((-1i32, 1i32))
    } else if k == QK_C {
        Some((1i32, 1i32))
    } else {
        None
    }
}

/// Walking: W A S D and the arrows move, in first person relative to the
/// facing (left and right arrows turn), else on the map's axes; Q E Z C
/// move diagonally. A step on the map's axes turns the facing to it.
pub open spec fn walk_key(s: ClientView, k: i32) -> (ClientView, CmdView) {
    if s.camera_mode == 2 && diagonal(k) is None {
        let fdx = s.player_face_dx;
        let fdy = s.player_face_dy;
        if k == QK_W || k == QK_UP {
            (s, move_cmd(fdx, fdy))
        } else if k == QK_S || k == QK_DOWN {
            (s, move_cmd((-fdx) as i32, (-fdy) as i32))
        } else if k == QK_A {
            (s, move_cmd(fdy, (-fdx) as i32))
        } else if k == QK_D {
            (s, move_cmd((-fdy) as i32, fdx))
        } else if k == QK_LEFT {
            (ClientView { player_face_dx: fdy, player_face_dy: (-fdx) as i32, ..s }, no_cmd())
        } else if k == QK_RIGHT {
            (ClientView { player_face_dx: (-fdy) as i32, player_face_dy: fdx, ..s }, no_cmd())
        } else {
            (s, no_cmd())
        }
    } else {
        let dir = if k == QK_UP || k == QK_W {
            Some((0i32, -1i32))
        } else if k == QK_DOWN || k == QK_S {
            Some((0i32, 1i32))
        } else if k == QK_LEFT || k == QK_A {
            Some((-1i32, 0i32))
        } else if k == QK_RIGHT || k == QK_D {
            Some((1i32, 0i32))
        } else {
            diagonal(k)
        };
        match dir {
            Some((dx, dy)) => (ClientView { player_face_dx: dx, player_face_dy: dy, ..s }, move_cmd(dx, dy)),
            None => (s, no_cmd()),
        }
    }
}

/// Playing: the chat line or the inventory panel when open; else Enter opens
/// the chat, I the inventory panel, V the equipment panel, T travels to the
/// next zone, Esc closes the equipment panel or quits, F attacks the nearest
/// adjacent monster, G, U and X equip, use and drop the selected item, P
/// picks up, J and K move the selection, and the rest walks.
pub open spec fn play_key(s: ClientView, k: i32, t: Seq<char>) -> (ClientView, CmdView) {
    if s.chat_active {
        chat_key(s, k, t)
    } else if s.inv_open {
        inv_key(s, k)
    } else if is_enter(k) {
        (ClientView { chat_active: true, ..s }, no_cmd())
    } else if k == QK_I {
        (ClientView { inv_open: true, inv_sel: 0, ..s }, no_cmd())
    } else if k == QK_V {
        (ClientView { equip_open: !s.equip_open, ..s }, no_cmd())
    } else if k == QK_T {
        (s, cmd_of(CmdKind::SendMsg, PayloadView::ZoneTravel))
    } else if k == QK_ESCAPE {
        if s.equip_open {
            (ClientView { equip_open: false, ..s }, no_cmd())
        } else {
            (s, cmd_of(CmdKind::Quit, PayloadView::Nothing))
        }
    } else if k == QK_F {
        (s, match attack_target(s) {
            Some(id) => cmd_of(CmdKind::SendMsg, PayloadView::Msg(ClientMsgView::Attack { target_id: id })),
            None => no_cmd(),
        })
    } else if k == QK_G {
        (s, item_cmd(s, |id: u64| equip_msg(id)))
    } else if k == QK_U {
        (s, item_cmd(s, |id: u64| use_msg(id)))
    } else if k == QK_X {
        (s, item_cmd(s, |id: u64| drop_msg(id)))
    } else if k == QK_P {
        (s, pickup_cmd())
    } else if k == QK_J {
        (inv_step(s, true), no_cmd())
    } else if k == QK_K {
        (inv_step(s, false), no_cmd())
    } else {
        walk_key(s, k)
    }
}

/// A key press `k` with text `t`: the error overlay times out, F5 cycles the
/// camera anywhere, and otherwise the current screen takes the key.
pub open spec fn key_step(s0: ClientView, k: i32, t: Seq<char>) -> (ClientView, CmdView) {
    let s = error_cleared(s0);
    if k == QK_F5 {
        (ClientView { camera_mode: ((s.camera_mode + 1) % 4) as u8, ..s }, no_cmd())
    } else {
        match s.screen {
            Screen::MainMenu => menu_key(s, k),
            Screen::Connect => connect_key(s, k, t),
            Screen::Login => login_key(s, k, t),
            Screen::CharCreate => char_key(s, k, t),
            Screen::Playing => play_key(s, k, t),
        }
    }
}

proof fn lemma_cycle(a: int, n: int)
    requires
        0 <= a,
        0 < n,
    ensures
        cycle_next(a, n) == (if a % n + 1 == n { 0 } else { a % n + 1 }),
        cycle_prev(a, n) == (if a % n == 0 { n - 1 } else { a % n - 1 }),
{
    lemma_mod_pos_bound(a, n);
    let r = a % n;
    lemma_add_mod_noop_right(1, a, n);
    if r + 1 < n {
        lemma_small_mod((r + 1) as nat, n as nat);
    } else {
        lemma_mod_add_multiples_vanish(0, n);
        lemma_small_mod(0, n as nat);
    }
    lemma_add_mod_noop_right(n - 1, a, n);
    if r == 0 {
        lemma_small_mod((n - 1) as nat, n as nat);
    } else {
        lemma_mod_add_multiples_vanish(r - 1, n);
        lemma_small_mod((r - 1) as nat, n as nat);
    }
}

/// `str::parse::<u16>`, written out.
pub fn parse_u16(s: &str) -> (r: Option<u16>)
    ensures
        r == spec_parse_u16(s@),
{
    let chars = chars_of(s);
    parse_digits(&chars)
}

fn parse_digits(s: &Vec<char>) -> (r: Option<u16>)
    ensures
        r == spec_parse_u16(s@),
{
    let start: usize = if s.len() > 0 && s[0] == '+' { 1 } else { 0 };
    let ghost d = if s@.len() > 0 && s@[0] == '+' { s@.subrange(1, s@.len() as int) } else { s@ };
    assert(d =~= s@.subrange(start as int, s@.len() as int));
    if start >= s.len() {
        assert(d.len() == 0);
        return None;
    }
    let mut v: u32 = 0;
    let mut i: usize = start;
    while i < s.len()
        invariant
            start <= i <= s@.len(),
            d == s@.subrange(start as int, s@.len() as int),
            d == (if s@.len() > 0 && s@[0] == '+' { s@.subrange(1, s@.len() as int) } else { s@ }),
            all_digits(s@.subrange(start as int, i as int)),
            v == digits_value(s@.subrange(start as int, i as int)),
            v <= u16::MAX,
        decreases s.len() - i,
    {
        let c = s[i];
        assert(s@.subrange(start as int, i + 1).drop_last() =~= s@.subrange(start as int, i as int));
        if !('0' <= c && c <= '9') {
            assert(!all_digits(d)) by {
                assert(d[i - start] == c);
            }
            return None;
        }
        let digit: u32 = (c as u32) - ('0' as u32);
        let nv: u32 = v * 10 + digit;
        proof {
            let pre = s@.subrange(start as int, i + 1);
            assert(pre.last() == c);
            assert(digits_value(pre) == digits_value(pre.drop_last()) * 10 + (c as int - '0' as int));
            assert(all_digits(pre)) by {
                assert forall|j: int| 0 <= j < pre.len() implies '0' <= #[trigger] pre[j] <= '9' by {
                    if j < pre.len() - 1 {
                        assert(pre[j] == s@.subrange(start as int, i as int)[j]);
                    }
                }
            }
            assert(d.subrange(0, (i - start + 1) as int) =~= pre);
        }
        if nv > 65535 {
            proof {
                lemma_digits_grow(d, (i - start + 1) as int);
            }
            return None;
        }
        v = nv;
        i += 1;
    }
    assert(s@.subrange(start as int, s@.len() as int) =~= d);
    Some(v as u16)
}

/// The value of a digit prefix never exceeds that of a longer one.
proof fn lemma_digits_grow(d: Seq<char>, n: int)
    requires
        0 < n <= d.len(),
        all_digits(d.subrange(0, n)),
        digits_value(d.subrange(0, n)) > u16::MAX,
    ensures
        !(all_digits(d) && digits_value(d) <= u16::MAX),
    decreases d.len() - n,
{
    if n < d.len() && all_digits(d) {
        assert(d.subrange(0, n + 1).drop_last() =~= d.subrange(0, n));
        assert(all_digits(d.subrange(0, n + 1)));
        lemma_digits_grow(d, n + 1);
    } else if n == d.len() {
        assert(d.subrange(0, n) =~= d);
    }
}


impl GameState {
    /// A key press `k` with text `text` (see `key_step`); returns what it
    /// asks of the front end.
    pub fn handle_key(&mut self, qt_key: i32, _mods: u32, text: &str) -> (r: Cmd)
        requires
            client_ok(old(self)@),
        ensures
            final(self)@ == key_step(old(self)@, qt_key, text@).0,
            r@ == key_step(old(self)@, qt_key, text@).1,
            client_ok(final(self)@),
    {
        if !self.error_msg.as_str().is_empty() && self.anim_tick >= self.error_clear_tick {
            self.error_msg = String::new();
            assert(self@ =~= error_cleared(old(self)@));
        } else {
            assert(self@ =~= error_cleared(old(self)@));
        }
        if qt_key == QK_F5 {
            self.camera_mode = (self.camera_mode + 1) % 4;
            assert(self@ =~= key_step(old(self)@, qt_key, text@).0);
            return none_cmd();
        }
        match self.screen {
            Screen::MainMenu => self.menu_key(qt_key),
            Screen::Connect => self.connect_key(qt_key, text),
            Screen::Login => self.login_key(qt_key, text),
            Screen::CharCreate => self.char_key(qt_key, text),
            Screen::Playing => self.play_key(qt_key, text),
        }
    }

    fn menu_key(&mut self, k: i32) -> (r: Cmd)
        requires
            client_ok(old(self)@),
        ensures
            final(self)@ == menu_key(old(self)@, k).0,
            r@ == menu_key(old(self)@, k).1,
            client_ok(final(self)@),
    {
        let ghost s = self@;
        if k == QK_UP || k == QK_K {
            if self.menu_sel > 0 {
                self.menu_sel = self.menu_sel - 1;
            }
            assert(self@ =~= menu_key(s, k).0);
            none_cmd()
        } else if k == QK_DOWN || k == QK_J {
            self.menu_sel = if self.menu_sel < 2 { self.menu_sel + 1 } else { 2 };
            assert(self@ =~= menu_key(s, k).0);
            none_cmd()
        } else if k == QK_RETURN || k == QK_ENTER {
            if self.menu_sel == 0 {
                self.screen = Screen::Connect;
                assert(self@ =~= menu_key(s, k).0);
                none_cmd()
            } else if self.menu_sel == 1 {
                self.sp_pending = true;
                self.char_name = String::new();
                self.char_class_idx = 0;
                self.char_symbol_idx = 0;
                self.char_color_idx = 0;
                self.char_cursor = 0;
                self.screen = Screen::CharCreate;
                assert(self@ =~= menu_key(s, k).0);
                make_cmd(CmdKind::StartSP, Payload::LoadClasses)
            } else {
                make_cmd(CmdKind::Quit, Payload::Nothing)
            }
        } else if k == QK_Q || k == QK_ESCAPE {
            make_cmd(CmdKind::Quit, Payload::Nothing)
        } else {
            none_cmd()
        }
    }

    fn connect_key(&mut self, k: i32, text: &str) -> (r: Cmd)
        requires
            client_ok(old(self)@),
        ensures
            final(self)@ == connect_key(old(self)@, k, text@).0,
            r@ == connect_key(old(self)@, k, text@).1,
            client_ok(final(self)@),
    {
        let ghost s = self@;
        if k == QK_TAB || k == QK_DOWN || k == QK_UP {
            self.conn_cursor = self.conn_cursor ^ 1;
            assert(self@ =~= connect_key(s, k, text@).0);
            none_cmd()
        } else if k == QK_BACKSPACE {
            if self.conn_cursor == 0 {
                let _ = string_pop(&mut self.conn_host);
            } else {
                let _ = string_pop(&mut self.conn_port);
            }
            assert(self@ =~= connect_key(s, k, text@).0);
            none_cmd()
        } else if k == QK_ESCAPE {
            self.screen = Screen::MainMenu;
            assert(self@ =~= connect_key(s, k, text@).0);
            none_cmd()
        } else if k == QK_RETURN || k == QK_ENTER {
            let host = copy_string(&self.conn_host);
            let port: u16 = match parse_u16(self.conn_port.as_str()) {
                Some(p) => p,
                None => 7777,
            };
            self.screen = Screen::Login;
            assert(self@ =~= connect_key(s, k, text@).0);
            Cmd { kind: CmdKind::Connect, host, port, payload: Payload::Nothing }
        } else {
            match first_char(text) {
                Some(ch) => {
                    if is_ascii_graphic(ch) || ch == '.' {
                        if self.conn_cursor == 0 {
                            string_push(&mut self.conn_host, ch);
                        } else {
                            string_push(&mut self.conn_port, ch);
                        }
                    }
                },
                None => {},
            }
            assert(self@ =~= connect_key(s, k, text@).0);
            none_cmd()
        }
    }

    fn login_key(&mut self, k: i32, text: &str) -> (r: Cmd)
        requires
            client_ok(old(self)@),
        ensures
            final(self)@ == login_key(old(self)@, k, text@).0,
            r@ == login_key(old(self)@, k, text@).1,
            client_ok(final(self)@),
    {
        let ghost s = self@;
        if k == QK_TAB || k == QK_DOWN || k == QK_UP {
            self.login_cursor = self.login_cursor ^ 1;
            assert(self@ =~= login_key(s, k, text@).0);
            none_cmd()
        } else if k == QK_BACKSPACE {
            if self.login_cursor == 0 {
                let _ = string_pop(&mut self.login_user);
            } else {
                let _ = string_pop(&mut self.login_pass);
            }
            assert(self@ =~= login_key(s, k, text@).0);
            none_cmd()
        } else if k == QK_ESCAPE {
            self.screen = Screen::Connect;
            assert(self@ =~= login_key(s, k, text@).0);
            none_cmd()
        } else if k == QK_F1 {
            self.login_mode = if self.login_mode == LoginMode::Login { LoginMode::Register } else { LoginMode::Login };
            assert(self@ =~= login_key(s, k, text@).0);
            none_cmd()
        } else if k == QK_RETURN || k == QK_ENTER {
            let username = copy_string(&self.login_user);
            let password = copy_string(&self.login_pass);
            let msg = match self.login_mode {
                LoginMode::Login => ClientMsg::Login { username, password },
                LoginMode::Register => ClientMsg::Register { username, password },
            };
            self.login_pass = String::new();
            assert(self@ =~= login_key(s, k, text@).0);
            make_cmd(CmdKind::SendMsg, Payload::Msg(msg))
        } else {
            match first_char(text) {
                Some(ch) => {
                    if is_ascii_graphic(ch) {
                        if self.login_cursor == 0 {
                            string_push(&mut self.login_user, ch);
                        } else {
                            string_push(&mut self.login_pass, ch);
                        }
                    }
                },
                None => {},
            }
            assert(self@ =~= login_key(s, k, text@).0);
            none_cmd()
        }
    }

    #[verifier::spinoff_prover]
    fn char_key(&mut self, k: i32, text: &str) -> (r: Cmd)
        requires
            client_ok(old(self)@),
        ensures
            final(self)@ == char_key(old(self)@, k, text@).0,
            r@ == char_key(old(self)@, k, text@).1,
            client_ok(final(self)@),
    {
        if k == QK_TAB || k == QK_DOWN || k == QK_UP || k == QK_LEFT || k == QK_RIGHT {
            self.char_nav(k)
        } else if k == QK_BACKSPACE || k == QK_ESCAPE {
            let ghost s = self@;
            if k == QK_BACKSPACE {
                if self.char_cursor == 0 {
                    let _ = string_pop(&mut self.char_name);
                }
            } else {
                self.sp_pending = false;
                self.screen = Screen::MainMenu;
            }
            assert(self@ =~= char_key(s, k, text@).0);
            none_cmd()
        } else if k == QK_RETURN || k == QK_ENTER {
            self.char_enter(k)
        } else {
            let ghost s = self@;
            if self.char_cursor == 0 && self.char_name.as_str().len() < 16 {
                match first_char(text) {
                    Some(ch) => {
                        if is_alphanumeric(ch) {
                            string_push(&mut self.char_name, ch);
                        }
                    },
                    None => {},
                }
            }
            assert(self@ =~= char_key(s, k, text@).0);
            none_cmd()
        }
    }

    fn char_nav(&mut self, k: i32) -> (r: Cmd)
        requires
            client_ok(old(self)@),
            k == QK_TAB || k == QK_DOWN || k == QK_UP || k == QK_LEFT || k == QK_RIGHT,
        ensures
            forall|t: Seq<char>| final(self)@ == #[trigger] char_key(old(self)@, k, t).0 && r@ == char_key(old(self)@, k, t).1,
            client_ok(final(self)@),
    {
        let ghost s = self@;
        let n = self.avail_classes.len();
        assert(s.avail_classes.len() == n);
        if k == QK_TAB || k == QK_DOWN {
            proof { lemma_cycle(s.char_cursor as int, 4); }
            let c = self.char_cursor % 4;
            self.char_cursor = if c + 1 == 4 { 0 } else { c + 1 };
        } else if k == QK_UP {
            let c = self.char_cursor % 4;
            self.char_cursor = (c + 3) % 4;
        } else if k == QK_LEFT {
            if self.char_cursor == 1 && n > 0 {
                proof { lemma_cycle(s.char_class_idx as int, n as int); }
                let c = self.char_class_idx % n;
                self.char_class_idx = if c == 0 { n - 1 } else { c - 1 };
            } else if self.char_cursor == 2 {
                self.char_symbol_idx = (self.char_symbol_idx + SYMBOLS_LEN - 1) % SYMBOLS_LEN;
            } else if self.char_cursor == 3 {
                self.char_color_idx = (self.char_color_idx + COLORS_LEN - 1) % COLORS_LEN;
            }
        } else {
            if self.char_cursor == 1 && n > 0 {
                proof { lemma_cycle(s.char_class_idx as int, n as int); }
                let c = self.char_class_idx % n;
                self.char_class_idx = if c + 1 == n { 0 } else { c + 1 };
            } else if self.char_cursor == 2 {
                self.char_symbol_idx = (self.char_symbol_idx + 1) % SYMBOLS_LEN;
            } else if self.char_cursor == 3 {
                self.char_color_idx = (self.char_color_idx + 1) % COLORS_LEN;
            }
        }
        assert forall|t: Seq<char>| self@ =~= #[trigger] char_key(s, k, t).0 by {}
        none_cmd()
    }

    fn char_enter(&mut self, k: i32) -> (r: Cmd)
        requires
            client_ok(old(self)@),
            k == QK_RETURN || k == QK_ENTER,
        ensures
            forall|t: Seq<char>| final(self)@ == #[trigger] char_key(old(self)@, k, t).0 && r@ == char_key(old(self)@, k, t).1,
            client_ok(final(self)@),
    {
        let ghost s = self@;
        let n = self.avail_classes.len();
        assert(s.avail_classes.len() == n);
        if !self.char_name.as_str().is_empty() && n > 0 {
            let cls = &self.avail_classes[self.char_class_idx];
            assert(s.avail_classes[s.char_class_idx as int] == cls@);
            let sym = symbol_at(self.char_symbol_idx);
            let col = color_at(self.char_color_idx);
            let name = copy_string(&self.char_name);
            let class_id = copy_string(&cls.id);
            if self.sp_pending {
                make_cmd(CmdKind::StartSP, Payload::StartSp {
                    name,
                    class_id,
                    symbol: String::from_str(sym),
                    color: String::from_str(col),
                })
            } else {
                proof {
                    reveal_strlit("@");
                    reveal_strlit("$");
                    reveal_strlit("%");
                    reveal_strlit("&");
                    reveal_strlit("?");
                    reveal_strlit("!");
                    reveal_strlit("*");
                    reveal_strlit("~");
                    reveal_strlit("+");
                    reveal_strlit("#");
                    assert(sym@.len() > 0);
                }
                let symbol = match first_char(sym) {
                    Some(c) => c,
                    None => '@',
                };
                make_cmd(CmdKind::SendMsg, Payload::Msg(ClientMsg::CreateChar {
                    name,
                    class_id,
                    symbol,
                    color: String::from_str(col),
                }))
            }
        } else {
            none_cmd()
        }
    }

    fn chat_key(&mut self, k: i32, text: &str) -> (r: Cmd)
        requires
            client_ok(old(self)@),
        ensures
            final(self)@ == chat_key(old(self)@, k, text@).0,
            r@ == chat_key(old(self)@, k, text@).1,
            client_ok(final(self)@),
    {
        let ghost s = self@;
        if k == QK_RETURN || k == QK_ENTER {
            if !self.chat_buf.as_str().is_empty() {
                let msg = copy_string(&self.chat_buf);
                self.chat_buf = String::new();
                self.chat_active = false;
                assert(self@ =~= chat_key(s, k, text@).0);
                return make_cmd(CmdKind::SendMsg, Payload::Msg(ClientMsg::Chat { msg }));
            }
            self.chat_active = false;
            assert(self@ =~= chat_key(s, k, text@).0);
        } else if k == QK_ESCAPE {
            self.chat_buf = String::new();
            self.chat_active = false;
            assert(self@ =~= chat_key(s, k, text@).0);
        } else if k == QK_BACKSPACE {
            let _ = string_pop(&mut self.chat_buf);
            assert(self@ =~= chat_key(s, k, text@).0);
        } else {
            match first_char(text) {
                Some(ch) => {
                    if !is_control(ch) {
                        string_push(&mut self.chat_buf, ch);
                    }
                },
                None => {},
            }
            assert(self@ =~= chat_key(s, k, text@).0);
        }
        none_cmd()
    }

    /// The id of the item at the inventory selection of the client's own
    /// player, if any.
    fn selected_item(&self) -> (r: Option<u64>)
        ensures
            r == selected_id(self@),
    {
        match self.my_player() {
            Some(p) => {
                if self.inv_sel < p.inventory.len() {
                    Some(p.inventory[self.inv_sel].id)
                } else {
                    None
                }
            },
            None => None,
        }
    }

    fn inv_len(&self) -> (r: usize)
        ensures
            r == my_inventory(self@).len(),
    {
        match self.my_player() {
            Some(p) => p.inventory.len(),
            None => 0,
        }
    }

    /// Moves the inventory selection down or up, round the end.
    fn step_selection(&mut self, down: bool)
        requires
            client_ok(old(self)@),
        ensures
            final(self)@ == inv_step(old(self)@, down),
            client_ok(final(self)@),
    {
        let ghost s = self@;
        let len = self.inv_len();
        if len > 0 {
            proof { lemma_cycle(s.inv_sel as int, len as int); }
            let c = self.inv_sel % len;
            if down {
                self.inv_sel = if c + 1 == len { 0 } else { c + 1 };
            } else {
                self.inv_sel = if c == 0 { len - 1 } else { c - 1 };
            }
        }
        assert(self@ =~= inv_step(s, down));
    }

    /// The monster to attack: the nearest living one next to the client's own
    /// player, the first of equally near ones.
    fn attack_target(&self) -> (r: Option<u64>)
        ensures
            r == attack_target(self@),
    {
        match self.my_player() {
            Some(p) => {
                let ghost ms = self@.monsters;
                let px = p.pos.x as i64;
                let py = p.pos.y as i64;
                let mut best: Option<usize> = None;
                let mut best_d: i64 = 0;
                let mut i: usize = 0;
                while i < self.monsters.len()
                    invariant
                        i <= self.monsters@.len(),
                        ms == self@.monsters,
                        ms.len() == self.monsters@.len(),
                        px == p@.pos.x,
                        py == p@.pos.y,
                        match nearest_adjacent(ms, p@.pos, i as nat) {
                            Some(j) => best == Some(j as usize) && 0 <= j < i && best_d == p@.pos.spec_dist_sq(ms[j].pos),
                            None => best is None,
                        },
                    decreases self.monsters.len() - i,
                {
                    let m = &self.monsters[i];
                    assert(ms[i as int] == self.monsters@[i as int]@);
                    let dx: i64 = m.pos.x as i64 - px;
                    let dy: i64 = m.pos.y as i64 - py;
                    if m.stats.hp > 0 && -1 <= dx && dx <= 1 && -1 <= dy && dy <= 1 {
                        assert(0 <= dx * dx <= 1 && 0 <= dy * dy <= 1) by (nonlinear_arith)
                            requires -1 <= dx <= 1, -1 <= dy <= 1;
                        let d: i64 = dx * dx + dy * dy;
                        assert(d == p@.pos.spec_dist_sq(ms[i as int].pos)) by (nonlinear_arith)
                            requires
                                d == dx * dx + dy * dy,
                                dx == ms[i as int].pos.x - p@.pos.x,
                                dy == ms[i as int].pos.y - p@.pos.y;
                        let better = match best {
                            Some(_) => d < best_d,
                            None => true,
                        };
                        if better {
                            best = Some(i);
                            best_d = d;
                        }
                    }
                    i += 1;
                }
                match best {
                    Some(j) => Some(self.monsters[j].id),
                    None => None,
                }
            },
            None => None,
        }
    }

    fn inv_key(&mut self, k: i32) -> (r: Cmd)
        requires
            client_ok(old(self)@),
        ensures
            final(self)@ == inv_key(old(self)@, k).0,
            r@ == inv_key(old(self)@, k).1,
            client_ok(final(self)@),
    {
        let ghost s = self@;
        if k == QK_UP || k == QK_K {
            self.step_selection(false);
            none_cmd()
        } else if k == QK_DOWN || k == QK_J {
            self.step_selection(true);
            none_cmd()
        } else if k == QK_G || k == QK_RETURN {
            match self.selected_item() {
                Some(id) => make_cmd(CmdKind::SendMsg, Payload::Msg(ClientMsg::Equip { item_id: id })),
                None => none_cmd(),
            }
        } else if k == QK_U {
            match self.selected_item() {
                Some(id) => make_cmd(CmdKind::SendMsg, Payload::Msg(ClientMsg::UseItem { item_id: id })),
                None => none_cmd(),
            }
        } else if k == QK_X {
            match self.selected_item() {
                Some(id) => {
                    self.inv_open = false;
                    assert(self@ =~= inv_key(s, k).0);
                    make_cmd(CmdKind::SendMsg, Payload::Msg(ClientMsg::DropItem { item_id: id }))
                },
                None => none_cmd(),
            }
        } else if k == QK_I || k == QK_ESCAPE {
            self.inv_open = false;
            assert(self@ =~= inv_key(s, k).0);
            none_cmd()
        } else {
            none_cmd()
        }
    }

    fn diagonal(k: i32) -> (r: Option<(i32, i32)>)
        ensures
            r == diagonal(k),
    {
        if k == QK_Q {
            Some((-1, -1))
        } else if k == QK_E {
            Some((1, -1))
        } else if k == QK_Z {
            Some((-1, 1))
        } else if k == QK_C {
            Some((1, 1))
        } else {
            None
        }
    }

    fn walk_key(&mut self, k: i32) -> (r: Cmd)
        requires
            client_ok(old(self)@),
        ensures
            final(self)@ == walk_key(old(self)@, k).0,
            r@ == walk_key(old(self)@, k).1,
            client_ok(final(self)@),
    {
        let ghost s = self@;
        let diag = Self::diagonal(k);
        if self.camera_mode == 2 && diag.is_none() {
            let fdx = self.player_face_dx;
            let fdy = self.player_face_dy;
            if k == QK_W || k == QK_UP {
                make_cmd(CmdKind::SendMsg, Payload::Msg(ClientMsg::Move { dx: fdx, dy: fdy }))
            } else if k == QK_S || k == QK_DOWN {
                make_cmd(CmdKind::SendMsg, Payload::Msg(ClientMsg::Move { dx: -fdx, dy: -fdy }))
            } else if k == QK_A {
                make_cmd(CmdKind::SendMsg, Payload::Msg(ClientMsg::Move { dx: fdy, dy: -fdx }))
            } else if k == QK_D {
                make_cmd(CmdKind::SendMsg, Payload::Msg(ClientMsg::Move { dx: -fdy, dy: fdx }))
            } else if k == QK_LEFT {
                self.player_face_dx = fdy;
                self.player_face_dy = -fdx;
                assert(self@ =~= walk_key(s, k).0);
                none_cmd()
            } else if k == QK_RIGHT {
                self.player_face_dx = -fdy;
                self.player_face_dy = fdx;
                assert(self@ =~= walk_key(s, k).0);
                none_cmd()
            } else {
                none_cmd()
            }
        } else {
            let dir: Option<(i32, i32)> = if k == QK_UP || k == QK_W {
                Some((0, -1))
            } else if k == QK_DOWN || k == QK_S {
                Some((0, 1))
            } else if k == QK_LEFT || k == QK_A {
                Some((-1, 0))
            } else if k == QK_RIGHT || k == QK_D {
                Some((1, 0))
            } else {
                diag
            };
            match dir {
                Some((dx, dy)) => {
                    self.player_face_dx = dx;
                    self.player_face_dy = dy;
                    assert(self@ =~= walk_key(s, k).0);
                    make_cmd(CmdKind::SendMsg, Payload::Msg(ClientMsg::Move { dx, dy }))
                },
                None => none_cmd(),
            }
        }
    }

    fn play_key(&mut self, k: i32, text: &str) -> (r: Cmd)
        requires
            client_ok(old(self)@),
        ensures
            final(self)@ == play_key(old(self)@, k, text@).0,
            r@ == play_key(old(self)@, k, text@).1,
            client_ok(final(self)@),
    {
        let ghost s = self@;
        if self.chat_active {
            return self.chat_key(k, text);
        }
        if self.inv_open {
            return self.inv_key(k);
        }
        if k == QK_RETURN || k == QK_ENTER {
            self.chat_active = true;
            assert(self@ =~= play_key(s, k, text@).0);
            none_cmd()
        } else if k == QK_I {
            self.inv_open = true;
            self.inv_sel = 0;
            assert(self@ =~= play_key(s, k, text@).0);
            none_cmd()
        } else if k == QK_V {
            self.equip_open = !self.equip_open;
            assert(self@ =~= play_key(s, k, text@).0);
            none_cmd()
        } else if k == QK_T {
            make_cmd(CmdKind::SendMsg, Payload::ZoneTravel)
        } else if k == QK_ESCAPE {
            if self.equip_open {
                self.equip_open = false;
                assert(self@ =~= play_key(s, k, text@).0);
                none_cmd()
            } else {
                make_cmd(CmdKind::Quit, Payload::Nothing)
            }
        } else if k == QK_F {
            match self.attack_target() {
                Some(id) => make_cmd(CmdKind::SendMsg, Payload::Msg(ClientMsg::Attack { target_id: id })),
                None => none_cmd(),
            }
        } else if k == QK_G {
            match self.selected_item() {
                Some(id) => make_cmd(CmdKind::SendMsg, Payload::Msg(ClientMsg::Equip { item_id: id })),
                None => none_cmd(),
            }
        } else if k == QK_U {
            match self.selected_item() {
                Some(id) => make_cmd(CmdKind::SendMsg, Payload::Msg(ClientMsg::UseItem { item_id: id })),
                None => none_cmd(),
            }
        } else if k == QK_X {
            match self.selected_item() {
                Some(id) => make_cmd(CmdKind::SendMsg, Payload::Msg(ClientMsg::DropItem { item_id: id })),
                None => none_cmd(),
            }
        } else if k == QK_P {
            make_cmd(CmdKind::SendMsg, Payload::Msg(ClientMsg::Pickup))
        } else if k == QK_J {
            self.step_selection(true);
            none_cmd()
        } else if k == QK_K {
            self.step_selection(false);
            none_cmd()
        } else {
            self.walk_key(k)
        }
    }
}

/// Pressing F5 four times brings the camera back to the view it had.
pub proof fn lemma_camera_cycle(s: ClientView, t: Seq<char>)
    requires
        s.camera_mode < 4,
    ensures
        ({
            let s1 = key_step(s, QK_F5, t).0;
            let s2 = key_step(s1, QK_F5, t).0;
            let s3 = key_step(s2, QK_F5, t).0;
            let s4 = key_step(s3, QK_F5, t).0;
            &&& s4.camera_mode == s.camera_mode
            &&& s4 == ClientView { camera_mode: s.camera_mode, ..error_cleared(s) }
            &&& key_step(s, QK_F5, t).1 == no_cmd()
        }),
{
    let e = error_cleared(s);
    assert(error_cleared(ClientView { camera_mode: ((e.camera_mode + 1) % 4) as u8, ..e })
        == ClientView { camera_mode: ((e.camera_mode + 1) % 4) as u8, ..e });
}

/// Choosing the next entry of a cycle and then the previous one comes back.
pub proof fn lemma_cycle_back(a: int, n: int)
    requires
        0 <= a < n,
    ensures
        cycle_prev(cycle_next(a, n), n) == a,
        cycle_next(cycle_prev(a, n), n) == a,
{
    lemma_cycle(a, n);
    lemma_small_mod(a as nat, n as nat);
    lemma_cycle(cycle_next(a, n), n);
    lemma_cycle(cycle_prev(a, n), n);
    lemma_small_mod(cycle_next(a, n) as nat, n as nat);
    lemma_small_mod(cycle_prev(a, n) as nat, n as nat);
}

} // verus!
