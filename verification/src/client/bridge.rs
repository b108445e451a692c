//! What the client's front end reads and what a key press asks of it.

use vstd::prelude::*;
use crate::protocol::{ClientMsg, ClientMsgView};

verus! {

/// An entity in view.
#[derive(Debug, Clone, Copy, PartialEq, Eq, Structural)]
pub struct EntityInfo {
    pub x: i32,
    pub y: i32,
    /// 0 the player, 1 another player, 2 a monster, 3 an item on the ground.
    pub kind: u8,
    pub r: u8,
    pub g: u8,
    pub b: u8,
    pub anim: u32,
}

/// Map size, camera and the player's tile.
#[derive(Debug, Clone, Copy, PartialEq, Eq, Structural)]
pub struct MapInfo {
    pub map_w: i32,
    pub map_h: i32,
    pub cam_x: i32,
    pub cam_y: i32,
    pub view_w: i32,
    pub view_h: i32,
    pub player_x: i32,
    pub player_y: i32,
}

/// Everything the heads-up display shows.
#[derive(Debug, Clone)]
pub struct HudData {
    /// 0 main menu, 1 connect, 2 login, 3 character creation, 4 playing.
    pub screen: u8,
    pub anim_tick: u64,
    pub player_name: String,
    pub player_class: String,
    pub player_level: i32,
    pub hp: i32,
    pub max_hp: i32,
    pub mp: i32,
    pub max_mp: i32,
    pub xp: i64,
    pub xp_next: i64,
    pub stat_str: i32,
    pub stat_dex: i32,
    pub stat_int: i32,
    pub stat_vit: i32,
    pub atk: i32,
    pub def_: i32,
    pub stat_points: i32,
    pub world_name: String,
    pub eq_weapon: String,
    pub eq_armor: String,
    pub eq_helmet: String,
    pub eq_ring: String,
    pub eq_weapon_r: u8,
    pub eq_weapon_g: u8,
    pub eq_weapon_b: u8,
    pub eq_armor_r: u8,
    pub eq_armor_g: u8,
    pub eq_armor_b: u8,
    pub eq_helmet_r: u8,
    pub eq_helmet_g: u8,
    pub eq_helmet_b: u8,
    pub eq_ring_r: u8,
    pub eq_ring_g: u8,
    pub eq_ring_b: u8,
    pub chat_active: bool,
    pub chat_buf: String,
    pub inv_open: bool,
    pub equip_open: bool,
    pub inv_sel: i32,
    /// The inventory, the last log lines and the monsters nearby, as JSON.
    pub inventory_json: String,
    pub log_json: String,
    pub nearby_json: String,
    /// 0 top down, 1 third person, 2 first person, 3 flat.
    pub camera_mode: u8,
    pub is_singleplayer: bool,
    pub player_face_dx: i32,
    pub player_face_dy: i32,
    pub zone_style: String,
    pub menu_sel: i32,
    pub conn_host: String,
    pub conn_port: String,
    pub conn_cursor: i32,
    pub login_user: String,
    pub login_pass_len: i32,
    pub login_cursor: i32,
    pub login_is_register: bool,
    pub char_name: String,
    pub char_class_name: String,
    pub char_class_desc: String,
    pub char_symbol: String,
    pub char_col_r: u8,
    pub char_col_g: u8,
    pub char_col_b: u8,
    pub char_cursor: i32,
    pub char_n_classes: i32,
    pub char_is_sp: bool,
    pub error_msg: String,
}

/// What a key press asks of the front end.
#[derive(Debug, Clone, Copy, PartialEq, Eq, Structural)]
pub enum CmdKind {
    /// Nothing to do.
    Nothing,
    Connect,
    SendMsg,
    Disconnect,
    Quit,
    StartSP,
}

/// What goes with a command.
pub enum Payload {
    Nothing,
    /// A request for the server (or the single-player game).
    Msg(ClientMsg),
    /// Travel to the next zone (single-player).
    ZoneTravel,
    /// Load the classes for character creation (single-player).
    LoadClasses,
    /// Start a single-player game with this character.
    StartSp { name: String, class_id: String, symbol: String, color: String },
}

pub enum PayloadView {
    Nothing,
    Msg(ClientMsgView),
    ZoneTravel,
    LoadClasses,
    StartSp { name: Seq<char>, class_id: Seq<char>, symbol: Seq<char>, color: Seq<char> },
}

impl View for Payload {
    type V = PayloadView;

    open spec fn view(&self) -> PayloadView {
        match self {
            Payload::Nothing => PayloadView::Nothing,
            Payload::Msg(m) => PayloadView::Msg(m@),
            Payload::ZoneTravel => PayloadView::ZoneTravel,
            Payload::LoadClasses => PayloadView::LoadClasses,
            Payload::StartSp { name, class_id, symbol, color } =>
                PayloadView::StartSp { name: name@, class_id: class_id@, symbol: symbol@, color: color@ },
        }
    }
}

/// A key press's command: its kind, the server to connect to, and what goes
/// with it.
pub struct Cmd {
    pub kind: CmdKind,
    pub host: String,
    pub port: u16,
    pub payload: Payload,
}

pub struct CmdView {
    pub kind: CmdKind,
    pub host: Seq<char>,
    pub port: u16,
    pub payload: PayloadView,
}

impl View for Cmd {
    type V = CmdView;

    open spec fn view(&self) -> CmdView {
        CmdView { kind: self.kind, host: self.host@, port: self.port, payload: self.payload@ }
    }
}

/// The command that asks nothing.
pub open spec fn no_cmd() -> CmdView {
    CmdView { kind: CmdKind::Nothing, host: Seq::empty(), port: 0, payload: PayloadView::Nothing }
}

/// A command of kind `kind` with `payload` and no server.
pub open spec fn cmd_of(kind: CmdKind, payload: PayloadView) -> CmdView {
    CmdView { kind, host: Seq::empty(), port: 0, payload }
}

pub fn none_cmd() -> (r: Cmd)
    ensures
        r@ == no_cmd(),
{
    Cmd { kind: CmdKind::Nothing, host: String::new(), port: 0, payload: Payload::Nothing }
}

pub fn make_cmd(kind: CmdKind, payload: Payload) -> (r: Cmd)
    ensures
        r@ == cmd_of(kind, payload@),
{
    Cmd { kind, host: String::new(), port: 0, payload }
}

} // verus!
