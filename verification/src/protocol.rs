//! The messages of the client-server protocol (newline-delimited JSON over
//! TCP, with a "t" tag and a "d" content field).

use vstd::prelude::*;
use crate::entity::{ClassDef, GroundItem, Monster, Player};
use crate::world::{CombatEvent, GameMap};

verus! {

/// Messages sent from client to server.
#[derive(Debug, Clone)]
pub enum ClientMsg {
    Register { username: String, password: String },
    Login { username: String, password: String },
    CreateChar { name: String, class_id: String, symbol: char, color: String },
    Move { dx: i32, dy: i32 },
    Attack { target_id: u64 },
    UseItem { item_id: u64 },
    Equip { item_id: u64 },
    Pickup,
    DropItem { item_id: u64 },
    Chat { msg: String },
    Ping,
    Quit,
}

/// A client message as a value.
pub enum ClientMsgView {
    Register { username: Seq<char>, password: Seq<char> },
    Login { username: Seq<char>, password: Seq<char> },
    CreateChar { name: Seq<char>, class_id: Seq<char>, symbol: char, color: Seq<char> },
    Move { dx: i32, dy: i32 },
    Attack { target_id: u64 },
    UseItem { item_id: u64 },
    Equip { item_id: u64 },
    Pickup,
    DropItem { item_id: u64 },
    Chat { msg: Seq<char> },
    Ping,
    Quit,
}

impl View for ClientMsg {
    type V = ClientMsgView;

    open spec fn view(&self) -> ClientMsgView {
        match self {
            ClientMsg::Register { username, password } => ClientMsgView::Register { username: username@, password: password@ },
            ClientMsg::Login { username, password } => ClientMsgView::Login { username: username@, password: password@ },
            ClientMsg::CreateChar { name, class_id, symbol, color } =>
                ClientMsgView::CreateChar { name: name@, class_id: class_id@, symbol: *symbol, color: color@ },
            ClientMsg::Move { dx, dy } => ClientMsgView::Move { dx: *dx, dy: *dy },
            ClientMsg::Attack { target_id } => ClientMsgView::Attack { target_id: *target_id },
            ClientMsg::UseItem { item_id } => ClientMsgView::UseItem { item_id: *item_id },
            ClientMsg::Equip { item_id } => ClientMsgView::Equip { item_id: *item_id },
            ClientMsg::Pickup => ClientMsgView::Pickup,
            ClientMsg::DropItem { item_id } => ClientMsgView::DropItem { item_id: *item_id },
            ClientMsg::Chat { msg } => ClientMsgView::Chat { msg: msg@ },
            ClientMsg::Ping => ClientMsgView::Ping,
            ClientMsg::Quit => ClientMsgView::Quit,
        }
    }
}

/// Messages sent from server to client.
#[derive(Debug, Clone)]
pub enum ServerMsg {
    RegisterOk,
    LoginOk,
    NeedChar { classes: Vec<ClassDef> },
    CharOk,
    /// An error for the client to show (sent on the wire as "Err").
    Error { msg: String },
    WorldInit {
        player_id: u64,
        map: GameMap,
        players: Vec<Player>,
        monsters: Vec<Monster>,
        items: Vec<GroundItem>,
    },
    PlayerUpdate(Player),
    PlayerLeft(u64),
    MonsterUpdate(Monster),
    MonsterDied { id: u64, xp: u64 },
    ItemDropped(GroundItem),
    ItemPickedUp { item_id: u64, by: String },
    Combat(CombatEvent),
    Chat { from: String, msg: String },
    System(String),
    LevelUp { level: u32, stat_points: u32 },
    Pong,
}

} // verus!
