use void_quest::client::app::{named_color, sorted_classes, GameApp};
use void_quest::client::bridge::{CmdKind, Payload};
use void_quest::client::keys::{
    parse_u16, QK_DOWN, QK_ESCAPE, QK_F, QK_F5, QK_G, QK_J, QK_K, QK_P, QK_Q, QK_RETURN, QK_T, QK_U, QK_X,
};
use void_quest::client::state::{GameState, Screen, LOG_MAX};
use void_quest::config::locale::LocaleConfig;
use void_quest::config::{default_classes, default_items, default_monsters, default_spells, GameConfig, WorldConfig};
use void_quest::protocol::{ClientMsg, ServerMsg};

fn cfg() -> GameConfig {
    let mut world = WorldConfig::default();
    world.monster_count = 6;
    GameConfig::new(world, default_classes(), default_monsters(), default_items(), default_spells(), LocaleConfig::default_en())
}

fn playing() -> GameApp {
    let mut c = GameApp::new();
    c.start_sp(cfg(), "Bob", "mage", "@", "white".to_string());
    c
}

#[test]
fn the_client_starts_in_the_main_menu() {
    let c = GameApp::new();
    assert_eq!(c.state.screen, Screen::MainMenu);
    assert_eq!(c.state.conn_host, "127.0.0.1");
    assert_eq!(c.state.conn_port, "7777");
    assert_eq!((c.view_w, c.view_h), (24, 16));
    assert!(c.local_game.is_none());
    let info = c.get_map_info();
    assert_eq!((info.cam_x, info.cam_y, info.player_x, info.player_y), (0, 0, 0, 0));
    assert!(c.get_entities().is_empty());
}

#[test]
fn resizing_keeps_a_minimum_view() {
    let mut c = GameApp::new();
    c.on_resize(3, 100);
    assert_eq!((c.view_w, c.view_h), (8, 100));
    c.on_resize(40, -2);
    assert_eq!((c.view_w, c.view_h), (40, 6));
}

#[test]
fn menu_to_single_player_character_creation() {
    let mut c = GameApp::new();
    let cmd = c.on_key(QK_DOWN, 0, "");
    assert_eq!(cmd.kind, CmdKind::Nothing);
    let cmd = c.on_key(QK_RETURN, 0, "");
    assert_eq!(cmd.kind, CmdKind::StartSP);
    assert!(matches!(cmd.payload, Payload::LoadClasses));
    assert_eq!(c.state.screen, Screen::CharCreate);
    assert!(c.state.sp_pending);
    c.load_classes(&cfg());
    let ids: Vec<String> = c.state.avail_classes.iter().map(|k| k.id.clone()).collect();
    assert_eq!(ids, vec!["mage", "paladin", "ranger", "rogue", "warrior"]);
    for t in ["B", "o", "b", "-"] {
        c.on_key(0, 0, t);
    }
    assert_eq!(c.state.char_name, "Bob");
    let cmd = c.on_key(QK_RETURN, 0, "");
    assert_eq!(cmd.kind, CmdKind::StartSP);
    match cmd.payload {
        Payload::StartSp { name, class_id, symbol, color } => {
            assert_eq!((name.as_str(), class_id.as_str(), symbol.as_str(), color.as_str()), ("Bob", "mage", "@", "white"));
        }
        _ => panic!("the character goes to the single-player game"),
    }
}

#[test]
fn classes_sort_by_id() {
    let sorted = sorted_classes(&default_classes());
    let ids: Vec<&str> = sorted.iter().map(|k| k.id.as_str()).collect();
    assert_eq!(ids, vec!["mage", "paladin", "ranger", "rogue", "warrior"]);
}

#[test]
fn starting_a_single_player_game() {
    let c = playing();
    assert_eq!(c.state.screen, Screen::Playing);
    assert!(c.local_game.is_some());
    assert_eq!(c.state.my_id, 1);
    assert_eq!(c.state.players.len(), 1);
    assert_eq!(c.state.monsters.len(), 6);
    assert_eq!(c.state.world.name, "Greater Voidlands");
    assert_eq!(c.state.log.back().unwrap(), "Singleplayer started — welcome, Bob!");
    let info = c.get_map_info();
    assert_eq!((info.player_x, info.player_y), (128, 64));
    assert_eq!((info.cam_x, info.cam_y), (116, 56));
    let ents = c.get_entities();
    let me = ents.last().unwrap();
    assert_eq!((me.x, me.y, me.kind), (128, 64, 0));
    assert_eq!((me.r, me.g, me.b), (220, 220, 220));
    let hud = c.get_hud();
    assert_eq!(hud.screen, 4);
    assert_eq!(hud.player_name, "Bob");
    assert_eq!(hud.player_class, "mage");
    assert_eq!(hud.max_hp, 65);
    assert_eq!(hud.eq_weapon, "Magic Staff");
    assert_eq!((hud.eq_armor_r, hud.eq_armor_g, hud.eq_armor_b), (90, 90, 90));
    assert!(hud.is_singleplayer);
    assert_eq!(hud.zone_style, "Wilderness");
}

#[test]
fn an_unknown_class_goes_back_to_the_menu() {
    let mut c = GameApp::new();
    c.start_sp(cfg(), "Bob", "bard", "@", "white".to_string());
    assert_eq!(c.state.screen, Screen::MainMenu);
    assert_eq!(c.state.error_msg, "Failed to start singleplayer game.");
    assert_eq!(c.state.error_clear_tick, 180);
    assert!(c.local_game.is_none());
}

#[test]
fn chat_is_for_multiplayer() {
    let mut c = playing();
    c.dispatch_sp(Payload::Msg(ClientMsg::Chat { msg: "hi".to_string() }));
    assert_eq!(c.state.log.back().unwrap(), "(Chat is multiplayer only.)");
    c.on_key(QK_RETURN, 0, "");
    assert!(c.state.chat_active);
    c.on_key(0, 0, "y");
    c.on_key(0, 0, "o");
    let cmd = c.on_key(QK_RETURN, 0, "");
    assert_eq!(cmd.kind, CmdKind::Nothing);
    assert!(!c.state.chat_active);
    assert_eq!(c.state.chat_buf, "");
    assert_eq!(c.state.log.back().unwrap(), "(Chat is multiplayer only.)");
}

#[test]
fn travelling_to_the_next_zone() {
    let mut c = playing();
    let cmd = c.on_key(QK_T, 0, "");
    assert_eq!(cmd.kind, CmdKind::Nothing);
    assert_eq!(c.state.zone_idx, 1);
    assert_eq!(c.state.log.back().unwrap(), "Entered Dungeon.");
    assert_eq!(c.state.world.name, "Dungeon");
    assert_eq!(c.local_game.as_ref().unwrap().map.name, "Dungeon");
    assert_eq!(c.state.players.len(), 1);
}

#[test]
fn escape_quits() {
    let mut c = playing();
    let cmd = c.on_key(QK_ESCAPE, 0, "");
    assert_eq!(cmd.kind, CmdKind::Quit);
    assert!(c.local_game.is_none());
}

fn playing_state() -> GameState {
    let mut s = GameState::new();
    s.screen = Screen::Playing;
    s
}

fn sent(cmd: &void_quest::client::bridge::Cmd) -> ClientMsg {
    assert_eq!(cmd.kind, CmdKind::SendMsg);
    match &cmd.payload {
        Payload::Msg(m) => m.clone(),
        _ => panic!("a message is sent"),
    }
}

#[test]
fn q_moves_up_left() {
    let mut s = playing_state();
    let cmd = s.handle_key(QK_Q, 0, "q");
    assert!(matches!(sent(&cmd), ClientMsg::Move { dx: -1, dy: -1 }));
    assert_eq!((s.player_face_dx, s.player_face_dy), (-1, -1));
}

#[test]
fn p_picks_up() {
    let mut s = playing_state();
    let cmd = s.handle_key(QK_P, 0, "p");
    assert!(matches!(sent(&cmd), ClientMsg::Pickup));
}

#[test]
fn enter_opens_the_chat() {
    let mut s = playing_state();
    let cmd = s.handle_key(QK_RETURN, 0, "");
    assert_eq!(cmd.kind, CmdKind::Nothing);
    assert!(s.chat_active);
}

#[test]
fn escape_asks_to_quit() {
    let mut s = playing_state();
    let cmd = s.handle_key(QK_ESCAPE, 0, "");
    assert_eq!(cmd.kind, CmdKind::Quit);
}

#[test]
fn f_attacks_the_nearest_adjacent_monster() {
    let mut c = playing();
    let (px, py) = {
        let p = c.state.my_player().unwrap();
        (p.pos.x, p.pos.y)
    };
    let cmd0 = c.state.handle_key(QK_F, 0, "f");
    assert_eq!(cmd0.kind, CmdKind::Nothing);
    let mut far = c.state.monsters[0].clone();
    far.id = 9001;
    far.pos.x = px + 1;
    far.pos.y = py + 1;
    let mut near = c.state.monsters[0].clone();
    near.id = 9002;
    near.pos.x = px;
    near.pos.y = py + 1;
    let mut dead = c.state.monsters[0].clone();
    dead.id = 9003;
    dead.pos.x = px + 1;
    dead.pos.y = py;
    dead.stats.hp = 0;
    c.state.monsters.push(far);
    c.state.monsters.push(dead);
    c.state.monsters.push(near);
    let cmd = c.state.handle_key(QK_F, 0, "f");
    assert!(matches!(sent(&cmd), ClientMsg::Attack { target_id: 9002 }));
}

#[test]
fn item_keys_act_on_the_selection() {
    let mut c = playing();
    let inv: Vec<u64> = c.state.my_player().unwrap().inventory.iter().map(|i| i.id).collect();
    assert!(!inv.is_empty());
    let cmd = c.state.handle_key(QK_G, 0, "g");
    assert!(matches!(sent(&cmd), ClientMsg::Equip { item_id } if item_id == inv[0]));
    let cmd = c.state.handle_key(QK_U, 0, "u");
    assert!(matches!(sent(&cmd), ClientMsg::UseItem { item_id } if item_id == inv[0]));
    let cmd = c.state.handle_key(QK_X, 0, "x");
    assert!(matches!(sent(&cmd), ClientMsg::DropItem { item_id } if item_id == inv[0]));
    c.state.handle_key(QK_K, 0, "k");
    assert_eq!(c.state.inv_sel, inv.len() - 1);
    c.state.handle_key(QK_J, 0, "j");
    assert_eq!(c.state.inv_sel, 0);
}

#[test]
fn f5_four_times_comes_back() {
    let mut c = GameApp::new();
    for k in 1..=4u8 {
        c.on_key(QK_F5, 0, "");
        assert_eq!(c.state.camera_mode, k % 4);
    }
}

#[test]
fn the_log_keeps_its_last_lines() {
    let mut s = GameState::new();
    for i in 0..60 {
        s.add_log(format!("line {}", i));
    }
    assert_eq!(s.log.len(), LOG_MAX);
    assert_eq!(s.log[0], "line 10");
    assert_eq!(s.log.back().unwrap(), "line 59");
}

#[test]
fn a_server_error_is_shown_for_a_while() {
    let mut c = GameApp::new();
    c.state.handle_message(ServerMsg::Error { msg: "nope".to_string() });
    assert_eq!(c.state.error_msg, "nope");
    assert_eq!(c.state.error_clear_tick, 120);
    assert_eq!(c.state.log.back().unwrap(), "[ERROR] nope");
    for _ in 0..119 {
        c.tick();
    }
    assert_eq!(c.state.error_msg, "nope");
    c.tick();
    assert_eq!(c.state.anim_tick, 120);
    assert_eq!(c.state.error_msg, "");
}

#[test]
fn the_single_player_game_ticks_every_second_frame() {
    let mut c = playing();
    c.tick();
    assert_eq!(c.local_game.as_ref().unwrap().tick, 0);
    assert_eq!(c.sp_ai_timer, 1);
    c.tick();
    assert_eq!(c.local_game.as_ref().unwrap().tick, 1);
    assert_eq!(c.sp_ai_timer, 0);
}

#[test]
fn server_messages_update_the_picture() {
    let mut s = GameState::new();
    s.handle_message(ServerMsg::RegisterOk);
    assert_eq!(s.log.back().unwrap(), "Registration successful — please log in.");
    s.handle_message(ServerMsg::System("hello".to_string()));
    assert_eq!(s.log.back().unwrap(), "* hello");
    s.handle_message(ServerMsg::Chat { from: "eve".to_string(), msg: "hi".to_string() });
    assert_eq!(s.log.back().unwrap(), "<eve> hi");
    s.handle_message(ServerMsg::MonsterDied { id: 3, xp: 25 });
    assert_eq!(s.log.back().unwrap(), "You gain 25 XP.");
    s.handle_message(ServerMsg::LevelUp { level: 3, stat_points: 5 });
    assert_eq!(s.log.back().unwrap(), "*** LEVEL UP! Level 3 (+5 stat points) ***");
}

#[test]
fn log_tail_and_nearby() {
    let mut c = playing();
    for i in 0..30 {
        c.state.add_log(format!("l{}", i));
    }
    let tail = c.log_tail();
    assert_eq!(tail.len(), 20);
    assert_eq!(tail[0], "l10");
    assert_eq!(tail[19], "l29");
    let near = c.nearby_monsters();
    assert!(near.len() <= 6);
    let me = c.state.players[0].pos;
    assert!(near.iter().all(|m| (m.pos.x - me.x).abs() <= 12 && (m.pos.y - me.y).abs() <= 12));
}

#[test]
fn port_numbers_parse_as_u16() {
    assert_eq!(parse_u16("7777"), Some(7777));
    assert_eq!(parse_u16("+12"), Some(12));
    assert_eq!(parse_u16("65535"), Some(65535));
    assert_eq!(parse_u16("65536"), None);
    assert_eq!(parse_u16(""), None);
    assert_eq!(parse_u16("+"), None);
    assert_eq!(parse_u16("12a"), None);
    assert_eq!(parse_u16("-1"), None);
}

#[test]
fn named_colors() {
    assert_eq!(named_color("red"), (220, 60, 60));
    assert_eq!(named_color("purple"), (140, 40, 200));
    assert_eq!(named_color("Red"), (180, 180, 180));
    assert_eq!(named_color(""), (180, 180, 180));
}

#[test]
fn backspace_removes_the_last_character() {
    let mut c = GameApp::new();
    c.on_key(QK_RETURN, 0, "");
    assert_eq!(c.state.screen, Screen::Connect);
    c.on_key(void_quest::client::keys::QK_BACKSPACE, 0, "");
    assert_eq!(c.state.conn_host, "127.0.0.");
    c.on_key(0, 0, "2");
    assert_eq!(c.state.conn_host, "127.0.0.2");
}

#[test]
fn the_display_before_playing() {
    let c = GameApp::new();
    let hud = c.get_hud();
    assert_eq!(hud.screen, 0);
    assert_eq!(hud.player_name, "");
    assert_eq!(hud.hp, 0);
    assert_eq!((hud.eq_weapon_r, hud.eq_weapon_g, hud.eq_weapon_b), (90, 90, 90));
    assert_eq!(hud.conn_host, "127.0.0.1");
    assert_eq!(hud.char_symbol, "@");
    assert_eq!((hud.char_col_r, hud.char_col_g, hud.char_col_b), (200, 200, 200));
    assert!(!hud.is_singleplayer);
    assert_eq!(c.get_tile(0, 0), 1);
    assert_eq!(hud.log_json, "[]");
    assert_eq!(hud.inventory_json, "");
    assert_eq!(hud.nearby_json, "");
    assert_eq!(hud.world_name, "World");
    assert_eq!(hud.zone_style, "Wilderness");
    assert_eq!(hud.conn_port, "7777");
    assert_eq!(hud.anim_tick, 0);
    assert_eq!(hud.char_n_classes, 0);
    assert_eq!(hud.player_face_dy, 1);
}

#[test]
fn log_lines_escape_control_characters() {
    let lines = vec!["a\u{1}b".to_string(), "tab\there".to_string(), "back\\slash".to_string()];
    let j = void_quest::client::json::lines_json(&lines);
    assert_eq!(j, "[\"a\\u0001b\",\"tab\\there\",\"back\\\\slash\"]");
    let back: Vec<String> = serde_json::from_str(&j).unwrap();
    assert_eq!(back, lines);
    assert_eq!(void_quest::client::json::lines_json(&Vec::new()), "[]");
}

#[test]
fn the_display_lists_as_json() {
    let mut c = playing();
    c.state.add_log("say \"hi\"".to_string());
    let hud = c.get_hud();
    assert!(hud.log_json.ends_with(",\"say \\\"hi\\\"\"]"), "{}", hud.log_json);
    let lines: Vec<String> = serde_json::from_str(&hud.log_json).unwrap();
    assert_eq!(lines.last().unwrap(), "say \"hi\"");
    let inv: serde_json::Value = serde_json::from_str(&hud.inventory_json).unwrap();
    assert_eq!(inv[0]["name"], "HP Potion");
    assert_eq!(inv[0]["symbol"], "*");
    assert_eq!(inv[0]["kind"]["Potion"]["hp"], 40);
    let nearby: serde_json::Value = serde_json::from_str(&hud.nearby_json).unwrap();
    assert!(nearby.as_array().unwrap().len() <= 6);
}

#[test]
fn choosing_right_then_left_comes_back() {
    let mut c = GameApp::new();
    c.on_key(QK_DOWN, 0, "");
    c.on_key(QK_RETURN, 0, "");
    c.load_classes(&cfg());
    let right = void_quest::client::keys::QK_RIGHT;
    let left = void_quest::client::keys::QK_LEFT;
    c.on_key(QK_DOWN, 0, "");
    assert_eq!(c.state.char_cursor, 1);
    c.on_key(left, 0, "");
    assert_eq!(c.state.char_class_idx, 4);
    c.on_key(right, 0, "");
    assert_eq!(c.state.char_class_idx, 0);
    c.on_key(QK_DOWN, 0, "");
    c.on_key(QK_DOWN, 0, "");
    assert_eq!(c.state.char_cursor, 3);
    for _ in 0..8 {
        c.on_key(right, 0, "");
    }
    assert_eq!(c.state.char_color_idx, 0);
    c.on_key(right, 0, "");
    c.on_key(left, 0, "");
    assert_eq!(c.state.char_color_idx, 0);
}

#[test]
fn bumping_into_a_monster_attacks_it() {
    let mut c = playing();
    let (p, hp0) = {
        let lg = c.local_game.as_mut().unwrap();
        let p = lg.player.pos;
        lg.monsters.truncate(1);
        lg.monsters[0].pos = void_quest::world::Pos::new(p.x + 1, p.y);
        lg.monsters[0].stats.hp = 1000;
        lg.monsters[0].stats.max_hp = 1000;
        (p, lg.monsters[0].stats.hp)
    };
    c.dispatch_sp(Payload::Msg(ClientMsg::Move { dx: 1, dy: 0 }));
    let lg = c.local_game.as_ref().unwrap();
    assert_eq!(lg.player.pos, p);
    assert!(lg.monsters[0].stats.hp < hp0);
}
