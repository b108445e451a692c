use void_quest::config::locale::LocaleConfig;
use void_quest::config::{default_classes, default_items, default_monsters, default_spells, GameConfig, WorldConfig};
use void_quest::entity::{Item, ItemKind};
use void_quest::protocol::{ClientMsg, ServerMsg};
use void_quest::server::{GameState, Outgoing, Session};

fn cfg() -> GameConfig {
    let mut world = WorldConfig::default();
    world.monster_count = 3;
    GameConfig::new(world, default_classes(), default_monsters(), default_items(), default_spells(), LocaleConfig::default_en())
}

fn error_of(o: &Outgoing) -> Option<String> {
    match o {
        Outgoing::Reply(ServerMsg::Error { msg }) => Some(msg.clone()),
        Outgoing::To(_, ServerMsg::Error { msg }) => Some(msg.clone()),
        _ => None,
    }
}

/// A server with a logged-in user "alice" who plays "Alice".
fn with_alice() -> (GameState, Session) {
    let mut g = GameState::new(cfg());
    let mut s = Session::new();
    g.register(&mut s, "alice".to_string(), "pw".to_string());
    g.login(&mut s, "alice".to_string(), "pw".to_string());
    let out = g.create_char(&mut s, "Alice".to_string(), "warrior".to_string(), '@', "red".to_string());
    assert!(matches!(out[0], Outgoing::Reply(ServerMsg::CharOk)));
    (g, s)
}

#[test]
fn a_new_server_is_empty_but_for_monsters() {
    let g = GameState::new(cfg());
    assert_eq!(g.accounts.len(), 0);
    assert_eq!(g.players.len(), 0);
    assert_eq!(g.monsters.len(), 3);
    assert_eq!(g.map.name, "Voidlands");
    assert_eq!((g.map.width, g.map.height), (80, 50));
}

#[test]
fn register_then_login_with_the_same_password() {
    let mut g = GameState::new(cfg());
    let mut s = Session::new();
    let out = g.register(&mut s, "alice".to_string(), "secret".to_string());
    assert_eq!(out.len(), 1);
    assert!(matches!(out[0], Outgoing::Reply(ServerMsg::RegisterOk)));
    let mut s2 = Session::new();
    let out = g.login(&mut s2, "alice".to_string(), "secret".to_string());
    assert_eq!(out.len(), 2);
    assert!(matches!(out[0], Outgoing::Reply(ServerMsg::LoginOk)));
    match &out[1] {
        Outgoing::Reply(ServerMsg::NeedChar { classes }) => assert_eq!(classes.len(), 5),
        _ => panic!("a new user is asked for a character"),
    }
    assert_eq!(s2.auth_username.as_deref(), Some("alice"));
}

#[test]
fn a_wrong_password_is_refused() {
    let mut g = GameState::new(cfg());
    let mut s = Session::new();
    g.register(&mut s, "alice".to_string(), "secret".to_string());
    let mut s2 = Session::new();
    let out = g.login(&mut s2, "alice".to_string(), "guess".to_string());
    assert_eq!(out.len(), 1);
    assert_eq!(error_of(&out[0]).as_deref(), Some("Invalid username or password."));
    assert!(s2.auth_username.is_none());
    let out = g.login(&mut s2, "nobody".to_string(), "secret".to_string());
    assert_eq!(error_of(&out[0]).as_deref(), Some("Invalid username or password."));
}

#[test]
fn a_username_is_registered_once() {
    let mut g = GameState::new(cfg());
    let mut s = Session::new();
    g.register(&mut s, "alice".to_string(), "a".to_string());
    let mut s2 = Session::new();
    let out = g.register(&mut s2, "alice".to_string(), "b".to_string());
    assert_eq!(error_of(&out[0]).as_deref(), Some("Username already taken."));
    assert_eq!(g.accounts.len(), 1);
}

#[test]
fn creating_a_character_needs_a_login_and_a_known_class() {
    let mut g = GameState::new(cfg());
    let mut s = Session::new();
    let out = g.create_char(&mut s, "Zed".to_string(), "warrior".to_string(), '@', "red".to_string());
    assert_eq!(error_of(&out[0]).as_deref(), Some("Not logged in."));
    g.register(&mut s, "zed".to_string(), "pw".to_string());
    let out = g.create_char(&mut s, "Zed".to_string(), "bard".to_string(), '@', "red".to_string());
    assert_eq!(error_of(&out[0]).as_deref(), Some("Unknown class: bard"));
}

#[test]
fn a_new_character_enters_the_world() {
    let (g, s) = with_alice();
    let pid = s.player_id.expect("the session plays the new character");
    let p = g.players.iter().find(|p| p.id == pid).expect("the character is online");
    assert_eq!(p.name, "Alice");
    assert_eq!(p.level, 1);
    assert_eq!(p.xp_next, 600);
    assert_eq!((p.pos.x, p.pos.y), (40, 25));
    assert_eq!(p.stats.max_hp, 130);
}

#[test]
fn character_names_are_unique() {
    let (mut g, _) = with_alice();
    let mut s = Session::new();
    g.register(&mut s, "bob".to_string(), "pw".to_string());
    let out = g.create_char(&mut s, "Alice".to_string(), "mage".to_string(), '@', "blue".to_string());
    assert_eq!(out.len(), 1);
    assert_eq!(error_of(&out[0]).as_deref(), Some("Character name already in use."));
    assert!(s.player_id.is_none());
}

#[test]
fn server_drop_then_pickup_gives_the_item_back() {
    let (mut g, s) = with_alice();
    let pid = s.player_id.unwrap();
    let k = g.players.iter().position(|p| p.id == pid).unwrap();
    g.players[k].inventory.push(Item {
        id: 9000,
        template_id: "hp_potion".to_string(),
        name: "HP Potion".to_string(),
        symbol: '*',
        color: "red".to_string(),
        kind: ItemKind::Potion { hp: 40, mp: 0 },
    });
    let before = g.players[k].inventory.len();
    let ground = g.ground_items.len();
    let out = g.drop_item(&s, 9000);
    assert_eq!(out.len(), 3);
    assert!(matches!(&out[0], Outgoing::All(ServerMsg::ItemDropped(gi)) if gi.item.id == 9000));
    assert_eq!(g.players[k].inventory.len(), before - 1);
    assert_eq!(g.ground_items.len(), ground + 1);
    let out = g.pickup(&s);
    assert!(matches!(&out[0], Outgoing::All(ServerMsg::ItemPickedUp { item_id: 9000, .. })));
    assert_eq!(g.players[k].inventory.len(), before);
    assert_eq!(g.players[k].inventory.last().unwrap().id, 9000);
    assert_eq!(g.ground_items.len(), ground);
}

#[test]
fn pickup_on_an_empty_tile() {
    let (mut g, s) = with_alice();
    g.ground_items.clear();
    let out = g.pickup(&s);
    assert_eq!(out.len(), 1);
    assert_eq!(error_of(&out[0]).as_deref(), Some("Nothing to pick up here."));
}

#[test]
fn requests_go_through_the_dispatcher() {
    let mut g = GameState::new(cfg());
    let mut s = Session::new();
    let h = g.handle(&mut s, ClientMsg::Register { username: "eve".to_string(), password: "x".to_string() });
    assert!(matches!(h.out[0], Outgoing::Reply(ServerMsg::RegisterOk)));
    assert!(!h.quit);
    let h = g.handle(&mut s, ClientMsg::Ping);
    assert!(matches!(h.out[0], Outgoing::Reply(ServerMsg::Pong)));
    let h = g.handle(&mut s, ClientMsg::Quit);
    assert!(h.quit);
}

#[test]
fn a_game_tick_advances_the_clock() {
    let (mut g, _) = with_alice();
    let t = g.tick;
    g.game_tick();
    assert_eq!(g.tick, t + 1);
}
