use void_quest::config::locale::LocaleConfig;
use void_quest::config::{default_classes, default_items, default_monsters, default_spells, GameConfig, WorldConfig};
use void_quest::engine::events::SpEvent;
use void_quest::engine::LocalGame;
use void_quest::entity::{Item, ItemKind, Player};
use void_quest::mapgen::MapStyle;
use void_quest::world::{Pos, TileKind};

fn cfg() -> GameConfig {
    let mut world = WorldConfig::default();
    world.monster_count = 6;
    GameConfig::new(world, default_classes(), default_monsters(), default_items(), default_spells(), LocaleConfig::default_en())
}

fn new_game() -> LocalGame {
    LocalGame::new(cfg(), "Hero", "warrior", '@', "red".to_string()).expect("warrior is a known class")
}

/// A game whose player stands on open ground with no monster around.
fn quiet_game() -> LocalGame {
    let mut g = new_game();
    g.monsters.clear();
    let p = g.player.pos;
    for dy in -1..=1 {
        for dx in -1..=1 {
            g.map.set(p.x + dx, p.y + dy, TileKind::Grass);
        }
    }
    g
}

fn potion(id: u64) -> Item {
    Item {
        id,
        template_id: "hp_potion".to_string(),
        name: "HP Potion".to_string(),
        symbol: '*',
        color: "red".to_string(),
        kind: ItemKind::Potion { hp: 40, mp: 0 },
    }
}

#[test]
fn a_new_game_starts_the_character_in_town() {
    let g = new_game();
    assert_eq!(g.player.id, 1);
    assert_eq!(g.player.name, "Hero");
    assert_eq!(g.player.pos, Pos::new(128, 64));
    assert_eq!(g.player.level, 1);
    assert_eq!(g.player.stats.hp, 130);
    assert_eq!(g.map.name, "Greater Voidlands");
    assert_eq!((g.map.width, g.map.height), (256, 128));
    assert_eq!(g.tick, 0);
    assert!(g.ground_items.is_empty());
    assert_eq!(g.monsters.len(), 6);
    assert_eq!(g.player.equipment.weapon.as_ref().map(|w| w.name.clone()), Some("Iron Sword".to_string()));
}

#[test]
fn an_unknown_class_starts_no_game() {
    assert!(LocalGame::new(cfg(), "Hero", "bard", '@', "red".to_string()).is_none());
}

#[test]
fn walls_stop_a_step() {
    let mut g = quiet_game();
    let p = g.player.pos;
    g.map.set(p.x + 1, p.y, TileKind::Wall);
    let ev = g.move_player(1, 0);
    assert!(ev.is_empty());
    assert_eq!(g.player.pos, p);
    let ev = g.move_player(0, 1);
    assert_eq!(ev.len(), 1);
    assert!(matches!(&ev[0], SpEvent::UpdatePlayer(q) if q.pos == Pos::new(p.x, p.y + 1)));
    assert_eq!(g.player.pos, Pos::new(p.x, p.y + 1));
}

#[test]
fn drop_then_pickup_gives_the_item_back() {
    let mut g = quiet_game();
    g.ground_items.clear();
    g.player.inventory.push(potion(5000));
    let n = g.player.inventory.len();
    let ev = g.drop_item(5000);
    assert_eq!(ev.len(), 3);
    assert!(matches!(&ev[0], SpEvent::Log(line, _) if line == "Dropped HP Potion."));
    assert!(matches!(&ev[1], SpEvent::ItemDropped(gi) if gi.item.id == 5000 && gi.pos == g.player.pos));
    assert_eq!(g.player.inventory.len(), n - 1);
    let ev = g.pickup();
    assert_eq!(ev.len(), 3);
    assert!(matches!(&ev[0], SpEvent::Log(line, _) if line == "Picked up HP Potion."));
    assert!(matches!(&ev[1], SpEvent::ItemPickedUp { item_id: 5000 }));
    assert_eq!(g.player.inventory.len(), n);
    assert_eq!(g.player.inventory.last().unwrap().id, 5000);
    assert!(g.ground_items.is_empty());
    let ev = g.pickup();
    assert!(matches!(&ev[0], SpEvent::Log(line, _) if line == "Nothing to pick up here."));
}

#[test]
fn drinking_and_equipping() {
    let mut g = quiet_game();
    g.player.stats.hp = 10;
    g.player.inventory.push(potion(5001));
    let ev = g.use_item(5001);
    assert!(matches!(&ev[0], SpEvent::Log(line, _) if line == "Used HP Potion. HP +40 MP +0"));
    assert_eq!(g.player.stats.hp, 50);
    g.player.inventory.push(Item {
        id: 5002,
        template_id: "iron_helm".to_string(),
        name: "Iron Helm".to_string(),
        symbol: '^',
        color: "white".to_string(),
        kind: ItemKind::Helmet { def: 6 },
    });
    let ev = g.equip_item(5002);
    assert!(matches!(&ev[0], SpEvent::Log(line, _) if line == "Equipped Iron Helm in Helmet slot."));
    assert_eq!(g.player.equipment.helmet.as_ref().map(|h| h.id), Some(5002));
    let sword = g.player.equipment.weapon.as_ref().unwrap().id;
    assert!(g.use_item(5002).is_empty());
    assert!(g.equip_item(sword).is_empty());
}

#[test]
fn a_deadly_blow_kills_and_rewards() {
    let mut g = quiet_game();
    let p = g.player.pos;
    let mut m = g.cfg.monster_template("goblin").unwrap().spawn(777, "Goblin".to_string(), Pos::new(p.x + 1, p.y));
    m.stats.hp = 1;
    g.monsters.push(m);
    let xp = g.player.xp;
    let ev = g.attack_with(777, false, &vec![false]);
    assert!(matches!(&ev[0], SpEvent::Combat(c) if c.killed && c.damage >= 1 && c.target == "Goblin"));
    assert!(matches!(&ev[1], SpEvent::MonsterDied { id: 777, xp: 12 }));
    assert!(matches!(ev.last().unwrap(), SpEvent::UpdatePlayer(_)));
    assert!(g.monsters.is_empty());
    assert_eq!(g.player.xp, xp + 12);
}

#[test]
fn an_attack_out_of_reach_does_nothing() {
    let mut g = quiet_game();
    let p = g.player.pos;
    let m = g.cfg.monster_template("wolf").unwrap().spawn(778, "Wolf".to_string(), Pos::new(p.x + 5, p.y));
    g.monsters.push(m);
    assert!(g.attack_with(778, true, &Vec::new()).is_empty());
    assert!(g.attack(999).is_empty());
    assert_eq!(g.monsters[0].stats.hp, 38);
}

#[test]
fn a_dropped_loot_roll_leaves_an_item() {
    let mut g = quiet_game();
    g.ground_items.clear();
    let p = g.player.pos;
    let mut m = g.cfg.monster_template("goblin").unwrap().spawn(779, "Goblin".to_string(), Pos::new(p.x, p.y + 1));
    m.stats.hp = 1;
    g.monsters.push(m);
    let ev = g.attack_with(779, false, &vec![true]);
    assert!(ev.iter().any(|e| matches!(e, SpEvent::ItemDropped(gi) if gi.item.template_id == "hp_potion")));
    assert_eq!(g.ground_items.len(), 1);
}

#[test]
fn unknown_spell_and_missing_mana() {
    let mut g = quiet_game();
    let ev = g.cast_spell_with("nothing", &Vec::new());
    assert!(matches!(&ev[0], SpEvent::Log(line, _) if line == "Unknown spell: nothing"));
    g.player.stats.mp = 3;
    let ev = g.cast_spell_with("battle_cry", &Vec::new());
    assert!(matches!(&ev[0], SpEvent::Log(line, _) if line == "Not enough MP to cast Battle Cry! (3/15)"));
}

#[test]
fn a_tick_counts_and_regenerates_every_third() {
    let mut g = quiet_game();
    g.player.stats.hp = 50;
    g.tick();
    g.tick();
    assert_eq!(g.player.stats.hp, 50);
    let ev = g.tick();
    assert_eq!(g.tick, 3);
    assert_eq!(g.player.stats.hp, 55);
    assert!(matches!(ev.last().unwrap(), SpEvent::UpdatePlayer(_)));
}

#[test]
fn a_zone_from_the_same_seed_is_the_same() {
    let player: Player = new_game().player;
    let a = LocalGame::new_zone(player.clone(), 42, MapStyle::Dungeon, cfg());
    let b = LocalGame::new_zone(player, 42, MapStyle::Dungeon, cfg());
    assert_eq!(a.map.tiles, b.map.tiles);
    assert_eq!(a.map.name, "Dungeon");
    assert_eq!(a.player.pos, b.player.pos);
    assert!(a.map.passable(a.player.pos.x, a.player.pos.y));
    assert_eq!(a.next_id, 1004);
    assert_eq!(a.monsters.len(), 4);
    assert!(a.monsters.iter().all(|m| m.id > 1000 && m.id <= 1004));
}

#[test]
fn enough_experience_levels_up_repeatedly() {
    let mut g = quiet_game();
    g.player.xp = 600 + 1350 + 10;
    let ev = g.try_level_up();
    assert_eq!(g.player.level, 3);
    assert_eq!(g.player.xp, 10);
    assert_eq!(g.player.xp_next, 2400);
    assert_eq!(g.player.stat_points, 6);
    assert_eq!(g.player.stats.str, 20);
    assert_eq!(g.player.stats.max_hp, 160);
    assert_eq!(g.player.stats.hp, 160);
    assert_eq!(ev.len(), 4);
    assert!(matches!(&ev[0], SpEvent::LevelUp { level: 2, stat_points: 3 }));
    assert!(matches!(&ev[3], SpEvent::Log(line, _) if line == "★★★ LEVEL UP! Level 3! (+3 stat points) ★★★"));
    assert!(g.try_level_up().is_empty());
}

#[test]
fn a_critical_hit_deals_double_power() {
    let mut g = quiet_game();
    let p = g.player.pos;
    let m = g.cfg.monster_template("troll").unwrap().spawn(780, "Troll".to_string(), Pos::new(p.x - 1, p.y));
    g.monsters.push(m);
    let ev = g.attack_with(780, false, &Vec::new());
    let normal = match &ev[0] {
        SpEvent::Combat(c) => c.damage,
        _ => panic!("a hit is reported first"),
    };
    let ev = g.attack_with(780, true, &Vec::new());
    let crit = match &ev[0] {
        SpEvent::Combat(c) => {
            assert!(c.is_crit);
            c.damage
        }
        _ => panic!("a hit is reported first"),
    };
    assert_eq!(normal, 26 - 14 / 3);
    assert_eq!(crit, 52 - 14 / 3);
    assert!(crit >= normal);
    assert_eq!(g.monsters[0].stats.hp, 130 - normal - crit);
}

#[test]
fn a_tick_keeps_the_monsters_and_a_living_player() {
    let mut g = new_game();
    for _ in 0..90 {
        let before = g.monsters.clone();
        let p0 = g.player.clone();
        g.tick();
        for (k, m) in before.iter().enumerate() {
            let m2 = &g.monsters[k];
            assert_eq!(m2.id, m.id);
            assert_eq!((m2.stats.hp, m2.stats.max_hp, m2.stats.str, m2.stats.vit), (m.stats.hp, m.stats.max_hp, m.stats.str, m.stats.vit));
            assert!((m2.pos.x - m.pos.x).abs() <= 1 && (m2.pos.y - m.pos.y).abs() <= 1);
        }
        assert!(g.player.stats.hp > 0 && g.player.stats.hp <= g.player.stats.max_hp);
        if g.tick % 3 != 0 {
            assert_eq!(g.player.stats.mp, p0.stats.mp);
        }
    }
}
