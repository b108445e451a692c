use rand::SeedableRng;
use void_quest::actions::{drop_from_inventory, equip_from_inventory, monster_hit_exec, regenerate, use_item, UseOutcome};
use void_quest::entity::item::Equipment;
use void_quest::entity::{GroundItem, Item, ItemKind, Player};
use void_quest::text::{chars_of, push_decimal, push_decimal_i64, str_before};
use void_quest::world::{GameMap, Pos, Stats, TileKind};

const ALL_TILES: [TileKind; 13] = [
    TileKind::Grass,
    TileKind::Wall,
    TileKind::Tree,
    TileKind::Water,
    TileKind::Floor,
    TileKind::Road,
    TileKind::Sand,
    TileKind::Lava,
    TileKind::Ice,
    TileKind::Pillar,
    TileKind::Bramble,
    TileKind::Ruins,
    TileKind::Mud,
];

fn item(id: u64, name: &str, kind: ItemKind) -> Item {
    Item {
        id,
        template_id: name.to_string(),
        name: name.to_string(),
        symbol: '!',
        color: "red".to_string(),
        kind,
    }
}

fn hero() -> Player {
    Player {
        id: 1,
        name: "Hero".to_string(),
        class_id: "warrior".to_string(),
        symbol: '@',
        color: "white".to_string(),
        pos: Pos::new(10, 10),
        level: 1,
        xp: 0,
        xp_next: 600,
        stats: Stats { hp: 50, max_hp: 100, mp: 5, max_mp: 20, str: 10, dex: 5, int: 10, vit: 10 },
        equipment: Equipment { weapon: None, armor: None, helmet: None, ring: None },
        inventory: vec![
            item(7, "Health Potion", ItemKind::Potion { hp: 30, mp: 0 }),
            item(8, "Iron Sword", ItemKind::Weapon { dmg: 8 }),
        ],
        stat_points: 0,
    }
}

#[test]
fn tile_numbers_round_trip() {
    for (n, t) in ALL_TILES.iter().enumerate() {
        assert_eq!(t.to_u8(), n as u8);
        assert_eq!(TileKind::from_u8(t.to_u8()), *t);
    }
    assert_eq!(TileKind::from_u8(200), TileKind::Grass);
}

#[test]
fn tile_passability() {
    let passable: Vec<bool> = ALL_TILES.iter().map(|t| t.passable()).collect();
    assert_eq!(
        passable,
        vec![true, false, false, false, true, true, true, false, true, false, false, true, true]
    );
    assert_eq!(TileKind::Wall.symbol(), '#');
}

#[test]
fn map_reads_what_was_written() {
    let mut m = GameMap::new(5, 4);
    assert_eq!(m.name, "World");
    assert_eq!(m.get(2, 3), TileKind::Grass);
    m.set(2, 3, TileKind::Water);
    assert_eq!(m.get(2, 3), TileKind::Water);
    assert_eq!(m.get(3, 2), TileKind::Grass);
    assert!(!m.passable(2, 3));
    assert!(m.passable(3, 2));
}

#[test]
fn map_outside_reads_as_wall() {
    let m = GameMap::new(5, 4);
    assert_eq!(m.get(-1, 0), TileKind::Wall);
    assert_eq!(m.get(5, 0), TileKind::Wall);
    assert_eq!(m.get(0, 4), TileKind::Wall);
    assert!(!m.in_bounds_exec(5, 3));
    assert!(m.in_bounds_exec(4, 3));
}

#[test]
fn duplicate_map_is_equal() {
    let mut m = GameMap::new(3, 3);
    m.set(1, 1, TileKind::Lava);
    let d = m.duplicate();
    assert_eq!(d.tiles, m.tiles);
    assert_eq!(d.get(1, 1), TileKind::Lava);
}

#[test]
fn step_toward_comes_closer() {
    let a = Pos::new(0, 0);
    let b = Pos::new(5, -3);
    let s = a.step_toward(b);
    assert_eq!(s, Pos::new(1, 0));
    assert!(s.dist_sq(b) < a.dist_sq(b));
    assert_eq!(b.step_toward(b), b);
    assert_eq!(a.dist_sq(b), 34);
}

#[test]
fn adjacency_is_symmetric() {
    let a = Pos::new(3, 3);
    for (dx, dy) in [(-1, -1), (0, 1), (1, 0), (2, 0), (0, 0)] {
        let b = Pos::new(3 + dx, 3 + dy);
        assert_eq!(a.adjacent(b), b.adjacent(a));
    }
    assert!(a.adjacent(Pos::new(4, 4)));
    assert!(!a.adjacent(Pos::new(5, 3)));
    assert!(a.adjacent(a));
}

#[test]
fn xp_for_level_formula() {
    assert_eq!(Player::xp_for_level(1), 150);
    assert_eq!(Player::xp_for_level(2), 600);
    assert_eq!(Player::xp_for_level(10), 15000);
    assert!(Player::xp_for_level(3) < Player::xp_for_level(4));
}

#[test]
fn attack_and_defense_formulas() {
    let mut p = hero();
    assert_eq!(p.attack(), 11);
    assert_eq!(p.defense(), 5);
    p.equipment.weapon = Some(item(9, "Axe", ItemKind::Weapon { dmg: 12 }));
    p.equipment.armor = Some(item(10, "Mail", ItemKind::Armor { def: 4 }));
    p.equipment.helmet = Some(item(11, "Cap", ItemKind::Helmet { def: 2 }));
    assert_eq!(p.attack(), 22);
    assert_eq!(p.defense(), 11);
    assert_eq!(p.attack_wide(), 22);
    assert_eq!(p.defense_wide(), 11);
}

#[test]
fn monster_hit_is_at_least_one() {
    assert_eq!(monster_hit_exec(10), 8);
    assert_eq!(monster_hit_exec(2), 1);
    assert_eq!(monster_hit_exec(i32::MIN), 1);
}

#[test]
fn drinking_a_potion_heals() {
    let mut p = hero();
    match use_item(&mut p, 7) {
        UseOutcome::Used { name, hp, mp } => {
            assert_eq!(name, "Health Potion");
            assert_eq!((hp, mp), (30, 0));
        }
        _ => panic!("the potion was not drunk"),
    }
    assert_eq!(p.stats.hp, 80);
    assert_eq!(p.inventory.len(), 1);
    assert!(matches!(use_item(&mut p, 8), UseOutcome::NotConsumable));
    assert!(matches!(use_item(&mut p, 99), UseOutcome::NotFound));
    assert_eq!(p.inventory.len(), 1);
}

#[test]
fn potion_heals_no_further_than_max() {
    let mut p = hero();
    p.stats.hp = 90;
    assert!(matches!(use_item(&mut p, 7), UseOutcome::Used { .. }));
    assert_eq!(p.stats.hp, 100);
}

#[test]
fn equipping_moves_the_item_to_its_slot() {
    let mut p = hero();
    let got = equip_from_inventory(&mut p, 8).expect("the sword is equipped");
    assert_eq!(got.id, 8);
    assert_eq!(p.equipment.weapon.as_ref().map(|w| w.id), Some(8));
    assert_eq!(p.inventory.len(), 1);
    assert!(equip_from_inventory(&mut p, 8).is_none());
}

#[test]
fn dropping_lays_the_item_at_the_position() {
    let mut p = hero();
    let g: GroundItem = drop_from_inventory(&mut p, 8, Pos::new(3, 4)).expect("the sword is dropped");
    assert_eq!(g.item.id, 8);
    assert_eq!(g.pos, Pos::new(3, 4));
    assert_eq!(p.inventory.len(), 1);
    assert!(drop_from_inventory(&mut p, 8, Pos::new(3, 4)).is_none());
}

#[test]
fn regeneration_formula() {
    let mut p = hero();
    regenerate(&mut p);
    assert_eq!(p.stats.hp, 54);
    assert_eq!(p.stats.mp, 10);
    p.stats.hp = 99;
    p.stats.mp = 19;
    regenerate(&mut p);
    assert_eq!((p.stats.hp, p.stats.mp), (100, 20));
}

#[test]
fn decimals_are_written_out() {
    let mut s = String::from("x=");
    push_decimal(&mut s, 0);
    push_decimal(&mut s, 1234);
    assert_eq!(s, "x=01234");
    let mut t = String::new();
    push_decimal_i64(&mut t, -45);
    push_decimal_i64(&mut t, i64::MIN);
    assert_eq!(t, "-45-9223372036854775808");
}

#[test]
fn string_order_is_lexicographic() {
    assert!(str_before("mage", "warrior"));
    assert!(!str_before("warrior", "mage"));
    assert!(str_before("rog", "rogue"));
    assert!(!str_before("rogue", "rogue"));
    assert!(str_before("", "a"));
    assert!(str_before("Zed", "apple"));
    assert_eq!(chars_of("héllo"), vec!['h', 'é', 'l', 'l', 'o']);
}

#[test]
fn equipping_keeps_every_item() {
    let mut p = hero();
    p.equipment.weapon = Some(item(20, "Club", ItemKind::Weapon { dmg: 3 }));
    let owned = |p: &Player| {
        let mut ids: Vec<u64> = p.inventory.iter().map(|i| i.id).collect();
        for slot in [&p.equipment.weapon, &p.equipment.armor, &p.equipment.helmet, &p.equipment.ring] {
            if let Some(i) = slot {
                ids.push(i.id);
            }
        }
        ids.sort();
        ids
    };
    let before = owned(&p);
    equip_from_inventory(&mut p, 8);
    assert_eq!(owned(&p), before);
    assert_eq!(p.equipment.weapon.as_ref().map(|w| w.id), Some(8));
    assert_eq!(p.inventory.last().map(|i| i.id), Some(20));
    equip_from_inventory(&mut p, 7);
    assert_eq!(owned(&p), vec![8, 20]);
}

fn goblin(id: u64, x: i32, y: i32) -> void_quest::entity::Monster {
    void_quest::entity::Monster {
        id,
        template_id: "goblin".to_string(),
        name: "Goblin".to_string(),
        symbol: 'g',
        color: "green".to_string(),
        pos: Pos::new(x, y),
        home: Pos::new(x, y),
        level: 1,
        stats: Stats { hp: 22, max_hp: 22, mp: 0, max_mp: 0, str: 5, dex: 5, int: 2, vit: 3 },
        xp_reward: 12,
        loot_table: Vec::new(),
        target: None,
    }
}

#[test]
fn monsters_do_not_share_a_tile_after_their_turns() {
    let mut map = GameMap::new(20, 20);
    map.set(6, 5, TileKind::Wall);
    // Two goblins five tiles from the player, both stepping toward (10, 5).
    let mut mons = vec![goblin(1, 5, 5), goblin(2, 5, 4), goblin(3, 12, 5)];
    let snap = vec![(99u64, Pos::new(10, 5), true)];
    let (hits, moved) = void_quest::actions::monster_ai(&map, &mut mons, &snap, false);
    // The first goblin's step is walled off; the third strikes from next door.
    assert_eq!(mons[0].pos, Pos::new(5, 5));
    assert_eq!(mons[1].pos, Pos::new(6, 4));
    assert_eq!(mons[2].pos, Pos::new(11, 5));
    assert_eq!(moved, vec![1, 2]);
    assert!(hits.is_empty());
    let mut tiles: Vec<(i32, i32)> = mons.iter().map(|m| (m.pos.x, m.pos.y)).collect();
    tiles.sort();
    tiles.dedup();
    assert_eq!(tiles.len(), 3);
    let (hits, _) = void_quest::actions::monster_ai(&map, &mut mons, &snap, true);
    assert_eq!(hits.len(), 1);
    assert_eq!(hits[0].0, 99);
    assert_eq!(hits[0].1, 3);
    assert_eq!(mons[2].target, Some(99));
}

fn town_tile(x: i32, y: i32, cx: i32, cy: i32, r: i32) -> TileKind {
    if x == cx || y == cy {
        TileKind::Road
    } else if x == cx - r || x == cx + r || y == cy - r || y == cy + r {
        TileKind::Wall
    } else {
        TileKind::Floor
    }
}

#[test]
fn the_world_keeps_its_walled_town() {
    for seed in 0..5u64 {
        let mut rng = rand::rngs::StdRng::seed_from_u64(seed);
        let m = void_quest::mapgen::generate(&mut rng);
        for y in 18..=32 {
            for x in 33..=47 {
                assert_eq!(m.get(x, y), town_tile(x, y, 40, 25, 7));
            }
        }
    }
}

#[test]
fn the_large_map_keeps_its_walled_town() {
    let mut rng = rand::rngs::StdRng::seed_from_u64(3);
    let m = void_quest::mapgen::generate_large(&mut rng);
    for y in 55..=73 {
        for x in 119..=137 {
            assert_eq!(m.get(x, y), town_tile(x, y, 128, 64, 9));
        }
    }
}

fn water_pairs_on_row_one(m: &GameMap) -> Vec<i32> {
    (0..m.width - 1).filter(|&x| m.get(x, 1) == TileKind::Water && m.get(x + 1, 1) == TileKind::Water).collect()
}

#[test]
fn the_world_river_starts_at_the_top_and_roads_leave_the_town() {
    for seed in 0..6u64 {
        let mut rng = rand::rngs::StdRng::seed_from_u64(seed);
        let m = void_quest::mapgen::generate(&mut rng);
        assert_eq!(m.name, "Voidlands");
        let pairs = water_pairs_on_row_one(&m);
        assert!(pairs.iter().any(|&x| (13..26).contains(&x)), "seed {seed}: {pairs:?}");
        for y in 15..18 {
            assert!(matches!(m.get(40, y), TileKind::Road | TileKind::Water));
        }
        for y in 33..36 {
            assert_eq!(m.get(40, y), TileKind::Road);
        }
        for x in 48..51 {
            assert_eq!(m.get(x, 25), TileKind::Road);
        }
        for y in 43..49 {
            let wet = |x: i32| matches!(m.get(x, y), TileKind::Water | TileKind::Road);
            assert!((3..=75).any(|x| wet(x) && wet(x + 1)), "seed {seed}: row {y}");
        }
    }
}

#[test]
fn the_large_map_has_two_river_sources() {
    for seed in 0..3u64 {
        let mut rng = rand::rngs::StdRng::seed_from_u64(seed);
        let m = void_quest::mapgen::generate_large(&mut rng);
        let pairs = water_pairs_on_row_one(&m);
        let ok = pairs.iter().any(|&a| a >= 8 && pairs.iter().any(|&b| a + 2 <= b && b < 249));
        assert!(ok, "seed {seed}: {pairs:?}");
        for x in (115..=118).chain(138..=141) {
            assert!(matches!(m.get(x, 64), TileKind::Road | TileKind::Water), "seed {seed}: {x}");
        }
    }
}

#[test]
fn step_toward_moves_along_the_row_first() {
    assert_eq!(Pos::new(0, 0).step_toward(Pos::new(1, 5)), Pos::new(1, 0));
    assert_eq!(Pos::new(1, 0).step_toward(Pos::new(1, 5)), Pos::new(1, 1));
    assert_eq!(Pos::new(4, 4).step_toward(Pos::new(4, -2)), Pos::new(4, 3));
}

#[test]
fn the_odds_of_loot_and_critical_hits() {
    assert_eq!(void_quest::rules::loot_odds(), (7, 20));
    assert_eq!(void_quest::rules::crit_odds(true), (1, 5));
    assert_eq!(void_quest::rules::crit_odds(false), (1, 10));
}

#[test]
fn the_generators_draw_with_their_tables() {
    let w = void_quest::mapgen::world_gen::world_draws();
    assert_eq!(w.river_start, (13, 26));
    assert_eq!(w.river_drift, (7, 20));
    assert_eq!(w.lake, (13, 20));
    assert_eq!(w.outposts, (2, 5));
    assert_eq!(w.forests, (12, 20));
    assert_eq!(w.forest_density, (4, 16));
    assert_eq!(w.ice, (2, 5));
    assert_eq!(w.ruins, (3, 7));
    assert_eq!(w.brambles, (6, 12));
    let l = void_quest::mapgen::large_gen::large_draws();
    assert_eq!(l.rivers, (2, 4));
    assert_eq!(l.lakes, (3, 6));
    assert_eq!(l.extra_towns, (1, 3));
    assert_eq!(l.outposts, (5, 9));
    assert_eq!(l.forests, (30, 50));
    assert_eq!(void_quest::mapgen::zones::dungeon_draws().rooms, (8, 14));
    assert_eq!(void_quest::mapgen::zones::desert_draws().oases, (1, 4));
    assert_eq!(void_quest::mapgen::zones::forest_draws().trees, (18, 25));
    assert_eq!(void_quest::mapgen::zones::swamp_draws().ground, (0, 10));
    assert_eq!(void_quest::mapgen::helpers::lake_wobble(), 1);
}
