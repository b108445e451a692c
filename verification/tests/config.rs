use void_quest::config::locale::LocaleConfig;
use void_quest::config::{default_classes, default_items, default_monsters, default_spells, GameConfig, WorldConfig};
use void_quest::entity::ClassDef;

fn cfg() -> GameConfig {
    GameConfig::new(
        WorldConfig::default(),
        default_classes(),
        default_monsters(),
        default_items(),
        default_spells(),
        LocaleConfig::default_en(),
    )
}

#[test]
fn default_world_settings() {
    let w = WorldConfig::default();
    assert_eq!(w.host, "127.0.0.1");
    assert_eq!(w.port, 7777);
    assert_eq!(w.tick_ms, 600);
    assert_eq!(w.monster_count, 40);
    assert_eq!(w.view_radius, 18);
}

#[test]
fn server_address() {
    let mut c = cfg();
    assert_eq!(c.addr(), "127.0.0.1:7777");
    c.world.host = "0.0.0.0".to_string();
    c.world.port = 80;
    assert_eq!(c.addr(), "0.0.0.0:80");
}

#[test]
fn lookups_by_id() {
    let c = cfg();
    assert_eq!(c.class("mage").map(|k| k.base_int), Some(22));
    assert!(c.class("bard").is_none());
    assert_eq!(c.monster_template("troll").map(|m| m.hp), Some(130));
    assert_eq!(c.item("hp_potion").map(|i| i.name.clone()), Some("HP Potion".to_string()));
    assert_eq!(c.spell("fireball").map(|s| s.mp_cost), Some(20));
    assert!(c.spell("nothing").is_none());
}

#[test]
fn a_later_record_with_the_same_id_wins() {
    let mut classes: Vec<ClassDef> = default_classes();
    let mut strong = classes[0].clone();
    strong.base_str = 99;
    classes.push(strong);
    let c = GameConfig::new(
        WorldConfig::default(),
        classes,
        default_monsters(),
        default_items(),
        default_spells(),
        LocaleConfig::default_en(),
    );
    assert_eq!(c.classes.len(), 5);
    assert_eq!(c.class("warrior").map(|k| k.base_str), Some(99));
}

#[test]
fn class_stats_at_level_one() {
    let c = cfg();
    let s = c.class("warrior").unwrap().make_stats();
    assert_eq!((s.hp, s.max_hp, s.mp, s.max_mp), (130, 130, 20, 20));
    assert_eq!((s.str, s.dex, s.int, s.vit), (18, 10, 5, 15));
}

#[test]
fn locale_falls_back_to_the_key() {
    let en = LocaleConfig::default_en();
    assert_eq!(en.lang, "en");
    assert_eq!(en.t("title_map"), " Map ");
    assert_eq!(en.t("no_such_key"), "no_such_key");
    let ru = LocaleConfig::default_ru();
    assert_eq!(ru.t("title_map"), " Карта ");
}

#[test]
fn locale_file_overrides_and_keeps_the_rest() {
    let l = LocaleConfig::from_file(
        "en".to_string(),
        vec![("title_map".to_string(), " World ".to_string()), ("extra".to_string(), "E".to_string())],
        vec![("title_map".to_string(), " Мир ".to_string())],
    );
    assert_eq!(l.t("title_map"), " World ");
    assert_eq!(l.t("extra"), "E");
    assert_eq!(l.t("global_map_title"), LocaleConfig::default_en().t("global_map_title"));
    let r = LocaleConfig::from_file("ru".to_string(), Vec::new(), vec![("title_map".to_string(), " Мир ".to_string())]);
    assert_eq!(r.lang, "ru");
    assert_eq!(r.t("title_map"), " Мир ");
}

#[test]
fn switching_language_twice_comes_back() {
    let mut l = LocaleConfig::default_en();
    l.switch_lang();
    assert_eq!(l.lang, "ru");
    assert_eq!(l.t("title_map"), " Карта ");
    l.switch_lang();
    assert_eq!(l.lang, "en");
    assert_eq!(l.t("title_map"), " Map ");
}

#[test]
fn the_built_in_classes_and_monsters() {
    let classes = default_classes();
    let names: Vec<&str> = classes.iter().map(|c| c.name.as_str()).collect();
    assert_eq!(names, vec!["Warrior", "Mage", "Rogue", "Paladin", "Ranger"]);
    let monsters = default_monsters();
    assert_eq!(monsters.len(), 9);
    let items = default_items();
    for m in &monsters {
        for l in &m.loot_table {
            assert!(items.iter().any(|i| &i.id == l));
        }
    }
    for c in &classes {
        if let Some(s) = &c.start_item {
            assert!(items.iter().any(|i| &i.id == s));
        }
    }
}
