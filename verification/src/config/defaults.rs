//! The built-in game data, used where no configuration file gives any.

use vstd::prelude::*;
use crate::entity::{ClassDef, ItemKind, ItemTemplate, MonsterTemplate, Spell};

verus! {

pub open spec fn strings_view(v: Seq<String>) -> Seq<Seq<char>> {
    v.map_values(|s: String| s@)
}

/// Warrior, mage, rogue, paladin and ranger.
pub fn default_classes() -> (r: Vec<ClassDef>)
    ensures
        r@.len() == 5,
        r@[0].id@ == "warrior"@ && r@[0].name@ == "Warrior"@ && r@[0].name_ru is None,
        r@[0].description@ == "Sturdy melee fighter. High HP and strength."@ && r@[0].description_ru is None,
        r@[0].symbol == '@' && r@[0].color@ == "red"@,
        r@[0].base_hp == 130 && r@[0].base_mp == 20 && r@[0].base_str == 18 && r@[0].base_dex == 10,
        r@[0].base_int == 5 && r@[0].base_vit == 15 && r@[0].hp_per_level == 15 && r@[0].mp_per_level == 2,
        r@[0].start_item is Some && r@[0].start_item.unwrap()@ == "iron_sword"@,
        strings_view(r@[0].spells@) == seq!["battle_cry"@, "whirlwind"@],
        r@[1].id@ == "mage"@ && r@[1].name@ == "Mage"@ && r@[1].name_ru is None,
        r@[1].description@ == "Frail but devastating arcane caster. High INT."@ && r@[1].description_ru is None,
        r@[1].symbol == '@' && r@[1].color@ == "cyan"@,
        r@[1].base_hp == 65 && r@[1].base_mp == 130 && r@[1].base_str == 6 && r@[1].base_dex == 10,
        r@[1].base_int == 22 && r@[1].base_vit == 7 && r@[1].hp_per_level == 7 && r@[1].mp_per_level == 15,
        r@[1].start_item is Some && r@[1].start_item.unwrap()@ == "staff"@,
        strings_view(r@[1].spells@) == seq!["fireball"@, "ice_lance"@, "thunder_bolt"@],
        r@[2].id@ == "rogue"@ && r@[2].name@ == "Rogue"@ && r@[2].name_ru is None,
        r@[2].description@ == "Fast and precise. High DEX, critical strikes."@ && r@[2].description_ru is None,
        r@[2].symbol == '@' && r@[2].color@ == "green"@,
        r@[2].base_hp == 90 && r@[2].base_mp == 45 && r@[2].base_str == 12 && r@[2].base_dex == 22,
        r@[2].base_int == 8 && r@[2].base_vit == 10 && r@[2].hp_per_level == 10 && r@[2].mp_per_level == 5,
        r@[2].start_item is Some && r@[2].start_item.unwrap()@ == "dagger"@,
        strings_view(r@[2].spells@) == seq!["shadow_step"@, "poison_blade"@],
        r@[3].id@ == "paladin"@ && r@[3].name@ == "Paladin"@ && r@[3].name_ru is None,
        r@[3].description@ == "Holy warrior. Balanced stats, self-healing."@ && r@[3].description_ru is None,
        r@[3].symbol == '@' && r@[3].color@ == "yellow"@,
        r@[3].base_hp == 110 && r@[3].base_mp == 80 && r@[3].base_str == 14 && r@[3].base_dex == 9,
        r@[3].base_int == 12 && r@[3].base_vit == 13 && r@[3].hp_per_level == 12 && r@[3].mp_per_level == 8,
        r@[3].start_item is Some && r@[3].start_item.unwrap()@ == "mace"@,
        strings_view(r@[3].spells@) == seq!["holy_light"@, "divine_smite"@],
        r@[4].id@ == "ranger"@ && r@[4].name@ == "Ranger"@ && r@[4].name_ru is None,
        r@[4].description@ == "Keen-eyed scout of the wilds. High DEX, steady damage."@ && r@[4].description_ru is None,
        r@[4].symbol == '@' && r@[4].color@ == "blue"@,
        r@[4].base_hp == 95 && r@[4].base_mp == 40 && r@[4].base_str == 11 && r@[4].base_dex == 20,
        r@[4].base_int == 9 && r@[4].base_vit == 11 && r@[4].hp_per_level == 10 && r@[4].mp_per_level == 4,
        r@[4].start_item is Some && r@[4].start_item.unwrap()@ == "dagger"@,
        strings_view(r@[4].spells@) == seq!["shadow_step"@],
{
    let mut v: Vec<ClassDef> = Vec::new();
    v.push(ClassDef {
        id: String::from_str("warrior"), name: String::from_str("Warrior"), name_ru: None,
        description: String::from_str("Sturdy melee fighter. High HP and strength."), description_ru: None,
        symbol: '@', color: String::from_str("red"),
        base_hp: 130, base_mp: 20, base_str: 18, base_dex: 10, base_int: 5, base_vit: 15,
        hp_per_level: 15, mp_per_level: 2, start_item: Some(String::from_str("iron_sword")),
        spells: vec![String::from_str("battle_cry"), String::from_str("whirlwind")],
    });
    v.push(ClassDef {
        id: String::from_str("mage"), name: String::from_str("Mage"), name_ru: None,
        description: String::from_str("Frail but devastating arcane caster. High INT."), description_ru: None,
        symbol: '@', color: String::from_str("cyan"),
        base_hp: 65, base_mp: 130, base_str: 6, base_dex: 10, base_int: 22, base_vit: 7,
        hp_per_level: 7, mp_per_level: 15, start_item: Some(String::from_str("staff")),
        spells: vec![String::from_str("fireball"), String::from_str("ice_lance"), String::from_str("thunder_bolt")],
    });
    v.push(ClassDef {
        id: String::from_str("rogue"), name: String::from_str("Rogue"), name_ru: None,
        description: String::from_str("Fast and precise. High DEX, critical strikes."), description_ru: None,
        symbol: '@', color: String::from_str("green"),
        base_hp: 90, base_mp: 45, base_str: 12, base_dex: 22, base_int: 8, base_vit: 10,
        hp_per_level: 10, mp_per_level: 5, start_item: Some(String::from_str("dagger")),
        spells: vec![String::from_str("shadow_step"), String::from_str("poison_blade")],
    });
    v.push(ClassDef {
        id: String::from_str("paladin"), name: String::from_str("Paladin"), name_ru: None,
        description: String::from_str("Holy warrior. Balanced stats, self-healing."), description_ru: None,
        symbol: '@', color: String::from_str("yellow"),
        base_hp: 110, base_mp: 80, base_str: 14, base_dex: 9, base_int: 12, base_vit: 13,
        hp_per_level: 12, mp_per_level: 8, start_item: Some(String::from_str("mace")),
        spells: vec![String::from_str("holy_light"), String::from_str("divine_smite")],
    });
    v.push(ClassDef {
        id: String::from_str("ranger"), name: String::from_str("Ranger"), name_ru: None,
        description: String::from_str("Keen-eyed scout of the wilds. High DEX, steady damage."), description_ru: None,
        symbol: '@', color: String::from_str("blue"),
        base_hp: 95, base_mp: 40, base_str: 11, base_dex: 20, base_int: 9, base_vit: 11,
        hp_per_level: 10, mp_per_level: 4, start_item: Some(String::from_str("dagger")),
        spells: vec![String::from_str("shadow_step")],
    });
    proof {
        assert(strings_view(v@[0].spells@) =~= seq!["battle_cry"@, "whirlwind"@]);
        assert(strings_view(v@[1].spells@) =~= seq!["fireball"@, "ice_lance"@, "thunder_bolt"@]);
        assert(strings_view(v@[2].spells@) =~= seq!["shadow_step"@, "poison_blade"@]);
        assert(strings_view(v@[3].spells@) =~= seq!["holy_light"@, "divine_smite"@]);
        assert(strings_view(v@[4].spells@) =~= seq!["shadow_step"@]);
    }
    v
}

/// Goblin, wolf, orc, skeleton, troll, vampire, cave dragon, giant spider
/// and lich.
pub fn default_monsters() -> (r: Vec<MonsterTemplate>)
    ensures
        r@.len() == 9,
        r@[0].id@ == "goblin"@ && r@[0].name@ == "Goblin"@ && r@[0].name_ru is None && r@[0].symbol == 'g' && r@[0].color@ == "green"@,
        r@[0].level == 1 && r@[0].hp == 22 && r@[0].str == 5 && r@[0].vit == 3 && r@[0].xp_reward == 12,
        strings_view(r@[0].loot_table@) == seq!["hp_potion"@],
        r@[1].id@ == "wolf"@ && r@[1].name@ == "Wolf"@ && r@[1].name_ru is None && r@[1].symbol == 'w' && r@[1].color@ == "white"@,
        r@[1].level == 2 && r@[1].hp == 38 && r@[1].str == 8 && r@[1].vit == 4 && r@[1].xp_reward == 22,
        strings_view(r@[1].loot_table@) == Seq::<Seq<char>>::empty(),
        r@[2].id@ == "orc"@ && r@[2].name@ == "Orc"@ && r@[2].name_ru is None && r@[2].symbol == 'O' && r@[2].color@ == "yellow"@,
        r@[2].level == 4 && r@[2].hp == 75 && r@[2].str == 14 && r@[2].vit == 8 && r@[2].xp_reward == 50,
        strings_view(r@[2].loot_table@) == seq!["iron_sword"@, "hp_potion"@],
        r@[3].id@ == "skeleton"@ && r@[3].name@ == "Skeleton"@ && r@[3].name_ru is None && r@[3].symbol == 'S' && r@[3].color@ == "white"@,
        r@[3].level == 4 && r@[3].hp == 65 && r@[3].str == 12 && r@[3].vit == 7 && r@[3].xp_reward == 55,
        strings_view(r@[3].loot_table@) == seq!["iron_sword"@],
        r@[4].id@ == "troll"@ && r@[4].name@ == "Troll"@ && r@[4].name_ru is None && r@[4].symbol == 'T' && r@[4].color@ == "magenta"@,
        r@[4].level == 5 && r@[4].hp == 130 && r@[4].str == 20 && r@[4].vit == 14 && r@[4].xp_reward == 105,
        strings_view(r@[4].loot_table@) == seq!["leather_armor"@, "hp_potion"@],
        r@[5].id@ == "vampire"@ && r@[5].name@ == "Vampire"@ && r@[5].name_ru is None && r@[5].symbol == 'V' && r@[5].color@ == "red"@,
        r@[5].level == 6 && r@[5].hp == 100 && r@[5].str == 18 && r@[5].vit == 10 && r@[5].xp_reward == 130,
        strings_view(r@[5].loot_table@) == seq!["full_potion"@],
        r@[6].id@ == "dragon"@ && r@[6].name@ == "Cave Dragon"@ && r@[6].name_ru is None && r@[6].symbol == 'D' && r@[6].color@ == "red"@,
        r@[6].level == 9 && r@[6].hp == 280 && r@[6].str == 32 && r@[6].vit == 22 && r@[6].xp_reward == 450,
        strings_view(r@[6].loot_table@) == seq!["plate_armor"@, "full_potion"@],
        r@[7].id@ == "giant_spider"@ && r@[7].name@ == "Giant Spider"@ && r@[7].name_ru is None && r@[7].symbol == 's' && r@[7].color@ == "magenta"@,
        r@[7].level == 3 && r@[7].hp == 45 && r@[7].str == 10 && r@[7].vit == 5 && r@[7].xp_reward == 35,
        strings_view(r@[7].loot_table@) == seq!["mp_potion"@],
        r@[8].id@ == "lich"@ && r@[8].name@ == "Lich"@ && r@[8].name_ru is None && r@[8].symbol == 'L' && r@[8].color@ == "cyan"@,
        r@[8].level == 7 && r@[8].hp == 150 && r@[8].str == 24 && r@[8].vit == 12 && r@[8].xp_reward == 200,
        strings_view(r@[8].loot_table@) == seq!["power_ring"@, "mp_potion"@],
{
    let mut v: Vec<MonsterTemplate> = Vec::new();
    v.push(MonsterTemplate { id: String::from_str("goblin"), name: String::from_str("Goblin"), name_ru: None, symbol: 'g', color: String::from_str("green"), level: 1, hp: 22, str: 5, vit: 3, xp_reward: 12, loot_table: vec![String::from_str("hp_potion")] });
    v.push(MonsterTemplate { id: String::from_str("wolf"), name: String::from_str("Wolf"), name_ru: None, symbol: 'w', color: String::from_str("white"), level: 2, hp: 38, str: 8, vit: 4, xp_reward: 22, loot_table: Vec::new() });
    v.push(MonsterTemplate { id: String::from_str("orc"), name: String::from_str("Orc"), name_ru: None, symbol: 'O', color: String::from_str("yellow"), level: 4, hp: 75, str: 14, vit: 8, xp_reward: 50, loot_table: vec![String::from_str("iron_sword"), String::from_str("hp_potion")] });
    v.push(MonsterTemplate { id: String::from_str("skeleton"), name: String::from_str("Skeleton"), name_ru: None, symbol: 'S', color: String::from_str("white"), level: 4, hp: 65, str: 12, vit: 7, xp_reward: 55, loot_table: vec![String::from_str("iron_sword")] });
    v.push(MonsterTemplate { id: String::from_str("troll"), name: String::from_str("Troll"), name_ru: None, symbol: 'T', color: String::from_str("magenta"), level: 5, hp: 130, str: 20, vit: 14, xp_reward: 105, loot_table: vec![String::from_str("leather_armor"), String::from_str("hp_potion")] });
    v.push(MonsterTemplate { id: String::from_str("vampire"), name: String::from_str("Vampire"), name_ru: None, symbol: 'V', color: String::from_str("red"), level: 6, hp: 100, str: 18, vit: 10, xp_reward: 130, loot_table: vec![String::from_str("full_potion")] });
    v.push(MonsterTemplate { id: String::from_str("dragon"), name: String::from_str("Cave Dragon"), name_ru: None, symbol: 'D', color: String::from_str("red"), level: 9, hp: 280, str: 32, vit: 22, xp_reward: 450, loot_table: vec![String::from_str("plate_armor"), String::from_str("full_potion")] });
    v.push(MonsterTemplate { id: String::from_str("giant_spider"), name: String::from_str("Giant Spider"), name_ru: None, symbol: 's', color: String::from_str("magenta"), level: 3, hp: 45, str: 10, vit: 5, xp_reward: 35, loot_table: vec![String::from_str("mp_potion")] });
    v.push(MonsterTemplate { id: String::from_str("lich"), name: String::from_str("Lich"), name_ru: None, symbol: 'L', color: String::from_str("cyan"), level: 7, hp: 150, str: 24, vit: 12, xp_reward: 200, loot_table: vec![String::from_str("power_ring"), String::from_str("mp_potion")] });
    proof {
        assert(strings_view(v@[0].loot_table@) =~= seq!["hp_potion"@]);
        assert(strings_view(v@[1].loot_table@) =~= Seq::<Seq<char>>::empty());
        assert(strings_view(v@[2].loot_table@) =~= seq!["iron_sword"@, "hp_potion"@]);
        assert(strings_view(v@[3].loot_table@) =~= seq!["iron_sword"@]);
        assert(strings_view(v@[4].loot_table@) =~= seq!["leather_armor"@, "hp_potion"@]);
        assert(strings_view(v@[5].loot_table@) =~= seq!["full_potion"@]);
        assert(strings_view(v@[6].loot_table@) =~= seq!["plate_armor"@, "full_potion"@]);
        assert(strings_view(v@[7].loot_table@) =~= seq!["mp_potion"@]);
        assert(strings_view(v@[8].loot_table@) =~= seq!["power_ring"@, "mp_potion"@]);
    }
    v
}

/// Weapons, armor, helmets, potions and a ring.
pub fn default_items() -> (r: Vec<ItemTemplate>)
    ensures
        r@.len() == 14,
        r@[0].id@ == "iron_sword"@ && r@[0].name@ == "Iron Sword"@ && r@[0].name_ru is None && r@[0].symbol == '/' && r@[0].color@ == "white"@,
        r@[0].kind == (ItemKind::Weapon { dmg: 8 }),
        r@[1].id@ == "dagger"@ && r@[1].name@ == "Dagger"@ && r@[1].name_ru is None && r@[1].symbol == '!' && r@[1].color@ == "white"@,
        r@[1].kind == (ItemKind::Weapon { dmg: 5 }),
        r@[2].id@ == "staff"@ && r@[2].name@ == "Magic Staff"@ && r@[2].name_ru is None && r@[2].symbol == '|' && r@[2].color@ == "cyan"@,
        r@[2].kind == (ItemKind::Weapon { dmg: 7 }),
        r@[3].id@ == "mace"@ && r@[3].name@ == "Holy Mace"@ && r@[3].name_ru is None && r@[3].symbol == '\\' && r@[3].color@ == "yellow"@,
        r@[3].kind == (ItemKind::Weapon { dmg: 9 }),
        r@[4].id@ == "great_sword"@ && r@[4].name@ == "Greatsword"@ && r@[4].name_ru is None && r@[4].symbol == '/' && r@[4].color@ == "blue"@,
        r@[4].kind == (ItemKind::Weapon { dmg: 14 }),
        r@[5].id@ == "leather_armor"@ && r@[5].name@ == "Leather Armor"@ && r@[5].name_ru is None && r@[5].symbol == ']' && r@[5].color@ == "yellow"@,
        r@[5].kind == (ItemKind::Armor { def: 5 }),
        r@[6].id@ == "chain_mail"@ && r@[6].name@ == "Chain Mail"@ && r@[6].name_ru is None && r@[6].symbol == ']' && r@[6].color@ == "white"@,
        r@[6].kind == (ItemKind::Armor { def: 9 }),
        r@[7].id@ == "plate_armor"@ && r@[7].name@ == "Plate Armor"@ && r@[7].name_ru is None && r@[7].symbol == ']' && r@[7].color@ == "blue"@,
        r@[7].kind == (ItemKind::Armor { def: 15 }),
        r@[8].id@ == "leather_helm"@ && r@[8].name@ == "Leather Helm"@ && r@[8].name_ru is None && r@[8].symbol == '^' && r@[8].color@ == "yellow"@,
        r@[8].kind == (ItemKind::Helmet { def: 3 }),
        r@[9].id@ == "iron_helm"@ && r@[9].name@ == "Iron Helm"@ && r@[9].name_ru is None && r@[9].symbol == '^' && r@[9].color@ == "white"@,
        r@[9].kind == (ItemKind::Helmet { def: 6 }),
        r@[10].id@ == "hp_potion"@ && r@[10].name@ == "HP Potion"@ && r@[10].name_ru is None && r@[10].symbol == '*' && r@[10].color@ == "red"@,
        r@[10].kind == (ItemKind::Potion { hp: 40, mp: 0 }),
        r@[11].id@ == "mp_potion"@ && r@[11].name@ == "MP Potion"@ && r@[11].name_ru is None && r@[11].symbol == '*' && r@[11].color@ == "blue"@,
        r@[11].kind == (ItemKind::Potion { hp: 0, mp: 30 }),
        r@[12].id@ == "full_potion"@ && r@[12].name@ == "Elixir"@ && r@[12].name_ru is None && r@[12].symbol == '*' && r@[12].color@ == "magenta"@,
        r@[12].kind == (ItemKind::Potion { hp: 60, mp: 45 }),
        r@[13].id@ == "power_ring"@ && r@[13].name@ == "Ring of Power"@ && r@[13].name_ru is None && r@[13].symbol == '=' && r@[13].color@ == "yellow"@,
        (r@[13].kind matches ItemKind::Ring { effect, value } && effect@ == "str"@ && value == 4),
{
    let mut v: Vec<ItemTemplate> = Vec::new();
    v.push(ItemTemplate { id: String::from_str("iron_sword"), name: String::from_str("Iron Sword"), name_ru: None, symbol: '/', color: String::from_str("white"), kind: ItemKind::Weapon { dmg: 8 } });
    v.push(ItemTemplate { id: String::from_str("dagger"), name: String::from_str("Dagger"), name_ru: None, symbol: '!', color: String::from_str("white"), kind: ItemKind::Weapon { dmg: 5 } });
    v.push(ItemTemplate { id: String::from_str("staff"), name: String::from_str("Magic Staff"), name_ru: None, symbol: '|', color: String::from_str("cyan"), kind: ItemKind::Weapon { dmg: 7 } });
    v.push(ItemTemplate { id: String::from_str("mace"), name: String::from_str("Holy Mace"), name_ru: None, symbol: '\\', color: String::from_str("yellow"), kind: ItemKind::Weapon { dmg: 9 } });
    v.push(ItemTemplate { id: String::from_str("great_sword"), name: String::from_str("Greatsword"), name_ru: None, symbol: '/', color: String::from_str("blue"), kind: ItemKind::Weapon { dmg: 14 } });
    v.push(ItemTemplate { id: String::from_str("leather_armor"), name: String::from_str("Leather Armor"), name_ru: None, symbol: ']', color: String::from_str("yellow"), kind: ItemKind::Armor { def: 5 } });
    v.push(ItemTemplate { id: String::from_str("chain_mail"), name: String::from_str("Chain Mail"), name_ru: None, symbol: ']', color: String::from_str("white"), kind: ItemKind::Armor { def: 9 } });
    v.push(ItemTemplate { id: String::from_str("plate_armor"), name: String::from_str("Plate Armor"), name_ru: None, symbol: ']', color: String::from_str("blue"), kind: ItemKind::Armor { def: 15 } });
    v.push(ItemTemplate { id: String::from_str("leather_helm"), name: String::from_str("Leather Helm"), name_ru: None, symbol: '^', color: String::from_str("yellow"), kind: ItemKind::Helmet { def: 3 } });
    v.push(ItemTemplate { id: String::from_str("iron_helm"), name: String::from_str("Iron Helm"), name_ru: None, symbol: '^', color: String::from_str("white"), kind: ItemKind::Helmet { def: 6 } });
    v.push(ItemTemplate { id: String::from_str("hp_potion"), name: String::from_str("HP Potion"), name_ru: None, symbol: '*', color: String::from_str("red"), kind: ItemKind::Potion { hp: 40, mp: 0 } });
    v.push(ItemTemplate { id: String::from_str("mp_potion"), name: String::from_str("MP Potion"), name_ru: None, symbol: '*', color: String::from_str("blue"), kind: ItemKind::Potion { hp: 0, mp: 30 } });
    v.push(ItemTemplate { id: String::from_str("full_potion"), name: String::from_str("Elixir"), name_ru: None, symbol: '*', color: String::from_str("magenta"), kind: ItemKind::Potion { hp: 60, mp: 45 } });
    v.push(ItemTemplate { id: String::from_str("power_ring"), name: String::from_str("Ring of Power"), name_ru: None, symbol: '=', color: String::from_str("yellow"), kind: ItemKind::Ring { effect: String::from_str("str"), value: 4 } });
    v
}

/// Fireball, holy light, battle cry and shadow step.
pub fn default_spells() -> (r: Vec<Spell>)
    ensures
        r@.len() == 4,
        r@[0].id@ == "fireball"@ && r@[0].name@ == "Fireball"@ && r@[0].name_ru is None && r@[0].icon == '*' && r@[0].color@ == "red"@,
        r@[0].mp_cost == 20 && r@[0].damage == 35 && r@[0].heal == 0 && r@[0].effect@ == "damage"@,
        strings_view(r@[0].classes@) == seq!["mage"@],
        r@[1].id@ == "holy_light"@ && r@[1].name@ == "Holy Light"@ && r@[1].name_ru is None && r@[1].icon == '+' && r@[1].color@ == "yellow"@,
        r@[1].mp_cost == 20 && r@[1].damage == 0 && r@[1].heal == 40 && r@[1].effect@ == "heal"@,
        strings_view(r@[1].classes@) == seq!["paladin"@],
        r@[2].id@ == "battle_cry"@ && r@[2].name@ == "Battle Cry"@ && r@[2].name_ru is None && r@[2].icon == '!' && r@[2].color@ == "red"@,
        r@[2].mp_cost == 15 && r@[2].damage == 25 && r@[2].heal == 10 && r@[2].effect@ == "damage"@,
        strings_view(r@[2].classes@) == seq!["warrior"@],
        r@[3].id@ == "shadow_step"@ && r@[3].name@ == "Shadow Step"@ && r@[3].name_ru is None && r@[3].icon == '~' && r@[3].color@ == "magenta"@,
        r@[3].mp_cost == 15 && r@[3].damage == 30 && r@[3].heal == 0 && r@[3].effect@ == "damage"@,
        strings_view(r@[3].classes@) == seq!["rogue"@],
{
    let mut v: Vec<Spell> = Vec::new();
    v.push(Spell { id: String::from_str("fireball"), name: String::from_str("Fireball"), name_ru: None, icon: '*', color: String::from_str("red"), mp_cost: 20, damage: 35, heal: 0, effect: String::from_str("damage"), classes: vec![String::from_str("mage")] });
    v.push(Spell { id: String::from_str("holy_light"), name: String::from_str("Holy Light"), name_ru: None, icon: '+', color: String::from_str("yellow"), mp_cost: 20, damage: 0, heal: 40, effect: String::from_str("heal"), classes: vec![String::from_str("paladin")] });
    v.push(Spell { id: String::from_str("battle_cry"), name: String::from_str("Battle Cry"), name_ru: None, icon: '!', color: String::from_str("red"), mp_cost: 15, damage: 25, heal: 10, effect: String::from_str("damage"), classes: vec![String::from_str("warrior")] });
    v.push(Spell { id: String::from_str("shadow_step"), name: String::from_str("Shadow Step"), name_ru: None, icon: '~', color: String::from_str("magenta"), mp_cost: 15, damage: 30, heal: 0, effect: String::from_str("damage"), classes: vec![String::from_str("rogue")] });
    proof {
        assert(strings_view(v@[0].classes@) =~= seq!["mage"@]);
        assert(strings_view(v@[1].classes@) =~= seq!["paladin"@]);
        assert(strings_view(v@[2].classes@) =~= seq!["warrior"@]);
        assert(strings_view(v@[3].classes@) =~= seq!["rogue"@]);
    }
    v
}

} // verus!
