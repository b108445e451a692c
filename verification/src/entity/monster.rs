use vstd::prelude::*;
use crate::world::{Pos, Stats};
use crate::text::{copy_string, copy_strings};
use super::item::{localized, spec_localized};

verus! {

#[derive(Debug, Clone)]
pub struct Monster {
    pub id: u64,
    pub template_id: String,
    pub name: String,
    pub symbol: char,
    pub color: String,
    pub pos: Pos,
    pub home: Pos,
    pub level: u32,
    pub stats: Stats,
    pub xp_reward: u64,
    pub loot_table: Vec<String>,
    pub target: Option<u64>,
}

/// A monster as a value: its loot table as a sequence.
#[verifier::ext_equal]
pub struct MonsterView {
    pub id: u64,
    pub template_id: String,
    pub name: String,
    pub symbol: char,
    pub color: String,
    pub pos: Pos,
    pub home: Pos,
    pub level: u32,
    pub stats: Stats,
    pub xp_reward: u64,
    pub loot_table: Seq<String>,
    pub target: Option<u64>,
}

impl View for Monster {
    type V = MonsterView;

    open spec fn view(&self) -> MonsterView {
        MonsterView {
            id: self.id,
            template_id: self.template_id,
            name: self.name,
            symbol: self.symbol,
            color: self.color,
            pos: self.pos,
            home: self.home,
            level: self.level,
            stats: self.stats,
            xp_reward: self.xp_reward,
            loot_table: self.loot_table@,
            target: self.target,
        }
    }
}

/// The monsters of a list, as values.
pub open spec fn mons_view(v: Seq<Monster>) -> Seq<MonsterView> {
    v.map_values(|m: Monster| m@)
}

impl Monster {
    pub fn duplicate(&self) -> (r: Monster)
        ensures
            r@ == self@,
    {
        Monster {
            id: self.id,
            template_id: copy_string(&self.template_id),
            name: copy_string(&self.name),
            symbol: self.symbol,
            color: copy_string(&self.color),
            pos: self.pos,
            home: self.home,
            level: self.level,
            stats: self.stats,
            xp_reward: self.xp_reward,
            loot_table: copy_strings(&self.loot_table),
            target: self.target,
        }
    }
}

/// A monster definition of the configuration.
#[derive(Debug, Clone)]
pub struct MonsterTemplate {
    pub id: String,
    pub name: String,
    pub name_ru: Option<String>,
    pub symbol: char,
    pub color: String,
    pub level: u32,
    pub hp: i32,
    pub str: i32,
    pub vit: i32,
    pub xp_reward: u64,
    pub loot_table: Vec<String>,
}

impl MonsterTemplate {
    pub open spec fn spec_make_stats(self) -> Stats {
        Stats { hp: self.hp, max_hp: self.hp, mp: 0, max_mp: 0, str: self.str, dex: 5, int: 2, vit: self.vit }
    }

    /// Monster stats: full hit points, no mana, dexterity 5, intelligence 2.
    pub fn make_stats(&self) -> (r: Stats)
        ensures
            r == self.spec_make_stats(),
    {
        Stats { hp: self.hp, max_hp: self.hp, mp: 0, max_mp: 0, str: self.str, dex: 5, int: 2, vit: self.vit }
    }

    pub fn display_name<'a>(&'a self, lang: &str) -> (r: &'a str)
        ensures
            r@ == spec_localized(&self.name, &self.name_ru, lang@),
    {
        localized(&self.name, &self.name_ru, lang)
    }

    /// The monster this template spawns with id `id` at `pos`, named `name`.
    pub open spec fn spec_spawn(self, id: u64, name: String, pos: Pos) -> MonsterView {
        MonsterView {
            id,
            template_id: self.id,
            name,
            symbol: self.symbol,
            color: self.color,
            pos,
            home: pos,
            level: self.level,
            stats: self.spec_make_stats(),
            xp_reward: self.xp_reward,
            loot_table: self.loot_table@,
            target: None,
        }
    }

    pub fn spawn(&self, id: u64, name: String, pos: Pos) -> (r: Monster)
        ensures
            r@ == self.spec_spawn(id, name, pos),
    {
        Monster {
            id,
            template_id: copy_string(&self.id),
            name,
            symbol: self.symbol,
            color: copy_string(&self.color),
            pos,
            home: pos,
            level: self.level,
            stats: self.make_stats(),
            xp_reward: self.xp_reward,
            loot_table: copy_strings(&self.loot_table),
            target: None,
        }
    }
}

} // verus!
