use vstd::prelude::*;
use crate::world::Stats;
use super::item::{localized, spec_localized};
use crate::text::{copy_string, copy_strings, copy_opt_string};

verus! {

/// A character class of the configuration.
#[derive(Debug, Clone)]
pub struct ClassDef {
    pub id: String,
    pub name: String,
    pub name_ru: Option<String>,
    pub description: String,
    pub description_ru: Option<String>,
    pub symbol: char,
    pub color: String,
    pub base_hp: i32,
    pub base_mp: i32,
    pub base_str: i32,
    pub base_dex: i32,
    pub base_int: i32,
    pub base_vit: i32,
    pub hp_per_level: i32,
    pub mp_per_level: i32,
    pub start_item: Option<String>,
    pub spells: Vec<String>,
}

/// A class as a value: its spell list as a sequence.
pub struct ClassView {
    pub id: String,
    pub name: String,
    pub name_ru: Option<String>,
    pub description: String,
    pub description_ru: Option<String>,
    pub symbol: char,
    pub color: String,
    pub base_hp: i32,
    pub base_mp: i32,
    pub base_str: i32,
    pub base_dex: i32,
    pub base_int: i32,
    pub base_vit: i32,
    pub hp_per_level: i32,
    pub mp_per_level: i32,
    pub start_item: Option<String>,
    pub spells: Seq<String>,
}

impl View for ClassDef {
    type V = ClassView;

    open spec fn view(&self) -> ClassView {
        ClassView {
            id: self.id,
            name: self.name,
            name_ru: self.name_ru,
            description: self.description,
            description_ru: self.description_ru,
            symbol: self.symbol,
            color: self.color,
            base_hp: self.base_hp,
            base_mp: self.base_mp,
            base_str: self.base_str,
            base_dex: self.base_dex,
            base_int: self.base_int,
            base_vit: self.base_vit,
            hp_per_level: self.hp_per_level,
            mp_per_level: self.mp_per_level,
            start_item: self.start_item,
            spells: self.spells@,
        }
    }
}

pub open spec fn classes_view(v: Seq<ClassDef>) -> Seq<ClassView> {
    v.map_values(|c: ClassDef| c@)
}

/// A copy of a list of classes.
pub fn copy_classes(v: &Vec<ClassDef>) -> (r: Vec<ClassDef>)
    ensures
        classes_view(r@) == classes_view(v@),
{
    let mut out: Vec<ClassDef> = Vec::new();
    let mut i: usize = 0;
    while i < v.len()
        invariant
            i <= v@.len(),
            out@.len() == i,
            forall|k: int| 0 <= k < i ==> (#[trigger] out@[k])@ == v@[k]@,
        decreases v.len() - i,
    {
        out.push(v[i].duplicate());
        i += 1;
    }
    assert(classes_view(out@) =~= classes_view(v@));
    out
}

impl ClassDef {
    pub fn duplicate(&self) -> (r: ClassDef)
        ensures
            r@ == self@,
    {
        ClassDef {
            id: copy_string(&self.id),
            name: copy_string(&self.name),
            name_ru: copy_opt_string(&self.name_ru),
            description: copy_string(&self.description),
            description_ru: copy_opt_string(&self.description_ru),
            symbol: self.symbol,
            color: copy_string(&self.color),
            base_hp: self.base_hp,
            base_mp: self.base_mp,
            base_str: self.base_str,
            base_dex: self.base_dex,
            base_int: self.base_int,
            base_vit: self.base_vit,
            hp_per_level: self.hp_per_level,
            mp_per_level: self.mp_per_level,
            start_item: copy_opt_string(&self.start_item),
            spells: copy_strings(&self.spells),
        }
    }

    pub open spec fn spec_make_stats(self) -> Stats {
        Stats {
            hp: self.base_hp,
            max_hp: self.base_hp,
            mp: self.base_mp,
            max_mp: self.base_mp,
            str: self.base_str,
            dex: self.base_dex,
            int: self.base_int,
            vit: self.base_vit,
        }
    }

    /// Starting stats: full hit points and mana at the class's base values.
    pub fn make_stats(&self) -> (r: Stats)
        ensures
            r == self.spec_make_stats(),
    {
        Stats {
            hp: self.base_hp,
            max_hp: self.base_hp,
            mp: self.base_mp,
            max_mp: self.base_mp,
            str: self.base_str,
            dex: self.base_dex,
            int: self.base_int,
            vit: self.base_vit,
        }
    }

    pub fn display_name<'a>(&'a self, lang: &str) -> (r: &'a str)
        ensures
            r@ == spec_localized(&self.name, &self.name_ru, lang@),
    {
        localized(&self.name, &self.name_ru, lang)
    }

    pub fn display_desc<'a>(&'a self, lang: &str) -> (r: &'a str)
        ensures
            r@ == spec_localized(&self.description, &self.description_ru, lang@),
    {
        localized(&self.description, &self.description_ru, lang)
    }
}

} // verus!
