use vstd::prelude::*;
use super::item::{localized, spec_localized};

verus! {

#[derive(Debug, Clone)]
pub struct Spell {
    pub id: String,
    pub name: String,
    pub name_ru: Option<String>,
    pub icon: char,
    pub color: String,
    pub mp_cost: i32,
    pub damage: i32,
    pub heal: i32,
    pub effect: String,
    pub classes: Vec<String>,
}

impl Spell {
    pub fn display_name<'a>(&'a self, lang: &str) -> (r: &'a str)
        ensures
            r@ == spec_localized(&self.name, &self.name_ru, lang@),
    {
        localized(&self.name, &self.name_ru, lang)
    }
}

} // verus!
