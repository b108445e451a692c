use vstd::prelude::*;
use crate::world::pos::Pos;
use crate::text::{copy_string, str_eq};

verus! {

#[derive(Debug, Clone)]
pub enum ItemKind {
    Weapon { dmg: i32 },
    Armor { def: i32 },
    Helmet { def: i32 },
    Ring { effect: String, value: i32 },
    Potion { hp: i32, mp: i32 },
}

#[derive(Debug, Clone)]
pub struct Item {
    pub id: u64,
    pub template_id: String,
    pub name: String,
    pub symbol: char,
    pub color: String,
    pub kind: ItemKind,
}

#[derive(Debug, Clone)]
pub struct Equipment {
    pub weapon: Option<Item>,
    pub armor: Option<Item>,
    pub helmet: Option<Item>,
    pub ring: Option<Item>,
}

/// The equipment slot an item kind goes in.
#[derive(Debug, Clone, Copy, PartialEq, Eq, Structural)]
pub enum Slot {
    Weapon,
    Armor,
    Helmet,
    Ring,
    Consumable,
}

pub open spec fn spec_slot_of(kind: ItemKind) -> Slot {
    match kind {
        ItemKind::Weapon { .. } => Slot::Weapon,
        ItemKind::Armor { .. } => Slot::Armor,
        ItemKind::Helmet { .. } => Slot::Helmet,
        ItemKind::Ring { .. } => Slot::Ring,
        ItemKind::Potion { .. } => Slot::Consumable,
    }
}

pub open spec fn spec_slot_name(kind: ItemKind) -> Seq<char> {
    match kind {
        ItemKind::Weapon { .. } => "Weapon"@,
        ItemKind::Armor { .. } => "Armor"@,
        ItemKind::Helmet { .. } => "Helmet"@,
        ItemKind::Ring { .. } => "Ring"@,
        ItemKind::Potion { .. } => "Consumable"@,
    }
}

impl ItemKind {
    pub fn duplicate(&self) -> (r: ItemKind)
        ensures
            r == *self,
    {
        match self {
            ItemKind::Weapon { dmg } => ItemKind::Weapon { dmg: *dmg },
            ItemKind::Armor { def } => ItemKind::Armor { def: *def },
            ItemKind::Helmet { def } => ItemKind::Helmet { def: *def },
            ItemKind::Ring { effect, value } => ItemKind::Ring { effect: copy_string(effect), value: *value },
            ItemKind::Potion { hp, mp } => ItemKind::Potion { hp: *hp, mp: *mp },
        }
    }
}

impl Item {
    pub fn duplicate(&self) -> (r: Item)
        ensures
            r == *self,
    {
        Item {
            id: self.id,
            template_id: copy_string(&self.template_id),
            name: copy_string(&self.name),
            symbol: self.symbol,
            color: copy_string(&self.color),
            kind: self.kind.duplicate(),
        }
    }
}

pub fn copy_opt_item(o: &Option<Item>) -> (r: Option<Item>)
    ensures
        r == *o,
{
    match o {
        Some(i) => Some(i.duplicate()),
        None => None,
    }
}

pub fn copy_items(v: &Vec<Item>) -> (r: Vec<Item>)
    ensures
        r@ == v@,
{
    let mut out: Vec<Item> = Vec::new();
    let mut i: usize = 0;
    while i < v.len()
        invariant
            i <= v.len(),
            out@ == v@.subrange(0, i as int),
        decreases v.len() - i,
    {
        out.push(v[i].duplicate());
        i += 1;
    }
    out
}

impl Default for Equipment {
    fn default() -> (r: Self)
        ensures
            r.weapon is None,
            r.armor is None,
            r.helmet is None,
            r.ring is None,
    {
        Equipment { weapon: None, armor: None, helmet: None, ring: None }
    }
}

impl Equipment {
    /// Attack bonus: the equipped weapon's damage, or 1 without a weapon.
    pub open spec fn spec_atk_bonus(self) -> i32 {
        match self.weapon {
            Some(w) => match w.kind {
                ItemKind::Weapon { dmg } => dmg,
                _ => 1,
            },
            None => 1,
        }
    }

    pub open spec fn spec_armor_def(self) -> int {
        match self.armor {
            Some(a) => match a.kind {
                ItemKind::Armor { def } => def as int,
                _ => 0,
            },
            None => 0,
        }
    }

    pub open spec fn spec_helmet_def(self) -> int {
        match self.helmet {
            Some(h) => match h.kind {
                ItemKind::Helmet { def } => def as int,
                _ => 0,
            },
            None => 0,
        }
    }

    /// Defense bonus: armor's and helmet's defense added.
    pub open spec fn spec_def_bonus(self) -> int {
        self.spec_armor_def() + self.spec_helmet_def()
    }

    pub open spec fn def_bonus_fits(self) -> bool {
        i32::MIN <= self.spec_def_bonus() <= i32::MAX
    }

    /// The slot an item goes in, for the slots that hold one.
    pub open spec fn spec_slot(self, s: Slot) -> Option<Item> {
        match s {
            Slot::Weapon => self.weapon,
            Slot::Armor => self.armor,
            Slot::Helmet => self.helmet,
            Slot::Ring => self.ring,
            Slot::Consumable => None,
        }
    }

    /// The equipment with slot `s` holding `x`.
    pub open spec fn spec_with(self, s: Slot, x: Option<Item>) -> Equipment {
        match s {
            Slot::Weapon => Equipment { weapon: x, ..self },
            Slot::Armor => Equipment { armor: x, ..self },
            Slot::Helmet => Equipment { helmet: x, ..self },
            Slot::Ring => Equipment { ring: x, ..self },
            Slot::Consumable => self,
        }
    }

    pub fn duplicate(&self) -> (r: Equipment)
        ensures
            r == *self,
    {
        Equipment {
            weapon: copy_opt_item(&self.weapon),
            armor: copy_opt_item(&self.armor),
            helmet: copy_opt_item(&self.helmet),
            ring: copy_opt_item(&self.ring),
        }
    }

    pub fn atk_bonus(&self) -> (r: i32)
        ensures
            r == self.spec_atk_bonus(),
    {
        match &self.weapon {
            Some(w) => match &w.kind {
                ItemKind::Weapon { dmg } => *dmg,
                _ => 1,
            },
            None => 1,
        }
    }

    pub fn def_bonus(&self) -> (r: i32)
        requires
            self.def_bonus_fits(),
        ensures
            r == self.spec_def_bonus(),
    {
        let a: i32 = match &self.armor {
            Some(a) => match &a.kind {
                ItemKind::Armor { def } => *def,
                _ => 0,
            },
            None => 0,
        };
        let h: i32 = match &self.helmet {
            Some(h) => match &h.kind {
                ItemKind::Helmet { def } => *def,
                _ => 0,
            },
            None => 0,
        };
        a + h
    }

    /// The defense bonus as a wide integer, whatever its size.
    pub fn def_bonus_wide(&self) -> (r: i64)
        ensures
            r == self.spec_def_bonus(),
    {
        let a: i64 = match &self.armor {
            Some(a) => match &a.kind {
                ItemKind::Armor { def } => *def as i64,
                _ => 0,
            },
            None => 0,
        };
        let h: i64 = match &self.helmet {
            Some(h) => match &h.kind {
                ItemKind::Helmet { def } => *def as i64,
                _ => 0,
            },
            None => 0,
        };
        a + h
    }

    /// Puts `item` in its slot and hands back what the slot held; a consumable
    /// is not equipped, leaves the equipment as it was and gives nothing back.
    pub fn equip_item(&mut self, item: Item) -> (r: Option<Item>)
        ensures
            spec_slot_of(item.kind) == Slot::Consumable ==> r is None && *final(self) == *old(self),
            spec_slot_of(item.kind) != Slot::Consumable ==> {
                &&& r == old(self).spec_slot(spec_slot_of(item.kind))
                &&& *final(self) == old(self).spec_with(spec_slot_of(item.kind), Some(item))
                &&& final(self).spec_slot(spec_slot_of(item.kind)) == Some(item)
                &&& forall|s: Slot| s != spec_slot_of(item.kind) ==> #[trigger] final(self).spec_slot(s)
                    == old(self).spec_slot(s)
            },
            item.kind is Weapon ==> r == old(self).weapon && *final(self) == (Equipment { weapon: Some(item), ..*old(self) }),
            item.kind is Armor ==> r == old(self).armor && *final(self) == (Equipment { armor: Some(item), ..*old(self) }),
            item.kind is Helmet ==> r == old(self).helmet && *final(self) == (Equipment { helmet: Some(item), ..*old(self) }),
            item.kind is Ring ==> r == old(self).ring && *final(self) == (Equipment { ring: Some(item), ..*old(self) }),
            item.kind is Potion ==> r is None && *final(self) == *old(self),
    {
        match &item.kind {
            ItemKind::Weapon { .. } => {
                let old_item = self.weapon.take();
                self.weapon = Some(item);
                old_item
            },
            ItemKind::Armor { .. } => {
                let old_item = self.armor.take();
                self.armor = Some(item);
                old_item
            },
            ItemKind::Helmet { .. } => {
                let old_item = self.helmet.take();
                self.helmet = Some(item);
                old_item
            },
            ItemKind::Ring { .. } => {
                let old_item = self.ring.take();
                self.ring = Some(item);
                old_item
            },
            _ => None,
        }
    }

    /// The display name of the slot an item kind goes in.
    pub fn slot_name(kind: &ItemKind) -> (r: &'static str)
        ensures
            r@ == spec_slot_name(*kind),
    {
        match kind {
            ItemKind::Weapon { .. } => "Weapon",
            ItemKind::Armor { .. } => "Armor",
            ItemKind::Helmet { .. } => "Helmet",
            ItemKind::Ring { .. } => "Ring",
            ItemKind::Potion { .. } => "Consumable",
        }
    }
}

/// An item lying on the map.
#[derive(Debug, Clone)]
pub struct GroundItem {
    pub item: Item,
    pub pos: Pos,
}

impl GroundItem {
    pub fn duplicate(&self) -> (r: GroundItem)
        ensures
            r == *self,
    {
        GroundItem { item: self.item.duplicate(), pos: self.pos }
    }
}

pub fn copy_ground_items(v: &Vec<GroundItem>) -> (r: Vec<GroundItem>)
    ensures
        r@ == v@,
{
    let mut out: Vec<GroundItem> = Vec::new();
    let mut i: usize = 0;
    while i < v.len()
        invariant
            i <= v.len(),
            out@ == v@.subrange(0, i as int),
        decreases v.len() - i,
    {
        out.push(v[i].duplicate());
        i += 1;
    }
    out
}

/// An item definition of the configuration.
#[derive(Debug, Clone)]
pub struct ItemTemplate {
    pub id: String,
    pub name: String,
    pub name_ru: Option<String>,
    pub symbol: char,
    pub color: String,
    pub kind: ItemKind,
}

/// The name shown for language `lang`: the Russian name where `lang` is "ru"
/// and one is given, else the English one.
pub open spec fn spec_localized<'a>(name: &'a String, name_ru: &'a Option<String>, lang: Seq<char>) -> Seq<char> {
    if lang == "ru"@ && name_ru is Some {
        name_ru.unwrap()@
    } else {
        name@
    }
}

pub fn localized<'a>(name: &'a String, name_ru: &'a Option<String>, lang: &str) -> (r: &'a str)
    ensures
        r@ == spec_localized(name, name_ru, lang@),
{
    proof { reveal_strlit("ru"); }
    if str_eq(lang, "ru") {
        if let Some(n) = name_ru {
            return n.as_str();
        }
    }
    name.as_str()
}

impl ItemTemplate {
    pub fn display_name<'a>(&'a self, lang: &str) -> (r: &'a str)
        ensures
            r@ == spec_localized(&self.name, &self.name_ru, lang@),
    {
        localized(&self.name, &self.name_ru, lang)
    }
}

} // verus!
