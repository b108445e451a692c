use vstd::prelude::*;
use crate::world::{Pos, Stats};
use crate::text::copy_string;
use super::item::{Equipment, Item, copy_items};

verus! {

#[derive(Debug, Clone)]
pub struct Player {
    pub id: u64,
    pub name: String,
    pub class_id: String,
    pub symbol: char,
    pub color: String,
    pub pos: Pos,
    pub level: u32,
    pub xp: u64,
    pub xp_next: u64,
    pub stats: Stats,
    pub equipment: Equipment,
    pub inventory: Vec<Item>,
    pub stat_points: u32,
}

/// A player as a value: the inventory as a sequence.
#[verifier::ext_equal]
pub struct PlayerView {
    pub id: u64,
    pub name: String,
    pub class_id: String,
    pub symbol: char,
    pub color: String,
    pub pos: Pos,
    pub level: u32,
    pub xp: u64,
    pub xp_next: u64,
    pub stats: Stats,
    pub equipment: Equipment,
    pub inventory: Seq<Item>,
    pub stat_points: u32,
}

impl View for Player {
    type V = PlayerView;

    open spec fn view(&self) -> PlayerView {
        PlayerView {
            id: self.id,
            name: self.name,
            class_id: self.class_id,
            symbol: self.symbol,
            color: self.color,
            pos: self.pos,
            level: self.level,
            xp: self.xp,
            xp_next: self.xp_next,
            stats: self.stats,
            equipment: self.equipment,
            inventory: self.inventory@,
            stat_points: self.stat_points,
        }
    }
}

/// Division rounding toward zero, as `/` on machine integers does.
pub open spec fn div_trunc(a: int, b: int) -> int {
    if a >= 0 { a / b } else { -((-a) / b) }
}

pub open spec fn spec_xp_for_level(lv: u32) -> int {
    (lv as int) * (lv as int) * 150
}

impl PlayerView {
    pub open spec fn spec_attack(self) -> int {
        self.stats.str + self.equipment.spec_atk_bonus()
    }

    pub open spec fn spec_defense(self) -> int {
        div_trunc(self.stats.vit as int, 2) + self.equipment.spec_def_bonus()
    }

    pub open spec fn attack_fits(self) -> bool {
        i32::MIN <= self.spec_attack() <= i32::MAX
    }

    pub open spec fn defense_fits(self) -> bool {
        &&& self.equipment.def_bonus_fits()
        &&& i32::MIN <= self.spec_defense() <= i32::MAX
    }
}

impl Player {
    pub fn duplicate(&self) -> (r: Player)
        ensures
            r@ == self@,
    {
        Player {
            id: self.id,
            name: copy_string(&self.name),
            class_id: copy_string(&self.class_id),
            symbol: self.symbol,
            color: copy_string(&self.color),
            pos: self.pos,
            level: self.level,
            xp: self.xp,
            xp_next: self.xp_next,
            stats: self.stats,
            equipment: self.equipment.duplicate(),
            inventory: copy_items(&self.inventory),
            stat_points: self.stat_points,
        }
    }

    /// Strength plus the weapon bonus.
    pub fn attack(&self) -> (r: i32)
        requires
            self@.attack_fits(),
        ensures
            r == self@.spec_attack(),
    {
        self.stats.str + self.equipment.atk_bonus()
    }

    /// Half the vitality (rounded toward zero) plus armor and helmet.
    /// The attack as a wide integer, whatever its size.
    pub fn attack_wide(&self) -> (r: i64)
        ensures
            r == self@.spec_attack(),
    {
        self.stats.str as i64 + self.equipment.atk_bonus() as i64
    }

    /// The defense as a wide integer, whatever its size.
    pub fn defense_wide(&self) -> (r: i64)
        ensures
            r == self@.spec_defense(),
    {
        let half: i32 = self.stats.vit / 2;
        half as i64 + self.equipment.def_bonus_wide()
    }

    pub fn defense(&self) -> (r: i32)
        requires
            self@.defense_fits(),
        ensures
            r == self@.spec_defense(),
    {
        let half: i32 = self.stats.vit / 2;
        half + self.equipment.def_bonus()
    }

    /// Experience needed to reach level `lv`: `150 * lv^2`.
    pub fn xp_for_level(lv: u32) -> (r: u64)
        requires
            spec_xp_for_level(lv) <= u64::MAX,
        ensures
            r == spec_xp_for_level(lv),
    {
        let l: u64 = lv as u64;
        assert(l * l <= l * l * 150) by (nonlinear_arith);
        l * l * 150
    }
}

/// The experience needed for the next level grows with the level.
pub proof fn lemma_xp_for_level_monotonic(a: u32, b: u32)
    requires
        a <= b,
    ensures
        spec_xp_for_level(a) <= spec_xp_for_level(b),
{
    assert((a as int) * (a as int) <= (b as int) * (b as int)) by (nonlinear_arith)
        requires 0 <= a <= b;
}

} // verus!
